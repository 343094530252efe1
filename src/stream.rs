use vstd::prelude::*;
use crate::text::char_from_u32;

verus! {

/// ASCII case folding of one byte: upper-case letters map to lower case.
pub open spec fn ascii_lower(b: u8) -> u8 {
    if 0x41 <= b && b <= 0x5A {
        (b + 0x20) as u8
    } else {
        b
    }
}

/// Whether `input` starts with `prefix`, byte for byte or up to ASCII case.
pub open spec fn starts_with_literal(input: Seq<u8>, prefix: Seq<u8>, case_insensitive: bool) -> bool {
    &&& prefix.len() <= input.len()
    &&& forall|i: int|
        0 <= i < prefix.len() ==> if case_insensitive {
            ascii_lower(#[trigger] input[i]) == ascii_lower(prefix[i])
        } else {
            input[i] == prefix[i]
        }
}

/// A continuation byte of UTF-8.
pub open spec fn is_cont(b: u8) -> bool {
    0x80 <= b && b <= 0xBF
}

/// The scalar value of the UTF-8 sequence at `p` of `s` and its length in
/// bytes; where no well-formed sequence starts there, U+FFFD for one byte.
pub open spec fn utf8_at(s: Seq<u8>, p: int) -> (u32, nat) {
    let b0 = s[p];
    let avail = s.len() - p;
    if b0 < 0x80 {
        (b0 as u32, 1)
    } else if 0xC2 <= b0 && b0 <= 0xDF && avail >= 2 && is_cont(s[p + 1]) {
        (((b0 - 0xC0) * 64 + (s[p + 1] - 0x80)) as u32, 2)
    } else if 0xE0 <= b0 && b0 <= 0xEF && avail >= 3 && is_cont(s[p + 1]) && is_cont(s[p + 2]) && {
        let v = (b0 - 0xE0) * 4096 + (s[p + 1] - 0x80) * 64 + (s[p + 2] - 0x80);
        v >= 0x800 && !(0xD800 <= v && v <= 0xDFFF)
    } {
        (((b0 - 0xE0) * 4096 + (s[p + 1] - 0x80) * 64 + (s[p + 2] - 0x80)) as u32, 3)
    } else if 0xF0 <= b0 && b0 <= 0xF4 && avail >= 4 && is_cont(s[p + 1]) && is_cont(s[p + 2])
        && is_cont(s[p + 3]) && {
        let v = (b0 - 0xF0) * 262144 + (s[p + 1] - 0x80) * 4096 + (s[p + 2] - 0x80) * 64 + (s[p + 3]
            - 0x80);
        0x10000 <= v && v <= 0x10FFFF
    } {
        (((b0 - 0xF0) * 262144 + (s[p + 1] - 0x80) * 4096 + (s[p + 2] - 0x80) * 64 + (s[p + 3]
            - 0x80)) as u32, 4)
    } else {
        (0xFFFD, 1)
    }
}

/// A forward cursor over a sequence of bytes, with a one-step back-up used
/// when a state hands the current byte to the next state.
pub struct ByteStream {
    bytes: Vec<u8>,
    pos: usize,
}

impl ByteStream {
    /// The bytes of the stream.
    pub closed spec fn data(&self) -> Seq<u8> {
        self.bytes@
    }

    /// The index of the next byte to be read.
    pub closed spec fn position(&self) -> nat {
        self.pos as nat
    }

    pub open spec fn wf(&self) -> bool {
        self.position() <= self.data().len()
    }

    /// The bytes not yet read.
    pub open spec fn rest(&self) -> Seq<u8> {
        self.data().skip(self.position() as int)
    }

    /// The next byte, or `None` at the end.
    pub open spec fn peek(&self) -> Option<u8> {
        if self.position() < self.data().len() {
            Some(self.data()[self.position() as int])
        } else {
            None
        }
    }

    pub fn new(input: &[u8]) -> (s: Self)
        ensures
            s.wf(),
            s.data() == input@,
            s.position() == 0,
    {
        let mut bytes: Vec<u8> = Vec::new();
        let mut i: usize = 0;
        while i < input.len()
            invariant
                i <= input@.len(),
                bytes@ == input@.subrange(0, i as int),
            decreases input@.len() - i,
        {
            bytes.push(input[i]);
            i = i + 1;
            assert(bytes@ =~= input@.subrange(0, i as int));
        }
        assert(bytes@ =~= input@);
        ByteStream { bytes, pos: 0 }
    }

    pub fn len(&self) -> (n: usize)
        ensures
            n == self.data().len(),
    {
        self.bytes.len()
    }

    pub fn position_of(&self) -> (p: usize)
        ensures
            p == self.position(),
    {
        self.pos
    }

    pub fn current(&self) -> (r: Option<u8>)
        requires
            self.wf(),
        ensures
            r == self.peek(),
    {
        if self.pos < self.bytes.len() {
            Some(self.bytes[self.pos])
        } else {
            None
        }
    }

    /// The byte `k` places after the cursor, if there is one.
    pub fn lookahead(&self, k: usize) -> (r: Option<u8>)
        requires
            self.wf(),
        ensures
            r == (if self.position() + k < self.data().len() {
                Some(self.data()[self.position() + k])
            } else {
                None::<u8>
            }),
    {
        if k < self.bytes.len() - self.pos {
            Some(self.bytes[self.pos + k])
        } else {
            None
        }
    }

    /// The character that starts at the cursor and the number of bytes it
    /// takes. An ASCII byte is its own character; a well-formed UTF-8
    /// sequence gives its scalar value; anything else gives U+FFFD for one
    /// byte.
    pub fn decode_char(&self) -> (r: Option<(char, usize)>)
        requires
            self.wf(),
        ensures
            r is None <==> self.peek() is None,
            r matches Some(p) ==> 1 <= p.1 && self.position() + p.1 <= self.data().len(),
            r matches Some(p) ==> (self.peek()->0 < 0x80 ==> p.0 == (self.peek()->0 as char)
                && p.1 == 1),
            r matches Some(p) ==> (self.peek()->0 >= 0x80 ==> p.0 as u32 >= 0x80),
            r matches Some(p) ==> p.0 as u32 == utf8_at(self.data(), self.position() as int).0
                && p.1 == utf8_at(self.data(), self.position() as int).1,
    {
        let n = self.bytes.len();
        if self.pos >= n {
            return None;
        }
        let b0 = self.bytes[self.pos];
        if b0 < 0x80 {
            return Some((b0 as char, 1));
        }
        let avail = n - self.pos;
        let mut v: u32 = 0;
        let mut len: usize = 0;
        if 0xC2 <= b0 && b0 <= 0xDF && avail >= 2 {
            let b1 = self.bytes[self.pos + 1];
            if 0x80 <= b1 && b1 <= 0xBF {
                v = (b0 - 0xC0) as u32 * 64 + (b1 - 0x80) as u32;
                len = 2;
            }
        } else if 0xE0 <= b0 && b0 <= 0xEF && avail >= 3 {
            let b1 = self.bytes[self.pos + 1];
            let b2 = self.bytes[self.pos + 2];
            if 0x80 <= b1 && b1 <= 0xBF && 0x80 <= b2 && b2 <= 0xBF {
                v = (b0 - 0xE0) as u32 * 4096 + (b1 - 0x80) as u32 * 64 + (b2 - 0x80) as u32;
                if v >= 0x800 {
                    len = 3;
                }
            }
        } else if 0xF0 <= b0 && b0 <= 0xF4 && avail >= 4 {
            let b1 = self.bytes[self.pos + 1];
            let b2 = self.bytes[self.pos + 2];
            let b3 = self.bytes[self.pos + 3];
            if 0x80 <= b1 && b1 <= 0xBF && 0x80 <= b2 && b2 <= 0xBF && 0x80 <= b3 && b3 <= 0xBF {
                v = (b0 - 0xF0) as u32 * 262144 + (b1 - 0x80) as u32 * 4096 + (b2 - 0x80) as u32
                    * 64 + (b3 - 0x80) as u32;
                if v >= 0x10000 {
                    len = 4;
                }
            }
        }
        if len > 0 {
            match char_from_u32(v) {
                Some(c) => {
                    return Some((c, len));
                },
                None => {},
            }
        }
        Some(('\u{FFFD}', 1))
    }

    pub fn is_eof(&self) -> (r: bool)
        requires
            self.wf(),
        ensures
            r == (self.position() == self.data().len()),
    {
        self.pos >= self.bytes.len()
    }

    /// Moves the cursor one byte forward; at the end it stays there.
    pub fn advance(&mut self)
        requires
            old(self).wf(),
        ensures
            final(self).wf(),
            final(self).data() == old(self).data(),
            final(self).position() == (if old(self).position() < old(self).data().len() {
                old(self).position() + 1
            } else {
                old(self).position()
            }),
    {
        if self.pos < self.bytes.len() {
            self.pos = self.pos + 1;
        }
    }

    /// Moves the cursor forward by `n` bytes, which must all be there.
    pub fn advance_by(&mut self, n: usize)
        requires
            old(self).wf(),
            old(self).position() + n <= old(self).data().len(),
        ensures
            final(self).wf(),
            final(self).data() == old(self).data(),
            final(self).position() == old(self).position() + n,
    {
        let l = self.bytes.len();
        assert(self.pos + n <= l);
        self.pos = self.pos + n;
    }

    /// Moves the cursor one byte back; at the start it stays there.
    pub fn reconsume(&mut self)
        requires
            old(self).wf(),
        ensures
            final(self).wf(),
            final(self).data() == old(self).data(),
            final(self).position() == (if old(self).position() > 0 {
                old(self).position() - 1
            } else {
                0
            }),
    {
        if self.pos > 0 {
            self.pos = self.pos - 1;
        }
    }

    /// If the unread bytes start with `prefix` (under the chosen case policy),
    /// moves past it and returns true; otherwise leaves the cursor alone.
    pub fn match_literal(&mut self, prefix: &[u8], case_insensitive: bool) -> (r: bool)
        requires
            old(self).wf(),
        ensures
            final(self).wf(),
            final(self).data() == old(self).data(),
            r == starts_with_literal(old(self).rest(), prefix@, case_insensitive),
            r ==> final(self).position() == old(self).position() + prefix@.len(),
            !r ==> final(self).position() == old(self).position(),
    {
        let avail = self.bytes.len() - self.pos;
        if prefix.len() > avail {
            return false;
        }
        let mut i: usize = 0;
        while i < prefix.len()
            invariant
                self.wf(),
                prefix@.len() <= self.data().len() - self.position(),
                i <= prefix@.len(),
                forall|j: int|
                    0 <= j < i ==> if case_insensitive {
                        ascii_lower(#[trigger] self.rest()[j]) == ascii_lower(prefix@[j])
                    } else {
                        self.rest()[j] == prefix@[j]
                    },
            decreases prefix@.len() - i,
        {
            let l = self.bytes.len();
            assert(self.pos + i < l);
            let a = self.bytes[self.pos + i];
            let b = prefix[i];
            let same = if case_insensitive {
                lower_byte(a) == lower_byte(b)
            } else {
                a == b
            };
            if !same {
                assert(!starts_with_literal(self.rest(), prefix@, case_insensitive)) by {
                    assert(self.rest()[i as int] == a);
                }
                return false;
            }
            i = i + 1;
        }
        self.pos = self.pos + prefix.len();
        true
    }

    /// The `len` bytes at `offset`; both must lie within the stream.
    pub fn slice(&self, offset: usize, len: usize) -> (r: &[u8])
        requires
            offset + len <= self.data().len(),
        ensures
            r@ == self.data().subrange(offset as int, offset + len),
    {
        let s = self.bytes.as_slice();
        let l = s.len();
        assert(offset + len <= l);
        &s[offset..offset + len]
    }

    /// The `len` bytes at `offset`, or an empty slice where they do not all
    /// lie within the stream.
    pub fn slice_checked(&self, offset: usize, len: usize) -> (r: &[u8])
        ensures
            offset + len <= self.data().len() ==> r@ == self.data().subrange(
                offset as int,
                offset + len,
            ),
            offset + len > self.data().len() ==> r@.len() == 0,
    {
        let s = self.bytes.as_slice();
        if offset <= s.len() && len <= s.len() - offset {
            &s[offset..offset + len]
        } else {
            &s[0..0]
        }
    }
}

/// ASCII lower case of a byte.
pub fn lower_byte(b: u8) -> (r: u8)
    ensures
        r == ascii_lower(b),
{
    if 0x41 <= b && b <= 0x5A {
        b + 0x20
    } else {
        b
    }
}

} // verus!
