use vstd::prelude::*;
use crate::entities::bytes_equal;
use crate::insertion_mode::{reset_mode, InsertionMode, Node};
use crate::tokenizer::ContentModel;
use vstd::string::StringSliceAdditionalSpecFns;

verus! {

/// The surface of tree construction that the tokenizer front end needs: the
/// insertion mode, the stack of open elements, and the fragment context.
pub struct TreeConstructor {
    insertion_mode: InsertionMode,
    stack_of_open_elements: Vec<Node>,
    is_fragment_case: bool,
    context_element: Option<Node>,
    head_element_created: bool,
    template_insertion_modes: Vec<InsertionMode>,
}

/// The current template insertion mode: the top of the template-mode stack,
/// or `InTemplate` when that stack is empty.
pub open spec fn current_template_mode(modes: Seq<InsertionMode>) -> InsertionMode {
    if modes.len() > 0 {
        modes.last()
    } else {
        InsertionMode::InTemplate
    }
}

/// The content model that a start tag with this name switches the tokenizer to;
/// `noscript` switches only where scripting is enabled.
pub open spec fn content_model_of(name: Seq<u8>, scripting: bool) -> ContentModel {
    if name == seq![0x74u8, 0x65u8, 0x78u8, 0x74u8, 0x61u8, 0x72u8, 0x65u8, 0x61u8] {
        ContentModel::Rcdata
    } else if name == seq![0x74u8, 0x69u8, 0x74u8, 0x6Cu8, 0x65u8] {
        ContentModel::Rcdata
    } else if name == seq![0x73u8, 0x74u8, 0x79u8, 0x6Cu8, 0x65u8] {
        ContentModel::Rawtext
    } else if name == seq![0x78u8, 0x6Du8, 0x70u8] {
        ContentModel::Rawtext
    } else if name == seq![0x69u8, 0x66u8, 0x72u8, 0x61u8, 0x6Du8, 0x65u8] {
        ContentModel::Rawtext
    } else if name == seq![0x6Eu8, 0x6Fu8, 0x65u8, 0x6Du8, 0x62u8, 0x65u8, 0x64u8] {
        ContentModel::Rawtext
    } else if name == seq![0x6Eu8, 0x6Fu8, 0x66u8, 0x72u8, 0x61u8, 0x6Du8, 0x65u8, 0x73u8] {
        ContentModel::Rawtext
    } else if name == seq![0x73u8, 0x63u8, 0x72u8, 0x69u8, 0x70u8, 0x74u8] {
        ContentModel::ScriptData
    } else if name == seq![0x70u8, 0x6Cu8, 0x61u8, 0x69u8, 0x6Eu8, 0x74u8, 0x65u8, 0x78u8, 0x74u8] {
        ContentModel::Plaintext
    } else if scripting && name == seq![0x6Eu8, 0x6Fu8, 0x73u8, 0x63u8, 0x72u8, 0x69u8, 0x70u8, 0x74u8] {
        ContentModel::Rawtext
    } else {
        ContentModel::Data
    }
}

/// The content model for a start tag named `name` (lower case).
pub fn content_model_for(name: &str, scripting: bool) -> (m: ContentModel)
    ensures
        m == content_model_of(name.spec_bytes(), scripting),
{
    let b = name.as_bytes();
    let textarea: [u8; 8] = [0x74, 0x65, 0x78, 0x74, 0x61, 0x72, 0x65, 0x61];
    let title: [u8; 5] = [0x74, 0x69, 0x74, 0x6C, 0x65];
    let style: [u8; 5] = [0x73, 0x74, 0x79, 0x6C, 0x65];
    let xmp: [u8; 3] = [0x78, 0x6D, 0x70];
    let iframe: [u8; 6] = [0x69, 0x66, 0x72, 0x61, 0x6D, 0x65];
    let noembed: [u8; 7] = [0x6E, 0x6F, 0x65, 0x6D, 0x62, 0x65, 0x64];
    let noframes: [u8; 8] = [0x6E, 0x6F, 0x66, 0x72, 0x61, 0x6D, 0x65, 0x73];
    let script: [u8; 6] = [0x73, 0x63, 0x72, 0x69, 0x70, 0x74];
    let plaintext: [u8; 9] = [0x70, 0x6C, 0x61, 0x69, 0x6E, 0x74, 0x65, 0x78, 0x74];
    let noscript: [u8; 8] = [0x6E, 0x6F, 0x73, 0x63, 0x72, 0x69, 0x70, 0x74];
    assert(textarea@ == seq![0x74u8, 0x65u8, 0x78u8, 0x74u8, 0x61u8, 0x72u8, 0x65u8, 0x61u8]);
    assert(title@ == seq![0x74u8, 0x69u8, 0x74u8, 0x6Cu8, 0x65u8]);
    assert(style@ == seq![0x73u8, 0x74u8, 0x79u8, 0x6Cu8, 0x65u8]);
    assert(xmp@ == seq![0x78u8, 0x6Du8, 0x70u8]);
    assert(iframe@ == seq![0x69u8, 0x66u8, 0x72u8, 0x61u8, 0x6Du8, 0x65u8]);
    assert(noembed@ == seq![0x6Eu8, 0x6Fu8, 0x65u8, 0x6Du8, 0x62u8, 0x65u8, 0x64u8]);
    assert(noframes@ == seq![0x6Eu8, 0x6Fu8, 0x66u8, 0x72u8, 0x61u8, 0x6Du8, 0x65u8, 0x73u8]);
    assert(script@ == seq![0x73u8, 0x63u8, 0x72u8, 0x69u8, 0x70u8, 0x74u8]);
    assert(plaintext@ == seq![0x70u8, 0x6Cu8, 0x61u8, 0x69u8, 0x6Eu8, 0x74u8, 0x65u8, 0x78u8, 0x74u8]);
    assert(noscript@ == seq![0x6Eu8, 0x6Fu8, 0x73u8, 0x63u8, 0x72u8, 0x69u8, 0x70u8, 0x74u8]);
    if bytes_equal(b, &textarea) {
        ContentModel::Rcdata
    } else if bytes_equal(b, &title) {
        ContentModel::Rcdata
    } else if bytes_equal(b, &style) {
        ContentModel::Rawtext
    } else if bytes_equal(b, &xmp) {
        ContentModel::Rawtext
    } else if bytes_equal(b, &iframe) {
        ContentModel::Rawtext
    } else if bytes_equal(b, &noembed) {
        ContentModel::Rawtext
    } else if bytes_equal(b, &noframes) {
        ContentModel::Rawtext
    } else if bytes_equal(b, &script) {
        ContentModel::ScriptData
    } else if bytes_equal(b, &plaintext) {
        ContentModel::Plaintext
    } else if scripting && bytes_equal(b, &noscript) {
        ContentModel::Rawtext
    } else {
        ContentModel::Data
    }
}

impl TreeConstructor {
    pub closed spec fn mode(&self) -> InsertionMode {
        self.insertion_mode
    }

    pub closed spec fn stack(&self) -> Seq<Node> {
        self.stack_of_open_elements@
    }

    pub closed spec fn context(&self) -> Option<Node> {
        self.context_element
    }

    pub closed spec fn fragment(&self) -> bool {
        self.is_fragment_case
    }

    pub closed spec fn head_created(&self) -> bool {
        self.head_element_created
    }

    pub closed spec fn template_modes(&self) -> Seq<InsertionMode> {
        self.template_insertion_modes@
    }

    /// A constructor for a whole document, in the initial mode.
    pub fn new() -> (t: TreeConstructor)
        ensures
            t.mode() == InsertionMode::Initial,
            t.stack().len() == 0,
            !t.fragment(),
            t.context() is None,
            !t.head_created(),
            t.template_modes().len() == 0,
    {
        TreeConstructor {
            insertion_mode: InsertionMode::Initial,
            stack_of_open_elements: Vec::new(),
            is_fragment_case: false,
            context_element: None,
            head_element_created: false,
            template_insertion_modes: Vec::new(),
        }
    }

    /// A constructor for parsing a fragment in the given context element.
    pub fn new_fragment(context: Node) -> (t: TreeConstructor)
        ensures
            t.mode() == InsertionMode::Initial,
            t.stack().len() == 0,
            t.fragment(),
            t.context() == Some(context),
            !t.head_created(),
            t.template_modes().len() == 0,
    {
        TreeConstructor {
            insertion_mode: InsertionMode::Initial,
            stack_of_open_elements: Vec::new(),
            is_fragment_case: true,
            context_element: Some(context),
            head_element_created: false,
            template_insertion_modes: Vec::new(),
        }
    }

    pub fn insertion_mode(&self) -> (m: InsertionMode)
        ensures
            m == self.mode(),
    {
        self.insertion_mode
    }

    /// Pushes an element onto the stack of open elements.
    pub fn push_element(&mut self, node: Node)
        ensures
            final(self).stack() == old(self).stack().push(node),
            final(self).mode() == old(self).mode(),
            final(self).context() == old(self).context(),
            final(self).fragment() == old(self).fragment(),
            final(self).head_created() == old(self).head_created(),
            final(self).template_modes() == old(self).template_modes(),
    {
        self.stack_of_open_elements.push(node);
    }

    /// Pops the current node, if there is one.
    pub fn pop_element(&mut self) -> (r: Option<Node>)
        ensures
            old(self).stack().len() == 0 ==> r is None && final(self).stack() == old(self).stack(),
            old(self).stack().len() > 0 ==> r == Some(old(self).stack().last())
                && final(self).stack() == old(self).stack().drop_last(),
            final(self).mode() == old(self).mode(),
            final(self).context() == old(self).context(),
            final(self).fragment() == old(self).fragment(),
            final(self).head_created() == old(self).head_created(),
            final(self).template_modes() == old(self).template_modes(),
    {
        self.stack_of_open_elements.pop()
    }

    /// Records that the head element has been created.
    pub fn set_head_element_created(&mut self)
        ensures
            final(self).head_created(),
            final(self).stack() == old(self).stack(),
            final(self).mode() == old(self).mode(),
            final(self).context() == old(self).context(),
            final(self).fragment() == old(self).fragment(),
            final(self).template_modes() == old(self).template_modes(),
    {
        self.head_element_created = true;
    }

    /// Pushes a mode onto the stack of template insertion modes.
    pub fn push_template_mode(&mut self, mode: InsertionMode)
        ensures
            final(self).template_modes() == old(self).template_modes().push(mode),
            final(self).stack() == old(self).stack(),
            final(self).mode() == old(self).mode(),
            final(self).context() == old(self).context(),
            final(self).fragment() == old(self).fragment(),
            final(self).head_created() == old(self).head_created(),
    {
        self.template_insertion_modes.push(mode);
    }

    /// Resets the insertion mode from the stack of open elements.
    pub fn reset_insertion_mode(&mut self)
        ensures
            final(self).mode() == reset_mode(
                old(self).stack(),
                old(self).context(),
                old(self).fragment(),
                old(self).head_created(),
                current_template_mode(old(self).template_modes()),
            ),
            final(self).stack() == old(self).stack(),
            final(self).context() == old(self).context(),
            final(self).fragment() == old(self).fragment(),
            final(self).head_created() == old(self).head_created(),
            final(self).template_modes() == old(self).template_modes(),
    {
        let n = self.template_insertion_modes.len();
        let template_mode = if n > 0 {
            self.template_insertion_modes[n - 1]
        } else {
            InsertionMode::InTemplate
        };
        let ctx = match &self.context_element {
            Some(c) => Some(c),
            None => None,
        };
        let m = InsertionMode::reset_insertion_mode(
            self.stack_of_open_elements.as_slice(),
            ctx,
            self.is_fragment_case,
            self.head_element_created,
            template_mode,
        );
        self.insertion_mode = m;
    }
}

} // verus!
