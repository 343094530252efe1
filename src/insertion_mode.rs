use vstd::prelude::*;

verus! {

/// The tree-construction state that decides how the next token is handled.
#[derive(Debug, PartialEq, Eq, Clone, Copy, Structural)]
pub enum InsertionMode {
    Initial,
    BeforeHtml,
    BeforeHead,
    InHead,
    InHeadNoscript,
    AfterHead,
    InBody,
    Text,
    InTable,
    InTableText,
    InCaption,
    InColumnGroup,
    InTableBody,
    InRow,
    InCell,
    InSelect,
    InSelectInTable,
    InTemplate,
    AfterBody,
    InFrameset,
    AfterFrameset,
    AfterAfterBody,
    AfterAfterFrameset,
}

/// The element names that the selector tells apart; every other element is
/// `Other`.
#[derive(Debug, PartialEq, Eq, Clone, Copy, Structural)]
pub enum ElementKind {
    Select,
    Td,
    Th,
    Tr,
    Tbody,
    Thead,
    Tfoot,
    Caption,
    Colgroup,
    Table,
    Template,
    Head,
    Body,
    Frameset,
    Html,
    Other,
}

/// An entry of the stack of open elements.
#[derive(Debug, PartialEq, Eq, Clone, Copy, Structural)]
pub struct Node {
    pub kind: ElementKind,
}

impl Node {
    pub fn new(kind: ElementKind) -> (n: Node)
        ensures
            n.kind == kind,
    {
        Node { kind }
    }

    pub fn is_select_element(&self) -> (r: bool)
        ensures
            r == (self.kind == ElementKind::Select),
    {
        self.kind == ElementKind::Select
    }

    pub fn is_td(&self) -> (r: bool)
        ensures
            r == (self.kind == ElementKind::Td),
    {
        self.kind == ElementKind::Td
    }

    pub fn is_th(&self) -> (r: bool)
        ensures
            r == (self.kind == ElementKind::Th),
    {
        self.kind == ElementKind::Th
    }

    pub fn is_tr(&self) -> (r: bool)
        ensures
            r == (self.kind == ElementKind::Tr),
    {
        self.kind == ElementKind::Tr
    }

    /// `tbody`, `thead` or `tfoot`.
    pub fn is_table_section(&self) -> (r: bool)
        ensures
            r == (self.kind == ElementKind::Tbody || self.kind == ElementKind::Thead || self.kind
                == ElementKind::Tfoot),
    {
        self.kind == ElementKind::Tbody || self.kind == ElementKind::Thead || self.kind
            == ElementKind::Tfoot
    }

    pub fn is_caption(&self) -> (r: bool)
        ensures
            r == (self.kind == ElementKind::Caption),
    {
        self.kind == ElementKind::Caption
    }

    pub fn is_colgroup(&self) -> (r: bool)
        ensures
            r == (self.kind == ElementKind::Colgroup),
    {
        self.kind == ElementKind::Colgroup
    }

    pub fn is_table(&self) -> (r: bool)
        ensures
            r == (self.kind == ElementKind::Table),
    {
        self.kind == ElementKind::Table
    }

    pub fn is_template(&self) -> (r: bool)
        ensures
            r == (self.kind == ElementKind::Template),
    {
        self.kind == ElementKind::Template
    }

    pub fn is_head(&self) -> (r: bool)
        ensures
            r == (self.kind == ElementKind::Head),
    {
        self.kind == ElementKind::Head
    }

    pub fn is_body(&self) -> (r: bool)
        ensures
            r == (self.kind == ElementKind::Body),
    {
        self.kind == ElementKind::Body
    }

    pub fn is_frameset(&self) -> (r: bool)
        ensures
            r == (self.kind == ElementKind::Frameset),
    {
        self.kind == ElementKind::Frameset
    }

    pub fn is_html(&self) -> (r: bool)
        ensures
            r == (self.kind == ElementKind::Html),
    {
        self.kind == ElementKind::Html
    }
}

/// The mode for a `select` at index `i`: the nearest `template` or `table`
/// below it decides, and without either it is `InSelect`.
pub open spec fn select_mode(stack: Seq<Node>, i: int) -> InsertionMode
    decreases i,
{
    if i <= 0 {
        InsertionMode::InSelect
    } else if stack[i - 1].kind == ElementKind::Template {
        InsertionMode::InSelect
    } else if stack[i - 1].kind == ElementKind::Table {
        InsertionMode::InSelectInTable
    } else {
        select_mode(stack, i - 1)
    }
}

/// The mode chosen for one node, if its kind decides one. `i` is the index
/// of the node in the stack, used to walk its ancestors.
pub open spec fn mode_for_node(
    node: Option<Node>,
    last: bool,
    stack: Seq<Node>,
    i: int,
    head_element_created: bool,
    current_template_mode: InsertionMode,
) -> Option<InsertionMode> {
    match node {
        None => None,
        Some(n) => match n.kind {
            ElementKind::Select => Some(if last { InsertionMode::InSelect } else { select_mode(stack, i) }),
            ElementKind::Td | ElementKind::Th => if last { None } else { Some(InsertionMode::InCell) },
            ElementKind::Tr => Some(InsertionMode::InRow),
            ElementKind::Tbody | ElementKind::Thead | ElementKind::Tfoot => Some(InsertionMode::InTableBody),
            ElementKind::Caption => Some(InsertionMode::InCaption),
            ElementKind::Colgroup => Some(InsertionMode::InColumnGroup),
            ElementKind::Table => Some(InsertionMode::InTable),
            ElementKind::Template => Some(current_template_mode),
            ElementKind::Head => if last { None } else { Some(InsertionMode::InHead) },
            ElementKind::Body => Some(InsertionMode::InBody),
            ElementKind::Frameset => Some(InsertionMode::InFrameset),
            ElementKind::Html => Some(
                if head_element_created { InsertionMode::AfterHead } else { InsertionMode::BeforeHead },
            ),
            ElementKind::Other => None,
        },
    }
}

/// The node looked at for index `i`: in the fragment case the bottom entry
/// is replaced by the context element.
pub open spec fn node_at(stack: Seq<Node>, i: int, context_element: Option<Node>, is_fragment_case: bool) -> Option<Node> {
    if i <= 0 && is_fragment_case {
        context_element
    } else if 0 <= i < stack.len() {
        Some(stack[i])
    } else {
        None
    }
}

/// The walk from index `i` down to the bottom of the stack.
pub open spec fn mode_from(
    stack: Seq<Node>,
    i: int,
    context_element: Option<Node>,
    is_fragment_case: bool,
    head_element_created: bool,
    current_template_mode: InsertionMode,
) -> InsertionMode
    decreases i,
{
    let last = i <= 0;
    match mode_for_node(
        node_at(stack, i, context_element, is_fragment_case),
        last,
        stack,
        i,
        head_element_created,
        current_template_mode,
    ) {
        Some(m) => m,
        None => if last {
            InsertionMode::InBody
        } else {
            mode_from(stack, i - 1, context_element, is_fragment_case, head_element_created, current_template_mode)
        },
    }
}

/// "Reset the insertion mode appropriately" as a function of its inputs.
pub open spec fn reset_mode(
    stack: Seq<Node>,
    context_element: Option<Node>,
    is_fragment_case: bool,
    head_element_created: bool,
    current_template_mode: InsertionMode,
) -> InsertionMode {
    mode_from(stack, stack.len() - 1, context_element, is_fragment_case, head_element_created, current_template_mode)
}

/// A node whose kind decides no mode.
pub open spec fn undecided(n: Option<Node>) -> bool {
    n is None || n->0.kind == ElementKind::Other
}

/// The selector falls back to `InBody`: where no node it looks at (and no
/// context element in the fragment case) has a kind that decides a mode, the
/// walk reaches the bottom of the stack and returns `InBody`.
pub proof fn lemma_reset_falls_back_to_in_body(
    stack: Seq<Node>,
    context_element: Option<Node>,
    is_fragment_case: bool,
    head_element_created: bool,
    current_template_mode: InsertionMode,
)
    requires
        forall|i: int| 0 <= i < stack.len() ==> #[trigger] stack[i].kind == ElementKind::Other,
        is_fragment_case ==> undecided(context_element),
    ensures
        reset_mode(stack, context_element, is_fragment_case, head_element_created, current_template_mode)
            == InsertionMode::InBody,
{
    lemma_mode_from_in_body(stack, stack.len() - 1, context_element, is_fragment_case, head_element_created, current_template_mode);
}

proof fn lemma_mode_from_in_body(
    stack: Seq<Node>,
    i: int,
    context_element: Option<Node>,
    is_fragment_case: bool,
    head_element_created: bool,
    current_template_mode: InsertionMode,
)
    requires
        i < stack.len(),
        forall|j: int| 0 <= j < stack.len() ==> #[trigger] stack[j].kind == ElementKind::Other,
        is_fragment_case ==> undecided(context_element),
    ensures
        mode_from(stack, i, context_element, is_fragment_case, head_element_created, current_template_mode)
            == InsertionMode::InBody,
    decreases i,
{
    if i > 0 {
        lemma_mode_from_in_body(stack, i - 1, context_element, is_fragment_case, head_element_created, current_template_mode);
    }
}

fn select_mode_exec(stack: &[Node], i: usize) -> (m: InsertionMode)
    requires
        i < stack@.len(),
    ensures
        m == select_mode(stack@, i as int),
{
    let mut j: usize = i;
    while j > 0
        invariant
            j <= i < stack@.len(),
            select_mode(stack@, j as int) == select_mode(stack@, i as int),
        decreases j,
    {
        let a = stack[j - 1];
        if a.kind == ElementKind::Template {
            return InsertionMode::InSelect;
        }
        if a.kind == ElementKind::Table {
            return InsertionMode::InSelectInTable;
        }
        j = j - 1;
    }
    InsertionMode::InSelect
}

fn mode_for_node_exec(
    node: Option<Node>,
    last: bool,
    stack: &[Node],
    i: usize,
    head_element_created: bool,
    current_template_mode: InsertionMode,
) -> (m: Option<InsertionMode>)
    requires
        i < stack@.len() || last,
    ensures
        m == mode_for_node(node, last, stack@, i as int, head_element_created, current_template_mode),
{
    match node {
        None => None,
        Some(n) => match n.kind {
            ElementKind::Select => Some(
                if last {
                    InsertionMode::InSelect
                } else {
                    select_mode_exec(stack, i)
                },
            ),
            ElementKind::Td | ElementKind::Th => if last {
                None
            } else {
                Some(InsertionMode::InCell)
            },
            ElementKind::Tr => Some(InsertionMode::InRow),
            ElementKind::Tbody | ElementKind::Thead | ElementKind::Tfoot => Some(InsertionMode::InTableBody),
            ElementKind::Caption => Some(InsertionMode::InCaption),
            ElementKind::Colgroup => Some(InsertionMode::InColumnGroup),
            ElementKind::Table => Some(InsertionMode::InTable),
            ElementKind::Template => Some(current_template_mode),
            ElementKind::Head => if last {
                None
            } else {
                Some(InsertionMode::InHead)
            },
            ElementKind::Body => Some(InsertionMode::InBody),
            ElementKind::Frameset => Some(InsertionMode::InFrameset),
            ElementKind::Html => Some(
                if head_element_created {
                    InsertionMode::AfterHead
                } else {
                    InsertionMode::BeforeHead
                },
            ),
            ElementKind::Other => None,
        },
    }
}

impl InsertionMode {
    /// Walks the stack of open elements from the top down and picks the
    /// insertion mode; `InBody` when no node decides one.
    pub fn reset_insertion_mode(
        stack_of_open_elements: &[Node],
        context_element: Option<&Node>,
        is_fragment_case: bool,
        head_element_created: bool,
        current_template_mode: InsertionMode,
    ) -> (m: InsertionMode)
        ensures
            m == reset_mode(
                stack_of_open_elements@,
                match context_element {
                    Some(c) => Some(*c),
                    None => None,
                },
                is_fragment_case,
                head_element_created,
                current_template_mode,
            ),
    {
        let ghost stack = stack_of_open_elements@;
        let ctx: Option<Node> = match context_element {
            Some(c) => Some(*c),
            None => None,
        };
        let n = stack_of_open_elements.len();
        if n == 0 {
            let node = if is_fragment_case { ctx } else { None };
            let m = mode_for_node_exec(node, true, stack_of_open_elements, 0, head_element_created, current_template_mode);
            return match m {
                Some(m) => m,
                None => InsertionMode::InBody,
            };
        }
        let mut i: usize = n - 1;
        loop
            invariant
                i < stack.len(),
                stack == stack_of_open_elements@,
                ctx == match context_element {
                    Some(c) => Some(*c),
                    None => None::<Node>,
                },
                mode_from(stack, i as int, ctx, is_fragment_case, head_element_created, current_template_mode)
                    == mode_from(stack, stack.len() - 1, ctx, is_fragment_case, head_element_created, current_template_mode),
            decreases i,
        {
            let last = i == 0;
            let node = if last && is_fragment_case {
                ctx
            } else {
                Some(stack_of_open_elements[i])
            };
            assert(node == node_at(stack, i as int, ctx, is_fragment_case));
            match mode_for_node_exec(node, last, stack_of_open_elements, i, head_element_created, current_template_mode) {
                Some(m) => {
                    return m;
                },
                None => {
                    if last {
                        return InsertionMode::InBody;
                    }
                    i = i - 1;
                },
            }
        }
    }
}

} // verus!
