use html_tokenizer::insertion_mode::ElementKind::{
    Body, Caption, Colgroup, Frameset, Head, Html, Other, Select, Table, Tbody, Td, Template, Tfoot, Th, Thead, Tr,
};
use html_tokenizer::insertion_mode::{ElementKind, InsertionMode, Node};
use html_tokenizer::tokenizer::ContentModel;
use html_tokenizer::tree_constructor::{content_model_for, TreeConstructor};

fn stack(kinds: &[ElementKind]) -> Vec<Node> {
    kinds.iter().map(|k| Node::new(*k)).collect()
}

fn reset(kinds: &[ElementKind]) -> InsertionMode {
    InsertionMode::reset_insertion_mode(&stack(kinds), None, false, true, InsertionMode::InTemplate)
}

#[test]
fn select_inside_table_cell() {
    let s = stack(&[Html, Body, Table, Tbody, Tr, Td, Select]);
    let m = InsertionMode::reset_insertion_mode(&s, None, false, true, InsertionMode::InTemplate);
    assert_eq!(m, InsertionMode::InSelectInTable);
}

#[test]
fn select_below_template_is_in_select() {
    assert_eq!(reset(&[Html, Table, Template, Select]), InsertionMode::InSelect);
    assert_eq!(reset(&[Html, Body, Select]), InsertionMode::InSelect);
}

#[test]
fn table_family_modes() {
    assert_eq!(reset(&[Html, Body, Table, Tbody, Tr, Td]), InsertionMode::InCell);
    assert_eq!(reset(&[Html, Body, Table, Tbody, Tr, Th]), InsertionMode::InCell);
    assert_eq!(reset(&[Html, Body, Table, Tbody, Tr]), InsertionMode::InRow);
    assert_eq!(reset(&[Html, Body, Table, Thead]), InsertionMode::InTableBody);
    assert_eq!(reset(&[Html, Body, Table, Tfoot]), InsertionMode::InTableBody);
    assert_eq!(reset(&[Html, Body, Table, Caption]), InsertionMode::InCaption);
    assert_eq!(reset(&[Html, Body, Table, Colgroup]), InsertionMode::InColumnGroup);
    assert_eq!(reset(&[Html, Body, Table]), InsertionMode::InTable);
}

#[test]
fn document_level_modes() {
    assert_eq!(reset(&[Html, Head]), InsertionMode::InHead);
    assert_eq!(reset(&[Html, Body, Other, Other]), InsertionMode::InBody);
    assert_eq!(reset(&[Html, Frameset]), InsertionMode::InFrameset);
    assert_eq!(reset(&[Html]), InsertionMode::AfterHead);
    let s = stack(&[Html]);
    assert_eq!(
        InsertionMode::reset_insertion_mode(&s, None, false, false, InsertionMode::InTemplate),
        InsertionMode::BeforeHead
    );
}

#[test]
fn template_uses_current_template_mode() {
    let s = stack(&[Html, Body, Template]);
    assert_eq!(
        InsertionMode::reset_insertion_mode(&s, None, false, true, InsertionMode::InTable),
        InsertionMode::InTable
    );
}

#[test]
fn falls_back_to_in_body() {
    assert_eq!(reset(&[Other]), InsertionMode::InBody);
    assert_eq!(reset(&[Other, Other, Other]), InsertionMode::InBody);
    assert_eq!(reset(&[]), InsertionMode::InBody);
}

#[test]
fn cell_or_head_at_the_bottom_does_not_count() {
    assert_eq!(reset(&[Td]), InsertionMode::InBody);
    assert_eq!(reset(&[Head]), InsertionMode::InBody);
}

#[test]
fn fragment_uses_context_element() {
    let s = stack(&[Html]);
    let ctx = Node::new(Tr);
    assert_eq!(
        InsertionMode::reset_insertion_mode(&s, Some(&ctx), true, false, InsertionMode::InTemplate),
        InsertionMode::InRow
    );
    let ctx = Node::new(Td);
    assert_eq!(
        InsertionMode::reset_insertion_mode(&s, Some(&ctx), true, false, InsertionMode::InTemplate),
        InsertionMode::InBody
    );
}

#[test]
fn node_predicates() {
    assert!(Node::new(ElementKind::Select).is_select_element());
    assert!(Node::new(ElementKind::Thead).is_table_section());
    assert!(!Node::new(ElementKind::Table).is_table_section());
    assert!(Node::new(ElementKind::Html).is_html());
    assert!(!Node::new(ElementKind::Other).is_body());
}

#[test]
fn tree_constructor_resets_mode() {
    let mut tc = TreeConstructor::new();
    assert_eq!(tc.insertion_mode(), InsertionMode::Initial);
    tc.reset_insertion_mode();
    assert_eq!(tc.insertion_mode(), InsertionMode::InBody);
    tc.push_element(Node::new(ElementKind::Html));
    tc.reset_insertion_mode();
    assert_eq!(tc.insertion_mode(), InsertionMode::BeforeHead);
    tc.set_head_element_created();
    tc.push_element(Node::new(ElementKind::Body));
    tc.push_element(Node::new(ElementKind::Template));
    tc.push_template_mode(InsertionMode::InColumnGroup);
    tc.reset_insertion_mode();
    assert_eq!(tc.insertion_mode(), InsertionMode::InColumnGroup);
    assert_eq!(tc.pop_element(), Some(Node::new(ElementKind::Template)));
    tc.reset_insertion_mode();
    assert_eq!(tc.insertion_mode(), InsertionMode::InBody);
}

#[test]
fn fragment_tree_constructor() {
    let mut tc = TreeConstructor::new_fragment(Node::new(ElementKind::Select));
    tc.push_element(Node::new(ElementKind::Html));
    tc.reset_insertion_mode();
    assert_eq!(tc.insertion_mode(), InsertionMode::InSelect);
}

#[test]
fn content_models_for_start_tags() {
    use_model("textarea", false, ContentModel::Rcdata);
    use_model("title", false, ContentModel::Rcdata);
    use_model("style", false, ContentModel::Rawtext);
    use_model("xmp", false, ContentModel::Rawtext);
    use_model("iframe", false, ContentModel::Rawtext);
    use_model("noembed", false, ContentModel::Rawtext);
    use_model("noframes", false, ContentModel::Rawtext);
    use_model("script", false, ContentModel::ScriptData);
    use_model("plaintext", false, ContentModel::Plaintext);
    use_model("noscript", true, ContentModel::Rawtext);
    use_model("noscript", false, ContentModel::Data);
    use_model("div", true, ContentModel::Data);
}

fn use_model(name: &str, scripting: bool, expected: ContentModel) {
    assert_eq!(content_model_for(name, scripting), expected);
}
