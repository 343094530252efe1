//! Front end of an HTML parser: a byte stream, the tokenizer state machine,
//! the named-entity table, and the insertion-mode selector used by tree
//! construction.

pub mod stream;
pub mod text;
pub mod entities;
pub mod insertion_mode;
pub mod token;
pub mod parse_error;
pub mod tokenizer;
pub mod tree_constructor;
pub mod html_select_element;
