use tree_sitter::{InputEdit, Parser, Point, Tree};
use vstd::prelude::*;

verus! {

#[verifier::external_type_specification]
#[verifier::external_body]
pub struct ExParser(Parser);

#[verifier::external_type_specification]
#[verifier::external_body]
pub struct ExTree(Tree);

#[verifier::external_type_specification]
pub struct ExPoint(Point);

#[verifier::external_type_specification]
pub struct ExInputEdit(InputEdit);

/// A parser to which no grammar has been given yet.
///
/// Trusted: `Parser::new` returns a parser.
#[verifier::external_body]
pub(crate) fn new_parser() -> Parser {
    Parser::new()
}

/// Trusted: `Parser::parse` returns a tree for `text`, or none; with
/// `old_tree`, it reuses what the edits recorded in that tree left
/// untouched.
#[verifier::external_body]
pub(crate) fn parse_text(parser: &mut Parser, text: &[u8], old_tree: Option<&Tree>) -> Option<Tree> {
    parser.parse(text, old_tree)
}

/// Trusted: `Tree::edit` records an edit of the text in the tree.
#[verifier::external_body]
pub(crate) fn edit_tree(tree: &mut Tree, edit: &InputEdit) {
    tree.edit(edit)
}

/// The description of an edit of a text of one line for the parser: the
/// change starts at `edit_pos`, ended at `old_end` before and ends at
/// `new_end` now; each position lies in row 0, at the column of its byte.
pub fn edit_descriptor(edit_pos: usize, old_end: usize, new_end: usize) -> (edit: InputEdit)
    ensures
        edit.start_byte == edit_pos,
        edit.old_end_byte == old_end,
        edit.new_end_byte == new_end,
        edit.start_position == (Point { row: 0, column: edit_pos }),
        edit.old_end_position == (Point { row: 0, column: old_end }),
        edit.new_end_position == (Point { row: 0, column: new_end }),
{
    InputEdit {
        start_byte: edit_pos,
        old_end_byte: old_end,
        new_end_byte: new_end,
        start_position: Point { row: 0, column: edit_pos },
        old_end_position: Point { row: 0, column: old_end },
        new_end_position: Point { row: 0, column: new_end },
    }
}

} // verus!
