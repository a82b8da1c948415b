use kanata_keymap::treesitter::{tree_or_error, TreeSitterError};

#[test]
fn no_tree_is_a_failed_parse() {
    assert!(matches!(tree_or_error(None), Err(TreeSitterError::ParseFailed)));
}
