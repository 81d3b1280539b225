use adder_treesitter_cranelift::language::input_buffer::InputBuffer;

#[test]
fn test_input_buffer_new() {
    let buffer = InputBuffer::new();
    assert_eq!(buffer.as_str(), "");
    assert_eq!(buffer.edit_start(), 0);
}

#[test]
fn test_input_buffer_update() {
    let mut buffer = InputBuffer::new();
    buffer.update("123", 0, 0, 3);
    assert_eq!(buffer.as_str(), "123");

    // Test partial update
    buffer.update("1245", 2, 3, 4);
    assert_eq!(buffer.as_str(), "1245");
}

#[test]
fn test_input_buffer_update_spaces() {
    let mut buffer = InputBuffer::new();
    buffer.update("1 1", 0, 0, 3);
    assert_eq!(buffer.as_str(), "1 1");

    buffer.update("1 1 1", 3, 3, 5);
    assert_eq!(buffer.as_str(), "1 1 1");

    buffer.update("1 1 1 1", 5, 5, 7);
    assert_eq!(buffer.as_str(), "1 1 1 1");
}

#[test]
fn update_cuts_at_the_edit_and_appends_the_changed_region() {
    let mut buffer = InputBuffer::new();
    buffer.update("abcdef", 0, 0, 6);
    // The region that changed ends at 3 in the new text: what lies behind it
    // in the new text is not appended.
    buffer.update("abXdef", 2, 3, 3);
    assert_eq!(buffer.as_bytes(), b"abX");
    assert_eq!(buffer.edit_start(), 2);
}

#[test]
fn update_past_the_end_keeps_the_stored_bytes() {
    let mut buffer = InputBuffer::new();
    buffer.update("ab", 0, 0, 2);
    buffer.update("abcdef", 4, 4, 6);
    assert_eq!(buffer.as_bytes(), b"abef");
}

#[test]
fn an_edit_that_reaches_the_end_leaves_the_new_text() {
    let mut buffer = InputBuffer::new();
    buffer.update("2", 0, 0, 1);
    buffer.update("2 + ", 1, 1, 4);
    buffer.update("2 + 3", 4, 4, 5);
    assert_eq!(buffer.as_str(), "2 + 3");
    let mut whole = InputBuffer::new();
    whole.update("2 + 3", 0, 0, 5);
    assert_eq!(whole.as_bytes(), buffer.as_bytes());
}

#[test]
fn as_str_gives_multibyte_text_back() {
    let mut buffer = InputBuffer::new();
    buffer.update("1 + é", 0, 0, 6);
    assert_eq!(buffer.as_str(), "1 + é");
    assert_eq!(buffer.as_bytes().len(), 6);
}
