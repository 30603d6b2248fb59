use mikoshi::session::{filter_input, input_action, InputAction, OutputBuffer};

#[test]
fn filter_keeps_printable_whitespace_and_backspace() {
    let input = [b'l', b's', 0x03, b' ', b'\t', 0x08, 0x7f, 0x04, b'\n', 0x1b, b'~'];
    assert_eq!(filter_input(&input), vec![b'l', b's', b' ', b'\t', 0x08, b'\n', b'~']);
    assert_eq!(filter_input(&[]), Vec::<u8>::new());
    assert_eq!(filter_input(&[0x0b, 0x0c, 0x0d]), vec![0x0c, 0x0d]);
}

#[test]
fn control_chunks_choose_actions() {
    assert_eq!(input_action(&[3]), InputAction::Interrupt);
    assert_eq!(input_action(&[4]), InputAction::Exit);
    assert_eq!(input_action(&[3, 3]), InputAction::Forward);
    assert_eq!(input_action(&[0x7f]), InputAction::Forward);
    assert_eq!(input_action(b"ls\n"), InputAction::Forward);
    assert_eq!(input_action(&[]), InputAction::Forward);
}

#[test]
fn output_buffer_drains_in_order() {
    let mut buf = OutputBuffer::new();
    assert!(buf.is_empty());
    buf.append(b"ab");
    buf.append(b"c\n");
    assert_eq!(buf.drain(), b"abc\n".to_vec());
    assert!(buf.is_empty());
    buf.append(b"d");
    assert_eq!(buf.drain(), b"d".to_vec());
    assert_eq!(buf.drain(), Vec::<u8>::new());
}
