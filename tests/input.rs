use zoomer::{key_command, KeyCommand, VK_C, VK_ESCAPE, VK_F2};

#[test]
fn keys_map_to_commands() {
    assert_eq!(key_command(VK_F2), Some(KeyCommand::ToggleDebugWindow));
    assert_eq!(key_command(b'C'), Some(KeyCommand::ToggleHighlighter));
    assert_eq!(key_command(VK_C), Some(KeyCommand::ToggleHighlighter));
    assert_eq!(key_command(VK_ESCAPE), Some(KeyCommand::Hide));
}

#[test]
fn other_keys_do_nothing() {
    assert_eq!(key_command(b'c'), None);
    assert_eq!(key_command(b'A'), None);
    assert_eq!(key_command(0), None);
    assert_eq!(key_command(0x72), None);
}
