use zoomer::{escape_sequence, text, Color, SimpleColor, TextFormatting};

#[test]
fn formatting_codes() {
    assert_eq!(TextFormatting::Default.to_string(), "0");
    assert_eq!(TextFormatting::Bold.to_string(), "1");
    assert_eq!(TextFormatting::NoUnderline.to_string(), "24");
    assert_eq!(TextFormatting::NoNegative.code(), 27);
}

#[test]
fn simple_color_codes() {
    assert_eq!(SimpleColor::Black.to_string(), "30");
    assert_eq!(SimpleColor::White.to_string(), "37");
    assert_eq!(SimpleColor::Default.to_string(), "38");
}

#[test]
fn color_parameters_for_foreground_and_background() {
    assert_eq!(Color::Simple(SimpleColor::Red).to_string(false), "31");
    assert_eq!(Color::Simple(SimpleColor::Red).to_string(true), "41");
    assert_eq!(Color::Extended { r: 1, g: 20, b: 255 }.to_string(false), "38;2;1;20;255");
    assert_eq!(Color::Extended { r: 0, g: 100, b: 9 }.to_string(true), "48;2;0;100;9");
}

#[test]
fn escape_sequence_wraps_parameters() {
    assert_eq!(escape_sequence("0"), "\x1b[0m");
    assert_eq!(escape_sequence("1;31"), "\x1b[1;31m");
}

#[test]
fn text_without_attributes() {
    assert_eq!(text(String::from("plain")).into_string(), "\x1b[mplain\x1b[0m");
}

#[test]
fn text_with_attributes_in_order() {
    let t = text(String::from("hi"))
        .foreground(Color::Simple(SimpleColor::Red))
        .formatting(TextFormatting::Bold)
        .background(Color::Extended { r: 1, g: 2, b: 3 });
    assert_eq!(t.into_string(), "\x1b[31;1;48;2;1;2;3mhi\x1b[0m");
}

#[test]
fn from_hex_reads_channels() {
    assert_eq!(Color::from_hex("#ff8000"), Ok(Color::Extended { r: 255, g: 128, b: 0 }));
    assert_eq!(Color::from_hex("0A0b0C"), Ok(Color::Extended { r: 10, g: 11, b: 12 }));
    assert_eq!(Color::from_hex("###123456"), Ok(Color::Extended { r: 0x12, g: 0x34, b: 0x56 }));
}

#[test]
fn from_hex_takes_a_plus_sign_per_channel() {
    assert_eq!(Color::from_hex("+f+a+1"), Ok(Color::Extended { r: 15, g: 10, b: 1 }));
}

#[test]
fn from_hex_rejects_non_digits() {
    assert!(Color::from_hex("#zz0000").is_err());
    assert!(Color::from_hex("#00-100").is_err());
    assert!(Color::from_hex("#0000 1").is_err());
    assert!(Color::from_hex("\u{e9}0000").is_err());
}
