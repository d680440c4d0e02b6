use zoomer::{
    debug_message_text, debug_type_to_str, is_extension_listed, severity_to_color,
    shader_type_to_str, SimpleColor, GL_DEBUG_SEVERITY_HIGH, GL_DEBUG_SEVERITY_LOW,
    GL_DEBUG_SEVERITY_MEDIUM, GL_DEBUG_SEVERITY_NOTIFICATION, GL_DEBUG_TYPE_DEPRECATED_BEHAVIOR,
    GL_DEBUG_TYPE_ERROR, GL_DEBUG_TYPE_OTHER, GL_DEBUG_TYPE_PERFORMANCE,
    GL_DEBUG_TYPE_PORTABILITY, GL_DEBUG_TYPE_UNDEFINED_BEHAVIOR, GL_FRAGMENT_SHADER,
    GL_VERTEX_SHADER,
};

#[test]
fn shader_type_names() {
    assert_eq!(shader_type_to_str(GL_VERTEX_SHADER), "vertex");
    assert_eq!(shader_type_to_str(GL_FRAGMENT_SHADER), "fragment");
}

#[test]
fn debug_type_names() {
    assert_eq!(debug_type_to_str(GL_DEBUG_TYPE_ERROR), "ERROR");
    assert_eq!(debug_type_to_str(GL_DEBUG_TYPE_DEPRECATED_BEHAVIOR), "DEPRECATED BEHAVIOR");
    assert_eq!(debug_type_to_str(GL_DEBUG_TYPE_UNDEFINED_BEHAVIOR), "UNDEFINED BEHAVIOR");
    assert_eq!(debug_type_to_str(GL_DEBUG_TYPE_PORTABILITY), "PORTABILITY");
    assert_eq!(debug_type_to_str(GL_DEBUG_TYPE_PERFORMANCE), "PERFORMANCE");
    assert_eq!(debug_type_to_str(GL_DEBUG_TYPE_OTHER), "OTHER");
}

#[test]
fn severity_colors() {
    assert_eq!(severity_to_color(GL_DEBUG_SEVERITY_HIGH), SimpleColor::Red);
    assert_eq!(severity_to_color(GL_DEBUG_SEVERITY_MEDIUM), SimpleColor::Yellow);
    assert_eq!(severity_to_color(GL_DEBUG_SEVERITY_LOW), SimpleColor::White);
    assert_eq!(severity_to_color(GL_DEBUG_SEVERITY_NOTIFICATION), SimpleColor::White);
}

#[test]
fn debug_message_is_colored_by_severity() {
    let t = debug_message_text(GL_DEBUG_TYPE_ERROR, GL_DEBUG_SEVERITY_HIGH, "bad enum").unwrap();
    assert_eq!(t.into_string(), "\x1b[31mOpenGL message [ERROR]: bad enum\x1b[0m");
    let t = debug_message_text(GL_DEBUG_TYPE_PERFORMANCE, GL_DEBUG_SEVERITY_MEDIUM, "").unwrap();
    assert_eq!(t.into_string(), "\x1b[33mOpenGL message [PERFORMANCE]: \x1b[0m");
}

#[test]
fn debug_notifications_are_not_reported() {
    assert!(debug_message_text(GL_DEBUG_TYPE_OTHER, GL_DEBUG_SEVERITY_NOTIFICATION, "x").is_none());
}

#[test]
fn extension_lookup_matches_whole_names() {
    let list = "WGL_ARB_a WGL_ARB_create_context_profile WGL_EXT_b";
    assert!(is_extension_listed(list, "WGL_ARB_create_context_profile"));
    assert!(is_extension_listed(list, "WGL_ARB_a"));
    assert!(is_extension_listed(list, "WGL_EXT_b"));
    assert!(!is_extension_listed(list, "WGL_ARB_create_context"));
    assert!(!is_extension_listed(list, "WGL_EXT"));
    assert!(!is_extension_listed(list, "a WGL"));
}

#[test]
fn extension_lookup_sees_empty_pieces() {
    assert!(is_extension_listed("a  b", ""));
    assert!(is_extension_listed("", ""));
    assert!(!is_extension_listed("a b", ""));
    assert!(is_extension_listed("a b ", ""));
}
