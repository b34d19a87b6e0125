use learnopengl::debug_output::{
    debug_report, DEBUG_SEVERITY_HIGH, DEBUG_SEVERITY_LOW, DEBUG_SEVERITY_MEDIUM, DEBUG_SEVERITY_NOTIFICATION,
    DEBUG_SOURCE_API, DEBUG_SOURCE_APPLICATION, DEBUG_SOURCE_OTHER, DEBUG_SOURCE_SHADER_COMPILER,
    DEBUG_SOURCE_THIRD_PARTY, DEBUG_SOURCE_WINDOW_SYSTEM, DEBUG_TYPE_DEPRECATED_BEHAVIOR, DEBUG_TYPE_ERROR,
    DEBUG_TYPE_MARKER, DEBUG_TYPE_OTHER, DEBUG_TYPE_PERFORMANCE, DEBUG_TYPE_POP_GROUP, DEBUG_TYPE_PORTABILITY,
    DEBUG_TYPE_PUSH_GROUP, DEBUG_TYPE_UNDEFINED_BEHAVIOR,
};

#[test]
fn debug_constants_match_gl() {
    assert_eq!(DEBUG_SOURCE_API, gl::DEBUG_SOURCE_API);
    assert_eq!(DEBUG_SOURCE_WINDOW_SYSTEM, gl::DEBUG_SOURCE_WINDOW_SYSTEM);
    assert_eq!(DEBUG_SOURCE_SHADER_COMPILER, gl::DEBUG_SOURCE_SHADER_COMPILER);
    assert_eq!(DEBUG_SOURCE_THIRD_PARTY, gl::DEBUG_SOURCE_THIRD_PARTY);
    assert_eq!(DEBUG_SOURCE_APPLICATION, gl::DEBUG_SOURCE_APPLICATION);
    assert_eq!(DEBUG_SOURCE_OTHER, gl::DEBUG_SOURCE_OTHER);
    assert_eq!(DEBUG_TYPE_ERROR, gl::DEBUG_TYPE_ERROR);
    assert_eq!(DEBUG_TYPE_DEPRECATED_BEHAVIOR, gl::DEBUG_TYPE_DEPRECATED_BEHAVIOR);
    assert_eq!(DEBUG_TYPE_UNDEFINED_BEHAVIOR, gl::DEBUG_TYPE_UNDEFINED_BEHAVIOR);
    assert_eq!(DEBUG_TYPE_PORTABILITY, gl::DEBUG_TYPE_PORTABILITY);
    assert_eq!(DEBUG_TYPE_PERFORMANCE, gl::DEBUG_TYPE_PERFORMANCE);
    assert_eq!(DEBUG_TYPE_OTHER, gl::DEBUG_TYPE_OTHER);
    assert_eq!(DEBUG_TYPE_MARKER, gl::DEBUG_TYPE_MARKER);
    assert_eq!(DEBUG_TYPE_PUSH_GROUP, gl::DEBUG_TYPE_PUSH_GROUP);
    assert_eq!(DEBUG_TYPE_POP_GROUP, gl::DEBUG_TYPE_POP_GROUP);
    assert_eq!(DEBUG_SEVERITY_HIGH, gl::DEBUG_SEVERITY_HIGH);
    assert_eq!(DEBUG_SEVERITY_MEDIUM, gl::DEBUG_SEVERITY_MEDIUM);
    assert_eq!(DEBUG_SEVERITY_LOW, gl::DEBUG_SEVERITY_LOW);
    assert_eq!(DEBUG_SEVERITY_NOTIFICATION, gl::DEBUG_SEVERITY_NOTIFICATION);
}

#[test]
fn insignificant_ids_are_not_reported() {
    for id in [131169, 131185, 131218, 131204] {
        assert_eq!(debug_report(gl::DEBUG_SOURCE_API, gl::DEBUG_TYPE_ERROR, id, gl::DEBUG_SEVERITY_HIGH, "x"), None);
    }
}

#[test]
fn full_report_lines() {
    let lines = debug_report(
        gl::DEBUG_SOURCE_API,
        gl::DEBUG_TYPE_ERROR,
        1280,
        gl::DEBUG_SEVERITY_HIGH,
        "GL_INVALID_ENUM error generated.",
    )
    .unwrap();
    assert_eq!(
        lines,
        vec![
            "---------------",
            "Debug message (1280): GL_INVALID_ENUM error generated.",
            "Source: API",
            "Type: Error",
            "Severity: high",
            "",
        ]
    );
}

#[test]
fn unknown_values_print_no_line() {
    let lines = debug_report(7, gl::DEBUG_TYPE_DEPRECATED_BEHAVIOR, 0, 9, "m").unwrap();
    assert_eq!(lines, vec!["---------------", "Debug message (0): m", "Type: Deprecated Behaviour", ""]);
    let lines = debug_report(gl::DEBUG_SOURCE_SHADER_COMPILER, 0, 131170, gl::DEBUG_SEVERITY_NOTIFICATION, "")
        .unwrap();
    assert_eq!(
        lines,
        vec!["---------------", "Debug message (131170): ", "Source: Shader Compiler", "Severity: notification", ""]
    );
}
