use easy_command::condition::evaluate;
use easy_command::Error;

#[test]
fn empty_condition_always_holds() {
    assert_eq!(evaluate("", "linux", "ubuntu").ok(), Some(true));
    assert_eq!(evaluate("", "windows", "").ok(), Some(true));
    assert_eq!(evaluate("", "", "").ok(), Some(true));
}

#[test]
fn os_equality_follows_the_context() {
    assert_eq!(evaluate("os == \"linux\"", "linux", "").ok(), Some(true));
    assert_eq!(evaluate("os == \"linux\"", "windows", "").ok(), Some(false));
}

#[test]
fn conditions_combine_with_boolean_operators() {
    assert_eq!(
        evaluate("os == \"linux\" && linux_distro == \"arch\"", "linux", "arch").ok(),
        Some(true)
    );
    assert_eq!(
        evaluate("os == \"macos\" || linux_distro != \"arch\"", "linux", "arch").ok(),
        Some(false)
    );
    assert_eq!(evaluate("!(os == \"windows\")", "macos", "").ok(), Some(true));
}

#[test]
fn function_calls_are_not_part_of_the_condition_language() {
    assert!(matches!(
        evaluate("len(os) > 2", "linux", ""),
        Err(Error::InvalidExpression(_))
    ));
    assert!(matches!(
        evaluate("str::substring(os, 1, 2) == \"i\"", "linux", ""),
        Err(Error::InvalidExpression(_))
    ));
}

#[test]
fn malformed_builtin_calls_do_not_abort_evaluation() {
    // a substring call with byte indexes inside a multi-byte character must
    // come back as an error value, never abort the caller
    let result = evaluate("str::substring(os, 1, 2) == \"x\"", "\u{00e9}\u{00e9}", "");
    assert!(matches!(result, Err(Error::InvalidExpression(_))));
}

#[test]
fn non_boolean_conditions_are_invalid_expressions() {
    match evaluate("1 + 2", "linux", "") {
        Err(Error::InvalidExpression(text)) => assert_eq!(text, "1 + 2"),
        other => panic!("unexpected result: {:?}", other),
    }
    match evaluate("os ==", "linux", "") {
        Err(Error::InvalidExpression(text)) => assert_eq!(text, "os =="),
        other => panic!("unexpected result: {:?}", other),
    }
}
