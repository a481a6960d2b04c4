use expandvars::env::FakeEnv;
use expandvars::error::Error;
use expandvars::expand_with;

#[test]
fn test_missing_escaped_character() {
    let mut env = FakeEnv::empty().with("FOO", "foo");
    assert_eq!(
        expand_with(&mut env, "$FOO\\"),
        Err(Error::MissingEscapedCharacter)
    );
}

#[test]
fn test_missing_closing_brace() {
    let mut env = FakeEnv::empty().with("FOO", "damnbigfoobar");
    for input in ["${FOO:", "${FOO}${BAR", "${FOO?", "${FOO:1", "${FOO:1:2", "${FOO+", "${FOO-"] {
        assert_eq!(
            expand_with(&mut env, input),
            Err(Error::MissingClosingBrace {
                span: input.to_string()
            }),
            "input: {input}"
        );
    }
}

#[test]
fn test_bad_substitution() {
    let mut env = FakeEnv::empty().with("FOO", "damnbigfoobar");
    assert_eq!(expand_with(&mut env, "${}"), Err(Error::BadSubstitution));
    assert_eq!(expand_with(&mut env, "${FOO:}"), Err(Error::BadSubstitution));
    assert_eq!(expand_with(&mut env, "${FOO }"), Err(Error::BadSubstitution));
    assert_eq!(expand_with(&mut env, "${!}"), Err(Error::BadSubstitution));
    assert_eq!(expand_with(&mut env, "${$FOO}"), Err(Error::BadSubstitution));
}

#[test]
fn test_operand_expected() {
    let mut env = FakeEnv::empty().with("FOO", "damnbigfoobar");
    for o in ['@', '#', '%', '^', '&', '*', '(', ')', '_', '\'', '"'] {
        assert_eq!(
            expand_with(&mut env, &format!("${{FOO:0:{o}}}")),
            Err(Error::OperandExpected { token: o }),
            "offending token: {o}"
        );
        assert_eq!(
            expand_with(&mut env, &format!("${{FOO:{o}:{o}}}")),
            Err(Error::OperandExpected { token: o }),
            "offending token: {o}"
        );
    }
}

#[test]
fn test_parameter_null_or_not_set() {
    let mut env = FakeEnv::empty().with("EMPTY", "");
    assert_eq!(
        expand_with(&mut env, "${FOO:?}"),
        Err(Error::ParameterNullOrNotSet {
            name: "FOO".to_string(),
            message: "parameter null or not set".to_string()
        })
    );
    assert_eq!(
        expand_with(&mut env, "${FOO?}"),
        Err(Error::ParameterNullOrNotSet {
            name: "FOO".to_string(),
            message: "parameter null or not set".to_string()
        })
    );
    assert_eq!(
        expand_with(&mut env, "${FOO:?custom error}"),
        Err(Error::ParameterNullOrNotSet {
            name: "FOO".to_string(),
            message: "custom error".to_string()
        })
    );
    // The strict form also fails on a set-but-empty variable.
    assert_eq!(
        expand_with(&mut env, "${EMPTY:?}"),
        Err(Error::ParameterNullOrNotSet {
            name: "EMPTY".to_string(),
            message: "parameter null or not set".to_string()
        })
    );
    // The lax form accepts it.
    assert_eq!(expand_with(&mut env, "${EMPTY?}").unwrap(), "");
}

#[test]
fn test_negative_substring_length() {
    let mut env = FakeEnv::empty().with("FOO", "damnbigfoobar");
    assert_eq!(
        expand_with(&mut env, "${FOO:1:-3}"),
        Err(Error::NegativeSubstringLength {
            name: "FOO".to_string(),
            digits: "3".to_string()
        })
    );
    // A negative zero length is just zero.
    assert_eq!(expand_with(&mut env, "${FOO:1:-0}").unwrap(), "");
}
