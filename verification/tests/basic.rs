use expandvars::env::FakeEnv;
use expandvars::{expand, expand_with};

#[test]
fn test_constant() {
    assert_eq!(expand("foo").unwrap(), "foo");
    assert_eq!(expand("$").unwrap(), "$");
    assert_eq!(expand("bar$").unwrap(), "bar$");
    assert_eq!(expand("{}{{}}").unwrap(), "{}{{}}");
}

#[test]
fn test_empty() {
    assert_eq!(expand("").unwrap(), "");
    assert_eq!(expand("$foo").unwrap(), "");
}

#[test]
fn test_simple() {
    let mut env = FakeEnv::empty().with("var", "value");

    assert_eq!(expand_with(&mut env, "$var").unwrap(), "value");
    assert_eq!(expand_with(&mut env, "${var}").unwrap(), "value");
}

#[test]
fn test_expandvars_combo() {
    let mut env = FakeEnv::empty().with("foo", "bar").with("biz", "buz");

    assert_eq!(expand_with(&mut env, "${foo}:$biz").unwrap(), "bar:buz");

    assert_eq!(expand_with(&mut env, "$foo$biz").unwrap(), "barbuz");

    assert_eq!(expand_with(&mut env, "${foo}$biz").unwrap(), "barbuz");

    assert_eq!(expand_with(&mut env, "$foo${biz}").unwrap(), "barbuz");

    assert_eq!(expand_with(&mut env, "${foo}-${biz}").unwrap(), "bar-buz");

    assert_eq!(expand_with(&mut env, "boo$biz").unwrap(), "boobuz");

    assert_eq!(expand_with(&mut env, "boo${biz}").unwrap(), "boobuz");
}

#[test]
fn test_expandvars_get_default() {
    let mut env = FakeEnv::empty()
        .with("ALTERNATE", "Alternate")
        .with("EMPTY", "");

    assert_eq!(expand_with(&mut env, "${FOO-default}").unwrap(), "default");

    assert_eq!(
        expand_with(&mut env, "${EMPTY:-default}").unwrap(),
        "default"
    );

    assert_eq!(
        expand_with(&mut env, "${FOO:-foo}:${FOO-bar}").unwrap(),
        "foo:bar"
    );

    assert_eq!(
        expand_with(&mut env, "${FOO:-$ALTERNATE}").unwrap(),
        "Alternate"
    );

    assert_eq!(expand_with(&mut env, "${FOO:-}").unwrap(), "");

    assert_eq!(
        expand_with(&mut env, "${UNSET:-\\$foo}-\\$foo").unwrap(),
        "$foo-$foo"
    );
}

#[test]
fn test_identity_on_literal_text() {
    let mut env = FakeEnv::empty().with("var", "value");
    assert_eq!(expand("plain text, no references").unwrap(), "plain text, no references");
    assert_eq!(
        expand_with(&mut env, "plain text, no references").unwrap(),
        "plain text, no references"
    );
    // A backslash is an escape trigger, so literal identity does not cover it.
    assert_eq!(expand("\\a").unwrap(), "a");
}

#[test]
fn test_pid_forms_agree() {
    let a = expand("$$").unwrap();
    let b = expand("${$}").unwrap();
    assert_eq!(a, b);
    assert!(!a.is_empty());
    assert!(a.chars().all(|c| c.is_ascii_digit()));
    assert_eq!(expand("PID( $$ )").unwrap(), format!("PID( {a} )"));
}

#[test]
fn test_pid_from_environment_capability() {
    let mut env = FakeEnv::empty().with_pid("4242");
    assert_eq!(expand_with(&mut env, "$$").unwrap(), "4242");
    assert_eq!(expand_with(&mut env, "${$}").unwrap(), "4242");
}

#[test]
fn test_escaped_dollar_never_looks_up() {
    let mut unset = FakeEnv::empty();
    assert_eq!(expand_with(&mut unset, "\\$FOO\\$BAR").unwrap(), "$FOO$BAR");

    let mut set = FakeEnv::empty().with("FOO", "foo").with("BAR", "bar");
    assert_eq!(expand_with(&mut set, "\\$FOO\\$BAR").unwrap(), "$FOO$BAR");
    assert_eq!(expand_with(&mut set, "\\\\$FOO").unwrap(), "\\foo");
    assert_eq!(expand_with(&mut set, "$FOO\\$BAR").unwrap(), "foo$BAR");
    assert_eq!(expand_with(&mut set, "\\$FOO$BAR").unwrap(), "$FOObar");
    assert_eq!(expand_with(&mut set, "$FOO\\$").unwrap(), "foo$");
}

#[test]
fn test_not_idempotent() {
    let mut env = FakeEnv::empty().with("a", "$b").with("b", "x");
    let once = expand_with(&mut env, "$a").unwrap();
    assert_eq!(once, "$b");
    let twice = expand_with(&mut env, &once).unwrap();
    assert_eq!(twice, "x");
    assert_ne!(once, twice);
}
