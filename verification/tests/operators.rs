use expandvars::env::{Enviroment, FakeEnv};
use expandvars::expand_with;

#[test]
fn test_default_only_if_unset() {
    let mut env = FakeEnv::empty().with("EMPTY", "");
    // `-` triggers on unset alone: a set-but-empty variable keeps its value.
    assert_eq!(expand_with(&mut env, "${EMPTY-default}").unwrap(), "");
    assert_eq!(expand_with(&mut env, "${EMPTY:-default}").unwrap(), "default");
}

#[test]
fn test_default_nested() {
    let mut env = FakeEnv::empty().with("BAZ", "baz");
    assert_eq!(expand_with(&mut env, "${FOO:-${BAR:-$BAZ}}").unwrap(), "baz");
    assert_eq!(expand_with(&mut env, "${FOO:-{}}{}{}{}{{}}").unwrap(), "{}{}{}{}{{}}");
}

#[test]
fn test_unused_branch_is_lazy() {
    let mut env = FakeEnv::empty().with("FOO", "v");
    // The default branch holds a fatal required expression, but the branch
    // is never selected, so no error surfaces.
    assert_eq!(expand_with(&mut env, "${FOO:-${BAR:?}}").unwrap(), "v");
}

#[test]
fn test_alternate() {
    let mut env = FakeEnv::empty().with("FOO", "bar").with("EMPTY", "");
    assert_eq!(expand_with(&mut env, "${FOO:+foo}").unwrap(), "foo");
    assert_eq!(expand_with(&mut env, "${FOO+foo}").unwrap(), "foo");
    assert_eq!(expand_with(&mut env, "${BAR:+foo}").unwrap(), "");
    assert_eq!(expand_with(&mut env, "${BAR+foo}").unwrap(), "");
    assert_eq!(expand_with(&mut env, "${EMPTY:+foo}").unwrap(), "");
    assert_eq!(expand_with(&mut env, "${EMPTY+foo}").unwrap(), "foo");
    assert_eq!(expand_with(&mut env, "${FOO:+${FOO};}").unwrap(), "bar;");
}

#[test]
fn test_assign_default() {
    let mut env = FakeEnv::empty();
    assert_eq!(expand_with(&mut env, "${FOO:=default}").unwrap(), "default");
    assert_eq!(env.get(&String::from("FOO")), Some(String::from("default")));
    // The write is visible to later fragments of the same call.
    let mut env2 = FakeEnv::empty();
    assert_eq!(expand_with(&mut env2, "${X:=v}$X").unwrap(), "vv");
    // A set variable keeps its value and nothing is written.
    let mut env3 = FakeEnv::empty().with("FOO", "kept");
    assert_eq!(expand_with(&mut env3, "${FOO:=ignoreme}:bar").unwrap(), "kept:bar");
    // Set-but-empty with the strict form is overwritten.
    let mut env4 = FakeEnv::empty().with("EMPTY", "");
    assert_eq!(expand_with(&mut env4, "${EMPTY:=default}").unwrap(), "default");
    assert_eq!(expand_with(&mut env4, "${EMPTY=later}").unwrap(), "default");
}

#[test]
fn test_required_ok_when_set() {
    let mut env = FakeEnv::empty().with("FOO", "foo");
    assert_eq!(expand_with(&mut env, "${FOO:?custom err}").unwrap(), "foo");
    assert_eq!(expand_with(&mut env, "${FOO?custom err}:bar").unwrap(), "foo:bar");
}

#[test]
fn test_substring() {
    let mut env = FakeEnv::empty().with("FOO", "damnbigfoobar");
    assert_eq!(expand_with(&mut env, "${FOO:4:3}").unwrap(), "big");
    assert_eq!(expand_with(&mut env, "${FOO:70:10}").unwrap(), "");
    assert_eq!(expand_with(&mut env, "${FOO:3}").unwrap(), "nbigfoobar");
    assert_eq!(expand_with(&mut env, "${FOO: 4 }").unwrap(), "bigfoobar");
    assert_eq!(expand_with(&mut env, "${FOO:30}").unwrap(), "");
    assert_eq!(expand_with(&mut env, "${FOO:0}").unwrap(), "damnbigfoobar");
    assert_eq!(expand_with(&mut env, "${FOO: 7:6 }").unwrap(), "foobar");
    assert_eq!(expand_with(&mut env, "${FOO:7: 100 }").unwrap(), "foobar");
    assert_eq!(expand_with(&mut env, "${FOO:0:100}").unwrap(), "damnbigfoobar");
    assert_eq!(expand_with(&mut env, "${FOO:1:0}").unwrap(), "");
    assert_eq!(expand_with(&mut env, "${FOO:0:}").unwrap(), "");
    assert_eq!(expand_with(&mut env, "${FOO::}").unwrap(), "");
    assert_eq!(expand_with(&mut env, "${FOO::5}").unwrap(), "damnb");
    // `-` straight after `:` reads as the default operator, not an offset.
    assert_eq!(expand_with(&mut env, "${FOO:-3}:bar").unwrap(), "damnbigfoobar:bar");
    // An unset variable has the empty value, so any range of it is empty.
    assert_eq!(expand_with(&mut env, "${BAR:2:4}").unwrap(), "");
}

#[test]
fn test_last_binding_wins() {
    let mut env = FakeEnv::empty().with("A", "1").with("A", "2");
    assert_eq!(expand_with(&mut env, "$A").unwrap(), "2");
}

#[test]
fn test_name_stops_at_non_name_character() {
    let mut env = FakeEnv::empty().with("foo", "X");
    assert_eq!(expand_with(&mut env, "$foo.bar").unwrap(), "X.bar");
    assert_eq!(expand_with(&mut env, "a$foo-b").unwrap(), "aX-b");
}

#[test]
fn test_assign_through_indirection() {
    // The write lands on the indirectly named variable.
    let mut env = FakeEnv::empty().with("FOO", "X");
    assert_eq!(expand_with(&mut env, "${!FOO=x}${X}").unwrap(), "xx");
}

#[test]
fn test_indirection() {
    let mut env = FakeEnv::empty().with("FOO", "X").with("X", "foo");
    assert_eq!(expand_with(&mut env, "${!FOO}:${FOO}").unwrap(), "foo:X");
    assert_eq!(expand_with(&mut env, "${!FOO-default}").unwrap(), "foo");
    assert_eq!(expand_with(&mut env, "${!BAR-default}").unwrap(), "default");
    // X resolves to "foo", and "foo" itself is unset.
    assert_eq!(expand_with(&mut env, "${!X-default}").unwrap(), "default");
    assert_eq!(expand_with(&mut env, "${!BAR}").unwrap(), "");
}
