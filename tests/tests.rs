use lua::{State, Type, GLOBALSINDEX};

#[test]
fn tests_test_state_init() {
    let _s = State::new();
}

#[test]
fn tests_test_describe() {
    let mut s = State::new();

    assert_eq!(s.typename(1), "no value");
    s.pushnil();
    assert_eq!(s.typename(-1), "nil");
    s.pushinteger(42);
    assert_eq!(s.typename(-1), "number");
    s.pushstring("test");
    assert_eq!(s.typename(-1), "string");
    s.pushboolean(true);
    assert_eq!(s.typename(-1), "boolean");
    assert!(s.pushcfunction(dummy).is_ok());
    assert_eq!(s.typename(-1), "function");

    fn dummy(_l: &mut State) -> i32 {
        0
    }
}

#[test]
fn tests_test_openlibs() {
    let mut s = State::new();

    s.openlibs();
    assert!(s.getfield(GLOBALSINDEX, "table").is_ok());
    assert_eq!(s.type_(-1), Some(Type::Table));
}

#[derive(Clone, Copy, PartialEq, Eq, Debug)]
enum CheckOptionEnum {
    One,
    Two,
    Three,
}

#[test]
fn tests_test_checkoption() {
    let lst = [
        ("one", CheckOptionEnum::One),
        ("two", CheckOptionEnum::Two),
        ("three", CheckOptionEnum::Three),
    ];

    let mut s = State::new();

    for &(k, ref v) in lst.iter() {
        s.pushstring(k);
        assert_eq!(*s.checkoption(1, None, &lst).unwrap(), *v);
        s.pop(1);
    }
    assert_eq!(*s.checkoption(1, Some("three"), &lst).unwrap(), CheckOptionEnum::Three);

    // the two argument errors: no argument and no default, and a default
    // that is not listed; the caller rules them out before the call
    let s = State::new();
    assert!(!s.checkany(1), "expected error from checkoption");

    let s = State::new();
    assert!(s.isnoneornil(1));
    assert!(lua::find_option(b"four", &lst).is_none(), "expected error from checkoption");
}

#[test]
fn tests_test_gsub() {
    let mut l = State::new();

    assert_eq!(l.gsub("foobar", "bar", "quux"), Some("fooquux".to_string()));
    assert_eq!(l.gsub("foo", "o", "ö"), Some("föö".to_string()));
    assert_eq!(l.gsub("test", "a", "b"), Some("test".to_string()));
    assert_eq!(l.gsub("a b c d e", " ", "."), Some("a.b.c.d.e".to_string()));
}

#[test]
fn test_state_init() {
    let s = State::new();
    assert_eq!(s.gettop(), 0);
}
