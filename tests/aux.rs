use lua::aux::replace_bytes;
use lua::state::State;
use lua::{Buffer, DebugEvent, PCallError, Type};

#[test]
fn substitution_scenarios() {
    let mut s = State::new();
    assert_eq!(s.gsub("foobar", "bar", "quux"), Some("fooquux".to_string()));
    assert_eq!(s.gsub("a b c d e", " ", "."), Some("a.b.c.d.e".to_string()));
    assert_eq!(s.gettop(), 2);
    assert_eq!(s.tostring(-1), Some("a.b.c.d.e".to_string()));
    assert_eq!(replace_bytes(b"aaa", b"aa", b"b"), b"ba".to_vec());
    assert_eq!(replace_bytes(b"", b"x", b"y"), Vec::<u8>::new());
}

#[test]
fn option_lookup() {
    let lst = [("one", 1), ("two", 2), ("three", 3)];
    let mut s = State::new();
    s.pushstring("two");
    assert_eq!(s.checkoption(1, None, &lst), Some(&2));
    s.pop(1);
    // an unlisted name is an argument error: the caller tests it first
    assert_eq!(lua::find_option(b"four", &lst), None);
    s.pushnil();
    assert_eq!(s.checkoption(1, Some("one"), &lst), Some(&1));
    assert_eq!(s.gettop(), 1);
    s.pop(1);
    s.pushinteger(2);
    assert_eq!(s.checkoption(1, None, &lst), None);
}

#[test]
fn argument_checks() {
    let mut s = State::new();
    s.pushstring("abc");
    s.pushinteger(12);
    s.pushboolean(true);
    assert_eq!(s.checkstring(1), Some("abc".to_string()));
    assert_eq!(s.checkbytes(1), Some(b"abc".to_vec()));
    assert_eq!(s.checkinteger(2), Some(12));
    assert!(!s.checktype(3, Type::String) && !s.checktype(3, Type::Number));
    assert_eq!(s.optstring(4, "dflt"), Some("dflt".to_string()));
    assert_eq!(s.optbytes(4, b"d"), Some(b"d".to_vec()));
    assert_eq!(s.optinteger(4, 7), Some(7));
    assert_eq!(s.optinteger(2, 7), Some(12));
}

#[test]
fn buffer_building() {
    let mut s = State::new();
    s.pushinteger(1);
    let before = s.gettop();
    let mut b: Buffer = s.buffinit();
    b.addstring("hello, ");
    b.addbytes(b"world");
    b.pushresult();
    assert_eq!(s.gettop(), before + 1);
    assert_eq!(s.tostring(-1), Some("hello, world".to_string()));
}

#[test]
fn buffer_chars_and_flushes() {
    let mut s = State::new();
    let mut b = s.buffinit();
    b.addchar('ö');
    b.addbyte(b'!');
    for _ in 0..20000 {
        b.addbyte(b'x');
    }
    b.pushresult();
    assert_eq!(s.gettop(), 1);
    let bytes = s.tobytes(-1).unwrap();
    assert_eq!(bytes.len(), 2 + 1 + 20000);
    assert_eq!(&bytes[..3], &[0xc3, 0xb6, b'!']);
}

#[test]
fn codes() {
    assert_eq!(Type::from_code(5), Some(Type::Table));
    assert_eq!(Type::from_code(-1), None);
    assert_eq!(Type::Userdata.name(), "userdata");
    assert_eq!(Type::Thread.code(), 8);
    assert_eq!(PCallError::from_code(2), Some(PCallError::ErrRun));
    assert_eq!(PCallError::from_code(4), Some(PCallError::ErrMem));
    assert_eq!(PCallError::from_code(5), Some(PCallError::ErrErr));
    assert_eq!(PCallError::from_code(3), None);
    assert_eq!(PCallError::ErrErr.describe(), "error handler func error");
    assert_eq!(DebugEvent::from_event(4), Some(DebugEvent::HookTailRet));
    assert_eq!(DebugEvent::from_event(5), None);
}

#[test]
fn buffer_takes_a_value_from_the_stack() {
    let mut s = State::new();
    let mut b = s.buffinit();
    b.addstring("n=");
    b.state.pushinteger(12);
    b.addvalue();
    b.state.pushstring("!");
    b.addvalue();
    b.pushresult();
    assert_eq!(s.gettop(), 1);
    assert_eq!(s.tostring(-1), Some("n=12!".to_string()));
}

#[test]
fn type_checks() {
    let mut s = State::new();
    s.pushinteger(1);
    assert!(s.checktype(1, Type::Number));
    assert!(!s.checktype(1, Type::String));
    assert!(s.checkany(1));
    assert!(!s.checkany(2));
}

#[test]
fn values_in_the_library_representation() {
    let mut s = State::new();
    s.pushbytes(b"raw");
    assert_eq!(s.tostring(-1), Some("raw".to_string()));
    match s.value(-1) {
        Some(lua::StackValue::Str(b)) => assert_eq!(b, b"raw".to_vec()),
        _ => panic!("expected a string"),
    }
    assert!(s.value(5).is_none());
    assert_eq!(s.stackspace(), 20);
}
