use lua::State;

#[test]
fn rawtests_test_lua_newstate() {
    let mut s = State::new();
    s.pushinteger(42);
    drop(s);
}

#[test]
fn rawtests_test_luaL_newstate() {
    let mut s = State::new();
    s.pushinteger(42);
    assert_eq!(s.gettop(), 1);
}

#[test]
fn rawtests_test_dostring() {
    let mut s = State::new();
    let ret = s.dostring("function foo(x,y) return x+y end");
    assert!(ret);
    assert!(s.getglobal("foo").is_ok());
    s.pushinteger(5);
    s.pushinteger(3);
    assert!(s.pcall(2, 1, 0).is_ok());
    let val = s.tointeger(-1);
    assert_eq!(val, 8);
}

#[test]
fn test_lua_newstate() {
    let mut s = State::new();
    s.pushinteger(42);
    assert_eq!(s.tointeger(-1), 42);
}

#[test]
fn test_luaL_newstate() {
    let mut s = State::new();
    assert!(s.openlibs());
    s.pushinteger(42);
    assert_eq!(s.gettop(), 1);
}
