use lua::state::State;
use lua::{PCallError, Type};

#[test]
fn native_function_is_called_with_its_arguments() {
    let mut s = State::new();
    assert!(s
        .register("add", |l: &mut State| {
            let a = l.tointeger(1);
            let b = l.tointeger(2);
            l.pushinteger(a + b);
            1
        })
        .is_ok());
    assert_eq!(s.gettop(), 0);
    assert!(s.dostring("r = add(2, 3)"));
    assert!(s.getglobal("r").is_ok());
    assert_eq!(s.tointeger(-1), 5);
}

#[test]
fn native_function_can_raise() {
    let mut s = State::new();
    assert!(s
        .pushcfunction(|l: &mut State| {
            l.pushstring("native failure");
            -1
        })
        .is_ok());
    assert_eq!(s.type_(-1), Some(Type::Function));
    let r = s.pcall(0, 0, 0);
    assert!(matches!(r, Err(PCallError::ErrRun)));
    assert!(s.tostring(-1).unwrap().contains("native failure"));
}

#[test]
fn coroutine_yields_then_finishes() {
    let mut s = State::new();
    let mut co = s.newthread();
    assert!(co.loadstring("local a = ...; local b = coroutine.yield(a + 1); return b * 2").is_ok());
    co.pushinteger(10);
    assert_eq!(co.resume(1), Ok(false));
    assert_eq!(co.gettop(), 1);
    assert_eq!(co.tointeger(-1), 11);
    assert_eq!(co.status(), Ok(false));
    co.settop(0);
    co.pushinteger(4);
    assert_eq!(co.resume(1), Ok(true));
    assert_eq!(co.tointeger(-1), 8);
    assert_eq!(co.status(), Ok(true));
}

#[test]
fn coroutine_error() {
    let mut s = State::new();
    let mut co = s.newthread();
    assert!(co.loadstring("error('inside')").is_ok());
    assert_eq!(co.resume(0), Err(PCallError::ErrRun));
    assert!(co.tostring(-1).unwrap().contains("inside"));
    assert_eq!(co.status(), Err(PCallError::ErrRun));
}

#[test]
fn threads_share_globals() {
    let mut s = State::new();
    s.pushinteger(99);
    assert!(s.setglobal("shared").is_ok());
    let mut t = s.newthread();
    assert!(t.getglobal("shared").is_ok());
    assert_eq!(t.tointeger(-1), 99);
    assert_eq!(s.gettop(), 0);
}

fn twice(l: &mut State) -> i32 {
    let n = l.tointeger(1);
    l.pushinteger(2 * n);
    1
}

#[test]
fn registering_a_library() {
    let mut s = State::new();
    let funcs: [(&str, fn(&mut State) -> i32); 1] = [("twice", twice)];
    assert!(s.registerlib(Some("mylib"), &funcs).is_ok());
    assert_eq!(s.gettop(), 1);
    assert!(s.istable(-1));
    assert!(s.dostring("r = mylib.twice(21)"));
    assert!(s.getglobal("r").is_ok());
    assert_eq!(s.tointeger(-1), 42);
}

#[test]
fn kinds_of_values() {
    let mut s = State::new();
    let t = s.newthread();
    drop(t);
    s.pushinteger(1);
    assert!(!s.isuserdata(1));
    assert!(!s.islightuserdata(1));
    assert!(!s.isthread(1));
}
