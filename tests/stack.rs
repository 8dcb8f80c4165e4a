use lua::state::State;
use lua::{
    check_acceptable, check_valid, lua_upvalueindex, upvalueindex, LoadError, PCallError, Type,
    ENVIRONINDEX, GLOBALSINDEX, MAXCSTACK, MINSTACK, MULTRET, REGISTRYINDEX,
};

#[test]
fn positive_index_acceptable_up_to_space_whatever_the_top() {
    for top in [0, 1, 5, 20] {
        assert!(check_acceptable(20, top, 20));
        assert!(!check_acceptable(21, top, 20));
        assert!(check_acceptable(1, top, 20));
    }
}

#[test]
fn negative_index_acceptable_up_to_top() {
    assert!(check_acceptable(-3, 3, 20));
    assert!(!check_acceptable(-4, 3, 20));
    assert!(!check_acceptable(-1, 0, 20));
}

#[test]
fn zero_never_valid() {
    assert!(!check_valid(0, 0, true));
    assert!(!check_valid(0, 10, false));
    assert!(!check_acceptable(0, 10, 20));
}

#[test]
fn pseudo_indices_need_permission() {
    for idx in [REGISTRYINDEX, GLOBALSINDEX, ENVIRONINDEX] {
        assert!(check_valid(idx, 0, true));
        assert!(!check_valid(idx, 0, false));
    }
    assert!(check_valid(upvalueindex(1), 0, true));
    assert!(check_valid(upvalueindex(256), 0, true));
    assert!(!check_valid(upvalueindex(257), 0, true));
    assert!(!check_valid(upvalueindex(1), 0, false));
    assert_eq!(lua_upvalueindex(3), GLOBALSINDEX - 3);
}

#[test]
fn checkstack_raises_the_space_only_when_needed() {
    let mut s = State::new();
    assert_eq!(MINSTACK, 20);
    // within the initial space: nothing to grow
    assert!(s.checkstack(5));
    assert!(s.isnone(20));
    s.pushinteger(1);
    s.pushinteger(2);
    // two values on the stack, ask for 30 more: the space becomes 32
    assert!(s.checkstack(30));
    assert!(s.isnone(32));
    assert!(s.checkstack(30));
    // beyond the engine's ceiling
    assert!(!s.checkstack(MAXCSTACK));
    assert_eq!(s.gettop(), 2);
}

#[test]
fn integer_round_trip() {
    let mut s = State::new();
    for n in [0i64, 1, -1, 42, 1 << 40, -(1 << 53)] {
        s.pushinteger(n);
        assert_eq!(s.tointeger(-1), n);
        assert_eq!(s.type_(-1), Some(Type::Number));
        s.pop(1);
    }
}

#[test]
fn string_round_trip() {
    let mut s = State::new();
    s.pushstring("héllo");
    assert_eq!(s.tobytes(-1), Some("héllo".as_bytes().to_vec()));
    assert_eq!(s.tostring(-1), Some("héllo".to_string()));
    s.pushbytes(&[0xff, 0x00, 0x41]);
    assert_eq!(s.tobytes(-1), Some(vec![0xff, 0x00, 0x41]));
    assert_eq!(s.tostring(-1), None);
}

#[test]
fn settop_zero_twice() {
    let mut s = State::new();
    s.pushinteger(1);
    s.pushinteger(2);
    s.settop(0);
    assert_eq!(s.gettop(), 0);
    s.settop(0);
    assert_eq!(s.gettop(), 0);
}

#[test]
fn settop_fills_with_nil_and_cuts() {
    let mut s = State::new();
    s.pushinteger(7);
    s.settop(3);
    assert_eq!(s.gettop(), 3);
    assert!(s.isnil(3));
    assert_eq!(s.tointeger(1), 7);
    s.settop(-3);
    assert_eq!(s.gettop(), 1);
}

#[test]
fn reshaping_operations() {
    let mut s = State::new();
    s.pushinteger(1);
    s.pushinteger(2);
    s.pushinteger(3);
    s.pushvalue(1);
    assert_eq!(s.tointeger(-1), 1);
    assert_eq!(s.gettop(), 4);
    s.remove(1);
    assert_eq!(s.tointeger(1), 2);
    s.insert(1);
    assert_eq!(s.tointeger(1), 1);
    assert_eq!(s.tointeger(2), 2);
    s.replace(2);
    assert_eq!(s.gettop(), 2);
    assert_eq!(s.tointeger(2), 3);
    s.pushvalue(GLOBALSINDEX);
    assert!(s.istable(-1));
    s.pushvalue(upvalueindex(1));
    assert!(s.isnil(-1));
}

#[test]
fn conversions() {
    let mut s = State::new();
    s.pushstring("17");
    assert_eq!(s.tointeger(-1), 17);
    s.pushboolean(false);
    assert!(!s.toboolean(-1));
    assert_eq!(s.tointeger(-1), 0);
    s.pushnil();
    assert!(!s.toboolean(-1));
    assert!(s.isnoneornil(-1));
    s.pushinteger(0);
    assert!(s.toboolean(-1));
    assert!(s.isstring(-1));
    assert_eq!(s.tostring(-1), Some("0".to_string()));
    // the number was converted in place
    assert_eq!(s.type_(-1), Some(Type::String));
    assert!(s.toboolean(GLOBALSINDEX));
}

#[test]
fn describe_values() {
    let mut s = State::new();
    assert_eq!(s.describe(1), "");
    s.pushnil();
    assert_eq!(s.describe(-1), "nil");
    s.pushboolean(true);
    assert_eq!(s.describe(-1), "true");
    s.pushboolean(false);
    assert_eq!(s.describe(-1), "false");
    s.pushstring("text");
    assert_eq!(s.describe(-1), "text");
    s.pushbytes(&[0xff]);
    assert_eq!(s.describe(-1), "<invalid utf8>");
    s.pushinteger(42);
    assert_eq!(s.describe(-1), "42");
    assert_eq!(s.type_(-1), Some(Type::Number));
    assert_eq!(s.describe_(-1, false), "42");
    assert_eq!(s.type_(-1), Some(Type::String));
    assert!(s.newtable().is_ok());
    assert!(s.describe(-1).starts_with("<table 0x"));
}

#[test]
fn protected_call_success() {
    let mut s = State::new();
    assert!(s.loadstring("function foo(x,y) return x+y end; return foo(5,3)").is_ok());
    assert!(s.pcall(0, MULTRET, 0).is_ok());
    assert_eq!(s.gettop(), 1);
    assert_eq!(s.tointeger(-1), 8);
}

#[test]
fn syntax_error_leaves_message() {
    let mut s = State::new();
    let r = s.loadstring("function (");
    assert!(matches!(r, Err(LoadError::ErrSyntax)));
    assert_eq!(s.gettop(), 1);
    assert_eq!(s.type_(-1), Some(Type::String));
    assert!(!s.tostring(-1).unwrap().is_empty());
}

#[test]
fn runtime_error_and_handler() {
    let mut s = State::new();
    s.pushinteger(9);
    assert!(s.loadstring("error('boom')").is_ok());
    let r = s.pcall(0, 0, 0);
    assert!(matches!(r, Err(PCallError::ErrRun)));
    assert_eq!(s.gettop(), 2);
    assert!(s.tostring(-1).unwrap().contains("boom"));
    s.pop(1);

    assert!(s.loadstring("return function(m) return 'handled: ' .. m end").is_ok());
    assert!(s.pcall(0, 1, 0).is_ok());
    assert!(s.loadstring("error('bad')").is_ok());
    let r = s.pcall(0, 0, 2);
    assert!(matches!(r, Err(PCallError::ErrRun)));
    assert!(s.tostring(-1).unwrap().starts_with("handled: "));
}

#[test]
fn calling_a_non_function() {
    let mut s = State::new();
    s.pushnil();
    assert!(matches!(s.pcall(0, 1, 0), Err(PCallError::ErrRun)));
    assert_eq!(s.tostring(-1), Some("attempt to call a nil value".to_string()));
}

#[test]
fn results_are_adjusted() {
    let mut s = State::new();
    assert!(s.loadstring("return 1, 2, 3").is_ok());
    assert!(s.pcall(0, 5, 0).is_ok());
    assert_eq!(s.gettop(), 5);
    assert_eq!(s.tointeger(3), 3);
    assert!(s.isnil(5));
    assert!(s.loadstring("return 1, 2, 3").is_ok());
    assert!(s.pcall(0, 1, 0).is_ok());
    assert_eq!(s.gettop(), 6);
    assert_eq!(s.tointeger(-1), 1);
}

#[test]
fn globals_and_fields() {
    let mut s = State::new();
    s.pushstring("value");
    assert!(s.setglobal("g").is_ok());
    assert_eq!(s.gettop(), 0);
    assert!(s.getglobal("g").is_ok());
    assert_eq!(s.tostring(-1), Some("value".to_string()));
    assert!(s.newtable().is_ok());
    s.pushinteger(5);
    assert!(s.setfield(-2, "k").is_ok());
    assert!(s.getfield(-1, "k").is_ok());
    assert_eq!(s.tointeger(-1), 5);
    assert!(s.dostring("x = 1 + 2"));
    assert!(s.getglobal("x").is_ok());
    assert_eq!(s.tointeger(-1), 3);
}

#[test]
fn registry_by_name() {
    let mut s = State::new();
    assert!(s.getmetatable_reg("mt").is_ok());
    assert!(s.isnil(-1));
    assert!(s.newtable().is_ok());
    assert!(s.setfield(REGISTRYINDEX, "mt").is_ok());
    assert!(s.getmetatable_reg("mt").is_ok());
    assert!(s.istable(-1));
}

#[test]
fn libraries() {
    let mut s = State::new();
    assert!(s.open_base());
    assert!(s.open_string());
    assert!(s.open_math());
    assert!(!s.open_debug());
    assert!(s.dostring("y = string.rep('ab', 2)"));
    assert!(s.getglobal("y").is_ok());
    assert_eq!(s.tostring(-1), Some("abab".to_string()));
}

#[test]
fn no_stack_levels_from_the_host() {
    let mut s = State::new();
    assert!(s.getstack(-1).is_none());
    assert!(s.getstack(0).is_none());
    let d = lua::debug::Debug::new();
    assert_eq!(d.level, 0);
}

#[test]
fn table_access_with_stack_keys() {
    let mut s = State::new();
    assert!(s.newtable().is_ok());
    s.pushstring("k");
    s.pushinteger(4);
    assert!(s.settable(1).is_ok());
    assert_eq!(s.gettop(), 1);
    s.pushstring("k");
    assert!(s.gettable(1).is_ok());
    assert_eq!(s.gettop(), 2);
    assert_eq!(s.tointeger(-1), 4);
}

#[test]
fn named_metatables() {
    let mut s = State::new();
    assert_eq!(s.newmetatable("Point"), Ok(true));
    assert_eq!(s.newmetatable("Point"), Ok(false));
    assert!(s.rawequal(-1, -2));
    assert!(s.getmetatable_reg("Point").is_ok());
    assert!(s.rawequal(-1, -2));
    assert_eq!(s.gettop(), 3);
}

#[test]
fn raw_equality() {
    let mut s = State::new();
    s.pushinteger(3);
    s.pushinteger(3);
    s.pushstring("3");
    assert!(s.rawequal(1, 2));
    assert!(!s.rawequal(1, 3));
    assert!(!s.rawequal(1, 9));
    assert!(s.newtable().is_ok());
    assert!(s.newtable().is_ok());
    assert!(!s.rawequal(-1, -2));
    s.pushvalue(-1);
    assert!(s.rawequal(-1, -2));
}

#[test]
fn moving_values_between_threads() {
    let mut s = State::new();
    let mut t = s.newthread();
    s.pushinteger(1);
    s.pushinteger(2);
    s.pushinteger(3);
    assert!(s.xmove(&mut t, 2));
    assert_eq!(s.gettop(), 1);
    assert_eq!(t.gettop(), 2);
    assert_eq!(t.tointeger(1), 2);
    assert_eq!(t.tointeger(2), 3);
}

#[test]
fn raw_pushes_leave_the_space_alone() {
    let mut s = State::new();
    for i in 0..20 {
        s.pushinteger(i);
    }
    {
        let mut r = s.as_raw();
        r.pushnil();
        r.pushboolean(true);
        r.pushinteger(7);
        r.pushstring("x");
        r.pushbytes(b"y");
        r.pushvalue(1);
        assert_eq!(r.gettop(), 26);
        r.pop(1);
        r.settop(24);
    }
    assert_eq!(s.gettop(), 24);
    // the raw pushes did not record room beyond the checked ones
    assert!(!lua::check_acceptable(22, s.gettop(), 21));
    assert!(s.checkstack(0));
    assert_eq!(s.tointeger(23), 7);
}

#[test]
fn collector_controls() {
    let mut s = State::new();
    assert_eq!(s.gc(lua::GC::Collect, 0), 0);
    assert!(s.gc(lua::GC::Count, 0) >= 0);
    let b = s.gc(lua::GC::CountB, 0);
    assert!((0..1024).contains(&b));
    assert_eq!(s.gc(lua::GC::Stop, 0), 0);
    assert_eq!(s.gc(lua::GC::Restart, 0), 0);
    assert_eq!(s.gc(lua::GC::SetPause, 200), 0);
    let step = s.gc(lua::GC::Step, 0);
    assert!(step == 0 || step == 1);
}

#[test]
fn numbers_and_lengths() {
    let mut s = State::new();
    s.pushstring("3.5");
    s.pushstring("abc");
    s.pushinteger(1234);
    s.pushboolean(true);
    assert!(s.isnumber(1));
    assert!(!s.isnumber(2));
    assert!(s.isnumber(3));
    assert!(!s.isnumber(4));
    assert_eq!(s.objlen(2), 3);
    assert_eq!(s.objlen(4), 0);
    assert_eq!(s.objlen(3), 4);
    assert_eq!(s.type_(3), Some(Type::String));
    assert!(s.loadstring("return {1, 2, 3}").is_ok());
    assert!(s.pcall(0, 1, 0).is_ok());
    assert_eq!(s.objlen(-1), 3);
}

#[test]
fn concatenation() {
    let mut s = State::new();
    s.pushinteger(0);
    s.pushstring("a");
    s.pushinteger(12);
    s.pushstring("b");
    s.concat(3);
    assert_eq!(s.gettop(), 2);
    assert_eq!(s.tostring(-1), Some("a12b".to_string()));
    s.concat(0);
    assert_eq!(s.tostring(-1), Some(String::new()));
    s.concat(1);
    assert_eq!(s.gettop(), 3);
}

#[test]
fn moving_between_engines_is_refused() {
    let mut a = State::new();
    let mut b = State::new();
    a.pushinteger(1);
    assert!(!a.xmove(&mut b, 1));
    assert_eq!(a.gettop(), 1);
    assert_eq!(b.gettop(), 0);
}

#[test]
fn raw_table_access() {
    let mut s = State::new();
    assert!(s.newtable().is_ok());
    s.pushstring("v");
    assert!(s.rawseti(1, 3).is_ok());
    assert!(s.rawgeti(1, 3).is_ok());
    assert_eq!(s.tostring(-1), Some("v".to_string()));
    s.pop(1);
    s.pushstring("key");
    s.pushboolean(true);
    assert!(s.rawset(1).is_ok());
    s.pushstring("key");
    assert!(s.rawget(1).is_ok());
    assert!(s.toboolean(-1));
    s.pop(1);
    s.pushnil();
    s.pushinteger(1);
    assert!(s.rawset(1).is_err());
    assert_eq!(s.gettop(), 2);
    assert_eq!(s.type_(-1), Some(Type::String));
}

#[test]
fn metatables_of_tables() {
    let mut s = State::new();
    assert!(s.newtable().is_ok());
    assert!(!s.getmetatable(1));
    assert!(s.newtable().is_ok());
    s.pushstring("hidden");
    assert!(s.setfield(-2, "__metatable").is_ok());
    assert!(s.setmetatable(1).is_ok());
    assert_eq!(s.gettop(), 1);
    assert!(s.getmetatable(1));
    assert!(s.getfield(-1, "__metatable").is_ok());
    assert_eq!(s.tostring(-1), Some("hidden".to_string()));
    s.pushinteger(3);
    assert!(!s.getmetatable(-1));
}
