use std::rc::Rc;

use cel_rs::kinds::Error;
use cel_rs::{Callable, Context, Function, Overload, Program, Ty, Val, Value};

type HostFn = fn(Vec<Val>) -> Val;

fn run(source: &str, ctx: &Context<HostFn>) -> Val {
    let program = Program::new(source);
    assert!(program.is_ok(), "failed to parse '{}': {:?}", source, program.err());
    program.unwrap().eval(ctx)
}

fn run_default(source: &str) -> Val {
    let ctx: Context<HostFn> = Context::default();
    run(source, &ctx)
}

fn error(message: &str) -> Val {
    Val::new_error(message.to_string())
}

fn calc(args: Vec<Val>) -> Val {
    match (args[0].as_int(), args[1].as_int()) {
        (Some(a), Some(b)) => Val::new_int(a + b),
        _ => Val::new_error("calc takes two ints".to_string()),
    }
}

#[test]
fn literals_evaluate_to_their_kind() {
    assert_eq!(run_default("2"), Val::new_int(2));
    assert_eq!(run_default("2u"), Val::new_uint(2));
    assert_eq!(run_default("2.0"), Val::new_double(2.0f64.to_bits()));
    assert_eq!(run_default(r#""s""#), Val::new_string("s"));
    assert_eq!(run_default(r#"b"""#), Val::new_bytes(vec![]));
    assert_eq!(run_default("true"), Val::new_bool(true));
    assert_eq!(run_default("null"), Val::new_null());
    assert_eq!(run_default("2").ty(), Ty::Int);
    assert_eq!(run_default("2u").ty(), Ty::UInt);
}

#[test]
fn equality_is_kind_aware() {
    assert_eq!(run_default("1 == 1"), Val::new_bool(true));
    assert_eq!(run_default("1 == 1u"), Val::new_bool(false));
    assert_eq!(run_default(r#""a" == b"a""#), Val::new_bool(false));
    assert_eq!(run_default("null == null"), Val::new_bool(true));
    assert_eq!(run_default(r#"[1, "a"] == [1, "a"]"#), Val::new_bool(true));
    assert_eq!(run_default("[1, 2] == [2, 1]"), Val::new_bool(false));
    let a = Val::new_string("x");
    assert!(a.equals(&a));
    assert!(!a.equals(&Val::new_null()));
}

#[test]
fn and_or_short_circuit() {
    assert_eq!(run_default("false && (1 / 0 == 1)"), Val::new_bool(false));
    assert_eq!(run_default("false && missing"), Val::new_bool(false));
    assert_eq!(run_default("true || missing"), Val::new_bool(true));
    assert_eq!(run_default("true && (1 / 0 == 1)"), error("divide by zero"));
    assert_eq!(run_default("false || true"), Val::new_bool(true));
}

#[test]
fn map_equality_ignores_order() {
    assert_eq!(run_default(r#"{"a": 1, "b": 2} == {"b": 2, "a": 1}"#), Val::new_bool(true));
    assert_eq!(run_default(r#"{"a": 1} == {"a": 2}"#), Val::new_bool(false));
    assert_eq!(run_default(r#"{"a": 1} == {"a": 1, "b": 2}"#), Val::new_bool(false));
}

#[test]
fn ordering_of_other_kinds() {
    assert_eq!(run_default(r#""abc" < "abd""#), Val::new_bool(true));
    assert_eq!(run_default(r#"b"b" > b"ab""#), Val::new_bool(true));
    assert_eq!(run_default("2u <= 1u"), Val::new_bool(false));
    assert_eq!(run_default("1.5 < 2.5"), Val::new_bool(true));
    assert_eq!(run_default("-1.5 < 0.5"), Val::new_bool(true));
    assert_eq!(run_default("1 < 1u"), error("no matching overload for _<_"));
}

#[test]
fn errors_infect_operators() {
    assert_eq!(run_default("(1 / 0) + 1"), error("divide by zero"));
    assert_eq!(run_default("1 < missing"), error("unknown variable missing"));
    assert_eq!(run_default("missing == 1"), error("unknown variable missing"));
    assert_eq!(run_default("-(1 / 0)"), error("divide by zero"));
}

#[test]
fn unknown_identifier_is_an_error() {
    assert_eq!(run_default("missing"), error("unknown variable missing"));
    let ctx: Context<HostFn> = Context::default();
    assert!(!Program::new("missing").unwrap().execute(&ctx));
    assert!(Program::new("1 == 1").unwrap().execute(&ctx));
    assert!(!Program::new("1").unwrap().execute(&ctx));
}

#[test]
fn bound_member_call() {
    let mut ctx: Context<HostFn> = Context::default();
    let overloads = vec![Overload { key: "calc_int_int".to_string(), func: Callable::Host(calc as HostFn) }];
    ctx.add_function("calc", Function::new("calc".to_string(), overloads));
    ctx.add_variable("a", Val::new_int(10));
    ctx.add_variable("b", Val::new_int(10));
    let bound = run("b.calc(a)", &ctx);
    assert_eq!(bound, run("calc(b, a)", &ctx));
    assert_eq!(bound, Val::new_int(20));
    assert_eq!(run("nothing(1)", &ctx), error("unknown function nothing"));
}

#[test]
fn negative_hex_literal() {
    assert_eq!(run_default("-0x55555555"), Val::new_int(-1431655765));
}

#[test]
fn raw_empty_string() {
    assert_eq!(run_default(r#"r"""#), Val::new_string(""));
}

#[test]
fn integer_arithmetic() {
    assert_eq!(run_default("1 + 2 * 3"), Val::new_int(7));
    assert_eq!(run_default("7 / 2"), Val::new_int(3));
    assert_eq!(run_default("-7 / 2"), Val::new_int(-3));
    assert_eq!(run_default("-7 % 3"), Val::new_int(-1));
    assert_eq!(run_default("10u - 3u"), Val::new_uint(7));
    assert_eq!(run_default("9223372036854775807 + 1"), error("integer overflow"));
    assert_eq!(run_default("2u - 3u"), error("integer overflow"));
    assert_eq!(run_default("1 / 0"), error("divide by zero"));
    assert_eq!(run_default("1 % 0"), error("modulus by zero"));
    assert_eq!(run_default("1 + 1u"), error("no matching overload for _+_"));
    assert_eq!(run_default("!1"), error("no matching overload for !_"));
}

#[test]
fn indexing_and_attributes() {
    assert_eq!(run_default("[1, 2, 3][1]"), Val::new_int(2));
    assert_eq!(run_default("[1, 2, 3][2u]"), Val::new_int(3));
    assert_eq!(run_default("[1][5]"), error("index out of range"));
    assert_eq!(run_default(r#"{"a": 1}["a"]"#), Val::new_int(1));
    assert_eq!(run_default(r#"{"a": 1}["b"]"#), error("no such key"));
    assert_eq!(run_default(r#"{"a": 1}.a"#), Val::new_int(1));
    assert_eq!(run_default(r#"{"a": 1}.b"#), error("no such key: b"));
    assert_eq!(run_default(r#"{"a": 1, "a": 2}["a"]"#), Val::new_int(2));
    assert_eq!(run_default("true.nothing"), error("unknown attribute nothing"));
}

#[test]
fn ternary_and_membership() {
    assert_eq!(run_default("true ? 1 : 2"), Val::new_int(1));
    assert_eq!(run_default("false ? 1 : 2"), Val::new_int(2));
    assert_eq!(run_default("1 ? 1 : 2"), error("int does not implement to_bool"));
    assert_eq!(run_default("2 in [1, 2]"), Val::new_bool(true));
    assert_eq!(run_default("3 in [1, 2]"), Val::new_bool(false));
    assert_eq!(run_default(r#""a" in {"a": 1}"#), Val::new_bool(true));
    assert_eq!(run_default("!true"), Val::new_bool(false));
}

#[test]
fn double_literals() {
    assert_eq!(run_default("0.1"), Val::new_double(0.1f64.to_bits()));
    assert_eq!(run_default("2.5"), Val::new_double(2.5f64.to_bits()));
    assert_eq!(run_default("1e3"), Val::new_double(1000.0f64.to_bits()));
    assert_eq!(run_default("123.456e-2"), Val::new_double(1.23456f64.to_bits()));
    assert_eq!(run_default("-2.0"), Val::new_double((-2.0f64).to_bits()));
    assert_eq!(run_default("0.0 == -0.0"), Val::new_bool(true));
}

#[test]
fn string_and_bytes_literals() {
    assert_eq!(run_default(r#""a\nb""#), Val::new_string("a\nb"));
    assert_eq!(run_default("'it'"), Val::new_string("it"));
    assert_eq!(run_default(r#"r"a\nb""#), Val::new_string("a\\nb"));
    assert_eq!(run_default(r#"b"ab""#), Val::new_bytes(vec![97, 98]));
}

#[test]
fn parse_errors() {
    assert!(Program::new("1 +").is_err());
    assert!(Program::new("(1").is_err());
    assert!(Program::new("1 2").is_err());
    assert!(Program::new("99999999999999999999").is_err());
    assert!(Program::new(r#""open"#).is_err());
}

#[test]
fn dyn_builtin_returns_its_argument() {
    assert_eq!(run_default("dyn(5)"), Val::new_int(5));
    assert_eq!(run_default("dyn()"), error("no matching overload for dyn"));
}

#[test]
fn scopes_delegate_to_parent() {
    let mut parent: Context<HostFn> = Context::default();
    parent.add_variable("x", Val::new_int(1));
    parent.add_variable("y", Val::new_int(2));
    let mut child = Context::with_parent(Rc::new(parent));
    child.add_variable("y", Val::new_int(3));
    assert_eq!(run("x + y", &child), Val::new_int(4));
    assert!(child.parent().is_some());
    assert_eq!(run("dyn(x)", &child), Val::new_int(1));
    child.add_variable("y", Val::new_int(5));
    assert_eq!(run("y", &child), Val::new_int(5));
}

#[test]
fn conversions_degrade_to_errors() {
    assert_eq!(Val::new_int(1).to_bool(), error("int does not implement to_bool"));
    assert_eq!(Val::new_bool(true).to_bool(), Val::new_bool(true));
    assert_eq!(Val::new_int(1).to_type(Ty::String), error("type int could not be converted to string"));
    assert_eq!(Val::new_int(1).to_type(Ty::Int), Val::new_int(1));
    assert_eq!(Error::unimplemented(Ty::Bytes, "size"), error("bytes does not implement size"));
}

#[test]
fn maps_built_by_the_host() {
    let m = Val::new_map(vec![
        (Val::new_string("a"), Val::new_int(1)),
        (Val::new_string("a"), Val::new_int(2)),
    ]);
    let n = Val::new_map(vec![(Val::new_string("a"), Val::new_int(2))]);
    assert_eq!(m, n);
    let mut ctx: Context<HostFn> = Context::default();
    ctx.add_variable("m", m);
    assert_eq!(run("m.a", &ctx), Val::new_int(2));
    assert_eq!(run("[1, 2]", &ctx), Val::new_list(vec![Val::new_int(1), Val::new_int(2)]));
}

#[test]
fn map_equality_is_reflexive_and_symmetric() {
    let a = Val::new_map(vec![
        (Val::new_int(1), Val::new_int(1)),
        (Val::new_int(1), Val::new_int(2)),
    ]);
    assert!(a.equals(&a));
    let b = Val::new_map(vec![(Val::new_int(1), Val::new_int(2))]);
    assert_eq!(a, b);
    assert_eq!(b, a);
    let c = Val::new_map(vec![
        (Val::new_int(1), Val::new_int(1)),
        (Val::new_int(2), Val::new_int(2)),
    ]);
    let d = Val::new_map(vec![
        (Val::new_int(2), Val::new_int(2)),
        (Val::new_int(1), Val::new_int(1)),
    ]);
    assert_eq!(c, d);
    assert_eq!(d, c);
    assert!(!c.equals(&b));
    assert!(!b.equals(&c));
    assert_eq!(run_default(r#"{1: {"x": [1, 2]}} == {1: {"x": [1, 2]}}"#), Val::new_bool(true));
}
