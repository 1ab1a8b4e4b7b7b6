use cel_rs::{Context, Program, Val};

type HostFn = fn(Vec<Val>) -> Val;

fn eval_program(source: &str, ctx: &Context<HostFn>) -> Val {
    let program = Program::new(source);
    assert!(program.is_ok(), "failed to create the program {:?}", program.err());
    program.unwrap().eval(ctx)
}

fn eval_default(source: &str) -> Val {
    let ctx: Context<HostFn> = Context::default();
    eval_program(source, &ctx)
}

#[test]
fn basic_test() {
    assert_eq!(eval_default(r#"r"""#), Val::new_string(""));
}

#[test]
fn test_bool() {
    let mut ctx: Context<HostFn> = Context::default();
    ctx.add_variable("a", Val::new_bool(true));
    assert_eq!(eval_program(r#"a == true"#, &ctx), Val::new_bool(true));
    assert_eq!(eval_program(r#"a == false"#, &ctx), Val::new_bool(false));
}

#[test]
fn test_string() {
    assert_eq!(eval_default(r#"r"""#), Val::new_string(""));
    assert_eq!(eval_default(r#"r"CEL""#), Val::new_string("CEL"));
}

#[test]
fn test_null() {
    assert_eq!(eval_default(r#"null"#), Val::new_null());
}

#[test]
fn test_bytes() {
    assert_eq!(eval_default(r#"b''"#), Val::new_bytes(vec![].into()));
}

#[test]
fn test_double() {
    assert_eq!(eval_default(r#"2.0"#), Val::new_double(2.0f64.to_bits()));
}

#[test]
fn test_ints() {
    assert_eq!(eval_default(r#"2"#), Val::new_int(2));
    assert_eq!(eval_default(r#"2u"#), Val::new_uint(2));
}

#[test]
fn test_ordering() {
    assert_eq!(eval_default(r#"2 > 2"#), Val::new_bool(false));
    assert_eq!(eval_default(r#"2 >= 2"#), Val::new_bool(true));
    assert_eq!(eval_default(r#"3 > 2"#), Val::new_bool(true));
    assert_eq!(eval_default(r#"3 >= 2"#), Val::new_bool(true));
    assert_eq!(eval_default(r#"3 < 2"#), Val::new_bool(false));
    assert_eq!(eval_default(r#"3 == 2"#), Val::new_bool(false));
    assert_eq!(eval_default(r#"2 == 2"#), Val::new_bool(true));
}

#[test]
fn self_eval_int_hex_negative() {
    let expr = r#"-0x55555555"#;
    let program = Program::new(expr);
    assert!(program.is_ok(), "failed to parse '{}'", expr);
    let program = program.unwrap();
    let ctx: Context<HostFn> = Context::default();
    let value = program.eval(&ctx);
    let expected_value = Val::new_int(-1431655765);
    assert_eq!(value, expected_value, r#""{:?}" did not match "{:?}""#, value, expected_value);
}
