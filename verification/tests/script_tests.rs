//! Interpreter behaviour: the two variable scopes, the lazy conditional,
//! and calls into script modules.

use ayaka_runtime::ast::{BinaryOp, Expr, LogicBinaryOp, Program, Ref, ValBinaryOp};
use ayaka_runtime::plugin::{PluginError, RawModule, Runtime};
use ayaka_runtime::script::eval_program;
use ayaka_runtime::value::RawValue;
use ayaka_runtime::varmap::VarMap;
use ayaka_runtime::codec::{plugin_type_to_wire, values_to_wire, value_to_wire, wire_to_values};
use ayaka_runtime::wire::{decode_wire, encode_wire, Wire};

/// A backend with no modules at all.
struct NoModule;

impl RawModule for NoModule {
    fn call_raw(&self, _name: &str, _data: &Vec<u8>) -> Result<Vec<u8>, PluginError> {
        Err(PluginError {
            msg: "no module".to_string(),
        })
    }
}

/// A native stand-in for the `random` script module: decodes the call,
/// runs the module's verified logic, encodes the reply. Unknown exports
/// fail like a missing export would.
struct RandomModule;

impl RawModule for RandomModule {
    fn call_raw(&self, name: &str, data: &Vec<u8>) -> Result<Vec<u8>, PluginError> {
        let (wire, end) = decode_wire(data, 0).ok_or_else(|| PluginError {
            msg: "bad call".to_string(),
        })?;
        assert_eq!(end, data.len());
        if name == "plugin_type" {
            let reply = plugin_type_to_wire(&ayaka_runtime::plugins::random::plugin_type());
            let mut out = Vec::new();
            encode_wire(&reply, &mut out);
            return Ok(out);
        }
        if name != "rnd" {
            return Err(PluginError {
                msg: format!("no export {}", name),
            });
        }
        let args = wire_to_values(&wire).ok_or_else(|| PluginError {
            msg: "bad args".to_string(),
        })?;
        let value = ayaka_runtime::plugins::random::rnd(&args);
        let reply = value_to_wire(&value);
        let mut out = Vec::new();
        encode_wire(&reply, &mut out);
        Ok(out)
    }
}

fn empty_runtime() -> Runtime<NoModule> {
    let (rt, _) = Runtime::load_modules(Vec::new()).unwrap();
    rt
}

fn random_runtime() -> Runtime<RandomModule> {
    let (rt, _) = Runtime::load_modules(vec![("random".to_string(), RandomModule)]).unwrap();
    rt
}

fn var(n: &str) -> Expr {
    Expr::Ref(Ref::Var(n.to_string()))
}

fn ctx(n: &str) -> Expr {
    Expr::Ref(Ref::Ctx(n.to_string()))
}

fn num(i: i64) -> Expr {
    Expr::Const(RawValue::Num(i))
}

fn text(s: &str) -> Expr {
    Expr::Const(RawValue::Str(s.to_string()))
}

fn unit() -> Expr {
    Expr::Const(RawValue::Unit)
}

fn assign(lhs: Expr, rhs: Expr) -> Expr {
    Expr::Binary(Box::new(lhs), BinaryOp::Assign, Box::new(rhs))
}

fn inplace(lhs: Expr, op: ValBinaryOp, rhs: Expr) -> Expr {
    Expr::Binary(Box::new(lhs), BinaryOp::Inplace(op), Box::new(rhs))
}

fn add(lhs: Expr, rhs: Expr) -> Expr {
    Expr::Binary(Box::new(lhs), BinaryOp::Val(ValBinaryOp::Add), Box::new(rhs))
}

fn eq(lhs: Expr, rhs: Expr) -> Expr {
    Expr::Binary(Box::new(lhs), BinaryOp::Logic(LogicBinaryOp::Eq), Box::new(rhs))
}

fn call_if(args: Vec<Expr>) -> Expr {
    Expr::Call(String::new(), "if".to_string(), args)
}

#[test]
fn script_vars() {
    // the scripted programs below, as the parser would type them:
    //   a = 0; a += 1; a += a; a        => Num(2)
    //   a                               => Unit   (temp scope cleared)
    //   $a = 0; $a += 1; $a += a; $a    => Num(1)
    //   $a                              => Num(1) (record locals persist)
    let rt = empty_runtime();
    let mut locals = VarMap::new();

    let p1 = Program(vec![
        assign(var("a"), num(0)),
        inplace(var("a"), ValBinaryOp::Add, num(1)),
        inplace(var("a"), ValBinaryOp::Add, var("a")),
        var("a"),
    ]);
    assert_eq!(eval_program(&rt, &mut locals, &p1), RawValue::Num(2));

    let p2 = Program(vec![var("a")]);
    assert_eq!(eval_program(&rt, &mut locals, &p2), RawValue::Unit);

    let p3 = Program(vec![
        assign(ctx("a"), num(0)),
        inplace(ctx("a"), ValBinaryOp::Add, num(1)),
        inplace(ctx("a"), ValBinaryOp::Add, var("a")),
        ctx("a"),
    ]);
    assert_eq!(eval_program(&rt, &mut locals, &p3), RawValue::Num(1));

    let p4 = Program(vec![ctx("a")]);
    assert_eq!(eval_program(&rt, &mut locals, &p4), RawValue::Num(1));
}

#[test]
fn script_if_test() {
    // if(1 + 1 + 4 + 5 + 1 + 4 == 16, "sodayo", ~)  => Str("sodayo"),
    // whose numeric coercion is its length, 6
    let rt = empty_runtime();
    let mut locals = VarMap::new();

    let sum = add(add(add(add(add(num(1), num(1)), num(4)), num(5)), num(1)), num(4));
    let p1 = Program(vec![call_if(vec![eq(sum, num(16)), text("sodayo"), unit()])]);
    assert_eq!(eval_program(&rt, &mut locals, &p1).get_num(), 6);

    // if(true, "sodayo")  => Str("sodayo")
    let p2 = Program(vec![call_if(vec![
        Expr::Const(RawValue::Bool(true)),
        text("sodayo"),
    ])]);
    assert_eq!(
        eval_program(&rt, &mut locals, &p2).get_str(),
        "sodayo".to_string()
    );
}

#[test]
fn script_random() {
    // random.rnd(10)  => a number in [0, 10)
    let rt = random_runtime();
    let mut locals = VarMap::new();
    let p = Program(vec![Expr::Call(
        "random".to_string(),
        "rnd".to_string(),
        vec![num(10)],
    )]);
    let n = eval_program(&rt, &mut locals, &p).get_num();
    assert!((0..10).contains(&n));
}

#[test]
fn missing_function_and_namespace_yield_unit() {
    // random.nope(1) => Unit: the export is missing, the call fails, the
    // expression falls back to unit; an unknown namespace does the same
    let rt = random_runtime();
    let mut locals = VarMap::new();
    let p = Program(vec![Expr::Call(
        "random".to_string(),
        "nope".to_string(),
        vec![num(1)],
    )]);
    assert_eq!(eval_program(&rt, &mut locals, &p), RawValue::Unit);

    let p2 = Program(vec![Expr::Call(
        "nowhere".to_string(),
        "rnd".to_string(),
        vec![num(1)],
    )]);
    assert_eq!(eval_program(&rt, &mut locals, &p2), RawValue::Unit);
}

#[test]
fn coercion_formulas() {
    // the exact coercion tables
    assert_eq!(RawValue::Str("sodayo".to_string()).get_num(), 6);
    assert_eq!(RawValue::Num(-42).get_str(), "-42".to_string());
    assert_eq!(RawValue::Num(0).get_str(), "0".to_string());
    assert_eq!(RawValue::Bool(true).get_str(), "true".to_string());
    assert_eq!(RawValue::Bool(false).get_num(), 0);
    assert_eq!(RawValue::Unit.get_str(), String::new());
    assert!(!RawValue::Str(String::new()).get_bool());
    assert!(RawValue::Str("x".to_string()).get_bool());
    assert!(RawValue::Num(-1).get_bool());
    assert!(!RawValue::Unit.get_bool());
}

#[test]
fn string_arithmetic() {
    // "ab" * 3 repeats; "a" + 1 concatenates the decimal form
    let rt = empty_runtime();
    let mut locals = VarMap::new();
    let p = Program(vec![Expr::Binary(
        Box::new(text("ab")),
        BinaryOp::Val(ValBinaryOp::Mul),
        Box::new(num(3)),
    )]);
    assert_eq!(
        eval_program(&rt, &mut locals, &p),
        RawValue::Str("ababab".to_string())
    );

    let p2 = Program(vec![add(text("a"), num(1))]);
    assert_eq!(
        eval_program(&rt, &mut locals, &p2),
        RawValue::Str("a1".to_string())
    );
}

#[test]
fn division_is_total() {
    // division and remainder by zero are script errors that yield zero
    let rt = empty_runtime();
    let mut locals = VarMap::new();
    let p = Program(vec![Expr::Binary(
        Box::new(num(5)),
        BinaryOp::Val(ValBinaryOp::Div),
        Box::new(num(0)),
    )]);
    assert_eq!(eval_program(&rt, &mut locals, &p), RawValue::Num(0));
}

#[test]
fn dispatch_args_roundtrip() {
    // the argument tuple an interpreter call sends decodes to the values
    let vals = vec![
        RawValue::Unit,
        RawValue::Bool(true),
        RawValue::Num(-7),
        RawValue::Str("hi".to_string()),
    ];
    let w = values_to_wire(&vals);
    let mut bytes = Vec::new();
    encode_wire(&w, &mut bytes);
    let (back, end) = decode_wire(&bytes, 0).unwrap();
    assert_eq!(end, bytes.len());
    let vals2 = wire_to_values(&back).unwrap();
    assert_eq!(vals, vals2);
    match back {
        Wire::Arr(ws) => assert_eq!(ws.len(), 4),
        _ => panic!("the reply is no array"),
    }
}

#[test]
fn string_ordering() {
    // comparisons promote to the greater type and order strings by code
    // point
    let rt = empty_runtime();
    let mut locals = VarMap::new();
    let lt = |l: Expr, r: Expr| {
        Expr::Binary(
            Box::new(l),
            BinaryOp::Logic(LogicBinaryOp::Lt),
            Box::new(r),
        )
    };
    let p = Program(vec![lt(text("abc"), text("abd"))]);
    assert_eq!(eval_program(&rt, &mut locals, &p), RawValue::Bool(true));
    let p = Program(vec![lt(text("b"), text("ab"))]);
    assert_eq!(eval_program(&rt, &mut locals, &p), RawValue::Bool(false));
    // two units are equal and never ordered
    let p = Program(vec![eq(unit(), unit())]);
    assert_eq!(eval_program(&rt, &mut locals, &p), RawValue::Bool(true));
    let p = Program(vec![lt(unit(), unit())]);
    assert_eq!(eval_program(&rt, &mut locals, &p), RawValue::Bool(false));
}
