//! The line-command dispatch path: a script-executing line module, as a
//! front end would install one.

use ayaka_runtime::ast::{BinaryOp, Expr, Program, Ref, ValBinaryOp};
use ayaka_runtime::codec::{plugin_type_to_wire, value_to_wire, varmap_to_wire, wire_to_varmap};
use ayaka_runtime::plugin::{FrontendType, PluginError, PluginType, RawModule, Runtime};
use ayaka_runtime::config::{Game, PluginConfig};
use ayaka_runtime::record::{RawContext, Settings};
use ayaka_runtime::vm::GameViewModel;
use ayaka_runtime::script::eval_program;
use ayaka_runtime::value::RawValue;
use ayaka_runtime::varmap::VarMap;
use ayaka_runtime::wire::{decode_wire, encode_wire, Wire};

/// A native stand-in for the `random` script module.
struct RandomModule;

impl RawModule for RandomModule {
    fn call_raw(&self, name: &str, data: &Vec<u8>) -> Result<Vec<u8>, PluginError> {
        let (wire, _) = decode_wire(data, 0).ok_or_else(|| PluginError {
            msg: "bad call".to_string(),
        })?;
        if name == "plugin_type" {
            let reply = plugin_type_to_wire(&ayaka_runtime::plugins::random::plugin_type());
            let mut out = Vec::new();
            encode_wire(&reply, &mut out);
            return Ok(out);
        }
        if name != "rnd" {
            return Err(PluginError {
                msg: format!("no export {}", name),
            });
        }
        let args = ayaka_runtime::codec::wire_to_values(&wire).ok_or_else(|| PluginError {
            msg: "bad args".to_string(),
        })?;
        let value = ayaka_runtime::plugins::random::rnd(&args);
        let reply = value_to_wire(&value);
        let mut out = Vec::new();
        encode_wire(&reply, &mut out);
        Ok(out)
    }
}

/// A native stand-in for a script-executing line module: it advertises
/// the line command `exec`, reads the script under the `exec` prop, runs
/// the program that script names against fresh locals, and hands the
/// locals back.
struct ExecModule;

/// The program a script source names, as the parser would type it.
fn program_of(source: &str) -> Program {
    let var = |n: &str| Expr::Ref(Ref::Var(n.to_string()));
    let ctx = |n: &str| Expr::Ref(Ref::Ctx(n.to_string()));
    let num = |i: i64| Expr::Const(RawValue::Num(i));
    let text = |s: &str| Expr::Const(RawValue::Str(s.to_string()));
    let assign = |l: Expr, r: Expr| Expr::Binary(Box::new(l), BinaryOp::Assign, Box::new(r));
    let inplace =
        |l: Expr, r: Expr| Expr::Binary(Box::new(l), BinaryOp::Inplace(ValBinaryOp::Add), Box::new(r));
    let addexpr =
        |l: Expr, r: Expr| Expr::Binary(Box::new(l), BinaryOp::Val(ValBinaryOp::Add), Box::new(r));
    let eqexpr = |l: Expr, r: Expr| {
        Expr::Binary(
            Box::new(l),
            BinaryOp::Logic(ayaka_runtime::ast::LogicBinaryOp::Eq),
            Box::new(r),
        )
    };
    let call_if = |args: Vec<Expr>| Expr::Call(String::new(), "if".to_string(), args);
    match source {
        "a = 0; a += 1; a += a;" => Program(vec![
            assign(var("a"), num(0)),
            inplace(var("a"), num(1)),
            inplace(var("a"), var("a")),
        ]),
        "$a = 0; $a += 1; $a += a;" => Program(vec![
            assign(ctx("a"), num(0)),
            inplace(ctx("a"), num(1)),
            inplace(ctx("a"), var("a")),
        ]),
        "$a = if(1 + 1 + 4 + 5 + 1 + 4 == 16, \"sodayo\", ~)" => {
            let sum = addexpr(
                addexpr(addexpr(addexpr(addexpr(num(1), num(1)), num(4)), num(5)), num(1)),
                num(4),
            );
            Program(vec![assign(
                ctx("a"),
                call_if(vec![eqexpr(sum, num(16)), text("sodayo"), Expr::Const(RawValue::Unit)]),
            )])
        }
        "$a = if(true, \"sodayo\")" => Program(vec![assign(
            ctx("a"),
            call_if(vec![Expr::Const(RawValue::Bool(true)), text("sodayo")]),
        )]),
        "$a = random.rnd(10)" => Program(vec![assign(
            ctx("a"),
            Expr::Call("random".to_string(), "rnd".to_string(), vec![num(10)]),
        )]),
        _ => panic!("unknown script source"),
    }
}

impl RawModule for ExecModule {
    fn call_raw(&self, name: &str, data: &Vec<u8>) -> Result<Vec<u8>, PluginError> {
        let (wire, _) = decode_wire(data, 0).ok_or_else(|| PluginError {
            msg: "bad call".to_string(),
        })?;
        if name == "plugin_type" {
            let ty = PluginType {
                action: false,
                text: Vec::new(),
                line: vec!["exec".to_string()],
                game: false,
            };
            let reply = plugin_type_to_wire(&ty);
            let mut out = Vec::new();
            encode_wire(&reply, &mut out);
            return Ok(out);
        }
        if name != "exec" {
            return Err(PluginError {
                msg: format!("no export {}", name),
            });
        }
        // the call carries [game props, frontend, record, command props]
        let parts = match wire {
            Wire::Arr(ws) => ws,
            _ => {
                return Err(PluginError {
                    msg: "bad call shape".to_string(),
                })
            }
        };
        let props = wire_to_varmap(&parts[3]).ok_or_else(|| PluginError {
            msg: "bad props".to_string(),
        })?;
        let source = match props.get(&"exec".to_string()) {
            Some(RawValue::Str(s)) => s.clone(),
            _ => {
                return Err(PluginError {
                    msg: "no exec prop".to_string(),
                })
            }
        };
        let program = program_of(&source);
        let (rt, _) = Runtime::load_modules(vec![("random".to_string(), RandomModule)]).unwrap();
        let mut locals = VarMap::new();
        eval_program(&rt, &mut locals, &program);
        let reply = varmap_to_wire(&locals);
        let mut out = Vec::new();
        encode_wire(&reply, &mut out);
        Ok(out)
    }
}

fn exec_runtime() -> Runtime<ExecModule> {
    let (rt, _) = Runtime::load_modules(vec![("ayascript".to_string(), ExecModule)]).unwrap();
    rt
}

fn run_line(rt: &Runtime<ExecModule>, source: &str) -> VarMap {
    let game_props: Vec<(String, String)> = Vec::new();
    let ctx = RawContext {
        cur_para: String::new(),
        cur_act: 0,
        locals: VarMap::new(),
        history: Vec::new(),
    };
    let mut props = VarMap::new();
    props.insert("exec".to_string(), RawValue::Str(source.to_string()));
    let res = rt
        .dispatch_line(&"exec".to_string(), &game_props, FrontendType::Text, &ctx, &props)
        .unwrap();
    res.locals
}

#[test]
fn runtime_vars() {
    let rt = exec_runtime();
    let locals = run_line(&rt, "a = 0; a += 1; a += a;");
    assert!(locals.get(&"a".to_string()).is_none());

    let locals = run_line(&rt, "$a = 0; $a += 1; $a += a;");
    assert_eq!(locals.get(&"a".to_string()), Some(&RawValue::Num(1)));
}

#[test]
fn runtime_if_test() {
    let rt = exec_runtime();
    let locals = run_line(&rt, "$a = if(1 + 1 + 4 + 5 + 1 + 4 == 16, \"sodayo\", ~)");
    assert_eq!(locals.get(&"a".to_string()).unwrap().get_num(), 6);

    let locals = run_line(&rt, "$a = if(true, \"sodayo\")");
    assert_eq!(
        locals.get(&"a".to_string()).unwrap().get_str(),
        "sodayo".to_string()
    );
}

#[test]
fn runtime_random() {
    let rt = exec_runtime();
    let locals = run_line(&rt, "$a = random.rnd(10)");
    assert!((0..10).contains(&locals.get(&"a".to_string()).unwrap().get_num()));
}

/// Two modules advertising the same text command: the later one wins.
struct NamedText(&'static str);

impl RawModule for NamedText {
    fn call_raw(&self, name: &str, _data: &Vec<u8>) -> Result<Vec<u8>, PluginError> {
        if name == "plugin_type" {
            let ty = PluginType {
                action: false,
                text: vec!["c".to_string()],
                line: Vec::new(),
                game: false,
            };
            let reply = plugin_type_to_wire(&ty);
            let mut out = Vec::new();
            encode_wire(&reply, &mut out);
            return Ok(out);
        }
        let reply = Wire::Str(self.0.to_string());
        let mut out = Vec::new();
        encode_wire(&reply, &mut out);
        Ok(out)
    }
}

#[test]
fn text_command_later_module_wins() {
    let (rt, _) = Runtime::load_modules(vec![
        ("first".to_string(), NamedText("from first")),
        ("second".to_string(), NamedText("from second")),
    ])
    .unwrap();
    assert_eq!(
        rt.text_module_of(&"c".to_string()),
        Some(&"second".to_string())
    );
    let res = rt
        .dispatch_text(&"c".to_string(), &Vec::new(), &Vec::new(), FrontendType::Text)
        .unwrap();
    assert_eq!(res.text, "from second".to_string());

    let err = rt.dispatch_text(&"d".to_string(), &Vec::new(), &Vec::new(), FrontendType::Text);
    assert!(err.is_err());
}

#[test]
fn dispatch_method_reply() {
    let (rt, tys) = Runtime::load_modules(vec![("random".to_string(), RandomModule)]).unwrap();
    assert_eq!(tys.len(), 1);
    assert!(!tys[0].action);
    match rt.dispatch_method(&"random".to_string(), "rnd", &vec![RawValue::Num(10)]) {
        Some(Ok(RawValue::Num(n))) => assert!((0..10).contains(&n)),
        _ => panic!("the call did not produce a number"),
    }
}

/// A game module that stamps one property at load.
struct Stamper;

impl RawModule for Stamper {
    fn call_raw(&self, name: &str, data: &Vec<u8>) -> Result<Vec<u8>, PluginError> {
        let (wire, _) = decode_wire(data, 0).ok_or_else(|| PluginError {
            msg: "bad call".to_string(),
        })?;
        if name == "plugin_type" {
            let ty = PluginType {
                action: false,
                text: Vec::new(),
                line: Vec::new(),
                game: true,
            };
            let reply = plugin_type_to_wire(&ty);
            let mut out = Vec::new();
            encode_wire(&reply, &mut out);
            return Ok(out);
        }
        if name != "process_game" {
            return Err(PluginError {
                msg: format!("no export {}", name),
            });
        }
        // the call carries [title, author, props]; echo the title back
        // as a property beside the existing ones
        let parts = match wire {
            Wire::Arr(ws) => ws,
            _ => {
                return Err(PluginError {
                    msg: "bad call shape".to_string(),
                })
            }
        };
        let title = match &parts[0] {
            Wire::Str(s) => s.clone(),
            _ => {
                return Err(PluginError {
                    msg: "bad title".to_string(),
                })
            }
        };
        let mut props = ayaka_runtime::codec::wire_to_props(&parts[2]).ok_or_else(|| {
            PluginError {
                msg: "bad props".to_string(),
            }
        })?;
        props.push(("stamped".to_string(), title));
        let reply = ayaka_runtime::codec::props_to_wire(&props);
        let mut out = Vec::new();
        encode_wire(&reply, &mut out);
        Ok(out)
    }
}

#[test]
fn game_module_rewrites_props() {
    let (rt, _) = Runtime::load_modules(vec![("stamp".to_string(), Stamper)]).unwrap();
    let game = Game {
        title: "demo".to_string(),
        author: String::new(),
        paras: Vec::new(),
        plugins: PluginConfig {
            dir: String::new(),
            modules: Vec::new(),
        },
        props: vec![("kept".to_string(), "yes".to_string())],
        res: Vec::new(),
        base_lang: "en".to_string(),
    };
    let mut vm: GameViewModel<Stamper> = GameViewModel::new(Settings {
        lang: "en".to_string(),
    });
    vm.open_game(game, rt, FrontendType::Text);
    let info = vm.info().unwrap();
    assert_eq!(info.props.len(), 2);
    assert_eq!(info.props[0], ("kept".to_string(), "yes".to_string()));
    assert_eq!(info.props[1], ("stamped".to_string(), "demo".to_string()));
}
