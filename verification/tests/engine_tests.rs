//! The playback engine and the view model: stepping, the locale
//! fallback, the history, and the save slots.

use ayaka_runtime::ast::{Command, Expr, Program, Ref, SubText, Text};
use ayaka_runtime::config::{choose_from, Game, Paragraph, PluginConfig};
use ayaka_runtime::context::Context;
use ayaka_runtime::plugin::{FrontendType, PluginError, RawModule, Runtime};
use ayaka_runtime::record::{Action, ActionLine, GlobalRecord, Settings};
use ayaka_runtime::varmap::VarMap;
use ayaka_runtime::value::RawValue;
use ayaka_runtime::vm::{open_status_sequence, GameViewModel, OpenGameStatus};

/// A backend with no modules at all.
struct NoModule;

impl RawModule for NoModule {
    fn call_raw(&self, _name: &str, _data: &Vec<u8>) -> Result<Vec<u8>, PluginError> {
        Err(PluginError {
            msg: "no module".to_string(),
        })
    }
}

fn empty_runtime() -> Runtime<NoModule> {
    let (rt, _) = Runtime::load_modules(Vec::new()).unwrap();
    rt
}

fn para(tag: &str, texts: Vec<Text>, next: Option<&str>) -> Paragraph {
    Paragraph {
        tag: tag.to_string(),
        title: None,
        texts,
        next: next.map(|n| Program(vec![Expr::Const(RawValue::Str(n.to_string()))])),
    }
}

fn game(paras: Vec<(String, Vec<Paragraph>)>, base_lang: &str) -> Game {
    Game {
        title: "demo".to_string(),
        author: String::new(),
        paras,
        plugins: PluginConfig {
            dir: "plugins".to_string(),
            modules: Vec::new(),
        },
        props: Vec::new(),
        res: Vec::new(),
        base_lang: base_lang.to_string(),
    }
}

fn settings(lang: &str) -> Settings {
    Settings {
        lang: lang.to_string(),
    }
}

fn line_chars(a: &Action) -> String {
    assert_eq!(a.line.len(), 1);
    match &a.line[0] {
        ActionLine::Chars(s) => s.clone(),
        ActionLine::Block(_) => panic!("the line is a block"),
    }
}

#[test]
fn paragraphs() {
    // [p0: texts=["hi $name"], next="p1"], [p1: texts=[], next=None],
    // with $name = "Ada": the first step shows "hi Ada", the second ends
    let hi = Text(vec![
        SubText::Str("hi ".to_string()),
        SubText::Cmd(Command::Ctx("name".to_string())),
    ]);
    let g = game(
        vec![(
            "en".to_string(),
            vec![para("p0", vec![hi], Some("p1")), para("p1", vec![], None)],
        )],
        "en",
    );
    let mut ctx = Context::new(g, empty_runtime(), settings("en"), FrontendType::Text);
    let preset = Program(vec![Expr::Binary(
        Box::new(Expr::Ref(Ref::Ctx("name".to_string()))),
        ayaka_runtime::ast::BinaryOp::Assign,
        Box::new(Expr::Const(RawValue::Str("Ada".to_string()))),
    )]);
    ctx.call(&preset);

    let a = ctx.next_run().unwrap();
    assert_eq!(line_chars(&a), "hi Ada".to_string());
    assert_eq!(a.para_tag, "p0".to_string());
    assert_eq!(a.act_index, 0);
    assert_eq!(ctx.record.cur_act, 1);

    assert!(ctx.next_run().is_none());
    assert_eq!(ctx.record.history.len(), 1);
}

#[test]
fn locale_fallback() {
    // base en: [a: texts=["E"]]; ja: [a: texts=[]]; current locale ja:
    // the step at `a` uses the English text
    let g = game(
        vec![
            (
                "en".to_string(),
                vec![para("a", vec![Text(vec![SubText::Str("E".to_string())])], None)],
            ),
            ("ja".to_string(), vec![para("a", vec![], None)]),
        ],
        "en",
    );
    let mut ctx = Context::new(g, empty_runtime(), settings("ja"), FrontendType::Text);
    let a = ctx.next_run().unwrap();
    assert_eq!(line_chars(&a), "E".to_string());
}

#[test]
fn forward_then_back() {
    // a forward step then a backward step restore the position and hand
    // the same cooked action back
    let g = game(
        vec![(
            "en".to_string(),
            vec![para(
                "p0",
                vec![
                    Text(vec![SubText::Str("one".to_string())]),
                    Text(vec![SubText::Str("two".to_string())]),
                ],
                None,
            )],
        )],
        "en",
    );
    let mut ctx = Context::new(g, empty_runtime(), settings("en"), FrontendType::Text);
    let before = (ctx.record.cur_para.clone(), ctx.record.cur_act);
    let a = ctx.next_run().unwrap();
    let b = ctx.next_back_run().unwrap();
    assert_eq!(line_chars(&a), line_chars(&b));
    assert_eq!(a.para_tag, b.para_tag);
    assert_eq!(a.act_index, b.act_index);
    assert_eq!((ctx.record.cur_para.clone(), ctx.record.cur_act), before);
    assert_eq!(ctx.record.history.len(), 0);

    // with an empty history a backward step reports nothing
    assert!(ctx.next_back_run().is_none());
}

#[test]
fn history_and_visited() {
    let g = game(
        vec![(
            "en".to_string(),
            vec![para(
                "p0",
                vec![
                    Text(vec![SubText::Str("one".to_string())]),
                    Text(vec![SubText::Str("two".to_string())]),
                ],
                None,
            )],
        )],
        "en",
    );
    let mut ctx = Context::new(g, empty_runtime(), settings("en"), FrontendType::Text);
    let a0 = ctx.next_run().unwrap();
    let a1 = ctx.next_run().unwrap();
    assert_eq!(ctx.record.history.len(), 2);
    assert_eq!(line_chars(&ctx.record.history[0]), line_chars(&a0));
    assert_eq!(line_chars(&ctx.record.history[1]), line_chars(&a1));
    assert_eq!(ctx.record.cur_act, 2);

    assert!(ctx.visited(&a0));
    assert!(ctx.visited(&a1));
    let elsewhere = Action {
        para_tag: "p9".to_string(),
        ..a0
    };
    assert!(!ctx.visited(&elsewhere));
}

#[test]
fn trimmed_lines() {
    // an evaluated text loses its leading and trailing whitespace
    let g = game(
        vec![(
            "en".to_string(),
            vec![para(
                "p0",
                vec![Text(vec![SubText::Str("  hello world \n".to_string())])],
                None,
            )],
        )],
        "en",
    );
    let mut ctx = Context::new(g, empty_runtime(), settings("en"), FrontendType::Text);
    let a = ctx.next_run().unwrap();
    assert_eq!(line_chars(&a), "hello world".to_string());
}

#[test]
fn view_model_slots_and_history() {
    let g = game(
        vec![(
            "en".to_string(),
            vec![para(
                "p0",
                vec![
                    Text(vec![SubText::Str("one".to_string())]),
                    Text(vec![SubText::Str("two".to_string())]),
                ],
                None,
            )],
        )],
        "en",
    );
    let mut vm: GameViewModel<NoModule> = GameViewModel::new(settings("en"));
    assert!(vm.start_new().is_err());
    vm.open_game(g, empty_runtime(), FrontendType::Text);
    assert!(vm.start_new().is_ok());

    assert!(vm.next_run());
    vm.save_record_to(0);
    assert_eq!(vm.get_records().len(), 1);
    assert!(vm.next_run());
    vm.save_record_to(7);
    assert_eq!(vm.get_records().len(), 2);
    vm.save_record_to(0);
    assert_eq!(vm.get_records().len(), 2);
    assert!(!vm.next_run());

    // the history comes most recent first
    let h = vm.history();
    assert_eq!(h.len(), 2);
    assert_eq!(line_chars(&h[0]), "two".to_string());
    assert_eq!(line_chars(&h[1]), "one".to_string());

    // resuming the second slot shows its last action
    assert!(vm.start_record(1).is_ok());
    match vm.current_run() {
        Some(a) => assert_eq!(line_chars(a), "two".to_string()),
        None => panic!("no action shown"),
    }
    assert!(vm.current_visited());
    assert!(vm.start_record(9).is_err());

    // a switch index past the shown action's switches is a bad argument
    assert!(vm.switch(0).is_err());

    let info = vm.info().unwrap();
    assert_eq!(info.title, "demo".to_string());
}

#[test]
fn locale_matching() {
    let keys = vec!["en".to_string(), "ja".to_string(), "zh-Hans".to_string()];
    assert_eq!(choose_from(&"ja".to_string(), &keys), Some(&"ja".to_string()));
    assert_eq!(
        choose_from(&"zh-Hant".to_string(), &keys),
        Some(&"zh-Hans".to_string())
    );
    assert_eq!(choose_from(&"fr".to_string(), &keys), None);
}

#[test]
fn open_status_order() {
    let names = vec!["alpha".to_string(), "beta".to_string()];
    let seq = open_status_sequence(&"game.yaml".to_string(), &names);
    assert_eq!(seq.len(), 8);
    match &seq[0] {
        OpenGameStatus::LoadProfile(p) => assert_eq!(p, &"game.yaml".to_string()),
        _ => panic!("the first stage is not the profile"),
    }
    assert!(matches!(seq[1], OpenGameStatus::CreateRuntime));
    match &seq[2] {
        OpenGameStatus::LoadPlugin(name, idx, total) => {
            assert_eq!(name, &"alpha".to_string());
            assert_eq!(*idx, 0);
            assert_eq!(*total, 2);
        }
        _ => panic!("the third stage is not a module"),
    }
    assert!(matches!(seq[4], OpenGameStatus::LoadSettings));
    assert!(matches!(seq[7], OpenGameStatus::Loaded));
}

#[test]
fn version_string() {
    assert_eq!(ayaka_runtime::version(), "0.1.0");
}

#[test]
fn numeric_local_in_text() {
    // a record local read by a text stringifies through the decimal form
    let t = Text(vec![
        SubText::Str("score ".to_string()),
        SubText::Cmd(Command::Ctx("score".to_string())),
    ]);
    let g = game(
        vec![("en".to_string(), vec![para("p0", vec![t], None)])],
        "en",
    );
    let mut ctx = Context::new(g, empty_runtime(), settings("en"), FrontendType::Text);
    let preset = Program(vec![Expr::Binary(
        Box::new(Expr::Ref(Ref::Ctx("score".to_string()))),
        ayaka_runtime::ast::BinaryOp::Assign,
        Box::new(Expr::Const(RawValue::Num(-12))),
    )]);
    ctx.call(&preset);
    let a = ctx.next_run().unwrap();
    assert_eq!(line_chars(&a), "score -12".to_string());
    // the action snapshots the record locals
    assert_eq!(
        a.vars.get(&"score".to_string()),
        Some(&RawValue::Num(-12))
    );
}

#[test]
fn start_new_resets_the_record() {
    let g = game(
        vec![(
            "en".to_string(),
            vec![para(
                "p0",
                vec![Text(vec![SubText::Str("one".to_string())])],
                None,
            )],
        )],
        "en",
    );
    let mut vm: GameViewModel<NoModule> = GameViewModel::new(settings("en"));
    vm.open_game(g, empty_runtime(), FrontendType::Text);
    assert!(vm.next_run());
    // a fresh start empties the history and returns to the first
    // paragraph of the base language
    assert!(vm.start_new().is_ok());
    vm.save_record_to(0);
    let rc = &vm.get_records()[0];
    assert_eq!(rc.cur_para, "p0".to_string());
    assert_eq!(rc.cur_act, 0);
    assert_eq!(rc.locals.len(), 0);
    assert_eq!(rc.history.len(), 0);
}

#[test]
fn global_record_is_replaced() {
    let g = game(Vec::new(), "en");
    let mut vm: GameViewModel<NoModule> = GameViewModel::new(settings("en"));
    assert!(vm.get_global_record().is_none());
    vm.open_game(g, empty_runtime(), FrontendType::Text);
    let mut vars = VarMap::new();
    vars.insert("visits".to_string(), RawValue::Num(3));
    vm.set_global_record(GlobalRecord { vars });
    let got = vm.get_global_record().unwrap();
    assert_eq!(
        got.vars.get(&"visits".to_string()),
        Some(&RawValue::Num(3))
    );
}

#[test]
fn start_record_restores_the_slot() {
    let g = game(
        vec![(
            "en".to_string(),
            vec![para(
                "p0",
                vec![
                    Text(vec![SubText::Str("one".to_string())]),
                    Text(vec![SubText::Str("two".to_string())]),
                ],
                None,
            )],
        )],
        "en",
    );
    let mut vm: GameViewModel<NoModule> = GameViewModel::new(settings("en"));
    vm.open_game(g, empty_runtime(), FrontendType::Text);
    assert!(vm.next_run());
    vm.save_record_to(0);
    assert!(vm.next_run());

    // the resumed engine stands where the slot stood: one step taken
    assert!(vm.start_record(0).is_ok());
    match vm.current_run() {
        Some(a) => assert_eq!(line_chars(a), "one".to_string()),
        None => panic!("no action shown"),
    }
    vm.save_record_to(1);
    let rc = &vm.get_records()[1];
    assert_eq!(rc.cur_act, 1);
    assert_eq!(rc.history.len(), 1);
}
