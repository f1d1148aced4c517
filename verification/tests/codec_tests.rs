//! The byte codec and the persisted record format.

use ayaka_runtime::ast::{BinaryOp, Command, Expr, Program, Ref, ValBinaryOp};
use ayaka_runtime::plugin::FrontendType;
use ayaka_runtime::record::{Action, ActionLine, RawContext, Switch};
use ayaka_runtime::serial::{deserialize_context, serialize_context};
use ayaka_runtime::value::RawValue;
use ayaka_runtime::varmap::VarMap;
use ayaka_runtime::wire::{decode_wire, encode_wire, Wire};

fn sample_record() -> RawContext {
    let mut locals = VarMap::new();
    locals.insert("name".to_string(), RawValue::Str("Ada".to_string()));
    locals.insert("flag".to_string(), RawValue::Bool(true));
    locals.insert("count".to_string(), RawValue::Num(-3));
    let mut vars = VarMap::new();
    vars.insert("name".to_string(), RawValue::Str("Ada".to_string()));
    let guarded = Program(vec![Expr::Binary(
        Box::new(Expr::Ref(Ref::Ctx("flag".to_string()))),
        BinaryOp::Assign,
        Box::new(Expr::Const(RawValue::Bool(true))),
    )]);
    let action = Action {
        para_tag: "p0".to_string(),
        act_index: 0,
        line: vec![
            ActionLine::Chars("hi Ada".to_string()),
            ActionLine::Block("aside".to_string()),
        ],
        character: Some("ada".to_string()),
        switches: vec![Switch {
            text: "go".to_string(),
            enabled: true,
            action: guarded,
        }],
        vars,
        residuals: vec![
            Command::Res("bgm".to_string()),
            Command::Other("video".to_string(), vec!["intro".to_string()]),
        ],
    };
    RawContext {
        cur_para: "p0".to_string(),
        cur_act: 1,
        locals,
        history: vec![action],
    }
}

#[test]
fn record_roundtrip() {
    // deserialize(serialize(rc)) gives rc back, field by field
    let rc = sample_record();
    let bytes = serialize_context(&rc);
    let back = deserialize_context(&bytes).unwrap();

    assert_eq!(back.cur_para, rc.cur_para);
    assert_eq!(back.cur_act, rc.cur_act);
    assert_eq!(back.locals, rc.locals);
    assert_eq!(back.history.len(), 1);
    let (a, b) = (&back.history[0], &rc.history[0]);
    assert_eq!(a.para_tag, b.para_tag);
    assert_eq!(a.act_index, b.act_index);
    assert_eq!(a.character, b.character);
    assert_eq!(a.vars, b.vars);
    assert_eq!(a.line.len(), 2);
    assert!(matches!(&a.line[0], ActionLine::Chars(s) if s == "hi Ada"));
    assert!(matches!(&a.line[1], ActionLine::Block(s) if s == "aside"));
    assert_eq!(a.switches.len(), 1);
    assert_eq!(a.switches[0].text, b.switches[0].text);
    assert_eq!(a.switches[0].enabled, b.switches[0].enabled);
    assert_eq!(a.switches[0].action.0.len(), 1);
    assert_eq!(a.residuals.len(), 2);

    // serializing what came back gives the same bytes
    let bytes2 = serialize_context(&back);
    assert_eq!(bytes, bytes2);
}

#[test]
fn malformed_bytes_rejected() {
    let rc = sample_record();
    let mut bytes = serialize_context(&rc);
    // a truncated buffer is rejected
    bytes.pop();
    assert!(deserialize_context(&bytes).is_none());

    // trailing bytes are rejected
    let mut bytes = serialize_context(&rc);
    bytes.push(0);
    assert!(deserialize_context(&bytes).is_none());

    // an unknown tag is rejected
    assert!(deserialize_context(&vec![9u8]).is_none());
}

#[test]
fn wire_nesting() {
    let w = Wire::Arr(vec![
        Wire::Nil,
        Wire::Bool(false),
        Wire::Int(i64::MIN),
        Wire::Str("héllo".to_string()),
        Wire::Arr(vec![Wire::Int(7)]),
    ]);
    let mut bytes = Vec::new();
    encode_wire(&w, &mut bytes);
    let (back, end) = decode_wire(&bytes, 0).unwrap();
    assert_eq!(end, bytes.len());
    match back {
        Wire::Arr(ws) => {
            assert_eq!(ws.len(), 5);
            assert!(matches!(ws[0], Wire::Nil));
            assert!(matches!(ws[2], Wire::Int(n) if n == i64::MIN));
            assert!(matches!(&ws[3], Wire::Str(s) if s == "héllo"));
        }
        _ => panic!("the node is no array"),
    }
}

#[test]
fn markdown_rendering() {
    // the action pipeline of the markdown module renders an HTML line;
    // a text front end sees the action unchanged
    let action = Action {
        para_tag: "p0".to_string(),
        act_index: 0,
        line: vec![ActionLine::Chars("# Title".to_string())],
        character: None,
        switches: Vec::new(),
        vars: VarMap::new(),
        residuals: Vec::new(),
    };
    let rendered = ayaka_runtime::plugins::markdown::process_action(FrontendType::Html, action);
    assert_eq!(rendered.line.len(), 1);
    match &rendered.line[0] {
        ActionLine::Chars(s) => assert_eq!(s, "<h1>Title</h1>"),
        ActionLine::Block(_) => panic!("the line is a block"),
    }

    let action = Action {
        para_tag: "p0".to_string(),
        act_index: 0,
        line: vec![ActionLine::Chars("# Title".to_string())],
        character: None,
        switches: Vec::new(),
        vars: VarMap::new(),
        residuals: Vec::new(),
    };
    let kept = ayaka_runtime::plugins::markdown::process_action(FrontendType::Text, action);
    match &kept.line[0] {
        ActionLine::Chars(s) => assert_eq!(s, "# Title"),
        ActionLine::Block(_) => panic!("the line is a block"),
    }
}

#[test]
fn rnd_ranges() {
    let one = ayaka_runtime::plugins::random::rnd(&vec![RawValue::Num(10)]);
    match one {
        RawValue::Num(n) => assert!((0..10).contains(&n)),
        _ => panic!("one bound gives a number"),
    }
    let two = ayaka_runtime::plugins::random::rnd(&vec![RawValue::Num(5), RawValue::Num(7)]);
    match two {
        RawValue::Num(n) => assert!((5..7).contains(&n)),
        _ => panic!("two bounds give a number"),
    }
    let none = ayaka_runtime::plugins::random::rnd(&Vec::new());
    assert!(matches!(none, RawValue::Num(_)));
    // an empty range is a script error and yields unit
    let empty = ayaka_runtime::plugins::random::rnd(&vec![RawValue::Num(0)]);
    assert_eq!(empty, RawValue::Unit);
}

#[test]
fn value_wire_forms() {
    // one byte of tag for nil and booleans, nine for an integer
    let mut bytes = Vec::new();
    encode_wire(&Wire::Nil, &mut bytes);
    assert_eq!(bytes, vec![0u8]);
    let mut bytes = Vec::new();
    encode_wire(&Wire::Bool(true), &mut bytes);
    assert_eq!(bytes, vec![2u8]);
    let mut bytes = Vec::new();
    encode_wire(&Wire::Int(1), &mut bytes);
    assert_eq!(bytes, vec![3u8, 1, 0, 0, 0, 0, 0, 0, 0]);
    // a string is its tag, its byte length, and its UTF-8 bytes
    let mut bytes = Vec::new();
    encode_wire(&Wire::Str("ab".to_string()), &mut bytes);
    assert_eq!(bytes, vec![4u8, 2, 0, 0, 0, 0, 0, 0, 0, 97, 98]);
}

#[test]
fn varmap_insert_replaces_equal_keys() {
    // inserting an existing key keeps one entry and its place
    let mut m = VarMap::new();
    m.insert("a".to_string(), RawValue::Num(1));
    m.insert("b".to_string(), RawValue::Num(2));
    m.insert("a".to_string(), RawValue::Num(3));
    assert_eq!(m.len(), 2);
    assert_eq!(m.get(&"a".to_string()), Some(&RawValue::Num(3)));
    assert_eq!(m.key_at(0), &"a".to_string());
    assert_eq!(m.key_at(1), &"b".to_string());
    assert_eq!(m.get(&"c".to_string()), None);
}

#[test]
fn empty_record_roundtrip() {
    let rc = RawContext {
        cur_para: String::new(),
        cur_act: 0,
        locals: VarMap::new(),
        history: Vec::new(),
    };
    let bytes = serialize_context(&rc);
    let back = deserialize_context(&bytes).unwrap();
    assert_eq!(back.cur_para, String::new());
    assert_eq!(back.cur_act, 0);
    assert_eq!(back.locals.len(), 0);
    assert_eq!(back.history.len(), 0);
}
