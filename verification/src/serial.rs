//! Persisted records and pipeline messages as wire trees.
//!
//! Compiled programs travel inside saved records and switch actions, so
//! the whole record type has a wire form with a proved round trip.

use crate::ast::{
    exprs_view, BinaryOp, Expr, ExprV, LogicBinaryOp, Ref, RefV, UnaryOp, ValBinaryOp,
};
use crate::codec::{sp_value_wire, sp_wire_value, value_to_wire, wire_to_value};
use crate::value::ValueV;
use crate::wire::{wires_view, Wire, WireV};
use vstd::prelude::*;

verus! {

broadcast use vstd::seq::axiom_seq_index_decreases, vstd::std_specs::vec::axiom_vec_decreases_to_view, vstd::std_specs::vec::axiom_vec_index_decreases;

/// The code of a unary operator.
pub open spec fn sp_un_code(op: UnaryOp) -> i64 {
    match op {
        UnaryOp::Positive => 0,
        UnaryOp::Negative => 1,
        UnaryOp::Not => 2,
    }
}

/// The code of a value operator.
pub open spec fn sp_val_code(op: ValBinaryOp) -> i64 {
    match op {
        ValBinaryOp::Add => 0,
        ValBinaryOp::Minus => 1,
        ValBinaryOp::Mul => 2,
        ValBinaryOp::Div => 3,
        ValBinaryOp::Mod => 4,
        ValBinaryOp::And => 5,
        ValBinaryOp::Or => 6,
        ValBinaryOp::Xor => 7,
    }
}

/// The code of a logic operator.
pub open spec fn sp_logic_code(op: LogicBinaryOp) -> i64 {
    match op {
        LogicBinaryOp::And => 0,
        LogicBinaryOp::Or => 1,
        LogicBinaryOp::Eq => 2,
        LogicBinaryOp::Neq => 3,
        LogicBinaryOp::Lt => 4,
        LogicBinaryOp::Le => 5,
        LogicBinaryOp::Gt => 6,
        LogicBinaryOp::Ge => 7,
    }
}

/// The unary operator of a code.
pub open spec fn sp_un_of(code: i64) -> Option<UnaryOp> {
    if code == 0 {
        Some(UnaryOp::Positive)
    } else if code == 1 {
        Some(UnaryOp::Negative)
    } else if code == 2 {
        Some(UnaryOp::Not)
    } else {
        None
    }
}

/// The value operator of a code.
pub open spec fn sp_val_of(code: i64) -> Option<ValBinaryOp> {
    if code == 0 {
        Some(ValBinaryOp::Add)
    } else if code == 1 {
        Some(ValBinaryOp::Minus)
    } else if code == 2 {
        Some(ValBinaryOp::Mul)
    } else if code == 3 {
        Some(ValBinaryOp::Div)
    } else if code == 4 {
        Some(ValBinaryOp::Mod)
    } else if code == 5 {
        Some(ValBinaryOp::And)
    } else if code == 6 {
        Some(ValBinaryOp::Or)
    } else if code == 7 {
        Some(ValBinaryOp::Xor)
    } else {
        None
    }
}

/// The logic operator of a code.
pub open spec fn sp_logic_of(code: i64) -> Option<LogicBinaryOp> {
    if code == 0 {
        Some(LogicBinaryOp::And)
    } else if code == 1 {
        Some(LogicBinaryOp::Or)
    } else if code == 2 {
        Some(LogicBinaryOp::Eq)
    } else if code == 3 {
        Some(LogicBinaryOp::Neq)
    } else if code == 4 {
        Some(LogicBinaryOp::Lt)
    } else if code == 5 {
        Some(LogicBinaryOp::Le)
    } else if code == 6 {
        Some(LogicBinaryOp::Gt)
    } else if code == 7 {
        Some(LogicBinaryOp::Ge)
    } else {
        None
    }
}

/// The two codes of a binary operator: its kind and its table entry.
pub open spec fn sp_bin_codes(op: BinaryOp) -> (i64, i64) {
    match op {
        BinaryOp::Val(v) => (0, sp_val_code(v)),
        BinaryOp::Logic(l) => (1, sp_logic_code(l)),
        BinaryOp::Assign => (2, 0),
        BinaryOp::Inplace(v) => (3, sp_val_code(v)),
    }
}

/// The binary operator of two codes.
pub open spec fn sp_bin_of(kind: i64, code: i64) -> Option<BinaryOp> {
    if kind == 0 {
        match sp_val_of(code) {
            Some(v) => Some(BinaryOp::Val(v)),
            None => None,
        }
    } else if kind == 1 {
        match sp_logic_of(code) {
            Some(l) => Some(BinaryOp::Logic(l)),
            None => None,
        }
    } else if kind == 2 {
        if code == 0 {
            Some(BinaryOp::Assign)
        } else {
            None
        }
    } else if kind == 3 {
        match sp_val_of(code) {
            Some(v) => Some(BinaryOp::Inplace(v)),
            None => None,
        }
    } else {
        None
    }
}

/// The wire form of an expression.
pub open spec fn sp_expr_wire(e: ExprV) -> WireV
    decreases e, 1int,
{
    match e {
        ExprV::Ref(RefV::Var(n)) => WireV::Arr(seq![WireV::Int(0), WireV::Str(n)]),
        ExprV::Ref(RefV::Ctx(n)) => WireV::Arr(seq![WireV::Int(1), WireV::Str(n)]),
        ExprV::Const(v) => WireV::Arr(seq![WireV::Int(2), sp_value_wire(v)]),
        ExprV::Unary(op, inner) => WireV::Arr(
            seq![WireV::Int(3), WireV::Int(sp_un_code(op)), sp_expr_wire(*inner)],
        ),
        ExprV::Binary(l, op, r) => WireV::Arr(
            seq![
                WireV::Int(4),
                WireV::Int(sp_bin_codes(op).0),
                WireV::Int(sp_bin_codes(op).1),
                sp_expr_wire(*l),
                sp_expr_wire(*r),
            ],
        ),
        ExprV::Call(ns, name, args) => WireV::Arr(
            seq![
                WireV::Int(5),
                WireV::Str(ns),
                WireV::Str(name),
                WireV::Arr(sp_exprs_wire(args)),
            ],
        ),
    }
}

/// The wire forms of a sequence of expressions.
pub open spec fn sp_exprs_wire(es: Seq<ExprV>) -> Seq<WireV>
    decreases es, 2int,
{
    Seq::new(
        es.len(),
        |i: int|
            if 0 <= i < es.len() {
                sp_expr_wire(es[i])
            } else {
                WireV::Nil
            },
    )
}

/// The expression a wire node holds.
pub open spec fn sp_wire_expr(w: WireV) -> Option<ExprV>
    decreases w, 1int,
{
    match w {
        WireV::Arr(ws) => if ws.len() == 2 && ws[0] == WireV::Int(0) && ws[1] is Str {
            Some(ExprV::Ref(RefV::Var(ws[1]->Str_0)))
        } else if ws.len() == 2 && ws[0] == WireV::Int(1) && ws[1] is Str {
            Some(ExprV::Ref(RefV::Ctx(ws[1]->Str_0)))
        } else if ws.len() == 2 && ws[0] == WireV::Int(2) {
            match sp_wire_value(ws[1]) {
                Some(v) => Some(ExprV::Const(v)),
                None => None,
            }
        } else if ws.len() == 3 && ws[0] == WireV::Int(3) && ws[1] is Int {
            match (sp_un_of(ws[1]->Int_0), sp_wire_expr(ws[2])) {
                (Some(op), Some(inner)) => Some(ExprV::Unary(op, Box::new(inner))),
                _ => None,
            }
        } else if ws.len() == 5 && ws[0] == WireV::Int(4) && ws[1] is Int && ws[2] is Int {
            match (sp_bin_of(ws[1]->Int_0, ws[2]->Int_0), sp_wire_expr(ws[3]), sp_wire_expr(
                ws[4],
            )) {
                (Some(op), Some(l), Some(r)) => Some(
                    ExprV::Binary(Box::new(l), op, Box::new(r)),
                ),
                _ => None,
            }
        } else if ws.len() == 4 && ws[0] == WireV::Int(5) && ws[1] is Str && ws[2] is Str && ws[3]
            is Arr {
            match sp_wire_exprs(ws[3]->Arr_0) {
                Some(args) => Some(ExprV::Call(ws[1]->Str_0, ws[2]->Str_0, args)),
                None => None,
            }
        } else {
            None
        },
        _ => None,
    }
}

/// The expressions a sequence of wire nodes holds.
pub open spec fn sp_wire_exprs(ws: Seq<WireV>) -> Option<Seq<ExprV>>
    decreases ws, 2int,
{
    if forall|i: int| 0 <= i < ws.len() ==> sp_wire_expr(#[trigger] ws[i]) is Some {
        Some(
            Seq::new(
                ws.len(),
                |i: int|
                    if 0 <= i < ws.len() {
                        sp_wire_expr(ws[i])->Some_0
                    } else {
                        ExprV::Const(ValueV::Unit)
                    },
            ),
        )
    } else {
        None
    }
}

/// Reading back the wire form of an expression gives the expression.
pub proof fn lemma_expr_wire_roundtrip(e: ExprV)
    ensures
        sp_wire_expr(sp_expr_wire(e)) == Some(e),
    decreases e, 1int,
{
    match e {
        ExprV::Ref(_) => {},
        ExprV::Const(_) => {},
        ExprV::Unary(op, inner) => {
            lemma_expr_wire_roundtrip(*inner);
        },
        ExprV::Binary(l, op, r) => {
            lemma_expr_wire_roundtrip(*l);
            lemma_expr_wire_roundtrip(*r);
        },
        ExprV::Call(ns, name, args) => {
            lemma_exprs_wire_roundtrip(args);
        },
    }
}

/// Reading back the wire forms of expressions gives the expressions.
pub proof fn lemma_exprs_wire_roundtrip(es: Seq<ExprV>)
    ensures
        sp_wire_exprs(sp_exprs_wire(es)) == Some(es),
    decreases es, 2int,
{
    let ws = sp_exprs_wire(es);
    assert forall|i: int| 0 <= i < ws.len() implies sp_wire_expr(#[trigger] ws[i]) is Some by {
        lemma_expr_wire_roundtrip(es[i]);
    }
    assert forall|i: int| 0 <= i < ws.len() implies sp_wire_expr(#[trigger] ws[i])->Some_0
        == es[i] by {
        lemma_expr_wire_roundtrip(es[i]);
    }
    assert(sp_wire_exprs(ws)->Some_0 =~= es);
}

/// Builds the wire form of an expression.
#[verifier::loop_isolation(false)]
pub fn expr_to_wire(e: &Expr) -> (w: Wire)
    ensures
        w.deep_view() == sp_expr_wire(e.deep_view()),
    decreases e,
{
    match e {
        Expr::Ref(Ref::Var(n)) => {
            let mut ws: Vec<Wire> = Vec::new();
            ws.push(Wire::Int(0));
            ws.push(Wire::Str(n.clone()));
            let w = Wire::Arr(ws);
            proof {
                assert(wires_view(ws@) =~= seq![WireV::Int(0), WireV::Str(n@)]);
            }
            w
        },
        Expr::Ref(Ref::Ctx(n)) => {
            let mut ws: Vec<Wire> = Vec::new();
            ws.push(Wire::Int(1));
            ws.push(Wire::Str(n.clone()));
            let w = Wire::Arr(ws);
            proof {
                assert(wires_view(ws@) =~= seq![WireV::Int(1), WireV::Str(n@)]);
            }
            w
        },
        Expr::Const(v) => {
            let mut ws: Vec<Wire> = Vec::new();
            ws.push(Wire::Int(2));
            ws.push(value_to_wire(v));
            let w = Wire::Arr(ws);
            proof {
                assert(wires_view(ws@) =~= seq![WireV::Int(2), sp_value_wire(v@)]);
            }
            w
        },
        Expr::Unary(op, inner) => {
            let code: i64 = match op {
                UnaryOp::Positive => 0,
                UnaryOp::Negative => 1,
                UnaryOp::Not => 2,
            };
            let mut ws: Vec<Wire> = Vec::new();
            ws.push(Wire::Int(3));
            ws.push(Wire::Int(code));
            ws.push(expr_to_wire(inner));
            let w = Wire::Arr(ws);
            proof {
                assert(wires_view(ws@) =~= seq![
                    WireV::Int(3),
                    WireV::Int(sp_un_code(*op)),
                    sp_expr_wire(inner.deep_view()),
                ]);
            }
            w
        },
        Expr::Binary(l, op, r) => {
            let (kind, code): (i64, i64) = match op {
                BinaryOp::Val(v) => (0, val_code(v)),
                BinaryOp::Logic(lo) => (1, logic_code(lo)),
                BinaryOp::Assign => (2, 0),
                BinaryOp::Inplace(v) => (3, val_code(v)),
            };
            let mut ws: Vec<Wire> = Vec::new();
            ws.push(Wire::Int(4));
            ws.push(Wire::Int(kind));
            ws.push(Wire::Int(code));
            ws.push(expr_to_wire(l));
            ws.push(expr_to_wire(r));
            let w = Wire::Arr(ws);
            proof {
                assert(wires_view(ws@) =~= seq![
                    WireV::Int(4),
                    WireV::Int(sp_bin_codes(*op).0),
                    WireV::Int(sp_bin_codes(*op).1),
                    sp_expr_wire(l.deep_view()),
                    sp_expr_wire(r.deep_view()),
                ]);
            }
            w
        },
        Expr::Call(ns, name, args) => {
            let mut elems: Vec<Wire> = Vec::new();
            let n = args.len();
            for i in 0..n
                invariant
                    n == args@.len(),
                    elems@.len() == i,
                    forall|j: int| 0 <= j < i ==> (#[trigger] elems@[j]).deep_view()
                        == sp_expr_wire(args@[j].deep_view()),
                decreases n - i,
            {
                elems.push(expr_to_wire(&args[i]));
            }
            proof {
                assert(wires_view(elems@) =~= sp_exprs_wire(exprs_view(args@)));
            }
            let mut ws: Vec<Wire> = Vec::new();
            ws.push(Wire::Int(5));
            ws.push(Wire::Str(ns.clone()));
            ws.push(Wire::Str(name.clone()));
            ws.push(Wire::Arr(elems));
            let w = Wire::Arr(ws);
            proof {
                assert(wires_view(ws@) =~= seq![
                    WireV::Int(5),
                    WireV::Str(ns@),
                    WireV::Str(name@),
                    WireV::Arr(sp_exprs_wire(exprs_view(args@))),
                ]);
            }
            w
        },
    }
}

/// The code of a value operator.
fn val_code(op: &ValBinaryOp) -> (c: i64)
    ensures
        c == sp_val_code(*op),
{
    match op {
        ValBinaryOp::Add => 0,
        ValBinaryOp::Minus => 1,
        ValBinaryOp::Mul => 2,
        ValBinaryOp::Div => 3,
        ValBinaryOp::Mod => 4,
        ValBinaryOp::And => 5,
        ValBinaryOp::Or => 6,
        ValBinaryOp::Xor => 7,
    }
}

/// The code of a logic operator.
fn logic_code(op: &LogicBinaryOp) -> (c: i64)
    ensures
        c == sp_logic_code(*op),
{
    match op {
        LogicBinaryOp::And => 0,
        LogicBinaryOp::Or => 1,
        LogicBinaryOp::Eq => 2,
        LogicBinaryOp::Neq => 3,
        LogicBinaryOp::Lt => 4,
        LogicBinaryOp::Le => 5,
        LogicBinaryOp::Gt => 6,
        LogicBinaryOp::Ge => 7,
    }
}

/// Reads an expression from a wire node.
#[verifier::loop_isolation(false)]
pub fn wire_to_expr(w: &Wire) -> (r: Option<Expr>)
    ensures
        match r {
            Some(e) => sp_wire_expr(w.deep_view()) == Some(e.deep_view()),
            None => sp_wire_expr(w.deep_view()) is None,
        },
    decreases w,
{
    let ws = match w {
        Wire::Arr(ws) => ws,
        _ => {
            return None;
        },
    };
    let ghost wsv = wires_view(ws@);
    if ws.len() == 0 {
        return None;
    }
    let tag: i64 = match &ws[0] {
        Wire::Int(t) => *t,
        _ => {
            return None;
        },
    };
    proof {
        assert(wsv[0] == WireV::Int(tag));
    }
    if tag == 0 || tag == 1 {
        if ws.len() != 2 {
            return None;
        }
        let n = match &ws[1] {
            Wire::Str(n) => n.clone(),
            _ => {
                return None;
            },
        };
        if tag == 0 {
            Some(Expr::Ref(Ref::Var(n)))
        } else {
            Some(Expr::Ref(Ref::Ctx(n)))
        }
    } else if tag == 2 {
        if ws.len() != 2 {
            return None;
        }
        match wire_to_value(&ws[1]) {
            Some(v) => Some(Expr::Const(v)),
            None => None,
        }
    } else if tag == 3 {
        if ws.len() != 3 {
            return None;
        }
        let code: i64 = match &ws[1] {
            Wire::Int(c) => *c,
            _ => {
                return None;
            },
        };
        let op = if code == 0 {
            UnaryOp::Positive
        } else if code == 1 {
            UnaryOp::Negative
        } else if code == 2 {
            UnaryOp::Not
        } else {
            return None;
        };
        match wire_to_expr(&ws[2]) {
            Some(inner) => Some(Expr::Unary(op, Box::new(inner))),
            None => None,
        }
    } else if tag == 4 {
        if ws.len() != 5 {
            return None;
        }
        let kind: i64 = match &ws[1] {
            Wire::Int(c) => *c,
            _ => {
                return None;
            },
        };
        let code: i64 = match &ws[2] {
            Wire::Int(c) => *c,
            _ => {
                return None;
            },
        };
        let op = match bin_of(kind, code) {
            Some(op) => op,
            None => {
                return None;
            },
        };
        let l = match wire_to_expr(&ws[3]) {
            Some(e) => e,
            None => {
                return None;
            },
        };
        let r = match wire_to_expr(&ws[4]) {
            Some(e) => e,
            None => {
                return None;
            },
        };
        Some(Expr::Binary(Box::new(l), op, Box::new(r)))
    } else if tag == 5 {
        if ws.len() != 4 {
            return None;
        }
        let ns = match &ws[1] {
            Wire::Str(s) => s.clone(),
            _ => {
                return None;
            },
        };
        let name = match &ws[2] {
            Wire::Str(s) => s.clone(),
            _ => {
                return None;
            },
        };
        let arg_ws = match &ws[3] {
            Wire::Arr(a) => a,
            _ => {
                return None;
            },
        };
        let ghost awv = wires_view(arg_ws@);
        let mut args: Vec<Expr> = Vec::new();
        let cnt = arg_ws.len();
        let mut i: usize = 0;
        while i < cnt
            invariant
                cnt == awv.len(),
                args@.len() == i,
                i <= cnt,
                forall|j: int| 0 <= j < i ==> sp_wire_expr(#[trigger] awv[j]) == Some(
                    args@[j].deep_view(),
                ),
            decreases cnt - i,
        {
            match wire_to_expr(&arg_ws[i]) {
                Some(e) => {
                    args.push(e);
                },
                None => {
                    proof {
                        assert(sp_wire_expr(awv[i as int]) is None);
                    }
                    return None;
                },
            }
            i = i + 1;
        }
        proof {
            assert(forall|j: int| 0 <= j < awv.len() ==> sp_wire_expr(#[trigger] awv[j]) is Some);
            assert(sp_wire_exprs(awv)->Some_0 =~= exprs_view(args@));
        }
        Some(Expr::Call(ns, name, args))
    } else {
        None
    }
}

/// The binary operator of two codes.
fn bin_of(kind: i64, code: i64) -> (r: Option<BinaryOp>)
    ensures
        r == sp_bin_of(kind, code),
{
    if kind == 0 || kind == 3 {
        let v = if code == 0 {
            ValBinaryOp::Add
        } else if code == 1 {
            ValBinaryOp::Minus
        } else if code == 2 {
            ValBinaryOp::Mul
        } else if code == 3 {
            ValBinaryOp::Div
        } else if code == 4 {
            ValBinaryOp::Mod
        } else if code == 5 {
            ValBinaryOp::And
        } else if code == 6 {
            ValBinaryOp::Or
        } else if code == 7 {
            ValBinaryOp::Xor
        } else {
            return None;
        };
        if kind == 0 {
            Some(BinaryOp::Val(v))
        } else {
            Some(BinaryOp::Inplace(v))
        }
    } else if kind == 1 {
        if code == 0 {
            Some(BinaryOp::Logic(LogicBinaryOp::And))
        } else if code == 1 {
            Some(BinaryOp::Logic(LogicBinaryOp::Or))
        } else if code == 2 {
            Some(BinaryOp::Logic(LogicBinaryOp::Eq))
        } else if code == 3 {
            Some(BinaryOp::Logic(LogicBinaryOp::Neq))
        } else if code == 4 {
            Some(BinaryOp::Logic(LogicBinaryOp::Lt))
        } else if code == 5 {
            Some(BinaryOp::Logic(LogicBinaryOp::Le))
        } else if code == 6 {
            Some(BinaryOp::Logic(LogicBinaryOp::Gt))
        } else if code == 7 {
            Some(BinaryOp::Logic(LogicBinaryOp::Ge))
        } else {
            None
        }
    } else if kind == 2 {
        if code == 0 {
            Some(BinaryOp::Assign)
        } else {
            None
        }
    } else {
        None
    }
}


/// The wire form of a displayed line piece.
pub open spec fn sp_line_wire(l: crate::record::ActionLineV) -> WireV {
    match l {
        crate::record::ActionLineV::Chars(s) => WireV::Arr(seq![WireV::Int(0), WireV::Str(s)]),
        crate::record::ActionLineV::Block(s) => WireV::Arr(seq![WireV::Int(1), WireV::Str(s)]),
    }
}

/// The line piece a wire node holds.
pub open spec fn sp_wire_line(w: WireV) -> Option<crate::record::ActionLineV> {
    match w {
        WireV::Arr(ws) => if ws.len() == 2 && ws[0] == WireV::Int(0) && ws[1] is Str {
            Some(crate::record::ActionLineV::Chars(ws[1]->Str_0))
        } else if ws.len() == 2 && ws[0] == WireV::Int(1) && ws[1] is Str {
            Some(crate::record::ActionLineV::Block(ws[1]->Str_0))
        } else {
            None
        },
        _ => None,
    }
}

/// The wire form of a preserved command.
pub open spec fn sp_cmd_wire(c: crate::ast::CommandV) -> WireV {
    match c {
        crate::ast::CommandV::Character(n, a) => WireV::Arr(
            seq![WireV::Int(0), WireV::Str(n), WireV::Str(a)],
        ),
        crate::ast::CommandV::Res(n) => WireV::Arr(seq![WireV::Int(1), WireV::Str(n)]),
        crate::ast::CommandV::Ctx(n) => WireV::Arr(seq![WireV::Int(2), WireV::Str(n)]),
        crate::ast::CommandV::Other(n, args) => WireV::Arr(
            seq![WireV::Int(3), WireV::Str(n), crate::codec::sp_strings_wire(args)],
        ),
    }
}

/// The preserved command a wire node holds.
pub open spec fn sp_wire_cmd(w: WireV) -> Option<crate::ast::CommandV> {
    match w {
        WireV::Arr(ws) => if ws.len() == 3 && ws[0] == WireV::Int(0) && ws[1] is Str && ws[2]
            is Str {
            Some(crate::ast::CommandV::Character(ws[1]->Str_0, ws[2]->Str_0))
        } else if ws.len() == 2 && ws[0] == WireV::Int(1) && ws[1] is Str {
            Some(crate::ast::CommandV::Res(ws[1]->Str_0))
        } else if ws.len() == 2 && ws[0] == WireV::Int(2) && ws[1] is Str {
            Some(crate::ast::CommandV::Ctx(ws[1]->Str_0))
        } else if ws.len() == 3 && ws[0] == WireV::Int(3) && ws[1] is Str {
            match crate::codec::sp_wire_strings(ws[2]) {
                Some(args) => Some(crate::ast::CommandV::Other(ws[1]->Str_0, args)),
                None => None,
            }
        } else {
            None
        },
        _ => None,
    }
}

/// The wire form of a switch.
pub open spec fn sp_switch_wire(s: crate::record::SwitchV) -> WireV {
    WireV::Arr(
        seq![
            WireV::Str(s.text),
            WireV::Bool(s.enabled),
            WireV::Arr(sp_exprs_wire(s.action)),
        ],
    )
}

/// The switch a wire node holds.
pub open spec fn sp_wire_switch(w: WireV) -> Option<crate::record::SwitchV> {
    match w {
        WireV::Arr(ws) => if ws.len() == 3 && ws[0] is Str && ws[1] is Bool && ws[2] is Arr {
            match sp_wire_exprs(ws[2]->Arr_0) {
                Some(action) => Some(
                    crate::record::SwitchV {
                        text: ws[0]->Str_0,
                        enabled: ws[1]->Bool_0,
                        action,
                    },
                ),
                None => None,
            }
        } else {
            None
        },
        _ => None,
    }
}

/// Maps a sequence through a wire form, totally.
pub open spec fn sp_each_wire<T>(xs: Seq<T>, f: spec_fn(T) -> WireV) -> Seq<WireV> {
    Seq::new(xs.len(), |i: int| f(xs[i]))
}

/// Reads each element of a wire sequence, failing on the first bad one.
pub open spec fn sp_each_from<T>(ws: Seq<WireV>, f: spec_fn(WireV) -> Option<T>, d: T) -> Option<
    Seq<T>,
> {
    if forall|i: int| 0 <= i < ws.len() ==> f(#[trigger] ws[i]) is Some {
        Some(Seq::new(ws.len(), |i: int| f(ws[i])->Some_0))
    } else {
        None
    }
}

/// The wire form of an action.
pub open spec fn sp_action_wire(a: crate::record::ActionV) -> WireV {
    WireV::Arr(
        seq![
            WireV::Str(a.para_tag),
            WireV::Int(a.act_index as i64),
            WireV::Arr(sp_each_wire(a.line, |l| sp_line_wire(l))),
            match a.character {
                Some(c) => WireV::Str(c),
                None => WireV::Nil,
            },
            WireV::Arr(sp_each_wire(a.switches, |s| sp_switch_wire(s))),
            crate::codec::sp_varmap_wire(a.vars),
            WireV::Arr(sp_each_wire(a.residuals, |c| sp_cmd_wire(c))),
        ],
    )
}

/// The action a wire node holds.
pub open spec fn sp_wire_action(w: WireV) -> Option<crate::record::ActionV> {
    match w {
        WireV::Arr(ws) => if ws.len() == 7 && ws[0] is Str && ws[1] is Int && 0 <= ws[1]->Int_0
            && ws[1]->Int_0 <= usize::MAX && ws[2] is Arr && (ws[3] is Nil || ws[3] is Str)
            && ws[4] is Arr && ws[6] is Arr {
            let line = sp_each_from(
                ws[2]->Arr_0,
                |v: WireV| sp_wire_line(v),
                crate::record::ActionLineV::Chars(Seq::empty()),
            );
            let switches = sp_each_from(
                ws[4]->Arr_0,
                |v: WireV| sp_wire_switch(v),
                crate::record::SwitchV {
                    text: Seq::empty(),
                    enabled: false,
                    action: Seq::empty(),
                },
            );
            let vars = crate::codec::sp_wire_varmap(ws[5]);
            let residuals = sp_each_from(
                ws[6]->Arr_0,
                |v: WireV| sp_wire_cmd(v),
                crate::ast::CommandV::Res(Seq::empty()),
            );
            match (line, switches, vars, residuals) {
                (Some(line), Some(switches), Some(vars), Some(residuals)) => Some(
                    crate::record::ActionV {
                        para_tag: ws[0]->Str_0,
                        act_index: ws[1]->Int_0 as int,
                        line,
                        character: if ws[3] is Str {
                            Some(ws[3]->Str_0)
                        } else {
                            None
                        },
                        switches,
                        vars,
                        residuals,
                    },
                ),
                _ => None,
            }
        } else {
            None
        },
        _ => None,
    }
}

/// The wire form of a record.
pub open spec fn sp_context_wire(c: crate::record::ContextV) -> WireV {
    WireV::Arr(
        seq![
            WireV::Str(c.cur_para),
            WireV::Int(c.cur_act as i64),
            crate::codec::sp_varmap_wire(c.locals),
            WireV::Arr(sp_each_wire(c.history, |a| sp_action_wire(a))),
        ],
    )
}

/// The record a wire node holds.
pub open spec fn sp_wire_context(w: WireV) -> Option<crate::record::ContextV> {
    match w {
        WireV::Arr(ws) => if ws.len() == 4 && ws[0] is Str && ws[1] is Int && 0 <= ws[1]->Int_0
            && ws[1]->Int_0 <= usize::MAX && ws[3] is Arr {
            let locals = crate::codec::sp_wire_varmap(ws[2]);
            let history = sp_each_from(
                ws[3]->Arr_0,
                |v: WireV| sp_wire_action(v),
                arbitrary_action(),
            );
            match (locals, history) {
                (Some(locals), Some(history)) => Some(
                    crate::record::ContextV {
                        cur_para: ws[0]->Str_0,
                        cur_act: ws[1]->Int_0 as int,
                        locals,
                        history,
                    },
                ),
                _ => None,
            }
        } else {
            None
        },
        _ => None,
    }
}

/// A placeholder action view.
pub open spec fn arbitrary_action() -> crate::record::ActionV {
    crate::record::ActionV {
        para_tag: Seq::empty(),
        act_index: 0,
        line: Seq::empty(),
        character: None,
        switches: Seq::empty(),
        vars: Seq::empty(),
        residuals: Seq::empty(),
    }
}

/// An action is encodable when its index fits the machine and its
/// snapshot has distinct keys.
pub open spec fn action_codec_wf(a: crate::record::ActionV) -> bool {
    &&& 0 <= a.act_index <= usize::MAX
    &&& a.act_index <= i64::MAX
    &&& crate::varmap::unique_keys(a.vars)
}

/// A record is encodable when its position fits the machine and its
/// variable tables have distinct keys.
pub open spec fn context_codec_wf(c: crate::record::ContextV) -> bool {
    &&& 0 <= c.cur_act <= usize::MAX
    &&& c.cur_act <= i64::MAX
    &&& crate::varmap::unique_keys(c.locals)
    &&& forall|i: int| 0 <= i < c.history.len() ==> action_codec_wf(#[trigger] c.history[i])
}

/// Reading back the wire form of an encodable action gives the action.
pub proof fn lemma_action_wire_roundtrip(a: crate::record::ActionV)
    requires
        action_codec_wf(a),
    ensures
        sp_wire_action(sp_action_wire(a)) == Some(a),
{
    let ws = sp_action_wire(a)->Arr_0;
    assert((a.act_index as i64) as int == a.act_index);
    let lws = sp_each_wire(a.line, |l| sp_line_wire(l));
    assert(forall|i: int| 0 <= i < lws.len() ==> sp_wire_line(#[trigger] lws[i]) == Some(
        a.line[i],
    ));
    assert(sp_each_from(
        lws,
        |v: WireV| sp_wire_line(v),
        crate::record::ActionLineV::Chars(Seq::empty()),
    )->Some_0 =~= a.line);
    let sws = sp_each_wire(a.switches, |s| sp_switch_wire(s));
    assert forall|i: int| 0 <= i < sws.len() implies sp_wire_switch(#[trigger] sws[i]) == Some(
        a.switches[i],
    ) by {
        lemma_exprs_wire_roundtrip(a.switches[i].action);
    }
    assert(sp_each_from(
        sws,
        |v: WireV| sp_wire_switch(v),
        crate::record::SwitchV { text: Seq::empty(), enabled: false, action: Seq::empty() },
    )->Some_0 =~= a.switches);
    crate::codec::lemma_varmap_wire_roundtrip(a.vars);
    let cws = sp_each_wire(a.residuals, |c| sp_cmd_wire(c));
    assert forall|i: int| 0 <= i < cws.len() implies sp_wire_cmd(#[trigger] cws[i]) == Some(
        a.residuals[i],
    ) by {
        match a.residuals[i] {
            crate::ast::CommandV::Other(n, args) => {
                crate::codec::lemma_strings_wire_roundtrip(args);
            },
            _ => {},
        }
    }
    assert(sp_each_from(
        cws,
        |v: WireV| sp_wire_cmd(v),
        crate::ast::CommandV::Res(Seq::empty()),
    )->Some_0 =~= a.residuals);
    assert(sp_wire_action(sp_action_wire(a))->Some_0 == a);
}

/// Reading back the wire form of an encodable record gives the record.
pub proof fn lemma_context_wire_roundtrip(c: crate::record::ContextV)
    requires
        context_codec_wf(c),
    ensures
        sp_wire_context(sp_context_wire(c)) == Some(c),
{
    assert((c.cur_act as i64) as int == c.cur_act);
    crate::codec::lemma_varmap_wire_roundtrip(c.locals);
    let hws = sp_each_wire(c.history, |a| sp_action_wire(a));
    assert forall|i: int| 0 <= i < hws.len() implies sp_wire_action(#[trigger] hws[i]) == Some(
        c.history[i],
    ) by {
        lemma_action_wire_roundtrip(c.history[i]);
    }
    assert(sp_each_from(hws, |v: WireV| sp_wire_action(v), arbitrary_action())->Some_0
        =~= c.history);
    assert(sp_wire_context(sp_context_wire(c))->Some_0 == c);
}


/// Builds the wire form of a line piece.
pub fn line_to_wire(l: &crate::record::ActionLine) -> (w: Wire)
    ensures
        w.deep_view() == sp_line_wire(l.deep_view()),
{
    let mut ws: Vec<Wire> = Vec::new();
    match l {
        crate::record::ActionLine::Chars(s) => {
            ws.push(Wire::Int(0));
            ws.push(Wire::Str(s.clone()));
        },
        crate::record::ActionLine::Block(s) => {
            ws.push(Wire::Int(1));
            ws.push(Wire::Str(s.clone()));
        },
    }
    let w = Wire::Arr(ws);
    proof {
        assert(wires_view(ws@) =~= sp_line_wire(l.deep_view())->Arr_0);
    }
    w
}

/// Reads a line piece from a wire node.
pub fn wire_to_line(w: &Wire) -> (r: Option<crate::record::ActionLine>)
    ensures
        match r {
            Some(l) => sp_wire_line(w.deep_view()) == Some(l.deep_view()),
            None => sp_wire_line(w.deep_view()) is None,
        },
{
    let ws = match w {
        Wire::Arr(ws) => ws,
        _ => {
            return None;
        },
    };
    proof {
        assert(wires_view(ws@).len() == ws@.len());
        if ws@.len() == 2 {
            assert(wires_view(ws@)[0] == ws@[0].deep_view());
            assert(wires_view(ws@)[1] == ws@[1].deep_view());
        }
    }
    if ws.len() != 2 {
        return None;
    }
    let tag: i64 = match &ws[0] {
        Wire::Int(t) => *t,
        _ => {
            return None;
        },
    };
    let s = match &ws[1] {
        Wire::Str(s) => s.clone(),
        _ => {
            return None;
        },
    };
    if tag == 0 {
        Some(crate::record::ActionLine::Chars(s))
    } else if tag == 1 {
        Some(crate::record::ActionLine::Block(s))
    } else {
        None
    }
}

/// Builds the wire form of a preserved command.
pub fn cmd_to_wire(c: &crate::ast::Command) -> (w: Wire)
    ensures
        w.deep_view() == sp_cmd_wire(c.deep_view()),
{
    let mut ws: Vec<Wire> = Vec::new();
    match c {
        crate::ast::Command::Character(n, a) => {
            ws.push(Wire::Int(0));
            ws.push(Wire::Str(n.clone()));
            ws.push(Wire::Str(a.clone()));
        },
        crate::ast::Command::Res(n) => {
            ws.push(Wire::Int(1));
            ws.push(Wire::Str(n.clone()));
        },
        crate::ast::Command::Ctx(n) => {
            ws.push(Wire::Int(2));
            ws.push(Wire::Str(n.clone()));
        },
        crate::ast::Command::Other(n, args) => {
            ws.push(Wire::Int(3));
            ws.push(Wire::Str(n.clone()));
            ws.push(crate::codec::strings_to_wire(args));
        },
    }
    let w = Wire::Arr(ws);
    proof {
        assert(wires_view(ws@) =~= sp_cmd_wire(c.deep_view())->Arr_0);
    }
    w
}

/// Reads a preserved command from a wire node.
pub fn wire_to_cmd(w: &Wire) -> (r: Option<crate::ast::Command>)
    ensures
        match r {
            Some(c) => sp_wire_cmd(w.deep_view()) == Some(c.deep_view()),
            None => sp_wire_cmd(w.deep_view()) is None,
        },
{
    let ws = match w {
        Wire::Arr(ws) => ws,
        _ => {
            return None;
        },
    };
    proof {
        assert(wires_view(ws@).len() == ws@.len());
        assert(forall|j: int| 0 <= j < ws@.len() ==> wires_view(ws@)[j] == (
        #[trigger] ws@[j]).deep_view());
    }
    if ws.len() == 0 {
        return None;
    }
    let tag: i64 = match &ws[0] {
        Wire::Int(t) => *t,
        _ => {
            return None;
        },
    };
    if tag == 0 && ws.len() == 3 {
        match (&ws[1], &ws[2]) {
            (Wire::Str(n), Wire::Str(a)) => Some(
                crate::ast::Command::Character(n.clone(), a.clone()),
            ),
            _ => None,
        }
    } else if tag == 1 && ws.len() == 2 {
        match &ws[1] {
            Wire::Str(n) => Some(crate::ast::Command::Res(n.clone())),
            _ => None,
        }
    } else if tag == 2 && ws.len() == 2 {
        match &ws[1] {
            Wire::Str(n) => Some(crate::ast::Command::Ctx(n.clone())),
            _ => None,
        }
    } else if tag == 3 && ws.len() == 3 {
        match &ws[1] {
            Wire::Str(n) => match crate::codec::wire_to_strings(&ws[2]) {
                Some(args) => Some(crate::ast::Command::Other(n.clone(), args)),
                None => None,
            },
            _ => None,
        }
    } else {
        None
    }
}

/// Builds the wire form of a program's expressions.
#[verifier::loop_isolation(false)]
pub fn exprs_to_wire(es: &Vec<Expr>) -> (w: Wire)
    ensures
        w.deep_view() == WireV::Arr(sp_exprs_wire(exprs_view(es@))),
{
    let mut elems: Vec<Wire> = Vec::new();
    let n = es.len();
    for i in 0..n
        invariant
            n == es@.len(),
            elems@.len() == i,
            forall|j: int| 0 <= j < i ==> (#[trigger] elems@[j]).deep_view() == sp_expr_wire(
                es@[j].deep_view(),
            ),
    {
        elems.push(expr_to_wire(&es[i]));
    }
    proof {
        assert(wires_view(elems@) =~= sp_exprs_wire(exprs_view(es@)));
    }
    Wire::Arr(elems)
}

/// Reads a program's expressions from a wire node.
#[verifier::loop_isolation(false)]
pub fn wire_to_exprs(w: &Wire) -> (r: Option<Vec<Expr>>)
    ensures
        match r {
            Some(es) => w.deep_view() matches WireV::Arr(ws) && sp_wire_exprs(ws) == Some(
                exprs_view(es@),
            ),
            None => !(w.deep_view() matches WireV::Arr(ws) && sp_wire_exprs(ws) is Some),
        },
{
    let ws = match w {
        Wire::Arr(ws) => ws,
        _ => {
            return None;
        },
    };
    let ghost wsv = wires_view(ws@);
    let mut es: Vec<Expr> = Vec::new();
    let n = ws.len();
    for i in 0..n
        invariant
            n == wsv.len(),
            es@.len() == i,
            forall|j: int| 0 <= j < i ==> sp_wire_expr(#[trigger] wsv[j]) == Some(
                es@[j].deep_view(),
            ),
    {
        match wire_to_expr(&ws[i]) {
            Some(e) => {
                es.push(e);
            },
            None => {
                proof {
                    assert(sp_wire_expr(wsv[i as int]) is None);
                }
                return None;
            },
        }
    }
    proof {
        assert(forall|j: int| 0 <= j < wsv.len() ==> sp_wire_expr(#[trigger] wsv[j]) is Some);
        assert(sp_wire_exprs(wsv)->Some_0 =~= exprs_view(es@));
    }
    Some(es)
}

/// Builds the wire form of a switch.
pub fn switch_to_wire(s: &crate::record::Switch) -> (w: Wire)
    ensures
        w.deep_view() == sp_switch_wire(s.deep_view()),
{
    let mut ws: Vec<Wire> = Vec::new();
    ws.push(Wire::Str(s.text.clone()));
    ws.push(Wire::Bool(s.enabled));
    ws.push(exprs_to_wire(&s.action.0));
    let w = Wire::Arr(ws);
    proof {
        assert(exprs_view(s.action.0@) =~= s.action.deep_view());
        assert(wires_view(ws@) =~= sp_switch_wire(s.deep_view())->Arr_0);
    }
    w
}

/// Reads a switch from a wire node.
pub fn wire_to_switch(w: &Wire) -> (r: Option<crate::record::Switch>)
    ensures
        match r {
            Some(s) => sp_wire_switch(w.deep_view()) == Some(s.deep_view()),
            None => sp_wire_switch(w.deep_view()) is None,
        },
{
    let ws = match w {
        Wire::Arr(ws) => ws,
        _ => {
            return None;
        },
    };
    proof {
        assert(wires_view(ws@).len() == ws@.len());
        if ws@.len() == 3 {
            assert(wires_view(ws@)[0] == ws@[0].deep_view());
            assert(wires_view(ws@)[1] == ws@[1].deep_view());
            assert(wires_view(ws@)[2] == ws@[2].deep_view());
        }
    }
    if ws.len() != 3 {
        return None;
    }
    let text = match &ws[0] {
        Wire::Str(s) => s.clone(),
        _ => {
            return None;
        },
    };
    let enabled = match &ws[1] {
        Wire::Bool(b) => *b,
        _ => {
            return None;
        },
    };
    match &ws[2] {
        Wire::Arr(_) => {},
        _ => {
            return None;
        },
    }
    match wire_to_exprs(&ws[2]) {
        Some(es) => {
            let sw = crate::record::Switch { text, enabled, action: crate::ast::Program(es) };
            proof {
                assert(exprs_view(es@) =~= sw.action.deep_view());
            }
            Some(sw)
        },
        None => None,
    }
}

/// Builds the wire form of an action.
#[verifier::loop_isolation(false)]
pub fn action_to_wire(a: &crate::record::Action) -> (w: Wire)
    requires
        a.act_index <= i64::MAX,
    ensures
        w.deep_view() == sp_action_wire(a.deep_view()),
{
    let mut lines: Vec<Wire> = Vec::new();
    let n = a.line.len();
    for i in 0..n
        invariant
            n == a.line@.len(),
            lines@.len() == i,
            forall|j: int| 0 <= j < i ==> (#[trigger] lines@[j]).deep_view() == sp_line_wire(
                a.line@[j].deep_view(),
            ),
    {
        lines.push(line_to_wire(&a.line[i]));
    }
    let mut switches: Vec<Wire> = Vec::new();
    let sn = a.switches.len();
    for i in 0..sn
        invariant
            sn == a.switches@.len(),
            switches@.len() == i,
            forall|j: int| 0 <= j < i ==> (#[trigger] switches@[j]).deep_view() == sp_switch_wire(
                a.switches@[j].deep_view(),
            ),
    {
        switches.push(switch_to_wire(&a.switches[i]));
    }
    let mut residuals: Vec<Wire> = Vec::new();
    let rn = a.residuals.len();
    for i in 0..rn
        invariant
            rn == a.residuals@.len(),
            residuals@.len() == i,
            forall|j: int| 0 <= j < i ==> (#[trigger] residuals@[j]).deep_view() == sp_cmd_wire(
                a.residuals@[j].deep_view(),
            ),
    {
        residuals.push(cmd_to_wire(&a.residuals[i]));
    }
    let mut ws: Vec<Wire> = Vec::new();
    ws.push(Wire::Str(a.para_tag.clone()));
    ws.push(Wire::Int(a.act_index as i64));
    ws.push(Wire::Arr(lines));
    ws.push(
        match &a.character {
            Some(c) => Wire::Str(c.clone()),
            None => Wire::Nil,
        },
    );
    ws.push(Wire::Arr(switches));
    ws.push(crate::codec::varmap_to_wire(&a.vars));
    ws.push(Wire::Arr(residuals));
    let w = Wire::Arr(ws);
    proof {
        assert(wires_view(lines@) =~= sp_each_wire(a.deep_view().line, |l| sp_line_wire(l)));
        assert(wires_view(switches@) =~= sp_each_wire(
            a.deep_view().switches,
            |s| sp_switch_wire(s),
        ));
        assert(wires_view(residuals@) =~= sp_each_wire(
            a.deep_view().residuals,
            |c| sp_cmd_wire(c),
        ));
        assert(wires_view(ws@) =~= sp_action_wire(a.deep_view())->Arr_0);
    }
    w
}

/// Reads an action from a wire node.
#[verifier::loop_isolation(false)]
pub fn wire_to_action(w: &Wire) -> (r: Option<crate::record::Action>)
    ensures
        match r {
            Some(a) => sp_wire_action(w.deep_view()) == Some(a.deep_view()) && a.vars.wf(),
            None => sp_wire_action(w.deep_view()) is None,
        },
{
    let ws = match w {
        Wire::Arr(ws) => ws,
        _ => {
            return None;
        },
    };
    let ghost wsv = wires_view(ws@);
    if ws.len() != 7 {
        return None;
    }
    let para_tag = match &ws[0] {
        Wire::Str(s) => s.clone(),
        _ => {
            return None;
        },
    };
    let idx: i64 = match &ws[1] {
        Wire::Int(i) => *i,
        _ => {
            return None;
        },
    };
    if idx < 0 {
        return None;
    }
    if (idx as u64) > (usize::MAX as u64) {
        return None;
    }
    let act_index: usize = idx as usize;
    let line_ws = match &ws[2] {
        Wire::Arr(l) => l,
        _ => {
            return None;
        },
    };
    let character = match &ws[3] {
        Wire::Nil => None,
        Wire::Str(c) => Some(c.clone()),
        _ => {
            return None;
        },
    };
    let switch_ws = match &ws[4] {
        Wire::Arr(l) => l,
        _ => {
            return None;
        },
    };
    let residual_ws = match &ws[6] {
        Wire::Arr(l) => l,
        _ => {
            return None;
        },
    };
    let mut line: Vec<crate::record::ActionLine> = Vec::new();
    let ghost lwv = wires_view(line_ws@);
    let n = line_ws.len();
    for i in 0..n
        invariant
            n == lwv.len(),
            line@.len() == i,
            forall|j: int| 0 <= j < i ==> sp_wire_line(#[trigger] lwv[j]) == Some(
                line@[j].deep_view(),
            ),
    {
        match wire_to_line(&line_ws[i]) {
            Some(l) => {
                line.push(l);
            },
            None => {
                proof {
                    assert(sp_wire_line(lwv[i as int]) is None);
                }
                return None;
            },
        }
    }
    let mut switches: Vec<crate::record::Switch> = Vec::new();
    let ghost swv = wires_view(switch_ws@);
    let sn = switch_ws.len();
    for i in 0..sn
        invariant
            sn == swv.len(),
            switches@.len() == i,
            forall|j: int| 0 <= j < i ==> sp_wire_switch(#[trigger] swv[j]) == Some(
                switches@[j].deep_view(),
            ),
    {
        match wire_to_switch(&switch_ws[i]) {
            Some(s) => {
                switches.push(s);
            },
            None => {
                proof {
                    assert(sp_wire_switch(swv[i as int]) is None);
                }
                return None;
            },
        }
    }
    let vars = match crate::codec::wire_to_varmap(&ws[5]) {
        Some(m) => m,
        None => {
            return None;
        },
    };
    let mut residuals: Vec<crate::ast::Command> = Vec::new();
    let ghost rwv = wires_view(residual_ws@);
    let rn = residual_ws.len();
    for i in 0..rn
        invariant
            rn == rwv.len(),
            residuals@.len() == i,
            forall|j: int| 0 <= j < i ==> sp_wire_cmd(#[trigger] rwv[j]) == Some(
                residuals@[j].deep_view(),
            ),
    {
        match wire_to_cmd(&residual_ws[i]) {
            Some(c) => {
                residuals.push(c);
            },
            None => {
                proof {
                    assert(sp_wire_cmd(rwv[i as int]) is None);
                }
                return None;
            },
        }
    }
    let a = crate::record::Action {
        para_tag,
        act_index,
        line,
        character,
        switches,
        vars,
        residuals,
    };
    proof {
        assert(forall|j: int| 0 <= j < lwv.len() ==> sp_wire_line(#[trigger] lwv[j]) is Some);
        assert(forall|j: int| 0 <= j < swv.len() ==> sp_wire_switch(#[trigger] swv[j]) is Some);
        assert(forall|j: int| 0 <= j < rwv.len() ==> sp_wire_cmd(#[trigger] rwv[j]) is Some);
        let got = sp_wire_action(w.deep_view());
        assert(got is Some);
        assert(got->Some_0.line =~= a.deep_view().line);
        assert(got->Some_0.switches =~= a.deep_view().switches);
        assert(got->Some_0.residuals =~= a.deep_view().residuals);
        assert(got->Some_0 == a.deep_view());
    }
    Some(a)
}

/// Serializes a record: its wire form, encoded.
pub open spec fn sp_serialize(c: crate::record::ContextV) -> Seq<u8> {
    crate::wire::sp_encode(sp_context_wire(c))
}

/// Deserializes a record: decodes one wire node covering the whole
/// buffer and reads a record from it.
pub open spec fn sp_deserialize(bytes: Seq<u8>) -> Option<crate::record::ContextV> {
    match crate::wire::sp_decode(bytes, 0) {
        Some((w, p)) => if p == bytes.len() {
            sp_wire_context(w)
        } else {
            None
        },
        None => None,
    }
}

/// Builds the wire form of a record.
#[verifier::loop_isolation(false)]
pub fn context_to_wire(c: &crate::record::RawContext) -> (w: Wire)
    requires
        c.cur_act <= i64::MAX,
        forall|i: int| 0 <= i < c.history@.len() ==> (#[trigger] c.history@[i]).act_index
            <= i64::MAX,
    ensures
        w.deep_view() == sp_context_wire(c.deep_view()),
{
    let mut history: Vec<Wire> = Vec::new();
    let n = c.history.len();
    for i in 0..n
        invariant
            n == c.history@.len(),
            history@.len() == i,
            forall|j: int| 0 <= j < i ==> (#[trigger] history@[j]).deep_view() == sp_action_wire(
                c.history@[j].deep_view(),
            ),
    {
        history.push(action_to_wire(&c.history[i]));
    }
    let mut ws: Vec<Wire> = Vec::new();
    ws.push(Wire::Str(c.cur_para.clone()));
    ws.push(Wire::Int(c.cur_act as i64));
    ws.push(crate::codec::varmap_to_wire(&c.locals));
    ws.push(Wire::Arr(history));
    let w = Wire::Arr(ws);
    proof {
        assert(wires_view(history@) =~= sp_each_wire(
            c.deep_view().history,
            |a| sp_action_wire(a),
        ));
        assert(wires_view(ws@) =~= sp_context_wire(c.deep_view())->Arr_0);
    }
    w
}

/// Serializes a record to bytes.
pub fn serialize_context(c: &crate::record::RawContext) -> (r: Vec<u8>)
    requires
        c.cur_act <= i64::MAX,
        forall|i: int| 0 <= i < c.history@.len() ==> (#[trigger] c.history@[i]).act_index
            <= i64::MAX,
    ensures
        r@ == sp_serialize(c.deep_view()),
{
    let w = context_to_wire(c);
    let mut out: Vec<u8> = Vec::new();
    crate::wire::encode_wire(&w, &mut out);
    proof {
        assert(out@ =~= sp_serialize(c.deep_view()));
    }
    out
}

/// Deserializes a record from bytes; rejects malformed or trailing input.
#[verifier::loop_isolation(false)]
pub fn deserialize_context(bytes: &Vec<u8>) -> (r: Option<crate::record::RawContext>)
    ensures
        match r {
            Some(c) => sp_deserialize(bytes@) == Some(c.deep_view()) && c.wf(),
            None => sp_deserialize(bytes@) is None,
        },
{
    let (w, end) = match crate::wire::decode_wire(bytes, 0) {
        Some(p) => p,
        None => {
            return None;
        },
    };
    if end != bytes.len() {
        return None;
    }
    let ws = match &w {
        Wire::Arr(ws) => ws,
        _ => {
            return None;
        },
    };
    let ghost wsv = wires_view(ws@);
    if ws.len() != 4 {
        return None;
    }
    let cur_para = match &ws[0] {
        Wire::Str(s) => s.clone(),
        _ => {
            return None;
        },
    };
    let idx: i64 = match &ws[1] {
        Wire::Int(i) => *i,
        _ => {
            return None;
        },
    };
    if idx < 0 {
        return None;
    }
    if (idx as u64) > (usize::MAX as u64) {
        return None;
    }
    let cur_act: usize = idx as usize;
    let locals = match crate::codec::wire_to_varmap(&ws[2]) {
        Some(m) => m,
        None => {
            return None;
        },
    };
    let hist_ws = match &ws[3] {
        Wire::Arr(l) => l,
        _ => {
            return None;
        },
    };
    let mut history: Vec<crate::record::Action> = Vec::new();
    let ghost hwv = wires_view(hist_ws@);
    let n = hist_ws.len();
    for i in 0..n
        invariant
            n == hwv.len(),
            history@.len() == i,
            forall|j: int| 0 <= j < i ==> sp_wire_action(#[trigger] hwv[j]) == Some(
                history@[j].deep_view(),
            ),
            forall|j: int| 0 <= j < i ==> crate::varmap::unique_keys(
                (#[trigger] history@[j]).vars@,
            ),
    {
        match wire_to_action(&hist_ws[i]) {
            Some(a) => {
                history.push(a);
            },
            None => {
                proof {
                    assert(sp_wire_action(hwv[i as int]) is None);
                }
                return None;
            },
        }
    }
    let c = crate::record::RawContext { cur_para, cur_act, locals, history };
    proof {
        assert(forall|j: int| 0 <= j < hwv.len() ==> sp_wire_action(#[trigger] hwv[j]) is Some);
        let got = sp_wire_context(w.deep_view());
        assert(got is Some);
        assert(got->Some_0.history =~= c.deep_view().history);
        assert(got->Some_0 == c.deep_view());
    }
    Some(c)
}

/// Reading a serialized record back gives the record: the round trip of
/// the persisted save format, for every encodable record.
pub proof fn lemma_record_roundtrip(c: crate::record::ContextV)
    requires
        context_codec_wf(c),
        crate::wire::wire_wf(sp_context_wire(c)),
    ensures
        sp_deserialize(sp_serialize(c)) == Some(c),
{
    let w = sp_context_wire(c);
    crate::wire::lemma_wire_roundtrip(w, Seq::empty(), Seq::empty());
    assert(Seq::<u8>::empty() + crate::wire::sp_encode(w) + Seq::<u8>::empty() =~= sp_serialize(
        c,
    ));
    lemma_context_wire_roundtrip(c);
}

} // verus!
