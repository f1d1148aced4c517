//! The script interpreter.
//!
//! Expressions evaluate against two variable tables: the record locals,
//! persisted across steps, and the temp variables, cleared at the start of
//! every program. Unknown function calls go to the named plugin module.
//!
//! The plugin-free fragment has an exact mathematical semantics,
//! [`sp_eval`]; evaluation is proved to follow it. Whatever a plugin
//! returns, the record locals change only at keys that some `$name`
//! assignment of the program names.

use crate::ast::{
    BinaryOp, Command, CommandV, Expr, ExprV, LogicBinaryOp, Program, Ref, RefV, SubText, SubTextV,
    Text, UnaryOp, ValBinaryOp,
};
use crate::plugin::{RawModule, Runtime};
use crate::value::{
    sp_bool, sp_num, sp_str, sp_type, type_max, RawValue, ValueType, ValueV,
};
use crate::varmap::VarMap;
use vstd::prelude::*;

verus! {

broadcast use vstd::seq::axiom_seq_index_decreases, vstd::std_specs::vec::axiom_vec_decreases_to_view, vstd::std_specs::vec::axiom_vec_index_decreases;

/// A variable state: identifiers to values.
pub type Vars = Map<Seq<char>, ValueV>;

/// The result of a unary operation.
pub open spec fn sp_un(op: UnaryOp, v: ValueV) -> ValueV {
    match op {
        UnaryOp::Positive => ValueV::Num(sp_num(v)),
        UnaryOp::Negative => ValueV::Num((0 as i64).wrapping_sub(sp_num(v))),
        UnaryOp::Not => match v {
            ValueV::Unit => ValueV::Unit,
            ValueV::Bool(b) => ValueV::Bool(!b),
            ValueV::Num(n) => ValueV::Num(n ^ (-1 as i64)),
            ValueV::Str(_) => ValueV::Str(Seq::empty()),
        },
    }
}

/// The result of a numeric binary operation. Addition, subtraction and
/// multiplication wrap; division by zero is 0 and the one overflowing
/// quotient wraps; a remainder by zero is 0.
pub open spec fn sp_bin_num(op: ValBinaryOp, a: i64, b: i64) -> i64 {
    match op {
        ValBinaryOp::Add => a.wrapping_add(b),
        ValBinaryOp::Minus => a.wrapping_sub(b),
        ValBinaryOp::Mul => a.wrapping_mul(b),
        ValBinaryOp::Div => match a.checked_div(b) {
            Some(q) => q,
            None => if b == 0 {
                0
            } else {
                i64::MIN
            },
        },
        ValBinaryOp::Mod => match a.checked_rem(b) {
            Some(r) => r,
            None => 0,
        },
        ValBinaryOp::And => a & b,
        ValBinaryOp::Or => a | b,
        ValBinaryOp::Xor => a ^ b,
    }
}

/// The result of a binary operation on booleans: logical connectives act
/// directly, arithmetic promotes the booleans to 0 and 1.
pub open spec fn sp_bin_bool(op: ValBinaryOp, a: bool, b: bool) -> ValueV {
    match op {
        ValBinaryOp::And => ValueV::Bool(a && b),
        ValBinaryOp::Or => ValueV::Bool(a || b),
        ValBinaryOp::Xor => ValueV::Bool(a ^ b),
        _ => ValueV::Num(
            sp_bin_num(
                op,
                if a {
                    1
                } else {
                    0
                },
                if b {
                    1
                } else {
                    0
                },
            ),
        ),
    }
}

/// A string repeated a number of times; never for a negative count.
pub open spec fn str_repeat(s: Seq<char>, n: int) -> Seq<char>
    decreases n,
{
    if n <= 0 {
        Seq::empty()
    } else {
        str_repeat(s, n - 1) + s
    }
}

/// The result of a binary operation when at least one operand is a
/// string: `+` concatenates, `*` with a number repeats; anything else is
/// a script error and yields unit.
pub open spec fn sp_bin_str(op: ValBinaryOp, l: ValueV, r: ValueV) -> ValueV {
    match op {
        ValBinaryOp::Add => ValueV::Str(sp_str(l) + sp_str(r)),
        ValBinaryOp::Mul => if sp_type(l) == ValueType::Str && sp_type(r) == ValueType::Str {
            ValueV::Unit
        } else if sp_type(r) == ValueType::Str {
            ValueV::Str(str_repeat(sp_str(r), sp_num(l) as int))
        } else {
            ValueV::Str(str_repeat(sp_str(l), sp_num(r) as int))
        },
        _ => ValueV::Unit,
    }
}

/// The result of a value binary operation: both operands are promoted to
/// the greater type, which picks the operator table.
pub open spec fn sp_bin_val(op: ValBinaryOp, l: ValueV, r: ValueV) -> ValueV {
    match type_max(sp_type(l), sp_type(r)) {
        ValueType::Unit => ValueV::Unit,
        ValueType::Bool => sp_bin_bool(op, sp_bool(l), sp_bool(r)),
        ValueType::Num => ValueV::Num(sp_bin_num(op, sp_num(l), sp_num(r))),
        ValueType::Str => sp_bin_str(op, l, r),
    }
}

/// Lexicographic order on character sequences, by code point.
pub open spec fn lex_lt(a: Seq<char>, b: Seq<char>) -> bool
    decreases a.len(),
{
    if b.len() == 0 {
        false
    } else if a.len() == 0 {
        true
    } else if a[0] != b[0] {
        (a[0] as u32) < (b[0] as u32)
    } else {
        lex_lt(a.drop_first(), b.drop_first())
    }
}

/// The result of a comparison: both sides are promoted to the greater
/// type. Two units are equal and never ordered.
pub open spec fn sp_cmp(op: LogicBinaryOp, l: ValueV, r: ValueV) -> bool {
    match type_max(sp_type(l), sp_type(r)) {
        ValueType::Unit => op == LogicBinaryOp::Eq,
        ValueType::Bool => sp_cmp_num(
            op,
            if sp_bool(l) {
                1
            } else {
                0
            },
            if sp_bool(r) {
                1
            } else {
                0
            },
        ),
        ValueType::Num => sp_cmp_num(op, sp_num(l), sp_num(r)),
        ValueType::Str => sp_cmp_str(op, sp_str(l), sp_str(r)),
    }
}

/// A comparison of two numbers.
pub open spec fn sp_cmp_num(op: LogicBinaryOp, a: i64, b: i64) -> bool {
    match op {
        LogicBinaryOp::Eq => a == b,
        LogicBinaryOp::Neq => a != b,
        LogicBinaryOp::Lt => a < b,
        LogicBinaryOp::Le => a <= b,
        LogicBinaryOp::Gt => a > b,
        LogicBinaryOp::Ge => a >= b,
        _ => false,
    }
}

/// A comparison of two strings, lexicographic by code point.
pub open spec fn sp_cmp_str(op: LogicBinaryOp, a: Seq<char>, b: Seq<char>) -> bool {
    match op {
        LogicBinaryOp::Eq => a == b,
        LogicBinaryOp::Neq => a != b,
        LogicBinaryOp::Lt => lex_lt(a, b),
        LogicBinaryOp::Le => lex_lt(a, b) || a == b,
        LogicBinaryOp::Gt => lex_lt(b, a),
        LogicBinaryOp::Ge => lex_lt(b, a) || a == b,
        _ => false,
    }
}

/// The name of the lazy conditional intrinsic.
pub open spec fn if_name() -> Seq<char> {
    seq!['i', 'f']
}

/// The semantics of the plugin-free fragment: the states after evaluating
/// an expression and its value, or `None` as soon as evaluation would
/// call a plugin.
pub open spec fn sp_eval(e: ExprV, locals: Vars, vars: Vars) -> Option<(Vars, Vars, ValueV)>
    decreases e, 2int,
{
    match e {
        ExprV::Ref(RefV::Var(n)) => Some(
            (
                locals,
                vars,
                if vars.contains_key(n) {
                    vars[n]
                } else {
                    ValueV::Unit
                },
            ),
        ),
        ExprV::Ref(RefV::Ctx(n)) => Some(
            (
                locals,
                vars,
                if locals.contains_key(n) {
                    locals[n]
                } else {
                    ValueV::Unit
                },
            ),
        ),
        ExprV::Const(v) => Some((locals, vars, v)),
        ExprV::Unary(op, inner) => match sp_eval(*inner, locals, vars) {
            Some((l2, v2, val)) => Some((l2, v2, sp_un(op, val))),
            None => None,
        },
        ExprV::Binary(lhs, op, rhs) => match op {
            BinaryOp::Val(vop) => match sp_eval(*lhs, locals, vars) {
                Some((l1, v1, a)) => match sp_eval(*rhs, l1, v1) {
                    Some((l2, v2, b)) => Some((l2, v2, sp_bin_val(vop, a, b))),
                    None => None,
                },
                None => None,
            },
            BinaryOp::Logic(LogicBinaryOp::And) => match sp_eval(*lhs, locals, vars) {
                Some((l1, v1, a)) => if !sp_bool(a) {
                    Some((l1, v1, ValueV::Bool(false)))
                } else {
                    match sp_eval(*rhs, l1, v1) {
                        Some((l2, v2, b)) => Some((l2, v2, ValueV::Bool(sp_bool(b)))),
                        None => None,
                    }
                },
                None => None,
            },
            BinaryOp::Logic(LogicBinaryOp::Or) => match sp_eval(*lhs, locals, vars) {
                Some((l1, v1, a)) => if sp_bool(a) {
                    Some((l1, v1, ValueV::Bool(true)))
                } else {
                    match sp_eval(*rhs, l1, v1) {
                        Some((l2, v2, b)) => Some((l2, v2, ValueV::Bool(sp_bool(b)))),
                        None => None,
                    }
                },
                None => None,
            },
            BinaryOp::Logic(cop) => match sp_eval(*lhs, locals, vars) {
                Some((l1, v1, a)) => match sp_eval(*rhs, l1, v1) {
                    Some((l2, v2, b)) => Some((l2, v2, ValueV::Bool(sp_cmp(cop, a, b)))),
                    None => None,
                },
                None => None,
            },
            BinaryOp::Assign => match sp_eval(*rhs, locals, vars) {
                Some((l1, v1, val)) => Some(sp_assign(*lhs, l1, v1, val)),
                None => None,
            },
            BinaryOp::Inplace(vop) => match sp_eval(*lhs, locals, vars) {
                Some((l1, v1, a)) => match sp_eval(*rhs, l1, v1) {
                    Some((l2, v2, b)) => Some(sp_assign(*lhs, l2, v2, sp_bin_val(vop, a, b))),
                    None => None,
                },
                None => None,
            },
        },
        ExprV::Call(ns, name, args) => if ns.len() == 0 {
            if name == if_name() {
                match (if args.len() > 0 {
                    sp_eval(args[0], locals, vars)
                } else {
                    Some((locals, vars, ValueV::Unit))
                }) {
                    Some((l1, v1, cond)) => {
                        let branch: int = if sp_bool(cond) {
                            1
                        } else {
                            2
                        };
                        if args.len() > branch {
                            sp_eval(args[branch], l1, v1)
                        } else {
                            Some((l1, v1, ValueV::Unit))
                        }
                    },
                    None => None,
                }
            } else {
                // an unknown intrinsic is a script error and yields unit
                Some((locals, vars, ValueV::Unit))
            }
        } else {
            None
        },
    }
}

/// Writes a value through a reference: a `name` target writes the temp
/// variables, a `$name` target the record locals; any other target is a
/// script error and writes nothing. The result is always unit.
pub open spec fn sp_assign(target: ExprV, locals: Vars, vars: Vars, val: ValueV) -> (
    Vars,
    Vars,
    ValueV,
) {
    match target {
        ExprV::Ref(RefV::Var(n)) => (locals, vars.insert(n, val), ValueV::Unit),
        ExprV::Ref(RefV::Ctx(n)) => (locals.insert(n, val), vars, ValueV::Unit),
        _ => (locals, vars, ValueV::Unit),
    }
}

/// The record-local names an expression may assign: every `$name` that
/// stands as an assignment target anywhere in it.
pub open spec fn ctx_writes(e: ExprV) -> Set<Seq<char>>
    decreases e, 2int,
{
    match e {
        ExprV::Ref(_) => Set::empty(),
        ExprV::Const(_) => Set::empty(),
        ExprV::Unary(_, inner) => ctx_writes(*inner),
        ExprV::Binary(lhs, op, rhs) => {
            let target = match (op, *lhs) {
                (BinaryOp::Assign, ExprV::Ref(RefV::Ctx(n))) => Set::empty().insert(n),
                (BinaryOp::Inplace(_), ExprV::Ref(RefV::Ctx(n))) => Set::empty().insert(n),
                _ => Set::empty(),
            };
            target.union(ctx_writes(*lhs)).union(ctx_writes(*rhs))
        },
        ExprV::Call(_, _, args) => ctx_writes_seq(args),
    }
}

/// The record-local names any expression of a sequence may assign.
pub open spec fn ctx_writes_seq(es: Seq<ExprV>) -> Set<Seq<char>>
    decreases es, 1int,
{
    if es.len() == 0 {
        Set::empty()
    } else {
        ctx_writes(es.first()).union(ctx_writes_seq(es.drop_first()))
    }
}

/// Two states agree everywhere off an exception set.
pub open spec fn agree_off(m1: Vars, m2: Vars, ex: Set<Seq<char>>) -> bool {
    forall|k: Seq<char>|
        !ex.contains(k) ==> ((#[trigger] m1.contains_key(k) <==> m2.contains_key(k)) && (
        m1.contains_key(k) ==> m1[k] == m2[k]))
}

/// Agreement is transitive, off the union of the exception sets.
pub proof fn lemma_agree_trans(m1: Vars, m2: Vars, m3: Vars, s1: Set<Seq<char>>, s2: Set<Seq<char>>)
    requires
        agree_off(m1, m2, s1),
        agree_off(m2, m3, s2),
    ensures
        agree_off(m1, m3, s1.union(s2)),
{
    assert forall|k: Seq<char>| !s1.union(s2).contains(k) implies ((#[trigger] m1.contains_key(k)
        <==> m3.contains_key(k)) && (m1.contains_key(k) ==> m1[k] == m3[k])) by {
        assert(!s1.contains(k));
        assert(!s2.contains(k));
        assert(m1.contains_key(k) <==> m2.contains_key(k));
        assert(m2.contains_key(k) <==> m3.contains_key(k));
    }
}

/// Agreement off a set also holds off any superset.
pub proof fn lemma_agree_widen(m1: Vars, m2: Vars, s1: Set<Seq<char>>, s2: Set<Seq<char>>)
    requires
        agree_off(m1, m2, s1),
        s1.subset_of(s2),
    ensures
        agree_off(m1, m2, s2),
{
    assert forall|k: Seq<char>| !s2.contains(k) implies ((#[trigger] m1.contains_key(k)
        <==> m2.contains_key(k)) && (m1.contains_key(k) ==> m1[k] == m2[k])) by {
        assert(!s1.contains(k));
    }
}

/// Every member of a sequence contributes its writes to the sequence's.
pub proof fn lemma_ctx_writes_seq_member(es: Seq<ExprV>, i: int)
    requires
        0 <= i < es.len(),
    ensures
        ctx_writes(es[i]).subset_of(ctx_writes_seq(es)),
    decreases es.len(),
{
    if i == 0 {
    } else {
        lemma_ctx_writes_seq_member(es.drop_first(), i - 1);
        assert(es.drop_first()[i - 1] == es[i]);
    }
}


/// States agree with themselves off any set.
pub proof fn lemma_agree_refl(m: Vars, s: Set<Seq<char>>)
    ensures
        agree_off(m, m, s),
{
}

/// Inserting a key preserves agreement off any set holding the key.
pub proof fn lemma_agree_insert(m: Vars, k: Seq<char>, v: ValueV, s: Set<Seq<char>>)
    requires
        s.contains(k),
    ensures
        agree_off(m, m.insert(k, v), s),
{
    assert forall|k2: Seq<char>| !s.contains(k2) implies ((#[trigger] m.contains_key(k2)
        <==> m.insert(k, v).contains_key(k2)) && (m.contains_key(k2) ==> m[k2] == m.insert(k, v)[
        k2])) by {
        assert(k2 != k);
    }
}

/// Computes a numeric binary operation.
fn bin_num(op: &ValBinaryOp, a: i64, b: i64) -> (r: i64)
    ensures
        r == sp_bin_num(*op, a, b),
{
    match op {
        ValBinaryOp::Add => a.wrapping_add(b),
        ValBinaryOp::Minus => a.wrapping_sub(b),
        ValBinaryOp::Mul => a.wrapping_mul(b),
        ValBinaryOp::Div => match a.checked_div(b) {
            Some(q) => q,
            None => if b == 0 {
                0
            } else {
                i64::MIN
            },
        },
        ValBinaryOp::Mod => match a.checked_rem(b) {
            Some(r) => r,
            None => 0,
        },
        ValBinaryOp::And => a & b,
        ValBinaryOp::Or => a | b,
        ValBinaryOp::Xor => a ^ b,
    }
}

/// Computes a unary operation.
fn un_value(op: &UnaryOp, v: &RawValue) -> (r: RawValue)
    ensures
        r@ == sp_un(*op, v@),
{
    match op {
        UnaryOp::Positive => RawValue::Num(v.get_num()),
        UnaryOp::Negative => RawValue::Num((0 as i64).wrapping_sub(v.get_num())),
        UnaryOp::Not => match v {
            RawValue::Unit => RawValue::Unit,
            RawValue::Bool(b) => RawValue::Bool(!*b),
            RawValue::Num(n) => RawValue::Num(*n ^ (-1 as i64)),
            RawValue::Str(_) => RawValue::Str(String::new()),
        },
    }
}

/// Repeats a string; a negative count gives the empty string.
fn repeat_str(s: &String, n: i64) -> (r: String)
    ensures
        r@ == str_repeat(s@, n as int),
{
    let mut out = String::new();
    if n <= 0 {
        return out;
    }
    let mut i: i64 = 0;
    while i < n
        invariant
            0 <= i <= n,
            out@ == str_repeat(s@, i as int),
        decreases n - i,
    {
        out.append(s.as_str());
        i = i + 1;
    }
    out
}

/// Whether one string is lexicographically below another, by code point.
#[verifier::loop_isolation(false)]
fn str_less(a: &String, b: &String) -> (r: bool)
    ensures
        r == lex_lt(a@, b@),
{
    let alen = a.as_str().unicode_len();
    let blen = b.as_str().unicode_len();
    let mut i: usize = 0;
    proof {
        assert(a@.skip(0) =~= a@);
        assert(b@.skip(0) =~= b@);
    }
    while i < alen && i < blen
        invariant
            0 <= i <= alen,
            i <= blen,
            alen == a@.len(),
            blen == b@.len(),
            lex_lt(a@, b@) == lex_lt(a@.skip(i as int), b@.skip(i as int)),
        decreases alen - i,
    {
        let ca = a.as_str().get_char(i);
        let cb = b.as_str().get_char(i);
        proof {
            assert(a@.skip(i as int)[0] == a@[i as int]);
            assert(b@.skip(i as int)[0] == b@[i as int]);
        }
        if ca as u32 != cb as u32 {
            proof {
                vstd::utf8::char_u32_cast(ca, ca as u32);
                vstd::utf8::char_u32_cast(cb, cb as u32);
            }
            return (ca as u32) < (cb as u32);
        }
        proof {
            assert(a@.skip(i as int).drop_first() =~= a@.skip(i + 1));
            assert(b@.skip(i as int).drop_first() =~= b@.skip(i + 1));
            assert(a@[i as int] == b@[i as int]) by {
                vstd::utf8::char_u32_cast(ca, ca as u32);
                vstd::utf8::char_u32_cast(cb, cb as u32);
            }
        }
        i = i + 1;
    }
    proof {
        assert(a@.skip(i as int).len() == 0 || b@.skip(i as int).len() == 0);
    }
    if i < blen {
        // the first string is exhausted and the second is not
        proof {
            assert(a@.skip(i as int).len() == 0);
            assert(b@.skip(i as int).len() != 0);
        }
        true
    } else {
        proof {
            assert(b@.skip(i as int).len() == 0);
        }
        false
    }
}

/// Computes a value binary operation on evaluated operands.
fn bin_value(op: &ValBinaryOp, l: RawValue, r: RawValue) -> (res: RawValue)
    ensures
        res@ == sp_bin_val(*op, l@, r@),
{
    let tl = l.get_type();
    let tr = r.get_type();
    let rank_l: u8 = match tl {
        ValueType::Unit => 0,
        ValueType::Bool => 1,
        ValueType::Num => 2,
        ValueType::Str => 3,
    };
    let rank_r: u8 = match tr {
        ValueType::Unit => 0,
        ValueType::Bool => 1,
        ValueType::Num => 2,
        ValueType::Str => 3,
    };
    let t = if rank_l >= rank_r {
        tl
    } else {
        tr
    };
    proof {
        assert(t == type_max(sp_type(l@), sp_type(r@)));
    }
    match t {
        ValueType::Unit => RawValue::Unit,
        ValueType::Bool => {
            let a = l.get_bool();
            let b = r.get_bool();
            match op {
                ValBinaryOp::And => RawValue::Bool(a && b),
                ValBinaryOp::Or => RawValue::Bool(a || b),
                ValBinaryOp::Xor => RawValue::Bool(a ^ b),
                _ => RawValue::Num(
                    bin_num(
                        op,
                        if a {
                            1
                        } else {
                            0
                        },
                        if b {
                            1
                        } else {
                            0
                        },
                    ),
                ),
            }
        },
        ValueType::Num => RawValue::Num(bin_num(op, l.get_num(), r.get_num())),
        ValueType::Str => match op {
            ValBinaryOp::Add => {
                let s = l.get_str();
                RawValue::Str(s.concat(r.get_str().as_str()))
            },
            ValBinaryOp::Mul => {
                let l_is_str = match &l {
                    RawValue::Str(_) => true,
                    _ => false,
                };
                let r_is_str = match &r {
                    RawValue::Str(_) => true,
                    _ => false,
                };
                if l_is_str && r_is_str {
                    RawValue::Unit
                } else if r_is_str {
                    RawValue::Str(repeat_str(&r.get_str(), l.get_num()))
                } else {
                    RawValue::Str(repeat_str(&l.get_str(), r.get_num()))
                }
            },
            _ => RawValue::Unit,
        },
    }
}

/// Computes a comparison on evaluated operands.
fn cmp_values(op: &LogicBinaryOp, l: &RawValue, r: &RawValue) -> (res: bool)
    ensures
        res == sp_cmp(*op, l@, r@),
{
    let tl = l.get_type();
    let tr = r.get_type();
    let rank_l: u8 = match tl {
        ValueType::Unit => 0,
        ValueType::Bool => 1,
        ValueType::Num => 2,
        ValueType::Str => 3,
    };
    let rank_r: u8 = match tr {
        ValueType::Unit => 0,
        ValueType::Bool => 1,
        ValueType::Num => 2,
        ValueType::Str => 3,
    };
    let t = if rank_l >= rank_r {
        tl
    } else {
        tr
    };
    proof {
        assert(t == type_max(sp_type(l@), sp_type(r@)));
    }
    match t {
        ValueType::Unit => match op {
            LogicBinaryOp::Eq => true,
            _ => false,
        },
        ValueType::Bool => {
            let a: i64 = if l.get_bool() {
                1
            } else {
                0
            };
            let b: i64 = if r.get_bool() {
                1
            } else {
                0
            };
            cmp_nums(op, a, b)
        },
        ValueType::Num => cmp_nums(op, l.get_num(), r.get_num()),
        ValueType::Str => {
            let a = l.get_str();
            let b = r.get_str();
            match op {
                LogicBinaryOp::Eq => a.eq(&b),
                LogicBinaryOp::Neq => !a.eq(&b),
                LogicBinaryOp::Lt => str_less(&a, &b),
                LogicBinaryOp::Le => str_less(&a, &b) || a.eq(&b),
                LogicBinaryOp::Gt => str_less(&b, &a),
                LogicBinaryOp::Ge => str_less(&b, &a) || a.eq(&b),
                _ => false,
            }
        },
    }
}

/// Compares two numbers.
fn cmp_nums(op: &LogicBinaryOp, a: i64, b: i64) -> (res: bool)
    ensures
        res == sp_cmp_num(*op, a, b),
{
    match op {
        LogicBinaryOp::Eq => a == b,
        LogicBinaryOp::Neq => a != b,
        LogicBinaryOp::Lt => a < b,
        LogicBinaryOp::Le => a <= b,
        LogicBinaryOp::Gt => a > b,
        LogicBinaryOp::Ge => a >= b,
        _ => false,
    }
}

/// Writes an evaluated value through an assignment target.
fn assign_to(locals: &mut VarMap, vars: &mut VarMap, target: &Expr, val: RawValue)
    requires
        old(locals).wf(),
        old(vars).wf(),
    ensures
        final(locals).wf(),
        final(vars).wf(),
        (final(locals).map_view(), final(vars).map_view(), ValueV::Unit) == sp_assign(
            target.deep_view(),
            old(locals).map_view(),
            old(vars).map_view(),
            val@,
        ),
        agree_off(
            old(locals).map_view(),
            final(locals).map_view(),
            ctx_writes(
                ExprV::Binary(
                    Box::new(target.deep_view()),
                    BinaryOp::Assign,
                    Box::new(target.deep_view()),
                ),
            ),
        ),
{
    let ghost ex = ctx_writes(
        ExprV::Binary(
            Box::new(target.deep_view()),
            BinaryOp::Assign,
            Box::new(target.deep_view()),
        ),
    );
    match target {
        Expr::Ref(Ref::Var(n)) => {
            vars.insert(n.clone(), val);
            proof {
                lemma_agree_refl(locals.map_view(), ex);
            }
        },
        Expr::Ref(Ref::Ctx(n)) => {
            proof {
                assert(ex.contains(n@));
                lemma_agree_insert(locals.map_view(), n@, val@, ex);
            }
            locals.insert(n.clone(), val);
        },
        _ => {
            proof {
                lemma_agree_refl(locals.map_view(), ex);
            }
        },
    }
}

/// Evaluates an expression against the two variable tables, calling out
/// to plugin modules for qualified function calls.
///
/// On the plugin-free fragment the result and the new tables follow
/// [`sp_eval`] exactly. Whatever any plugin returns, the record locals
/// change only at keys assigned by some `$name` target of the expression.
#[verifier::loop_isolation(false)]
pub fn eval_expr<M: RawModule>(
    rt: &Runtime<M>,
    locals: &mut VarMap,
    vars: &mut VarMap,
    e: &Expr,
) -> (r: RawValue)
    requires
        old(locals).wf(),
        old(vars).wf(),
    ensures
        final(locals).wf(),
        final(vars).wf(),
        (sp_eval(e.deep_view(), old(locals).map_view(), old(vars).map_view()) matches Some(
            (l2, v2, val),
        ) ==> final(locals).map_view() == l2 && final(vars).map_view() == v2 && r@ == val),
        agree_off(old(locals).map_view(), final(locals).map_view(), ctx_writes(e.deep_view())),
        (match e.deep_view() {
            ExprV::Call(ns, _, _) => ns.len() > 0 && !rt.has_module(ns) ==> r@ is Unit,
            _ => true,
        }),
    decreases e,
{
    let ghost l0 = locals.map_view();
    let ghost v0 = vars.map_view();
    let ghost ex = ctx_writes(e.deep_view());
    match e {
        Expr::Ref(Ref::Var(n)) => {
            proof {
                lemma_agree_refl(l0, ex);
            }
            match vars.get(n) {
                Some(v) => v.clone(),
                None => RawValue::Unit,
            }
        },
        Expr::Ref(Ref::Ctx(n)) => {
            proof {
                lemma_agree_refl(l0, ex);
            }
            match locals.get(n) {
                Some(v) => v.clone(),
                None => RawValue::Unit,
            }
        },
        Expr::Const(v) => {
            proof {
                lemma_agree_refl(l0, ex);
            }
            v.clone()
        },
        Expr::Unary(op, inner) => {
            let v = eval_expr(rt, locals, vars, inner);
            un_value(op, &v)
        },
        Expr::Binary(lhs, op, rhs) => {
            match op {
                BinaryOp::Val(vop) => {
                    let a = eval_expr(rt, locals, vars, lhs);
                    let ghost l1 = locals.map_view();
                    let b = eval_expr(rt, locals, vars, rhs);
                    proof {
                        lemma_agree_trans(
                            l0,
                            l1,
                            locals.map_view(),
                            ctx_writes(lhs.deep_view()),
                            ctx_writes(rhs.deep_view()),
                        );
                        lemma_agree_widen(
                            l0,
                            locals.map_view(),
                            ctx_writes(lhs.deep_view()).union(ctx_writes(rhs.deep_view())),
                            ex,
                        );
                    }
                    bin_value(vop, a, b)
                },
                BinaryOp::Logic(LogicBinaryOp::And) => {
                    let a = eval_expr(rt, locals, vars, lhs);
                    if !a.get_bool() {
                        proof {
                            lemma_agree_widen(
                                l0,
                                locals.map_view(),
                                ctx_writes(lhs.deep_view()),
                                ex,
                            );
                        }
                        RawValue::Bool(false)
                    } else {
                        let ghost l1 = locals.map_view();
                        let b = eval_expr(rt, locals, vars, rhs);
                        proof {
                            lemma_agree_trans(
                                l0,
                                l1,
                                locals.map_view(),
                                ctx_writes(lhs.deep_view()),
                                ctx_writes(rhs.deep_view()),
                            );
                            lemma_agree_widen(
                                l0,
                                locals.map_view(),
                                ctx_writes(lhs.deep_view()).union(ctx_writes(rhs.deep_view())),
                                ex,
                            );
                        }
                        RawValue::Bool(b.get_bool())
                    }
                },
                BinaryOp::Logic(LogicBinaryOp::Or) => {
                    let a = eval_expr(rt, locals, vars, lhs);
                    if a.get_bool() {
                        proof {
                            lemma_agree_widen(
                                l0,
                                locals.map_view(),
                                ctx_writes(lhs.deep_view()),
                                ex,
                            );
                        }
                        RawValue::Bool(true)
                    } else {
                        let ghost l1 = locals.map_view();
                        let b = eval_expr(rt, locals, vars, rhs);
                        proof {
                            lemma_agree_trans(
                                l0,
                                l1,
                                locals.map_view(),
                                ctx_writes(lhs.deep_view()),
                                ctx_writes(rhs.deep_view()),
                            );
                            lemma_agree_widen(
                                l0,
                                locals.map_view(),
                                ctx_writes(lhs.deep_view()).union(ctx_writes(rhs.deep_view())),
                                ex,
                            );
                        }
                        RawValue::Bool(b.get_bool())
                    }
                },
                BinaryOp::Logic(cop) => {
                    let a = eval_expr(rt, locals, vars, lhs);
                    let ghost l1 = locals.map_view();
                    let b = eval_expr(rt, locals, vars, rhs);
                    proof {
                        lemma_agree_trans(
                            l0,
                            l1,
                            locals.map_view(),
                            ctx_writes(lhs.deep_view()),
                            ctx_writes(rhs.deep_view()),
                        );
                        lemma_agree_widen(
                            l0,
                            locals.map_view(),
                            ctx_writes(lhs.deep_view()).union(ctx_writes(rhs.deep_view())),
                            ex,
                        );
                    }
                    RawValue::Bool(cmp_values(cop, &a, &b))
                },
                BinaryOp::Assign => {
                    let val = eval_expr(rt, locals, vars, rhs);
                    let ghost l1 = locals.map_view();
                    assign_to(locals, vars, lhs, val);
                    proof {
                        let tset = ctx_writes(
                            ExprV::Binary(
                                Box::new(lhs.deep_view()),
                                BinaryOp::Assign,
                                Box::new(lhs.deep_view()),
                            ),
                        );
                        lemma_agree_trans(
                            l0,
                            l1,
                            locals.map_view(),
                            ctx_writes(rhs.deep_view()),
                            tset,
                        );
                        lemma_agree_widen(
                            l0,
                            locals.map_view(),
                            ctx_writes(rhs.deep_view()).union(tset),
                            ex,
                        );
                    }
                    RawValue::Unit
                },
                BinaryOp::Inplace(vop) => {
                    let a = eval_expr(rt, locals, vars, lhs);
                    let ghost l1 = locals.map_view();
                    let b = eval_expr(rt, locals, vars, rhs);
                    let ghost l2 = locals.map_view();
                    let val = bin_value(vop, a, b);
                    assign_to(locals, vars, lhs, val);
                    proof {
                        let tset = ctx_writes(
                            ExprV::Binary(
                                Box::new(lhs.deep_view()),
                                BinaryOp::Assign,
                                Box::new(lhs.deep_view()),
                            ),
                        );
                        lemma_agree_trans(
                            l0,
                            l1,
                            l2,
                            ctx_writes(lhs.deep_view()),
                            ctx_writes(rhs.deep_view()),
                        );
                        lemma_agree_trans(
                            l0,
                            l2,
                            locals.map_view(),
                            ctx_writes(lhs.deep_view()).union(ctx_writes(rhs.deep_view())),
                            tset,
                        );
                        lemma_agree_widen(
                            l0,
                            locals.map_view(),
                            ctx_writes(lhs.deep_view()).union(ctx_writes(rhs.deep_view())).union(
                                tset,
                            ),
                            ex,
                        );
                    }
                    RawValue::Unit
                },
            }
        },
        Expr::Call(ns, name, args) => {
            if ns.as_str().is_empty() {
                let is_if = name.as_str().unicode_len() == 2 && name.as_str().get_char(0) == 'i'
                    && name.as_str().get_char(1) == 'f';
                proof {
                    if is_if {
                        assert(name@ =~= if_name());
                    } else {
                        assert(name@ != if_name());
                    }
                }
                proof {
                    assert(exprs_views(e) == crate::ast::exprs_view(args@));
                    assert(exprs_views(e).len() == args@.len());
                }
                if is_if {
                    let cond = if args.len() > 0 {
                        eval_expr(rt, locals, vars, &args[0])
                    } else {
                        RawValue::Unit
                    };
                    let ghost l1 = locals.map_view();
                    proof {
                        if args@.len() > 0 {
                            lemma_ctx_writes_seq_member(exprs_views(e), 0);
                        }
                        lemma_agree_refl(l1, ctx_writes_seq(exprs_views(e)));
                    }
                    let branch: usize = if cond.get_bool() {
                        1
                    } else {
                        2
                    };
                    let r = if args.len() > branch {
                        let rr = eval_expr(rt, locals, vars, &args[branch]);
                        proof {
                            lemma_ctx_writes_seq_member(exprs_views(e), branch as int);
                        }
                        rr
                    } else {
                        RawValue::Unit
                    };
                    proof {
                        let full = ctx_writes_seq(exprs_views(e));
                        let s1: Set<Seq<char>> = if args@.len() > 0 {
                            ctx_writes(exprs_views(e)[0])
                        } else {
                            Set::empty()
                        };
                        let s2: Set<Seq<char>> = if args@.len() > branch {
                            ctx_writes(exprs_views(e)[branch as int])
                        } else {
                            Set::empty()
                        };
                        lemma_agree_trans(l0, l1, locals.map_view(), s1, s2);
                        assert(s1.union(s2).subset_of(full));
                        lemma_agree_widen(l0, locals.map_view(), s1.union(s2), full);
                    }
                    r
                } else {
                    proof {
                        lemma_agree_refl(l0, ex);
                    }
                    RawValue::Unit
                }
            } else {
                proof {
                    assert(exprs_views(e) == crate::ast::exprs_view(args@));
                    assert(exprs_views(e).len() == args@.len());
                }
                let mut vals: Vec<RawValue> = Vec::new();
                let n = args.len();
                let mut i: usize = 0;
                while i < n
                    invariant
                        n == args@.len(),
                        locals.wf(),
                        vars.wf(),
                        agree_off(l0, locals.map_view(), ctx_writes_seq(exprs_views(e))),
                    decreases n - i,
                {
                    let ghost li = locals.map_view();
                    let v = eval_expr(rt, locals, vars, &args[i]);
                    vals.push(v);
                    proof {
                        lemma_ctx_writes_seq_member(exprs_views(e), i as int);
                        lemma_agree_trans(
                            l0,
                            li,
                            locals.map_view(),
                            ctx_writes_seq(exprs_views(e)),
                            ctx_writes(exprs_views(e)[i as int]),
                        );
                        lemma_agree_widen(
                            l0,
                            locals.map_view(),
                            ctx_writes_seq(exprs_views(e)).union(
                                ctx_writes(exprs_views(e)[i as int]),
                            ),
                            ctx_writes_seq(exprs_views(e)),
                        );
                    }
                    i = i + 1;
                }
                call_outcome(rt.dispatch_method(ns, name.as_str(), &vals))
            }
        },
    }
}

/// The value of a dispatched script call: the module's value on success;
/// unit when the namespace names no module or the call failed, since a
/// plugin failure never propagates into the script.
pub fn call_outcome(outcome: Option<Result<RawValue, crate::plugin::PluginError>>) -> (r:
    RawValue)
    ensures
        match outcome {
            Some(Ok(v)) => r == v,
            Some(Err(_)) => r@ is Unit,
            None => r@ is Unit,
        },
{
    match outcome {
        Some(Ok(v)) => v,
        Some(Err(_)) => RawValue::Unit,
        None => RawValue::Unit,
    }
}

/// The argument views of a call expression.
pub open spec fn exprs_views(e: &Expr) -> Seq<ExprV> {
    e.deep_view()->Call_2
}


/// Runs expressions in order, threading the state; the program's value
/// is the last expression's.
pub open spec fn sp_run(es: Seq<ExprV>, locals: Vars, vars: Vars, last: ValueV) -> Option<
    (Vars, Vars, ValueV),
>
    decreases es.len(),
{
    if es.len() == 0 {
        Some((locals, vars, last))
    } else {
        match sp_eval(es.first(), locals, vars) {
            Some((l, v, val)) => sp_run(es.drop_first(), l, v, val),
            None => None,
        }
    }
}

/// The semantics of a plugin-free program: it starts with empty temp
/// variables and yields the last expression's value; the empty program
/// yields unit.
pub open spec fn sp_program(es: Seq<ExprV>, locals: Vars) -> Option<(Vars, ValueV)> {
    match sp_run(es, locals, Map::empty(), ValueV::Unit) {
        Some((l, v, val)) => Some((l, val)),
        None => None,
    }
}

/// Evaluates a program against the record locals: the temp variables
/// start empty, the expressions run in order, and the value is the last
/// expression's; the empty program yields unit.
///
/// On the plugin-free fragment the result follows [`sp_program`] exactly.
/// Whatever any plugin returns, the record locals change only at keys
/// assigned by some `$name` target of the program.
#[verifier::loop_isolation(false)]
pub fn eval_program<M: RawModule>(rt: &Runtime<M>, locals: &mut VarMap, p: &Program) -> (r:
    RawValue)
    requires
        old(locals).wf(),
    ensures
        final(locals).wf(),
        (sp_program(p.deep_view(), old(locals).map_view()) matches Some((l2, val))
            ==> final(locals).map_view() == l2 && r@ == val),
        agree_off(
            old(locals).map_view(),
            final(locals).map_view(),
            ctx_writes_seq(p.deep_view()),
        ),
{
    let ghost l0 = old(locals).map_view();
    let ghost pv = p.deep_view();
    let mut vars = VarMap::new();
    let mut cur = RawValue::Unit;
    let n = p.0.len();
    proof {
        assert(vars.map_view() =~= Map::<Seq<char>, ValueV>::empty());
        assert(pv.skip(0) =~= pv);
        lemma_agree_refl(l0, ctx_writes_seq(pv));
    }
    for i in 0..n
        invariant
            n == pv.len(),
            locals.wf(),
            vars.wf(),
            agree_off(l0, locals.map_view(), ctx_writes_seq(pv)),
            sp_run(pv, l0, Map::empty(), ValueV::Unit) is Some ==> sp_run(
                pv,
                l0,
                Map::empty(),
                ValueV::Unit,
            ) == sp_run(pv.skip(i as int), locals.map_view(), vars.map_view(), cur@),
    {
        let ghost li = locals.map_view();
        let ghost vi = vars.map_view();
        proof {
            assert(p.0@[i as int].deep_view() == pv[i as int]);
        }
        cur = eval_expr(rt, locals, &mut vars, &p.0[i]);
        proof {
            assert(pv.skip(i as int).first() == pv[i as int]);
            assert(pv.skip(i as int).drop_first() =~= pv.skip(i + 1));
            lemma_ctx_writes_seq_member(pv, i as int);
            lemma_agree_trans(l0, li, locals.map_view(), ctx_writes_seq(pv), ctx_writes(
                pv[i as int],
            ));
            lemma_agree_widen(
                l0,
                locals.map_view(),
                ctx_writes_seq(pv).union(ctx_writes(pv[i as int])),
                ctx_writes_seq(pv),
            );
            if sp_run(pv, l0, Map::empty(), ValueV::Unit) is Some {
                assert(sp_run(pv.skip(i as int), li, vi, ValueV::Unit) is Some ==> sp_eval(
                    pv[i as int],
                    li,
                    vi,
                ) is Some);
            }
        }
    }
    proof {
        assert(pv.skip(n as int) =~= Seq::<ExprV>::empty());
    }
    cur
}


/// The whitespace characters, as the White_Space property lists them.
pub open spec fn is_space(c: char) -> bool {
    c == ' ' || c == '\t' || c == '\n' || c == '\u{0B}' || c == '\u{0C}' || c == '\r' || c
        == '\u{85}' || c == '\u{A0}' || c == '\u{1680}' || ('\u{2000}' <= c && c <= '\u{200A}')
        || c == '\u{2028}' || c == '\u{2029}' || c == '\u{202F}' || c == '\u{205F}' || c
        == '\u{3000}'
}

/// Tests a character for whitespace.
pub fn is_space_char(c: char) -> (r: bool)
    ensures
        r == is_space(c),
{
    c == ' ' || c == '\t' || c == '\n' || c == '\u{0B}' || c == '\u{0C}' || c == '\r' || c
        == '\u{85}' || c == '\u{A0}' || c == '\u{1680}' || ('\u{2000}' <= c && c <= '\u{200A}')
        || c == '\u{2028}' || c == '\u{2029}' || c == '\u{202F}' || c == '\u{205F}' || c
        == '\u{3000}'
}

/// A sequence without its leading whitespace.
pub open spec fn trim_start(s: Seq<char>) -> Seq<char>
    decreases s.len(),
{
    if s.len() > 0 && is_space(s[0]) {
        trim_start(s.drop_first())
    } else {
        s
    }
}

/// A sequence without its trailing whitespace.
pub open spec fn trim_end(s: Seq<char>) -> Seq<char>
    decreases s.len(),
{
    if s.len() > 0 && is_space(s.last()) {
        trim_end(s.drop_last())
    } else {
        s
    }
}

/// A sequence without its leading and trailing whitespace.
pub open spec fn sp_trim(s: Seq<char>) -> Seq<char> {
    trim_end(trim_start(s))
}

proof fn lemma_trim_start_skip(s: Seq<char>, i: int)
    requires
        0 <= i <= s.len(),
        forall|k: int| 0 <= k < i ==> is_space(#[trigger] s[k]),
        i < s.len() ==> !is_space(s[i]),
    ensures
        trim_start(s) == s.skip(i),
    decreases i,
{
    if i == 0 {
        assert(s.skip(0) =~= s);
    } else {
        assert(is_space(s[0]));
        lemma_trim_start_skip(s.drop_first(), i - 1);
        assert(s.drop_first().skip(i - 1) =~= s.skip(i));
    }
}

proof fn lemma_trim_end_take(s: Seq<char>, j: int)
    requires
        0 <= j <= s.len(),
        forall|k: int| j <= k < s.len() ==> is_space(#[trigger] s[k]),
        j > 0 ==> !is_space(s[j - 1]),
    ensures
        trim_end(s) == s.take(j),
    decreases s.len() - j,
{
    if j == s.len() {
        assert(s.take(j) =~= s);
    } else {
        assert(is_space(s.last()));
        lemma_trim_end_take(s.drop_last(), j);
        assert(s.drop_last().take(j) =~= s.take(j));
    }
}

proof fn lemma_trim_start_head(s: Seq<char>)
    ensures
        trim_start(s).len() > 0 ==> !is_space(trim_start(s)[0]),
    decreases s.len(),
{
    if s.len() > 0 && is_space(s[0]) {
        lemma_trim_start_head(s.drop_first());
    }
}

proof fn lemma_trim_end_props(s: Seq<char>)
    ensures
        trim_end(s).len() > 0 ==> trim_end(s)[0] == s[0] && !is_space(trim_end(s).last()),
    decreases s.len(),
{
    if s.len() > 0 && is_space(s.last()) {
        lemma_trim_end_props(s.drop_last());
    }
}

/// Trimming leaves no leading or trailing whitespace.
pub proof fn lemma_trim_no_edges(s: Seq<char>)
    ensures
        sp_trim(s).len() > 0 ==> !is_space(sp_trim(s)[0]) && !is_space(sp_trim(s).last()),
{
    lemma_trim_start_head(s);
    lemma_trim_end_props(trim_start(s));
}

/// Removes the leading and trailing whitespace of a string.
#[verifier::loop_isolation(false)]
pub fn trim_string(s: &String) -> (r: String)
    ensures
        r@ == sp_trim(s@),
{
    let n = s.as_str().unicode_len();
    let mut i: usize = 0;
    while i < n && is_space_char(s.as_str().get_char(i))
        invariant
            0 <= i <= n,
            n == s@.len(),
            forall|k: int| 0 <= k < i ==> is_space(#[trigger] s@[k]),
        decreases n - i,
    {
        i = i + 1;
    }
    proof {
        lemma_trim_start_skip(s@, i as int);
    }
    if i == n {
        let r = String::new();
        proof {
            assert(s@.skip(n as int) =~= Seq::<char>::empty());
            assert(trim_end(Seq::<char>::empty()) =~= Seq::<char>::empty());
        }
        return r;
    }
    let mut j: usize = n;
    while j > i && is_space_char(s.as_str().get_char(j - 1))
        invariant
            i <= j <= n,
            n == s@.len(),
            forall|k: int| j <= k < n ==> is_space(#[trigger] s@[k]),
        decreases j,
    {
        j = j - 1;
    }
    proof {
        // the character at i is not whitespace, so the scan from the end
        // stops at or after it
        assert(!is_space(s@[i as int]));
        assert(j > i);
        let t = s@.skip(i as int);
        assert forall|k: int| j - i <= k < t.len() implies is_space(#[trigger] t[k]) by {
            assert(t[k] == s@[k + i]);
        }
        assert(!is_space(t[j - i - 1]));
        lemma_trim_end_take(t, j - i);
        assert(t.take(j - i) =~= s@.subrange(i as int, j as int));
    }
    s.as_str().substring_char(i, j).to_owned()
}

/// The string a text piece contributes: a plain substring stands as it
/// is; a `Ctx` command reads a record local and stringifies it; any other
/// command is preserved for the plugin pipelines and contributes nothing.
pub open spec fn sp_subtext_str(st: SubTextV, locals: Vars) -> Seq<char> {
    match st {
        SubTextV::Str(s) => s,
        SubTextV::Cmd(CommandV::Ctx(n)) => sp_str(
            if locals.contains_key(n) {
                locals[n]
            } else {
                ValueV::Unit
            },
        ),
        SubTextV::Cmd(_) => Seq::empty(),
    }
}

/// The concatenation of a text's pieces.
pub open spec fn sp_text_concat(ts: Seq<SubTextV>, locals: Vars) -> Seq<char>
    decreases ts.len(),
{
    if ts.len() == 0 {
        Seq::empty()
    } else {
        sp_text_concat(ts.drop_last(), locals) + sp_subtext_str(ts.last(), locals)
    }
}

/// The string a text evaluates to: its pieces concatenated, then trimmed
/// of leading and trailing whitespace.
pub open spec fn sp_text_eval(ts: Seq<SubTextV>, locals: Vars) -> Seq<char> {
    sp_trim(sp_text_concat(ts, locals))
}

/// Evaluates a text against the record locals: concatenates its pieces
/// and trims the result. The value is always a string.
#[verifier::loop_isolation(false)]
pub fn eval_text(locals: &VarMap, t: &Text) -> (r: RawValue)
    requires
        locals.wf(),
    ensures
        r@ == ValueV::Str(sp_text_eval(t.deep_view(), locals.map_view())),
{
    let ghost tv = t.deep_view();
    let mut out = String::new();
    let n = t.0.len();
    proof {
        assert(out@ =~= sp_text_concat(tv.subrange(0, 0), locals.map_view()));
    }
    for i in 0..n
        invariant
            n == tv.len(),
            out@ == sp_text_concat(tv.subrange(0, i as int), locals.map_view()),
    {
        match &t.0[i] {
            SubText::Str(s) => {
                out.append(s.as_str());
            },
            SubText::Cmd(Command::Ctx(name)) => {
                let v = match locals.get(name) {
                    Some(v) => v.clone(),
                    None => RawValue::Unit,
                };
                let vs = v.get_str();
                out.append(vs.as_str());
            },
            SubText::Cmd(_) => {
                // the command is preserved structurally for the plugin
                // pipelines and contributes nothing here
            },
        }
        proof {
            assert(tv.subrange(0, i + 1).drop_last() =~= tv.subrange(0, i as int));
            assert(tv.subrange(0, i + 1).last() == tv[i as int]);
            assert(tv[i as int] == t.0@[i as int].deep_view());
            if t.0@[i as int] is Cmd {
                assert(out@ == sp_text_concat(tv.subrange(0, i + 1), locals.map_view()));
            }
        }
    }
    proof {
        assert(tv.subrange(0, n as int) =~= tv);
    }
    RawValue::Str(trim_string(&out))
}

/// Every evaluated text is free of leading and trailing whitespace.
pub proof fn lemma_text_eval_trimmed(ts: Seq<SubTextV>, locals: Vars)
    ensures
        sp_text_eval(ts, locals).len() > 0 ==> !is_space(sp_text_eval(ts, locals)[0]) && !is_space(
            sp_text_eval(ts, locals).last(),
        ),
{
    lemma_trim_no_edges(sp_text_concat(ts, locals));
}

} // verus!
