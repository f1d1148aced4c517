//! Typed messages of the calling convention, as wire trees.
//!
//! Each message type maps to and from a [`Wire`] tree; decoding rejects
//! malformed trees. Round trips are stated and proved at the view level.

use crate::value::{RawValue, ValueV};
use crate::varmap::{unique_keys, VarMap};
use crate::wire::{Wire, WireV};
use vstd::prelude::*;

verus! {

/// The wire form of a value.
pub open spec fn sp_value_wire(v: ValueV) -> WireV {
    match v {
        ValueV::Unit => WireV::Nil,
        ValueV::Bool(b) => WireV::Bool(b),
        ValueV::Num(n) => WireV::Int(n),
        ValueV::Str(s) => WireV::Str(s),
    }
}

/// The value read from a wire node; arrays are no values.
pub open spec fn sp_wire_value(w: WireV) -> Option<ValueV> {
    match w {
        WireV::Nil => Some(ValueV::Unit),
        WireV::Bool(b) => Some(ValueV::Bool(b)),
        WireV::Int(i) => Some(ValueV::Num(i)),
        WireV::Str(s) => Some(ValueV::Str(s)),
        WireV::Arr(_) => None,
    }
}

/// Reading back the wire form of a value gives the value.
pub proof fn lemma_value_wire_roundtrip(v: ValueV)
    ensures
        sp_wire_value(sp_value_wire(v)) == Some(v),
{
}

/// Builds the wire form of a value.
pub fn value_to_wire(v: &RawValue) -> (w: Wire)
    ensures
        w.deep_view() == sp_value_wire(v@),
{
    match v {
        RawValue::Unit => Wire::Nil,
        RawValue::Bool(b) => Wire::Bool(*b),
        RawValue::Num(n) => Wire::Int(*n),
        RawValue::Str(s) => Wire::Str(s.clone()),
    }
}

/// Reads a value from a wire node.
pub fn wire_to_value(w: &Wire) -> (r: Option<RawValue>)
    ensures
        match r {
            Some(v) => sp_wire_value(w.deep_view()) == Some(v@),
            None => sp_wire_value(w.deep_view()) is None,
        },
{
    match w {
        Wire::Nil => Some(RawValue::Unit),
        Wire::Bool(b) => Some(RawValue::Bool(*b)),
        Wire::Int(i) => Some(RawValue::Num(*i)),
        Wire::Str(s) => Some(RawValue::Str(s.clone())),
        Wire::Arr(_) => None,
    }
}

/// The wire form of a sequence of values.
pub open spec fn sp_values_wire(vs: Seq<ValueV>) -> WireV {
    WireV::Arr(Seq::new(vs.len(), |i: int| sp_value_wire(vs[i])))
}

/// Builds the wire form of an argument list.
#[verifier::loop_isolation(false)]
pub fn values_to_wire(vs: &Vec<RawValue>) -> (w: Wire)
    ensures
        w.deep_view() == sp_values_wire(vs.deep_view()),
{
    let mut elems: Vec<Wire> = Vec::new();
    let n = vs.len();
    for i in 0..n
        invariant
            n == vs@.len(),
            elems@.len() == i,
            forall|j: int| 0 <= j < i ==> elems@[j].deep_view() == sp_value_wire(
                #[trigger] vs@[j].deep_view(),
            ),
    {
        elems.push(value_to_wire(&vs[i]));
    }
    let w = Wire::Arr(elems);
    proof {
        assert(crate::wire::wires_view(elems@) =~= sp_values_wire(vs.deep_view())->Arr_0);
    }
    w
}

/// Reads an argument list from a wire node.
pub open spec fn sp_wire_values(w: WireV) -> Option<Seq<ValueV>> {
    match w {
        WireV::Arr(ws) => if forall|i: int| 0 <= i < ws.len() ==> sp_wire_value(
            #[trigger] ws[i],
        ) is Some {
            Some(Seq::new(ws.len(), |i: int| sp_wire_value(ws[i])->Some_0))
        } else {
            None
        },
        _ => None,
    }
}

/// Reads an argument list from a wire node.
#[verifier::loop_isolation(false)]
pub fn wire_to_values(w: &Wire) -> (r: Option<Vec<RawValue>>)
    ensures
        match r {
            Some(vs) => sp_wire_values(w.deep_view()) == Some(vs.deep_view()),
            None => sp_wire_values(w.deep_view()) is None,
        },
{
    match w {
        Wire::Arr(ws) => {
            let mut vs: Vec<RawValue> = Vec::new();
            let n = ws.len();
            for i in 0..n
                invariant
                    n == ws@.len(),
                    vs@.len() == i,
                    forall|j: int| 0 <= j < i ==> sp_wire_value(
                        #[trigger] crate::wire::wires_view(ws@)[j],
                    ) == Some(vs@[j].deep_view()),
            {
                match wire_to_value(&ws[i]) {
                    Some(v) => {
                        vs.push(v);
                    },
                    None => {
                        proof {
                            assert(sp_wire_value(crate::wire::wires_view(ws@)[i as int]) is None);
                        }
                        return None;
                    },
                }
            }
            proof {
                let wsv = crate::wire::wires_view(ws@);
                assert(forall|i: int| 0 <= i < wsv.len() ==> sp_wire_value(
                    #[trigger] wsv[i],
                ) is Some);
                assert(sp_wire_values(w.deep_view())->Some_0 =~= vs.deep_view());
            }
            Some(vs)
        },
        _ => None,
    }
}

/// Reading back the wire form of an argument list gives the list.
pub proof fn lemma_values_wire_roundtrip(vs: Seq<ValueV>)
    ensures
        sp_wire_values(sp_values_wire(vs)) == Some(vs),
{
    let ws = sp_values_wire(vs)->Arr_0;
    assert(forall|i: int| 0 <= i < ws.len() ==> sp_wire_value(#[trigger] ws[i]) is Some);
    assert(sp_wire_values(sp_values_wire(vs))->Some_0 =~= vs);
}

/// The wire form of a variable table: an array of two-element arrays.
pub open spec fn sp_varmap_wire(entries: Seq<(Seq<char>, ValueV)>) -> WireV {
    WireV::Arr(
        Seq::new(
            entries.len(),
            |i: int| WireV::Arr(seq![WireV::Str(entries[i].0), sp_value_wire(entries[i].1)]),
        ),
    )
}

/// The table entries read from a wire node; rejects anything but an
/// array of key-value pairs with pairwise distinct keys.
pub open spec fn sp_wire_varmap(w: WireV) -> Option<Seq<(Seq<char>, ValueV)>> {
    match w {
        WireV::Arr(ws) => if forall|i: int| 0 <= i < ws.len() ==> sp_wire_entry(
            #[trigger] ws[i],
        ) is Some {
            let entries = Seq::new(ws.len(), |i: int| sp_wire_entry(ws[i])->Some_0);
            if unique_keys(entries) {
                Some(entries)
            } else {
                None
            }
        } else {
            None
        },
        _ => None,
    }
}

/// One key-value pair read from a wire node.
pub open spec fn sp_wire_entry(w: WireV) -> Option<(Seq<char>, ValueV)> {
    match w {
        WireV::Arr(ws) => if ws.len() == 2 {
            match (ws[0], sp_wire_value(ws[1])) {
                (WireV::Str(k), Some(v)) => Some((k, v)),
                _ => None,
            }
        } else {
            None
        },
        _ => None,
    }
}

/// Builds the wire form of a variable table.
#[verifier::loop_isolation(false)]
pub fn varmap_to_wire(m: &VarMap) -> (w: Wire)
    ensures
        w.deep_view() == sp_varmap_wire(m@),
{
    let mut elems: Vec<Wire> = Vec::new();
    let n = m.len();
    for i in 0..n
        invariant
            n == m@.len(),
            elems@.len() == i,
            forall|j: int| 0 <= j < i ==> (#[trigger] elems@[j]).deep_view() == WireV::Arr(
                seq![WireV::Str(m@[j].0), sp_value_wire(m@[j].1)],
            ),
    {
        let mut pair: Vec<Wire> = Vec::new();
        pair.push(Wire::Str(m.key_at(i).clone()));
        pair.push(value_to_wire(m.val_at(i)));
        proof {
            assert(crate::wire::wires_view(pair@) =~= seq![
                WireV::Str(m@[i as int].0),
                sp_value_wire(m@[i as int].1),
            ]);
        }
        elems.push(Wire::Arr(pair));
    }
    let w = Wire::Arr(elems);
    proof {
        assert(crate::wire::wires_view(elems@) =~= sp_varmap_wire(m@)->Arr_0);
    }
    w
}

/// Reads a variable table from a wire node.
#[verifier::loop_isolation(false)]
pub fn wire_to_varmap(w: &Wire) -> (r: Option<VarMap>)
    ensures
        match r {
            Some(m) => sp_wire_varmap(w.deep_view()) == Some(m@) && m.wf(),
            None => sp_wire_varmap(w.deep_view()) is None,
        },
{
    match w {
        Wire::Arr(ws) => {
            let mut m = VarMap::new();
            let n = ws.len();
            for i in 0..n
                invariant
                    n == ws@.len(),
                    m.wf(),
                    m@.len() == i,
                    forall|j: int| 0 <= j < i ==> sp_wire_entry(
                        #[trigger] crate::wire::wires_view(ws@)[j],
                    ) == Some(m@[j]),
                    unique_keys(m@),
            {
                let ghost wsv = crate::wire::wires_view(ws@);
                let pair = match &ws[i] {
                    Wire::Arr(p) => p,
                    _ => {
                        proof {
                            assert(sp_wire_entry(wsv[i as int]) is None);
                        }
                        return None;
                    },
                };
                proof {
                    assert(wsv[i as int] == WireV::Arr(crate::wire::wires_view(pair@)));
                }
                if pair.len() != 2 {
                    return None;
                }
                proof {
                    assert(crate::wire::wires_view(pair@) =~= seq![
                        pair@[0].deep_view(),
                        pair@[1].deep_view(),
                    ]);
                }
                let k = match &pair[0] {
                    Wire::Str(k) => k.clone(),
                    _ => {
                        proof {
                            assert(sp_wire_entry(wsv[i as int]) is None);
                        }
                        return None;
                    },
                };
                let v = match wire_to_value(&pair[1]) {
                    Some(v) => v,
                    None => {
                        proof {
                            assert(sp_wire_entry(wsv[i as int]) is None);
                        }
                        return None;
                    },
                };
                proof {
                    assert(sp_wire_entry(wsv[i as int]) == Some((k@, v@)));
                }
                if m.get(&k).is_some() {
                    proof {
                        crate::varmap::lemma_map_of_has_key(m@, k@);
                        let entries = Seq::new(
                            crate::wire::wires_view(ws@).len(),
                            |j: int| sp_wire_entry(crate::wire::wires_view(ws@)[j])->Some_0,
                        );
                        if sp_wire_varmap(w.deep_view()) is Some {
                            let dup = choose|j: int|
                                0 <= j < i && (#[trigger] m@[j]).0 == k@;
                            assert(entries[dup].0 == entries[i as int].0);
                            assert(!unique_keys(entries));
                        }
                    }
                    return None;
                }
                proof {
                    crate::varmap::lemma_map_of_has_key(m@, k@);
                }
                m.insert(k, v);
            }
            proof {
                let wsv = crate::wire::wires_view(ws@);
                if sp_wire_varmap(w.deep_view()) is Some {
                    let entries = Seq::new(wsv.len(), |j: int| sp_wire_entry(wsv[j])->Some_0);
                    assert(entries =~= m@);
                }
                assert(forall|j: int| 0 <= j < wsv.len() ==> sp_wire_entry(
                    #[trigger] wsv[j],
                ) is Some);
            }
            Some(m)
        },
        _ => None,
    }
}

/// Reading back the wire form of a well-formed table gives its entries.
pub proof fn lemma_varmap_wire_roundtrip(entries: Seq<(Seq<char>, ValueV)>)
    requires
        unique_keys(entries),
    ensures
        sp_wire_varmap(sp_varmap_wire(entries)) == Some(entries),
{
    let ws = sp_varmap_wire(entries)->Arr_0;
    assert(forall|i: int| 0 <= i < ws.len() ==> sp_wire_entry(#[trigger] ws[i]) == Some(
        entries[i],
    ));
    let got = Seq::new(ws.len(), |i: int| sp_wire_entry(ws[i])->Some_0);
    assert(got =~= entries);
}


/// The wire form of a list of strings.
pub open spec fn sp_strings_wire(ss: Seq<Seq<char>>) -> WireV {
    WireV::Arr(Seq::new(ss.len(), |i: int| WireV::Str(ss[i])))
}

/// The list of strings read from a wire node.
pub open spec fn sp_wire_strings(w: WireV) -> Option<Seq<Seq<char>>> {
    match w {
        WireV::Arr(ws) => if forall|i: int| 0 <= i < ws.len() ==> (#[trigger] ws[i]) is Str {
            Some(Seq::new(ws.len(), |i: int| ws[i]->Str_0))
        } else {
            None
        },
        _ => None,
    }
}

/// Reading back the wire form of a string list gives the list.
pub proof fn lemma_strings_wire_roundtrip(ss: Seq<Seq<char>>)
    ensures
        sp_wire_strings(sp_strings_wire(ss)) == Some(ss),
{
    let ws = sp_strings_wire(ss)->Arr_0;
    assert(forall|i: int| 0 <= i < ws.len() ==> (#[trigger] ws[i]) is Str);
    assert(sp_wire_strings(sp_strings_wire(ss))->Some_0 =~= ss);
}

/// Builds the wire form of a list of strings.
#[verifier::loop_isolation(false)]
pub fn strings_to_wire(ss: &Vec<String>) -> (w: Wire)
    ensures
        w.deep_view() == sp_strings_wire(ss.deep_view()),
{
    let mut elems: Vec<Wire> = Vec::new();
    let n = ss.len();
    for i in 0..n
        invariant
            n == ss@.len(),
            elems@.len() == i,
            forall|j: int| 0 <= j < i ==> (#[trigger] elems@[j]).deep_view() == WireV::Str(
                ss@[j]@,
            ),
    {
        elems.push(Wire::Str(ss[i].clone()));
    }
    let w = Wire::Arr(elems);
    proof {
        assert(crate::wire::wires_view(elems@) =~= sp_strings_wire(ss.deep_view())->Arr_0);
    }
    w
}

/// Reads a list of strings from a wire node.
#[verifier::loop_isolation(false)]
pub fn wire_to_strings(w: &Wire) -> (r: Option<Vec<String>>)
    ensures
        match r {
            Some(ss) => sp_wire_strings(w.deep_view()) == Some(ss.deep_view()),
            None => sp_wire_strings(w.deep_view()) is None,
        },
{
    match w {
        Wire::Arr(ws) => {
            let mut ss: Vec<String> = Vec::new();
            let n = ws.len();
            for i in 0..n
                invariant
                    n == ws@.len(),
                    ss@.len() == i,
                    forall|j: int| 0 <= j < i ==> (#[trigger] crate::wire::wires_view(ws@)[j])
                        is Str && crate::wire::wires_view(ws@)[j]->Str_0 == ss@[j]@,
            {
                match &ws[i] {
                    Wire::Str(s) => {
                        ss.push(s.clone());
                    },
                    _ => {
                        proof {
                            assert(!(crate::wire::wires_view(ws@)[i as int] is Str));
                        }
                        return None;
                    },
                }
            }
            proof {
                let wsv = crate::wire::wires_view(ws@);
                assert(forall|i: int| 0 <= i < wsv.len() ==> (#[trigger] wsv[i]) is Str);
                assert(sp_wire_strings(w.deep_view())->Some_0 =~= ss.deep_view());
            }
            Some(ss)
        },
        _ => None,
    }
}

/// The wire form of an advertised plugin type.
pub open spec fn sp_plugin_type_wire(t: crate::plugin::PluginTypeV) -> WireV {
    WireV::Arr(
        seq![
            WireV::Bool(t.action),
            sp_strings_wire(t.text),
            sp_strings_wire(t.line),
            WireV::Bool(t.game),
        ],
    )
}

/// The advertised plugin type read from a wire node.
pub open spec fn sp_wire_plugin_type(w: WireV) -> Option<crate::plugin::PluginTypeV> {
    match w {
        WireV::Arr(ws) => if ws.len() == 4 {
            match (ws[0], sp_wire_strings(ws[1]), sp_wire_strings(ws[2]), ws[3]) {
                (WireV::Bool(action), Some(text), Some(line), WireV::Bool(game)) => Some(
                    crate::plugin::PluginTypeV { action, text, line, game },
                ),
                _ => None,
            }
        } else {
            None
        },
        _ => None,
    }
}

/// Reading back the wire form of a plugin type gives the type.
pub proof fn lemma_plugin_type_wire_roundtrip(t: crate::plugin::PluginTypeV)
    ensures
        sp_wire_plugin_type(sp_plugin_type_wire(t)) == Some(t),
{
    lemma_strings_wire_roundtrip(t.text);
    lemma_strings_wire_roundtrip(t.line);
}

/// Builds the wire form of a plugin type.
pub fn plugin_type_to_wire(t: &crate::plugin::PluginType) -> (w: Wire)
    ensures
        w.deep_view() == sp_plugin_type_wire(t.deep_view()),
{
    let mut elems: Vec<Wire> = Vec::new();
    elems.push(Wire::Bool(t.action));
    elems.push(strings_to_wire(&t.text));
    elems.push(strings_to_wire(&t.line));
    elems.push(Wire::Bool(t.game));
    let w = Wire::Arr(elems);
    proof {
        assert(crate::wire::wires_view(elems@) =~= sp_plugin_type_wire(t.deep_view())->Arr_0);
    }
    w
}

/// Reads a plugin type from a wire node.
pub fn plugin_type_from_wire(w: &Wire) -> (r: Option<crate::plugin::PluginType>)
    ensures
        match r {
            Some(t) => sp_wire_plugin_type(w.deep_view()) == Some(t.deep_view()),
            None => sp_wire_plugin_type(w.deep_view()) is None,
        },
{
    match w {
        Wire::Arr(ws) => {
            proof {
                if ws@.len() == 4 {
                    assert(crate::wire::wires_view(ws@) =~= seq![
                        ws@[0].deep_view(),
                        ws@[1].deep_view(),
                        ws@[2].deep_view(),
                        ws@[3].deep_view(),
                    ]);
                }
            }
            if ws.len() != 4 {
                return None;
            }
            let action = match &ws[0] {
                Wire::Bool(b) => *b,
                _ => {
                    return None;
                },
            };
            let text = match wire_to_strings(&ws[1]) {
                Some(ss) => ss,
                None => {
                    return None;
                },
            };
            let line = match wire_to_strings(&ws[2]) {
                Some(ss) => ss,
                None => {
                    return None;
                },
            };
            let game = match &ws[3] {
                Wire::Bool(b) => *b,
                _ => {
                    return None;
                },
            };
            Some(crate::plugin::PluginType { action, text, line, game })
        },
        _ => None,
    }
}


/// The wire form of a string-to-string property list.
pub open spec fn sp_props_wire(ps: Seq<(Seq<char>, Seq<char>)>) -> WireV {
    WireV::Arr(
        Seq::new(ps.len(), |i: int| WireV::Arr(seq![WireV::Str(ps[i].0), WireV::Str(ps[i].1)])),
    )
}

/// Builds the wire form of a property list.
#[verifier::loop_isolation(false)]
pub fn props_to_wire(ps: &Vec<(String, String)>) -> (w: Wire)
    ensures
        w.deep_view() == sp_props_wire(ps.deep_view()),
{
    let mut elems: Vec<Wire> = Vec::new();
    let n = ps.len();
    for i in 0..n
        invariant
            n == ps@.len(),
            elems@.len() == i,
            forall|j: int| 0 <= j < i ==> (#[trigger] elems@[j]).deep_view() == WireV::Arr(
                seq![WireV::Str(ps@[j].0@), WireV::Str(ps@[j].1@)],
            ),
    {
        let mut pair: Vec<Wire> = Vec::new();
        pair.push(Wire::Str(ps[i].0.clone()));
        pair.push(Wire::Str(ps[i].1.clone()));
        proof {
            assert(crate::wire::wires_view(pair@) =~= seq![
                WireV::Str(ps@[i as int].0@),
                WireV::Str(ps@[i as int].1@),
            ]);
        }
        elems.push(Wire::Arr(pair));
    }
    let w = Wire::Arr(elems);
    proof {
        assert(crate::wire::wires_view(elems@) =~= sp_props_wire(ps.deep_view())->Arr_0);
    }
    w
}

/// The property list a wire node holds.
pub open spec fn sp_wire_props(w: WireV) -> Option<Seq<(Seq<char>, Seq<char>)>> {
    match w {
        WireV::Arr(ws) => if forall|i: int| 0 <= i < ws.len() ==> sp_wire_prop(
            #[trigger] ws[i],
        ) is Some {
            Some(Seq::new(ws.len(), |i: int| sp_wire_prop(ws[i])->Some_0))
        } else {
            None
        },
        _ => None,
    }
}

/// One property read from a wire node.
pub open spec fn sp_wire_prop(w: WireV) -> Option<(Seq<char>, Seq<char>)> {
    match w {
        WireV::Arr(ws) => if ws.len() == 2 && ws[0] is Str && ws[1] is Str {
            Some((ws[0]->Str_0, ws[1]->Str_0))
        } else {
            None
        },
        _ => None,
    }
}

/// Reads a property list from a wire node.
#[verifier::loop_isolation(false)]
pub fn wire_to_props(w: &Wire) -> (r: Option<Vec<(String, String)>>)
    ensures
        match r {
            Some(ps) => sp_wire_props(w.deep_view()) == Some(ps.deep_view()),
            None => sp_wire_props(w.deep_view()) is None,
        },
{
    match w {
        Wire::Arr(ws) => {
            let ghost wsv = crate::wire::wires_view(ws@);
            let mut ps: Vec<(String, String)> = Vec::new();
            let n = ws.len();
            for i in 0..n
                invariant
                    n == wsv.len(),
                    ps@.len() == i,
                    forall|j: int| 0 <= j < i ==> sp_wire_prop(#[trigger] wsv[j]) == Some(
                        ps.deep_view()[j],
                    ),
            {
                let pair = match &ws[i] {
                    Wire::Arr(p) => p,
                    _ => {
                        return None;
                    },
                };
                proof {
                    assert(wsv[i as int] == WireV::Arr(crate::wire::wires_view(pair@)));
                    assert(crate::wire::wires_view(pair@).len() == pair@.len());
                    if pair@.len() == 2 {
                        assert(crate::wire::wires_view(pair@)[0] == pair@[0].deep_view());
                        assert(crate::wire::wires_view(pair@)[1] == pair@[1].deep_view());
                    }
                }
                if pair.len() != 2 {
                    return None;
                }
                match (&pair[0], &pair[1]) {
                    (Wire::Str(k), Wire::Str(v)) => {
                        ps.push((k.clone(), v.clone()));
                    },
                    _ => {
                        return None;
                    },
                }
            }
            proof {
                assert(forall|j: int| 0 <= j < wsv.len() ==> sp_wire_prop(
                    #[trigger] wsv[j],
                ) is Some);
                assert(sp_wire_props(w.deep_view())->Some_0 =~= ps.deep_view());
            }
            Some(ps)
        },
        _ => None,
    }
}


/// Clones a list of strings.
#[verifier::loop_isolation(false)]
pub fn clone_strings(ss: &Vec<String>) -> (r: Vec<String>)
    ensures
        r.deep_view() == ss.deep_view(),
{
    let mut r: Vec<String> = Vec::new();
    let n = ss.len();
    for i in 0..n
        invariant
            n == ss@.len(),
            r@.len() == i,
            forall|j: int| 0 <= j < i ==> (#[trigger] r@[j])@ == ss@[j]@,
    {
        r.push(ss[i].clone());
    }
    proof {
        assert(r.deep_view() =~= ss.deep_view());
    }
    r
}


/// Clones a property list.
#[verifier::loop_isolation(false)]
pub fn clone_props(ps: &Vec<(String, String)>) -> (r: Vec<(String, String)>)
    ensures
        r.deep_view() == ps.deep_view(),
{
    let mut r: Vec<(String, String)> = Vec::new();
    let n = ps.len();
    for i in 0..n
        invariant
            n == ps@.len(),
            r@.len() == i,
            forall|j: int| 0 <= j < i ==> (#[trigger] r@[j]).0@ == ps@[j].0@ && r@[j].1@
                == ps@[j].1@,
    {
        r.push((ps[i].0.clone(), ps[i].1.clone()));
    }
    proof {
        assert(r.deep_view() =~= ps.deep_view());
    }
    r
}

} // verus!
