//! A scriptable visual-novel runtime.
//!
//! A game is a set of localized paragraphs of scripted text. The runtime
//! plays it back turn by turn: a script interpreter evaluates embedded
//! expressions against a two-scope variable store, and sandboxed plugin
//! modules rewrite each produced action through typed dispatch over a
//! byte-level calling convention.

pub mod ast;
pub mod codec;
pub mod config;
pub mod context;
pub mod plugin;
pub mod plugins;
pub mod value;
pub mod record;
pub mod script;
pub mod serial;
pub mod varmap;
pub mod vm;
pub mod wire;

use vstd::prelude::*;

verus! {

/// The version of the runtime, shown by front ends.
pub fn version() -> (r: &'static str)
    ensures
        r@ =~= seq!['0', '.', '1', '.', '0'],
{
    proof {
        reveal_strlit("0.1.0");
    }
    "0.1.0"
}

} // verus!
