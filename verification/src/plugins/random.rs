//! The `random` script module: random numbers for scripts.

use crate::plugin::PluginType;
use crate::value::{sp_num, RawValue};
use vstd::prelude::*;

verus! {

/// Relies on `rand::Rng::gen_range` over `rand::thread_rng`: a value
/// drawn from the given half-open range.
#[verifier::external_body]
fn gen_range_i64(lo: i64, hi: i64) -> (r: i64)
    requires
        lo < hi,
    ensures
        lo <= r < hi,
{
    rand::Rng::gen_range(&mut rand::thread_rng(), lo..hi)
}

/// Relies on `rand::Rng::gen` over `rand::thread_rng`: some 64-bit value.
#[verifier::external_body]
fn gen_i64() -> i64 {
    rand::Rng::gen(&mut rand::thread_rng())
}

/// The kinds this module advertises: script functions only.
pub fn plugin_type() -> (r: PluginType)
    ensures
        !r.deep_view().action,
        !r.deep_view().game,
        r.deep_view().text.len() == 0,
        r.deep_view().line.len() == 0,
{
    PluginType::script()
}

/// The script function `rnd`: without arguments, any number; with one
/// argument `n`, a number in `[0, n)`; with two arguments `a, b`, a
/// number in `[a, b)`. An empty range is a script error and yields unit.
pub fn rnd(args: &Vec<RawValue>) -> (r: RawValue)
    ensures
        args.deep_view().len() == 0 ==> r@ is Num,
        args.deep_view().len() == 1 ==> (if 0 < sp_num(args.deep_view()[0]) {
            r@ matches crate::value::ValueV::Num(n) && 0 <= n < sp_num(args.deep_view()[0])
        } else {
            r@ is Unit
        }),
        args.deep_view().len() >= 2 ==> (if sp_num(args.deep_view()[0]) < sp_num(
            args.deep_view()[1],
        ) {
            r@ matches crate::value::ValueV::Num(n) && sp_num(args.deep_view()[0]) <= n < sp_num(
                args.deep_view()[1],
            )
        } else {
            r@ is Unit
        }),
{
    if args.len() == 0 {
        RawValue::Num(gen_i64())
    } else if args.len() == 1 {
        let hi = args[0].get_num();
        if 0 < hi {
            RawValue::Num(gen_range_i64(0, hi))
        } else {
            RawValue::Unit
        }
    } else {
        let lo = args[0].get_num();
        let hi = args[1].get_num();
        if lo < hi {
            RawValue::Num(gen_range_i64(lo, hi))
        } else {
            RawValue::Unit
        }
    }
}

} // verus!
