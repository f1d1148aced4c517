//! The runtime value type of the script language.
//!
//! Every operator of the language is total: operands are coerced following
//! the type ordering `Unit < Bool < Num < Str`.

use vstd::prelude::*;

verus! {

/// The type tag of a [`RawValue`], ordered `Unit < Bool < Num < Str`.
///
/// The ordering picks the result type of binary operations: both operands
/// are promoted to the greater of the two tags.
#[derive(Clone, Copy, Debug, PartialEq, Eq, Structural)]
pub enum ValueType {
    /// The unit type.
    Unit,
    /// The boolean type.
    Bool,
    /// The 64-bit signed integer type.
    Num,
    /// The string type.
    Str,
}

/// A runtime value: `Unit`, a boolean, a 64-bit signed integer, or a string.
#[derive(Debug)]
pub enum RawValue {
    /// The unit value.
    Unit,
    /// A boolean value.
    Bool(bool),
    /// A 64-bit signed integer value.
    Num(i64),
    /// A string value.
    Str(String),
}

/// The mathematical model of a [`RawValue`].
pub enum ValueV {
    /// The unit value.
    Unit,
    /// A boolean value.
    Bool(bool),
    /// An integer value.
    Num(i64),
    /// A string value, as its sequence of characters.
    Str(Seq<char>),
}

impl View for RawValue {
    type V = ValueV;

    open spec fn view(&self) -> ValueV {
        match self {
            RawValue::Unit => ValueV::Unit,
            RawValue::Bool(b) => ValueV::Bool(*b),
            RawValue::Num(n) => ValueV::Num(*n),
            RawValue::Str(s) => ValueV::Str(s@),
        }
    }
}

impl DeepView for RawValue {
    type V = ValueV;

    open spec fn deep_view(&self) -> ValueV {
        self.view()
    }
}

/// The rank of a type tag under the ordering `Unit < Bool < Num < Str`.
pub open spec fn type_rank(t: ValueType) -> nat {
    match t {
        ValueType::Unit => 0,
        ValueType::Bool => 1,
        ValueType::Num => 2,
        ValueType::Str => 3,
    }
}

/// The type tag of a value.
pub open spec fn sp_type(v: ValueV) -> ValueType {
    match v {
        ValueV::Unit => ValueType::Unit,
        ValueV::Bool(_) => ValueType::Bool,
        ValueV::Num(_) => ValueType::Num,
        ValueV::Str(_) => ValueType::Str,
    }
}

/// The greater of two type tags.
pub open spec fn type_max(a: ValueType, b: ValueType) -> ValueType {
    if type_rank(a) >= type_rank(b) {
        a
    } else {
        b
    }
}

/// Boolean coercion: unit is false, a number is true when nonzero,
/// a string is true when nonempty.
pub open spec fn sp_bool(v: ValueV) -> bool {
    match v {
        ValueV::Unit => false,
        ValueV::Bool(b) => b,
        ValueV::Num(n) => n != 0,
        ValueV::Str(s) => s.len() != 0,
    }
}

/// Numeric coercion: unit is 0, a boolean is 0 or 1, a string is its
/// length in UTF-8 bytes (truncated into the 64-bit range).
pub open spec fn sp_num(v: ValueV) -> i64 {
    match v {
        ValueV::Unit => 0,
        ValueV::Bool(b) => if b {
            1
        } else {
            0
        },
        ValueV::Num(n) => n,
        ValueV::Str(s) => (vstd::utf8::encode_utf8(s).len() as usize) as i64,
    }
}

/// The decimal digits of a natural number, most significant first.
pub open spec fn dec_digits(n: nat) -> Seq<char>
    decreases n,
{
    if n < 10 {
        seq![digit_char(n)]
    } else {
        dec_digits(n / 10).push(digit_char(n % 10))
    }
}

/// The character of a single decimal digit.
pub open spec fn digit_char(d: nat) -> char {
    if d == 0 {
        '0'
    } else if d == 1 {
        '1'
    } else if d == 2 {
        '2'
    } else if d == 3 {
        '3'
    } else if d == 4 {
        '4'
    } else if d == 5 {
        '5'
    } else if d == 6 {
        '6'
    } else if d == 7 {
        '7'
    } else if d == 8 {
        '8'
    } else {
        '9'
    }
}

/// The decimal representation of an integer, with a leading minus sign
/// when negative.
pub open spec fn dec_str(i: int) -> Seq<char> {
    if i < 0 {
        seq!['-'] + dec_digits((-i) as nat)
    } else {
        dec_digits(i as nat)
    }
}

/// String coercion: unit is empty, a boolean is `true` or `false`,
/// a number is its decimal representation.
pub open spec fn sp_str(v: ValueV) -> Seq<char> {
    match v {
        ValueV::Unit => Seq::empty(),
        ValueV::Bool(b) => if b {
            seq!['t', 'r', 'u', 'e']
        } else {
            seq!['f', 'a', 'l', 's', 'e']
        },
        ValueV::Num(n) => dec_str(n as int),
        ValueV::Str(s) => s,
    }
}

/// Appends the decimal digits of a value, most significant first.
fn push_digits(n: u64, out: &mut String)
    ensures
        final(out)@ == old(out)@ + dec_digits(n as nat),
    decreases n,
{
    if n >= 10 {
        push_digits(n / 10, out);
    }
    let digits = "0123456789";
    proof {
        reveal_strlit("0123456789");
    }
    let d = (n % 10) as usize;
    let piece = digits.substring_char(d, d + 1);
    proof {
        assert(piece@ =~= seq![digit_char((n % 10) as nat)]);
    }
    out.append(piece);
    proof {
        if n >= 10 {
            assert(final(out)@ =~= old(out)@ + dec_digits(n as nat));
        } else {
            assert(final(out)@ =~= old(out)@ + dec_digits(n as nat));
        }
    }
}

/// Renders the decimal representation of a value, with a leading minus
/// sign when negative.
fn num_to_string(i: i64) -> (r: String)
    ensures
        r@ == dec_str(i as int),
{
    if i >= 0 {
        let mut out = String::new();
        push_digits(i as u64, &mut out);
        proof {
            assert(out@ =~= dec_str(i as int));
        }
        out
    } else {
        proof {
            reveal_strlit("-");
        }
        let mut out = "-".to_owned();
        let mag: u64 = if i == i64::MIN {
            9223372036854775808u64
        } else {
            (-i) as u64
        };
        proof {
            assert(mag as nat == (-(i as int)) as nat);
            assert(out@ =~= seq!['-']);
        }
        push_digits(mag, &mut out);
        proof {
            assert(out@ =~= dec_str(i as int));
        }
        out
    }
}

impl RawValue {
    /// The type tag of this value.
    pub fn get_type(&self) -> (t: ValueType)
        ensures
            t == sp_type(self@),
    {
        match self {
            RawValue::Unit => ValueType::Unit,
            RawValue::Bool(_) => ValueType::Bool,
            RawValue::Num(_) => ValueType::Num,
            RawValue::Str(_) => ValueType::Str,
        }
    }

    /// Coerces this value to a boolean.
    pub fn get_bool(&self) -> (b: bool)
        ensures
            b == sp_bool(self@),
    {
        match self {
            RawValue::Unit => false,
            RawValue::Bool(b) => *b,
            RawValue::Num(n) => *n != 0,
            RawValue::Str(s) => !s.as_str().is_empty(),
        }
    }

    /// Coerces this value to a number.
    pub fn get_num(&self) -> (n: i64)
        ensures
            n == sp_num(self@),
    {
        match self {
            RawValue::Unit => 0,
            RawValue::Bool(b) => if *b {
                1
            } else {
                0
            },
            RawValue::Num(n) => *n,
            RawValue::Str(s) => #[verifier::truncate] (s.as_str().len() as i64),
        }
    }

    /// Coerces this value to a string.
    pub fn get_str(&self) -> (s: String)
        ensures
            s@ == sp_str(self@),
    {
        match self {
            RawValue::Unit => String::new(),
            RawValue::Bool(b) => {
                proof {
                    reveal_strlit("true");
                    reveal_strlit("false");
                }
                if *b {
                    "true".to_owned()
                } else {
                    "false".to_owned()
                }
            },
            RawValue::Num(n) => num_to_string(*n),
            RawValue::Str(s) => s.clone(),
        }
    }
}

impl Clone for RawValue {
    fn clone(&self) -> (res: RawValue)
        ensures
            res@ == self@,
    {
        match self {
            RawValue::Unit => RawValue::Unit,
            RawValue::Bool(b) => RawValue::Bool(*b),
            RawValue::Num(n) => RawValue::Num(*n),
            RawValue::Str(s) => RawValue::Str(s.clone()),
        }
    }
}

impl PartialEq for RawValue {
    fn eq(&self, other: &RawValue) -> (r: bool) {
        match (self, other) {
            (RawValue::Unit, RawValue::Unit) => true,
            (RawValue::Bool(a), RawValue::Bool(b)) => *a == *b,
            (RawValue::Num(a), RawValue::Num(b)) => *a == *b,
            (RawValue::Str(a), RawValue::Str(b)) => a.eq(b),
            _ => false,
        }
    }
}

impl Eq for RawValue {

}

impl vstd::std_specs::cmp::PartialEqSpecImpl for RawValue {
    open spec fn obeys_eq_spec() -> bool {
        true
    }

    open spec fn eq_spec(&self, other: &RawValue) -> bool {
        self@ == other@
    }
}

} // verus!
