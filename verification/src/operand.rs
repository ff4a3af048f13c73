//! The tagged runtime value flowing through the operand stack and locals:
//! an integer, a text string, or a boolean.

use vstd::prelude::*;
use vstd::string::*;

verus! {

/// A runtime value of the machine: integer, text, or boolean.
#[derive(Clone, Debug, PartialEq)]
pub enum Operand {
    I(i64),
    S(String),
    B(bool),
}

/// Mathematical model of an [`Operand`].
pub enum OperandV {
    I(int),
    S(Seq<char>),
    B(bool),
}

impl View for Operand {
    type V = OperandV;

    open spec fn view(&self) -> OperandV {
        match self {
            Operand::I(i) => OperandV::I(*i as int),
            Operand::S(s) => OperandV::S(s@),
            Operand::B(b) => OperandV::B(*b),
        }
    }
}

impl Operand {
    /// Projection to an integer; nothing when the dynamic kind differs.
    pub fn to_i(&self) -> (r: Option<i64>)
        ensures
            match self@ {
                OperandV::I(i) => r matches Some(v) && v as int == i,
                _ => r is None,
            },
    {
        match self {
            Operand::I(i) => Some(*i),
            _ => None,
        }
    }

    /// Projection to text; nothing when the dynamic kind differs.
    pub fn to_s(&self) -> (r: Option<&str>)
        ensures
            match self@ {
                OperandV::S(s) => r matches Some(t) && t@ == s,
                _ => r is None,
            },
    {
        match self {
            Operand::S(s) => Some(s.as_str()),
            _ => None,
        }
    }

    /// Projection to a boolean; nothing when the dynamic kind differs.
    pub fn to_bool(&self) -> (r: Option<bool>)
        ensures
            match self@ {
                OperandV::B(b) => r == Some(b),
                _ => r is None,
            },
    {
        match self {
            Operand::B(b) => Some(*b),
            _ => None,
        }
    }

    /// A copy with the same value.
    pub fn dup(&self) -> (r: Operand)
        ensures
            r@ == self@,
    {
        match self {
            Operand::I(i) => Operand::I(*i),
            Operand::S(s) => Operand::S(s.clone()),
            Operand::B(b) => Operand::B(*b),
        }
    }

    /// Render to display text: the bare integer, the bare string,
    /// or `"true"`/`"false"`.
    pub fn display_text(&self) -> (r: String)
        ensures
            r@ == spec_display(self@),
    {
        match self {
            Operand::I(i) => i64_to_string(*i),
            Operand::S(s) => s.clone(),
            Operand::B(b) => {
                proof {
                    reveal_strlit("true");
                    reveal_strlit("false");
                }
                if *b {
                    String::from_str("true")
                } else {
                    String::from_str("false")
                }
            },
        }
    }
}

impl From<i64> for Operand {
    fn from(i: i64) -> (r: Operand) {
        Operand::I(i)
    }
}

impl vstd::std_specs::convert::FromSpecImpl<i64> for Operand {
    open spec fn obeys_from_spec() -> bool {
        true
    }

    open spec fn from_spec(i: i64) -> Operand {
        Operand::I(i)
    }
}

impl From<bool> for Operand {
    fn from(b: bool) -> (r: Operand) {
        Operand::B(b)
    }
}

impl vstd::std_specs::convert::FromSpecImpl<bool> for Operand {
    open spec fn obeys_from_spec() -> bool {
        true
    }

    open spec fn from_spec(b: bool) -> Operand {
        Operand::B(b)
    }
}

/// The display text of a value: decimal digits for an integer, the string
/// itself for text, `"true"`/`"false"` for a boolean.
pub open spec fn spec_display(v: OperandV) -> Seq<char> {
    match v {
        OperandV::I(i) => spec_i64_chars(i),
        OperandV::S(s) => s,
        OperandV::B(b) => if b {
            "true"@
        } else {
            "false"@
        },
    }
}

/// The decimal digit character for `d` in `0..10`.
pub open spec fn spec_digit_char(d: int) -> char {
    if d == 0 {
        '0'
    } else if d == 1 {
        '1'
    } else if d == 2 {
        '2'
    } else if d == 3 {
        '3'
    } else if d == 4 {
        '4'
    } else if d == 5 {
        '5'
    } else if d == 6 {
        '6'
    } else if d == 7 {
        '7'
    } else if d == 8 {
        '8'
    } else {
        '9'
    }
}

/// The decimal digit string of a non-negative number, most significant first.
pub open spec fn spec_nat_chars(n: nat) -> Seq<char>
    decreases n,
{
    if n < 10 {
        seq![spec_digit_char(n as int)]
    } else {
        spec_nat_chars(n / 10).push(spec_digit_char((n % 10) as int))
    }
}

/// The decimal rendering of a signed number: a `-` sign before the digits of
/// its magnitude when negative.
pub open spec fn spec_i64_chars(i: int) -> Seq<char> {
    if i < 0 {
        seq!['-'] + spec_nat_chars((-i) as nat)
    } else {
        spec_nat_chars(i as nat)
    }
}

/// A one-character string slice for the digit `d`.
fn digit_str(d: u64) -> (r: &'static str)
    requires
        d < 10,
    ensures
        r@ == seq![spec_digit_char(d as int)],
{
    proof {
        reveal_strlit("0");
        reveal_strlit("1");
        reveal_strlit("2");
        reveal_strlit("3");
        reveal_strlit("4");
        reveal_strlit("5");
        reveal_strlit("6");
        reveal_strlit("7");
        reveal_strlit("8");
        reveal_strlit("9");
    }
    let r = if d == 0 {
        "0"
    } else if d == 1 {
        "1"
    } else if d == 2 {
        "2"
    } else if d == 3 {
        "3"
    } else if d == 4 {
        "4"
    } else if d == 5 {
        "5"
    } else if d == 6 {
        "6"
    } else if d == 7 {
        "7"
    } else if d == 8 {
        "8"
    } else {
        "9"
    };
    proof {
        assert(r@ =~= seq![spec_digit_char(d as int)]);
    }
    r
}

/// Appends the decimal digits of `m` to `s`, most significant first.
fn push_nat_chars(s: &mut String, m: u64)
    ensures
        final(s)@ == old(s)@ + spec_nat_chars(m as nat),
    decreases m,
{
    if m >= 10 {
        push_nat_chars(s, m / 10);
    }
    s.append(digit_str(m % 10));
    proof {
        if m >= 10 {
            assert(spec_nat_chars(m as nat) == spec_nat_chars((m as nat) / 10).push(
                spec_digit_char(((m as nat) % 10) as int),
            ));
            assert((m / 10) as nat == (m as nat) / 10);
            assert((m % 10) as int == ((m as nat) % 10) as int);
            assert(final(s)@ =~= old(s)@ + spec_nat_chars(m as nat));
        } else {
            assert(final(s)@ =~= old(s)@ + spec_nat_chars(m as nat));
        }
    }
}

/// The decimal rendering of a signed 64-bit integer.
pub fn i64_to_string(i: i64) -> (r: String)
    ensures
        r@ == spec_i64_chars(i as int),
{
    let mut s = String::new();
    if i < 0 {
        proof {
            reveal_strlit("-");
        }
        s.append("-");
        proof {
            assert(s@ =~= seq!['-']);
        }
    }
    let m: u64 = if i < 0 {
        (-(i as i128)) as u64
    } else {
        i as u64
    };
    push_nat_chars(&mut s, m);
    proof {
        if i < 0 {
            assert(m as nat == (-(i as int)) as nat);
            assert(s@ =~= spec_i64_chars(i as int));
        } else {
            assert(s@ =~= spec_i64_chars(i as int));
        }
    }
    s
}

} // verus!
