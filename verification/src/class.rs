//! Values that can serve as the classes of a confusion matrix.

use vstd::prelude::*;
use vstd::string::StringExecFns;

verus! {

/// The character of a decimal digit; `'0'` for anything above nine.
pub open spec fn digit_char(d: nat) -> char {
    if d == 1 {
        '1'
    } else if d == 2 {
        '2'
    } else if d == 3 {
        '3'
    } else if d == 4 {
        '4'
    } else if d == 5 {
        '5'
    } else if d == 6 {
        '6'
    } else if d == 7 {
        '7'
    } else if d == 8 {
        '8'
    } else if d == 9 {
        '9'
    } else {
        '0'
    }
}

/// The decimal numeral of `n`, most significant digit first, without
/// leading zeros.
pub open spec fn decimal(n: nat) -> Seq<char>
    decreases n,
{
    if n < 10 {
        seq![digit_char(n)]
    } else {
        decimal(n / 10).push(digit_char(n % 10))
    }
}

/// The one-character text of a single decimal digit.
fn digit_text(d: usize) -> (text: &'static str)
    requires
        d < 10,
    ensures
        text@ == seq![digit_char(d as nat)],
{
    proof {
        reveal_strlit("0");
        reveal_strlit("1");
        reveal_strlit("2");
        reveal_strlit("3");
        reveal_strlit("4");
        reveal_strlit("5");
        reveal_strlit("6");
        reveal_strlit("7");
        reveal_strlit("8");
        reveal_strlit("9");
    }
    let text = if d == 0 {
        "0"
    } else if d == 1 {
        "1"
    } else if d == 2 {
        "2"
    } else if d == 3 {
        "3"
    } else if d == 4 {
        "4"
    } else if d == 5 {
        "5"
    } else if d == 6 {
        "6"
    } else if d == 7 {
        "7"
    } else if d == 8 {
        "8"
    } else {
        "9"
    };
    text
}

/// Writes a count as a decimal numeral.
pub fn decimal_text(n: usize) -> (text: String)
    ensures
        text@ == decimal(n as nat),
    decreases n,
{
    if n < 10 {
        String::from_str(digit_text(n))
    } else {
        let mut text = decimal_text(n / 10);
        text.append(digit_text(n % 10));
        text
    }
}

/// A value that identifies a class.
///
/// Two values stand for the same class exactly when their views are equal,
/// and a class is written out under a name that depends on its view alone.
pub trait Class: View + Sized {
    /// The name under which the class with view `v` is written out.
    spec fn name_of(v: Self::V) -> Seq<char>;

    /// Whether two values stand for the same class.
    fn same(&self, other: &Self) -> (same: bool)
        ensures
            same == (self@ == other@),
    ;

    /// The name under which this class is written out.
    fn name(&self) -> (text: String)
        ensures
            text@ == Self::name_of(self@),
    ;
}

impl Class for String {
    open spec fn name_of(v: Seq<char>) -> Seq<char> {
        v
    }

    fn same(&self, other: &Self) -> (same: bool) {
        *self == *other
    }

    fn name(&self) -> (text: String) {
        self.clone()
    }
}

impl Class for usize {
    open spec fn name_of(v: usize) -> Seq<char> {
        decimal(v as nat)
    }

    fn same(&self, other: &Self) -> (same: bool) {
        *self == *other
    }

    fn name(&self) -> (text: String) {
        decimal_text(*self)
    }
}

} // verus!
