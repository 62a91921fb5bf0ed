//! Numbers as decimal text.

use vstd::prelude::*;
use vstd::string::StringExecFns;

verus! {

/// The character of the decimal digit `d`.
pub open spec fn digit_char(d: nat) -> char {
    if d == 0 {
        '0'
    } else if d == 1 {
        '1'
    } else if d == 2 {
        '2'
    } else if d == 3 {
        '3'
    } else if d == 4 {
        '4'
    } else if d == 5 {
        '5'
    } else if d == 6 {
        '6'
    } else if d == 7 {
        '7'
    } else if d == 8 {
        '8'
    } else {
        '9'
    }
}

/// The decimal numeral of `n`, without leading zeros.
pub open spec fn decimal_text(n: nat) -> Seq<char>
    decreases n,
{
    if n < 10 {
        seq![digit_char(n)]
    } else {
        decimal_text(n / 10).push(digit_char(n % 10))
    }
}

/// The numeral of one digit.
fn digit_text(d: u8) -> (text: &'static str)
    requires
        d < 10,
    ensures
        text@ == seq![digit_char(d as nat)],
{
    proof {
        reveal_strlit("0");
        reveal_strlit("1");
        reveal_strlit("2");
        reveal_strlit("3");
        reveal_strlit("4");
        reveal_strlit("5");
        reveal_strlit("6");
        reveal_strlit("7");
        reveal_strlit("8");
        reveal_strlit("9");
    }
    let text = match d {
        0 => "0",
        1 => "1",
        2 => "2",
        3 => "3",
        4 => "4",
        5 => "5",
        6 => "6",
        7 => "7",
        8 => "8",
        _ => "9",
    };
    assert(text@ =~= seq![digit_char(d as nat)]);
    text
}

/// The digits of `n` from the last to the first.
spec fn digits_reversed(n: nat) -> Seq<u8>
    decreases n,
{
    if n < 10 {
        seq![n as u8]
    } else {
        seq![(n % 10) as u8] + digits_reversed(n / 10)
    }
}

/// The text of the digits `digits[0..upto]` read from the last to the first.
spec fn text_of_reversed(digits: Seq<u8>, upto: int) -> Seq<char>
    decreases upto,
{
    if upto <= 0 {
        Seq::empty()
    } else {
        text_of_reversed(digits, upto - 1).insert(0, digit_char(digits[upto - 1] as nat))
    }
}

proof fn lemma_text_of_reversed_len(digits: Seq<u8>, upto: int)
    requires
        0 <= upto,
    ensures
        text_of_reversed(digits, upto).len() == upto,
    decreases upto,
{
    if upto > 0 {
        lemma_text_of_reversed_len(digits, upto - 1);
    }
}

proof fn lemma_reversed_is_decimal(n: nat)
    ensures
        digits_reversed(n).len() >= 1,
        text_of_reversed(digits_reversed(n), digits_reversed(n).len() as int) =~= decimal_text(n),
        forall|i: int| 0 <= i < digits_reversed(n).len() ==> digits_reversed(n)[i] < 10,
    decreases n,
{
    let digits = digits_reversed(n);
    if n < 10 {
        assert(text_of_reversed(digits, 0) =~= Seq::<char>::empty());
        assert(text_of_reversed(digits, 1) =~= seq![digit_char(n)]);
    } else {
        let rest = digits_reversed(n / 10);
        lemma_reversed_is_decimal(n / 10);
        assert(digits =~= seq![(n % 10) as u8] + rest);
        lemma_prepend(digits, rest, rest.len() as int);
        assert(text_of_reversed(digits, 1) =~= seq![digit_char(n % 10)]) by {
            assert(text_of_reversed(digits, 0) =~= Seq::<char>::empty());
        }
    }
}

/// With one digit put before `rest`, the text of the whole is the text of
/// `rest` followed by that digit.
proof fn lemma_prepend(digits: Seq<u8>, rest: Seq<u8>, upto: int)
    requires
        digits.len() == rest.len() + 1,
        forall|i: int| 0 <= i < rest.len() ==> digits[i + 1] == rest[i],
        0 <= upto <= rest.len(),
    ensures
        text_of_reversed(digits, upto + 1) =~= text_of_reversed(rest, upto).push(
            digit_char(digits[0] as nat),
        ),
    decreases upto,
{
    if upto == 0 {
        assert(text_of_reversed(digits, 0) =~= Seq::<char>::empty());
        assert(text_of_reversed(rest, 0) =~= Seq::<char>::empty());
    } else {
        lemma_prepend(digits, rest, upto - 1);
        lemma_text_of_reversed_len(rest, upto - 1);
    }
}

/// Writes `n` as a decimal numeral.
pub fn decimal(n: u64) -> (text: String)
    ensures
        text@ == decimal_text(n as nat),
{
    let mut digits: Vec<u8> = Vec::new();
    let mut rest: u64 = n;
    while rest >= 10
        invariant
            digits@ + digits_reversed(rest as nat) =~= digits_reversed(n as nat),
        decreases rest,
    {
        digits.push((rest % 10) as u8);
        rest = rest / 10;
    }
    digits.push(rest as u8);
    proof {
        lemma_reversed_is_decimal(n as nat);
        assert(digits@ =~= digits_reversed(n as nat));
        lemma_text_of_reversed_len(digits@, digits@.len() as int);
    }
    let mut text = String::new();
    let mut i: usize = digits.len();
    while i > 0
        invariant
            i <= digits.len(),
            digits@ == digits_reversed(n as nat),
            forall|k: int| 0 <= k < digits@.len() ==> digits@[k] < 10,
            text@ =~= text_of_reversed(digits@, digits@.len() as int).subrange(
                0,
                digits@.len() - i,
            ),
            text_of_reversed(digits@, digits@.len() as int).len() == digits@.len(),
        decreases i,
    {
        i -= 1;
        proof {
            lemma_text_at(digits@, digits@.len() as int, i as int);
        }
        text.append(digit_text(digits[i]));
    }
    assert(text@ =~= text_of_reversed(digits@, digits@.len() as int));
    text
}

/// Where the digit at place `at` stands in the text.
proof fn lemma_text_at(digits: Seq<u8>, upto: int, at: int)
    requires
        0 <= at < upto <= digits.len(),
    ensures
        text_of_reversed(digits, upto).len() == upto,
        text_of_reversed(digits, upto)[upto - 1 - at] == digit_char(digits[at] as nat),
    decreases upto,
{
    lemma_text_of_reversed_len(digits, upto);
    lemma_text_of_reversed_len(digits, upto - 1);
    if at < upto - 1 {
        lemma_text_at(digits, upto - 1, at);
    }
}


/// The decimal numeral of `n`, with a minus sign before a negative number.
pub open spec fn signed_text(n: int) -> Seq<char> {
    if n < 0 {
        seq!['-'] + decimal_text((-n) as nat)
    } else {
        decimal_text(n as nat)
    }
}

/// Writes `n` as a decimal numeral with its sign.
pub fn signed_decimal(n: i64) -> (text: String)
    ensures
        text@ == signed_text(n as int),
{
    if n < 0 {
        let magnitude: u64 = ((-(n + 1)) as u64) + 1;
        proof {
            reveal_strlit("-");
        }
        let mut text = String::from_str("-");
        assert(text@ =~= seq!['-']);
        text.append(decimal(magnitude).as_str());
        text
    } else {
        decimal(n as u64)
    }
}

} // verus!
