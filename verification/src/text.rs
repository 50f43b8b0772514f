//! Numbers as decimal text.
use vstd::prelude::*;

verus! {

/// The decimal digit of `value`, which is below ten.
pub open spec fn digit(value: nat) -> char {
    (value + '0' as nat) as char
}

/// `value` in decimal notation, without leading zeros.
pub open spec fn decimal(value: nat) -> Seq<char>
    decreases value,
{
    if value < 10 {
        seq![digit(value)]
    } else {
        decimal(value / 10).push(digit(value % 10))
    }
}

fn digit_text(value: usize) -> (text: &'static str)
    requires
        value < 10,
    ensures
        text@ == seq![digit(value as nat)],
{
    proof {
        reveal_strlit("0");
        reveal_strlit("1");
        reveal_strlit("2");
        reveal_strlit("3");
        reveal_strlit("4");
        reveal_strlit("5");
        reveal_strlit("6");
        reveal_strlit("7");
        reveal_strlit("8");
        reveal_strlit("9");
    }
    if value == 0 {
        "0"
    } else if value == 1 {
        "1"
    } else if value == 2 {
        "2"
    } else if value == 3 {
        "3"
    } else if value == 4 {
        "4"
    } else if value == 5 {
        "5"
    } else if value == 6 {
        "6"
    } else if value == 7 {
        "7"
    } else if value == 8 {
        "8"
    } else {
        "9"
    }
}

/// Appends `value` to `text` in decimal notation.
pub fn append_decimal(text: &mut String, value: usize)
    ensures
        final(text)@ == old(text)@ + decimal(value as nat),
    decreases value,
{
    if value >= 10 {
        append_decimal(text, value / 10);
    }
    text.append(digit_text(value % 10));
}

/// Decimal notation is exact: the text of a number has as many characters as the number
/// has digits, no leading zero among them, and the i-th character from the end is the
/// digit for `10` to the power of i.
pub proof fn law_decimal_text_shows_the_digits(value: nat)
    ensures
        decimal(value).len() > 0,
        value < vstd::arithmetic::power::pow(10, decimal(value).len()),
        decimal(value).len() > 1 ==> value >= vstd::arithmetic::power::pow(
            10,
            (decimal(value).len() - 1) as nat,
        ),
        forall|i: int|
            0 <= i < decimal(value).len() ==> (#[trigger] decimal(value)[decimal(value).len() - 1
                - i]) as int - '0' as int == (value as int / vstd::arithmetic::power::pow(
                10,
                i as nat,
            )) % 10,
    decreases value,
{
    vstd::arithmetic::power::lemma_pow0(10);
    vstd::arithmetic::power::lemma_pow1(10);
    let text = decimal(value);
    if value >= 10 {
        let rest = decimal(value / 10);
        law_decimal_text_shows_the_digits(value / 10);
        let tenth = vstd::arithmetic::power::pow(10, rest.len());
        assert(vstd::arithmetic::power::pow(10, text.len()) == 10 * tenth) by {
            reveal(vstd::arithmetic::power::pow);
        }
        if rest.len() > 1 {
            let low = vstd::arithmetic::power::pow(10, (rest.len() - 1) as nat);
            assert(tenth == 10 * low) by {
                reveal(vstd::arithmetic::power::pow);
            }
        }
        assert forall|i: int| 0 <= i < text.len() implies (#[trigger] text[text.len() - 1
            - i]) as int - '0' as int == (value as int / vstd::arithmetic::power::pow(
            10,
            i as nat,
        )) % 10 by {
            if i > 0 {
                let small = vstd::arithmetic::power::pow(10, (i - 1) as nat);
                assert(text[text.len() - 1 - i] == rest[rest.len() - 1 - (i - 1)]);
                vstd::arithmetic::power::lemma_pow_positive(10, (i - 1) as nat);
                assert(vstd::arithmetic::power::pow(10, i as nat) == 10 * small) by {
                    reveal(vstd::arithmetic::power::pow);
                }
                vstd::arithmetic::div_mod::lemma_div_denominator(value as int, 10, small);
            }
        }
    }
}

} // verus!
