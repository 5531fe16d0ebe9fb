//! Decimal rendering of the unsigned counter values that appear in log
//! rows and in the log filename.

use vstd::prelude::*;

verus! {

/// The decimal digit character for `d` (`d < 10`).
pub open spec fn spec_digit_char(d: nat) -> char {
    if d == 0 {
        '0'
    } else if d == 1 {
        '1'
    } else if d == 2 {
        '2'
    } else if d == 3 {
        '3'
    } else if d == 4 {
        '4'
    } else if d == 5 {
        '5'
    } else if d == 6 {
        '6'
    } else if d == 7 {
        '7'
    } else if d == 8 {
        '8'
    } else {
        '9'
    }
}

/// The usual decimal rendering of `n`: most significant digit first,
/// no sign, no leading zero except for `n == 0` itself.
pub open spec fn spec_dec(n: nat) -> Seq<char>
    decreases n,
{
    if n < 10 {
        seq![spec_digit_char(n)]
    } else {
        spec_dec(n / 10) + seq![spec_digit_char(n % 10)]
    }
}

/// A character that the decimal rendering can produce.
pub open spec fn is_dec_digit(c: char) -> bool {
    exists|d: nat| d < 10 && c == spec_digit_char(d)
}

/// Every decimal rendering is nonempty and consists of digit characters.
pub proof fn lemma_dec_digits(n: nat)
    ensures
        spec_dec(n).len() >= 1,
        forall|i: int| 0 <= i < spec_dec(n).len() ==> is_dec_digit(#[trigger] spec_dec(n)[i]),
    decreases n,
{
    if n < 10 {
        assert(spec_dec(n)[0] == spec_digit_char(n));
    } else {
        lemma_dec_digits(n / 10);
        assert forall|i: int| 0 <= i < spec_dec(n).len() implies is_dec_digit(
            #[trigger] spec_dec(n)[i],
        ) by {
            if i < spec_dec(n / 10).len() {
                assert(spec_dec(n)[i] == spec_dec(n / 10)[i]);
            } else {
                assert(spec_dec(n)[i] == spec_digit_char(n % 10));
            }
        }
    }
}

/// Distinct digits render as distinct characters.
proof fn lemma_digit_char_injective(a: nat, b: nat)
    requires
        a < 10,
        b < 10,
        a != b,
    ensures
        spec_digit_char(a) != spec_digit_char(b),
{
}

/// A number of ten or more has a rendering of at least two digits.
proof fn lemma_dec_len_ge2(n: nat)
    requires
        n >= 10,
    ensures
        spec_dec(n).len() >= 2,
{
    lemma_dec_digits(n / 10);
}

/// Distinct numbers have distinct decimal renderings.
pub proof fn lemma_dec_injective(a: nat, b: nat)
    requires
        a != b,
    ensures
        spec_dec(a) != spec_dec(b),
    decreases a + b,
{
    if a < 10 && b < 10 {
        lemma_digit_char_injective(a, b);
        assert(spec_dec(a)[0] != spec_dec(b)[0]);
    } else if a < 10 {
        lemma_dec_len_ge2(b);
    } else if b < 10 {
        lemma_dec_len_ge2(a);
    } else {
        if a % 10 != b % 10 {
            lemma_digit_char_injective(a % 10, b % 10);
            assert(spec_dec(a).last() == spec_digit_char(a % 10));
            assert(spec_dec(b).last() == spec_digit_char(b % 10));
        } else {
            assert(a / 10 != b / 10) by {
                assert(a == 10 * (a / 10) + a % 10);
                assert(b == 10 * (b / 10) + b % 10);
            }
            lemma_dec_injective(a / 10, b / 10);
            assert(spec_dec(a).drop_last() =~= spec_dec(a / 10));
            assert(spec_dec(b).drop_last() =~= spec_dec(b / 10));
        }
    }
}

fn digit_str(d: u64) -> (s: &'static str)
    requires
        d < 10,
    ensures
        s@ == seq![spec_digit_char(d as nat)],
{
    proof {
        reveal_strlit("0");
        reveal_strlit("1");
        reveal_strlit("2");
        reveal_strlit("3");
        reveal_strlit("4");
        reveal_strlit("5");
        reveal_strlit("6");
        reveal_strlit("7");
        reveal_strlit("8");
        reveal_strlit("9");
        assert("0"@ =~= seq!['0']);
        assert("1"@ =~= seq!['1']);
        assert("2"@ =~= seq!['2']);
        assert("3"@ =~= seq!['3']);
        assert("4"@ =~= seq!['4']);
        assert("5"@ =~= seq!['5']);
        assert("6"@ =~= seq!['6']);
        assert("7"@ =~= seq!['7']);
        assert("8"@ =~= seq!['8']);
        assert("9"@ =~= seq!['9']);
    }
    match d {
        0 => "0",
        1 => "1",
        2 => "2",
        3 => "3",
        4 => "4",
        5 => "5",
        6 => "6",
        7 => "7",
        8 => "8",
        _ => "9",
    }
}

/// Renders `n` in decimal, as `spec_dec` states it.
pub fn u64_to_dec(n: u64) -> (s: String)
    ensures
        s@ == spec_dec(n as nat),
    decreases n,
{
    if n < 10 {
        String::from_str(digit_str(n))
    } else {
        let mut s = u64_to_dec(n / 10);
        s.append(digit_str(n % 10));
        s
    }
}

} // verus!
