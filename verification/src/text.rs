//! Small verified text utilities shared across the engine.

use vstd::prelude::*;
use vstd::arithmetic::div_mod::lemma_fundamental_div_mod;
use vstd::string::StringExecFns;

use crate::parser::{all_digits, digit_val, digits_val, is_digit, parse_u64_spec};

verus! {

/// Character-wise equality of two strings.
pub fn str_eq(a: &str, b: &str) -> (r: bool)
    ensures
        r == (a@ == b@),
{
    let n = a.unicode_len();
    let m = b.unicode_len();
    if n != m {
        return false;
    }
    let mut i: usize = 0;
    while i < n
        invariant
            0 <= i <= n,
            n == a@.len() == b@.len(),
            forall|j: int| 0 <= j < i ==> a@[j] == b@[j],
        decreases n - i,
    {
        if a.get_char(i) != b.get_char(i) {
            return false;
        }
        i += 1;
    }
    proof {
        assert(a@ =~= b@);
    }
    true
}

/// An ASCII whitespace character.
pub open spec fn is_space(c: char) -> bool {
    c == ' ' || c == '\t' || c == '\n' || c == '\r' || c == '\u{b}' || c == '\u{c}'
}

/// `s` with every leading whitespace character removed.
pub open spec fn trim_lead_spaces(s: Seq<char>) -> Seq<char>
    decreases s.len(),
{
    if s.len() > 0 && is_space(s[0]) {
        trim_lead_spaces(s.drop_first())
    } else {
        s
    }
}

/// `s` with every trailing whitespace character removed.
pub open spec fn trim_trail_spaces(s: Seq<char>) -> Seq<char>
    decreases s.len(),
{
    if s.len() > 0 && is_space(s.last()) {
        trim_trail_spaces(s.drop_last())
    } else {
        s
    }
}

/// `s` with leading and trailing whitespace removed.
pub open spec fn trim_spaces(s: Seq<char>) -> Seq<char> {
    trim_trail_spaces(trim_lead_spaces(s))
}

fn is_space_exec(c: char) -> (r: bool)
    ensures
        r == is_space(c),
{
    c == ' ' || c == '\t' || c == '\n' || c == '\r' || c == '\u{b}' || c == '\u{c}'
}

/// Strips leading and trailing ASCII whitespace.
pub fn trim(s: &str) -> (r: &str)
    ensures
        r@ == trim_spaces(s@),
{
    let n = s.unicode_len();
    let mut a: usize = 0;
    let mut b = n;
    proof {
        assert(s@.subrange(0, n as int) =~= s@);
    }
    while a < b && is_space_exec(s.get_char(a))
        invariant
            0 <= a <= b == n == s@.len(),
            trim_lead_spaces(s@) == trim_lead_spaces(s@.subrange(a as int, n as int)),
        decreases b - a,
    {
        proof {
            assert(s@.subrange(a as int, n as int).drop_first() =~= s@.subrange(
                a + 1,
                n as int,
            ));
        }
        a += 1;
    }
    proof {
        assert(trim_lead_spaces(s@) == s@.subrange(a as int, n as int));
    }
    while a < b && is_space_exec(s.get_char(b - 1))
        invariant
            0 <= a <= b <= n == s@.len(),
            trim_lead_spaces(s@) == s@.subrange(a as int, n as int),
            trim_trail_spaces(trim_lead_spaces(s@)) == trim_trail_spaces(
                s@.subrange(a as int, b as int),
            ),
        decreases b,
    {
        proof {
            assert(s@.subrange(a as int, b as int).drop_last() =~= s@.subrange(
                a as int,
                b - 1,
            ));
        }
        b -= 1;
    }
    proof {
        assert(trim_trail_spaces(trim_lead_spaces(s@)) == s@.subrange(a as int, b as int));
    }
    s.substring_char(a, b)
}

/// The pieces of `s` between occurrences of `sep`: one more piece than
/// there are separators, so `s` without any separator is one piece and a
/// separator at an end contributes an empty piece.
pub open spec fn split_char(s: Seq<char>, sep: char) -> Seq<Seq<char>>
    decreases s.len(),
{
    if s.len() == 0 {
        seq![Seq::<char>::empty()]
    } else if s[0] == sep {
        seq![Seq::<char>::empty()] + split_char(s.drop_first(), sep)
    } else {
        let rest = split_char(s.drop_first(), sep);
        seq![seq![s[0]] + rest[0]] + rest.drop_first()
    }
}

proof fn lemma_split_char_nonempty(s: Seq<char>, sep: char)
    ensures
        split_char(s, sep).len() >= 1,
    decreases s.len(),
{
    if s.len() > 0 {
        lemma_split_char_nonempty(s.drop_first(), sep);
    }
}

/// Splits `s` at every occurrence of `sep`.
pub fn split_on(s: &str, sep: char) -> (r: Vec<String>)
    ensures
        r.deep_view() == split_char(s@, sep),
{
    let n = s.unicode_len();
    let mut done: Vec<String> = Vec::new();
    let mut start: usize = 0;
    let mut i: usize = 0;
    proof {
        assert(s@.subrange(0, n as int) =~= s@);
        let rest0 = split_char(s@, sep);
        lemma_split_char_nonempty(s@, sep);
        assert(s@.subrange(0, 0) + rest0[0] =~= rest0[0]);
        assert(done.deep_view() + (seq![rest0[0]] + rest0.drop_first()) =~= rest0);
    }
    while i < n
        invariant
            0 <= start <= i <= n == s@.len(),
            ({
                let rest = split_char(s@.subrange(i as int, n as int), sep);
                split_char(s@, sep) == done.deep_view() + (seq![
                    s@.subrange(start as int, i as int) + rest[0],
                ] + rest.drop_first())
            }),
        decreases n - i,
    {
        let ghost rest_i = split_char(s@.subrange(i as int, n as int), sep);
        let ghost rest_next = split_char(s@.subrange(i + 1, n as int), sep);
        proof {
            lemma_split_char_nonempty(s@.subrange(i as int, n as int), sep);
            lemma_split_char_nonempty(s@.subrange(i + 1, n as int), sep);
            assert(s@.subrange(i as int, n as int)[0] == s@[i as int]);
            assert(s@.subrange(i as int, n as int).drop_first() =~= s@.subrange(i + 1, n as int));
        }
        if s.get_char(i) == sep {
            let ghost done0 = done.deep_view();
            done.push(String::from_str(s.substring_char(start, i)));
            proof {
                // the finished piece absorbs into `done`; the next piece
                // starts empty after the separator
                assert(rest_i == seq![Seq::<char>::empty()] + rest_next);
                assert(rest_i[0] =~= Seq::<char>::empty());
                assert(rest_i.drop_first() =~= rest_next);
                assert(s@.subrange(start as int, i as int) + rest_i[0] =~= s@.subrange(
                    start as int,
                    i as int,
                ));
                assert(done.deep_view() =~= done0.push(s@.subrange(start as int, i as int)));
                assert(s@.subrange(i + 1, i + 1) + rest_next[0] =~= rest_next[0]);
                assert(done0 + (seq![s@.subrange(start as int, i as int) + rest_i[0]]
                    + rest_i.drop_first()) =~= done.deep_view() + (seq![
                    s@.subrange(i + 1, i + 1) + rest_next[0],
                ] + rest_next.drop_first()));
            }
            start = i + 1;
        } else {
            proof {
                // the scanned character extends the current piece
                assert(rest_i == seq![seq![s@[i as int]] + rest_next[0]]
                    + rest_next.drop_first());
                assert(rest_i[0] == seq![s@[i as int]] + rest_next[0]);
                assert(rest_i.drop_first() =~= rest_next.drop_first());
                assert(s@.subrange(start as int, i as int) + rest_i[0] =~= s@.subrange(
                    start as int,
                    i + 1,
                ) + rest_next[0]);
            }
        }
        i += 1;
    }
    let ghost done0 = done.deep_view();
    done.push(String::from_str(s.substring_char(start, n)));
    proof {
        let rest = split_char(s@.subrange(n as int, n as int), sep);
        assert(s@.subrange(n as int, n as int) =~= Seq::<char>::empty());
        assert(rest == seq![Seq::<char>::empty()]);
        assert(s@.subrange(start as int, n as int) + rest[0] =~= s@.subrange(
            start as int,
            n as int,
        ));
        assert(done0 + (seq![s@.subrange(start as int, n as int) + rest[0]] + rest.drop_first())
            =~= done.deep_view());
    }
    done
}

/// The decimal digit character for `d`.
pub open spec fn digit_char(d: nat) -> char {
    if d == 0 {
        '0'
    } else if d == 1 {
        '1'
    } else if d == 2 {
        '2'
    } else if d == 3 {
        '3'
    } else if d == 4 {
        '4'
    } else if d == 5 {
        '5'
    } else if d == 6 {
        '6'
    } else if d == 7 {
        '7'
    } else if d == 8 {
        '8'
    } else {
        '9'
    }
}

/// The decimal digit string of `v`, most significant digit first, no
/// leading zeros (a single zero for zero).
pub open spec fn u64_digits(v: nat) -> Seq<char>
    decreases v,
{
    if v < 10 {
        seq![digit_char(v)]
    } else {
        u64_digits(v / 10).push(digit_char(v % 10))
    }
}

fn digit_str(d: u64) -> (r: &'static str)
    requires
        d < 10,
    ensures
        r@ == seq![digit_char(d as nat)],
{
    proof {
        reveal_strlit("0");
        reveal_strlit("1");
        reveal_strlit("2");
        reveal_strlit("3");
        reveal_strlit("4");
        reveal_strlit("5");
        reveal_strlit("6");
        reveal_strlit("7");
        reveal_strlit("8");
        reveal_strlit("9");
    }
    let r = match d {
        0 => "0",
        1 => "1",
        2 => "2",
        3 => "3",
        4 => "4",
        5 => "5",
        6 => "6",
        7 => "7",
        8 => "8",
        _ => "9",
    };
    proof {
        assert(r@ =~= seq![digit_char(d as nat)]);
    }
    r
}

/// Renders `v` in decimal.
pub fn u64_to_string(v: u64) -> (r: String)
    ensures
        r@ == u64_digits(v as nat),
    decreases v,
{
    if v < 10 {
        String::from_str(digit_str(v))
    } else {
        let mut s = u64_to_string(v / 10);
        s.append(digit_str(v % 10));
        proof {
            assert(s@ =~= u64_digits(v as nat));
        }
        s
    }
}

/// Law: rendering a number in decimal and parsing it back returns the same
/// number — [`u64_digits`] inverts [`parse_u64_spec`].
pub proof fn lemma_u64_digits_roundtrip(v: u64)
    ensures
        parse_u64_spec(u64_digits(v as nat)) == Some(v),
    decreases v,
{
    lemma_u64_digits_facts(v as nat);
    assert(digits_val(u64_digits(v as nat)) <= u64::MAX);
}

proof fn lemma_u64_digits_facts(v: nat)
    ensures
        u64_digits(v).len() >= 1,
        all_digits(u64_digits(v)),
        digits_val(u64_digits(v)) == v,
    decreases v,
{
    if v < 10 {
        reveal_with_fuel(digits_val, 2);
        assert(is_digit(digit_char(v)));
        assert(digit_val(digit_char(v)) == v);
        let s1 = u64_digits(v);
        assert(s1.drop_last() =~= Seq::<char>::empty());
        assert(s1.last() == digit_char(v));
        assert(digits_val(s1) == digits_val(s1.drop_last()) * 10 + digit_val(s1.last()));
    } else {
        lemma_u64_digits_facts(v / 10);
        lemma_fundamental_div_mod(v as int, 10);
        let w = u64_digits(v / 10);
        let c = digit_char(v % 10);
        assert(is_digit(c) && digit_val(c) == v % 10);
        assert(w.push(c).drop_last() =~= w);
        assert(all_digits(w.push(c))) by {
            assert(forall|i: int|
                0 <= i < w.len() ==> #[trigger] w.push(c)[i] == w[i]);
            assert(w.push(c)[w.len() as int] == c);
        }
    }
}

} // verus!

