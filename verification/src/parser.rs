//! Parsing of platform identifiers out of user-supplied text.
//!
//! Users hand the engine channel references either as a raw numeric ID or as
//! a deep-link URL whose trailing segment is the ID, and role references as a
//! mention of the form `<@ID>`, `<@!ID>` or `<@&ID>`.

use vstd::prelude::*;

verus! {

/// A decimal digit character.
pub open spec fn is_digit(c: char) -> bool {
    48 <= c as u32 && c as u32 <= 57
}

/// Numeric value of a decimal digit character.
pub open spec fn digit_val(c: char) -> nat {
    (c as u32 - 48) as nat
}

/// Every character of `s` is a decimal digit.
pub open spec fn all_digits(s: Seq<char>) -> bool {
    forall|i: int| 0 <= i < s.len() ==> is_digit(#[trigger] s[i])
}

/// The number denoted by a digit string, most significant digit first.
pub open spec fn digits_val(s: Seq<char>) -> nat
    decreases s.len(),
{
    if s.len() == 0 {
        0
    } else {
        digits_val(s.drop_last()) * 10 + digit_val(s.last())
    }
}

/// What parsing an unsigned 64-bit number out of `s` yields: the denoted
/// value when `s` is a non-empty digit string whose value fits, else nothing.
pub open spec fn parse_u64_spec(s: Seq<char>) -> Option<u64> {
    if s.len() > 0 && all_digits(s) && digits_val(s) <= u64::MAX {
        Some(digits_val(s) as u64)
    } else {
        None
    }
}

proof fn lemma_digits_val_push(s: Seq<char>, c: char)
    ensures
        digits_val(s.push(c)) == digits_val(s) * 10 + digit_val(c),
{
    assert(s.push(c).drop_last() =~= s);
    assert(s.push(c).last() == c);
}

proof fn lemma_digits_val_prefix_le(s: Seq<char>, j: int)
    requires
        all_digits(s),
        0 <= j <= s.len(),
    ensures
        digits_val(s.take(j)) <= digits_val(s),
    decreases s.len(),
{
    if j == s.len() {
        assert(s.take(j) =~= s);
    } else {
        let t = s.drop_last();
        assert(all_digits(t));
        assert(s.take(j) =~= t.take(j));
        lemma_digits_val_prefix_le(t, j);
        assert(digits_val(s) == digits_val(t) * 10 + digit_val(s.last()));
    }
}

/// Parses a non-empty, all-digit string as an unsigned 64-bit number.
/// Anything else, including a value too large to fit, yields `None`.
pub fn parse_u64_digits(s: &str) -> (r: Option<u64>)
    ensures
        r == parse_u64_spec(s@),
{
    let n = s.unicode_len();
    if n == 0 {
        return None;
    }
    let mut acc: u64 = 0;
    let mut i: usize = 0;
    while i < n
        invariant
            0 < n == s@.len(),
            0 <= i <= n,
            all_digits(s@.take(i as int)),
            acc == digits_val(s@.take(i as int)),
        decreases n - i,
    {
        let c = s.get_char(i);
        let d = c as u32;
        if d < 48 || d > 57 {
            assert(!is_digit(s@[i as int]));
            return None;
        }
        let step = match acc.checked_mul(10) {
            Some(m) => m.checked_add((d - 48) as u64),
            None => None,
        };
        proof {
            assert(s@.take(i + 1) =~= s@.take(i as int).push(s@[i as int]));
            lemma_digits_val_push(s@.take(i as int), s@[i as int]);
        }
        match step {
            Some(v) => {
                acc = v;
            }
            None => {
                proof {
                    if all_digits(s@) {
                        lemma_digits_val_prefix_le(s@, i + 1);
                    }
                }
                return None;
            }
        }
        i += 1;
    }
    assert(s@.take(n as int) =~= s@);
    Some(acc)
}

/// The suffix of `s` after its last `/`; all of `s` when it has none.
pub open spec fn after_last_slash(s: Seq<char>) -> Seq<char>
    decreases s.len(),
{
    if s.len() == 0 {
        s
    } else if s.last() == '/' {
        Seq::empty()
    } else {
        after_last_slash(s.drop_last()).push(s.last())
    }
}

proof fn lemma_after_last_slash_no_slash(s: Seq<char>)
    requires
        forall|j: int| 0 <= j < s.len() ==> s[j] != '/',
    ensures
        after_last_slash(s) == s,
    decreases s.len(),
{
    if s.len() > 0 {
        lemma_after_last_slash_no_slash(s.drop_last());
        assert(s.drop_last().push(s.last()) =~= s);
    }
}

proof fn lemma_after_last_slash_at(s: Seq<char>, k: int)
    requires
        0 <= k < s.len(),
        s[k] == '/',
        forall|j: int| k < j < s.len() ==> s[j] != '/',
    ensures
        after_last_slash(s) == s.subrange(k + 1, s.len() as int),
    decreases s.len(),
{
    if k == s.len() - 1 {
        assert(s.subrange(k + 1, s.len() as int) =~= Seq::<char>::empty());
    } else {
        let t = s.drop_last();
        lemma_after_last_slash_at(t, k);
        assert(t.subrange(k + 1, t.len() as int).push(s.last()) =~= s.subrange(
            k + 1,
            s.len() as int,
        ));
    }
}

/// Parses a channel ID out of either a deep-link URL (the ID is the segment
/// after the last `/`) or a plain numeric ID.
///
/// `https://discord.com/channels/123456789/987654321` yields `Some(987654321)`,
/// and so does `987654321` on its own.
pub fn parse_discord_channel_id_url(url: &str) -> (r: Option<u64>)
    ensures
        r == parse_u64_spec(after_last_slash(url@)),
{
    let n = url.unicode_len();
    let mut k = n;
    while k > 0
        invariant
            0 <= k <= n == url@.len(),
            forall|j: int| k <= j < n ==> url@[j] != '/',
        ensures
            0 <= k <= n,
            forall|j: int| k <= j < n ==> url@[j] != '/',
            k > 0 ==> url@[k - 1] == '/',
        decreases k,
    {
        if url.get_char(k - 1) == '/' {
            break;
        }
        k -= 1;
    }
    let tail = url.substring_char(k, n);
    proof {
        if k == 0 {
            lemma_after_last_slash_no_slash(url@);
        } else {
            lemma_after_last_slash_at(url@, k - 1);
        }
        assert(tail@ =~= after_last_slash(url@));
    }
    parse_u64_digits(tail)
}

/// `s` with every leading repetition of `<@` removed.
pub open spec fn strip_lead_marker(s: Seq<char>) -> Seq<char>
    decreases s.len(),
{
    if s.len() >= 2 && s[0] == '<' && s[1] == '@' {
        strip_lead_marker(s.skip(2))
    } else {
        s
    }
}

/// `s` with every leading `c` removed.
pub open spec fn trim_lead_char(s: Seq<char>, c: char) -> Seq<char>
    decreases s.len(),
{
    if s.len() > 0 && s[0] == c {
        trim_lead_char(s.drop_first(), c)
    } else {
        s
    }
}

/// `s` with every trailing `c` removed.
pub open spec fn trim_trail_char(s: Seq<char>, c: char) -> Seq<char>
    decreases s.len(),
{
    if s.len() > 0 && s.last() == c {
        trim_trail_char(s.drop_last(), c)
    } else {
        s
    }
}

/// What parsing a mention out of `s` yields: for text of the form
/// `<@...>`, the number left after stripping the `<@` marker, any `!` or `&`
/// kind tags, and the closing `>`; for anything else, `s` read as a plain
/// number.
pub open spec fn mention_id(s: Seq<char>) -> Option<u64> {
    if s.len() >= 2 && s[0] == '<' && s[1] == '@' && s.last() == '>' {
        parse_u64_spec(
            trim_trail_char(
                trim_lead_char(trim_lead_char(strip_lead_marker(s), '!'), '&'),
                '>',
            ),
        )
    } else {
        parse_u64_spec(s)
    }
}

/// Parses a role or user mention (`<@ID>`, `<@!ID>` or `<@&ID>`), or a plain
/// numeric ID.
///
/// `<@123456789>` and `123456789` both yield `Some(123456789)`.
pub fn parse_discord_mention(mention: &str) -> (r: Option<u64>)
    ensures
        r == mention_id(mention@),
{
    let n = mention.unicode_len();
    if !(n >= 2 && mention.get_char(0) == '<' && mention.get_char(1) == '@' && mention.get_char(
        n - 1,
    ) == '>') {
        return parse_u64_digits(mention);
    }
    let ghost s = mention@;
    let mut a: usize = 0;
    let mut b = n;
    proof {
        assert(s.subrange(0, n as int) =~= s);
    }
    while b - a >= 2 && mention.get_char(a) == '<' && mention.get_char(a + 1) == '@'
        invariant
            0 <= a <= b == n == s.len(),
            mention@ == s,
            strip_lead_marker(s) == strip_lead_marker(s.subrange(a as int, n as int)),
        decreases b - a,
    {
        proof {
            assert(s.subrange(a as int, n as int).skip(2) =~= s.subrange(a + 2, n as int));
        }
        a += 2;
    }
    proof {
        assert(strip_lead_marker(s) == s.subrange(a as int, n as int));
    }
    let ghost s1 = strip_lead_marker(s);
    while a < b && mention.get_char(a) == '!'
        invariant
            0 <= a <= b == n == s.len(),
            mention@ == s,
            s1 == strip_lead_marker(s),
            trim_lead_char(s1, '!') == trim_lead_char(s.subrange(a as int, b as int), '!'),
        decreases b - a,
    {
        proof {
            assert(s.subrange(a as int, b as int).drop_first() =~= s.subrange(
                a + 1,
                b as int,
            ));
        }
        a += 1;
    }
    proof {
        assert(trim_lead_char(s1, '!') == s.subrange(a as int, b as int));
    }
    let ghost s2 = trim_lead_char(s1, '!');
    while a < b && mention.get_char(a) == '&'
        invariant
            0 <= a <= b == n == s.len(),
            mention@ == s,
            s2 == trim_lead_char(strip_lead_marker(s), '!'),
            trim_lead_char(s2, '&') == trim_lead_char(s.subrange(a as int, b as int), '&'),
        decreases b - a,
    {
        proof {
            assert(s.subrange(a as int, b as int).drop_first() =~= s.subrange(
                a + 1,
                b as int,
            ));
        }
        a += 1;
    }
    proof {
        assert(trim_lead_char(s2, '&') == s.subrange(a as int, b as int));
    }
    let ghost s3 = trim_lead_char(s2, '&');
    while a < b && mention.get_char(b - 1) == '>'
        invariant
            0 <= a <= b <= n == s.len(),
            mention@ == s,
            s3 == trim_lead_char(trim_lead_char(strip_lead_marker(s), '!'), '&'),
            trim_trail_char(s3, '>') == trim_trail_char(s.subrange(a as int, b as int), '>'),
        decreases b,
    {
        proof {
            assert(s.subrange(a as int, b as int).drop_last() =~= s.subrange(
                a as int,
                b - 1,
            ));
        }
        b -= 1;
    }
    proof {
        assert(trim_trail_char(s3, '>') == s.subrange(a as int, b as int));
    }
    let inner = mention.substring_char(a, b);
    parse_u64_digits(inner)
}

} // verus!
