//! The subject classifier: ranks a server's subject list against a free-text
//! query and returns a bounded number of best matches.
//!
//! Scoring is delegated to the skim fuzzy matcher; everything around it —
//! which subjects are kept, how ties break, how many come back — is verified.
//! The result is pinned down exactly: the scored subjects, stably sorted by
//! descending score (ties keep the list's original order), cut to the top
//! `n`.

use vstd::prelude::*;
use vstd::string::StringExecFns;

use fuzzy_matcher::FuzzyMatcher;

use crate::subject::{Subject, SubjectV};
use crate::text::{split_char, split_on};

verus! {

/// Score that the skim fuzzy matcher assigns to `choice` against `pattern`;
/// `None` when the pattern's characters cannot all be found, in order, in
/// the choice. The score is a function of the two strings alone.
pub uninterp spec fn skim_score(choice: Seq<char>, pattern: Seq<char>) -> Option<i64>;

/// Relies on fuzzy_matcher's `SkimMatcherV2::fuzzy_match` (default
/// configuration): a deterministic dynamic-programming score over the two
/// strings' characters.
#[verifier::external_body]
fn skim_fuzzy_match(choice: &str, pattern: &str) -> (r: Option<i64>)
    ensures
        r == skim_score(choice@, pattern@),
{
    fuzzy_matcher::skim::SkimMatcherV2::default().fuzzy_match(choice, pattern)
}

/// The better of two optional scores.
pub open spec fn opt_max(a: Option<i64>, b: Option<i64>) -> Option<i64> {
    match (a, b) {
        (Some(x), Some(y)) => if x >= y { Some(x) } else { Some(y) },
        (Some(x), None) => Some(x),
        (None, y) => y,
    }
}

/// The best skim score of `name` against any of the patterns in `cands`;
/// empty patterns are passed over (the scorer matches them against
/// anything).
pub open spec fn best_score(name: Seq<char>, cands: Seq<Seq<char>>) -> Option<i64>
    decreases cands.len(),
{
    if cands.len() == 0 {
        None
    } else {
        let cur = if cands.last().len() == 0 {
            None
        } else {
            skim_score(name, cands.last())
        };
        opt_max(best_score(name, cands.drop_last()), cur)
    }
}

/// The patterns a query is matched under: the query itself and each of its
/// space-separated words, so that one matching word is enough to rank a
/// subject.
pub open spec fn query_patterns(q: Seq<char>) -> Seq<Seq<char>> {
    seq![q] + split_char(q, ' ')
}

/// A subject's score against a free-text query: its best skim score under
/// any of the query's patterns, `None` when no pattern matches at all.
pub open spec fn query_score(name: Seq<char>, q: Seq<char>) -> Option<i64> {
    best_score(name, query_patterns(q))
}

/// The subjects the scorer accepts, tagged with their score and their
/// position in the candidate list, in list order.
pub open spec fn scored_pairs(subs: Seq<SubjectV>, q: Seq<char>) -> Seq<(i64, int)>
    decreases subs.len(),
{
    if subs.len() == 0 {
        Seq::empty()
    } else {
        let rest = scored_pairs(subs.drop_last(), q);
        match query_score(subs.last().name, q) {
            Some(sc) => rest.push((sc, subs.len() - 1)),
            None => rest,
        }
    }
}

/// Strict ranking of scored candidates: higher score first, original list
/// order among equal scores.
pub open spec fn pair_precedes(a: (i64, int), b: (i64, int)) -> bool {
    a.0 > b.0 || (a.0 == b.0 && a.1 < b.1)
}

/// Non-strict version of [`pair_precedes`].
pub open spec fn pair_le(a: (i64, int), b: (i64, int)) -> bool {
    a.0 > b.0 || (a.0 == b.0 && a.1 <= b.1)
}

/// `p` inserted into `sorted` before the first entry it precedes.
pub open spec fn insert_pair(sorted: Seq<(i64, int)>, p: (i64, int)) -> Seq<(i64, int)>
    decreases sorted.len(),
{
    if sorted.len() == 0 {
        seq![p]
    } else if pair_precedes(p, sorted[0]) {
        seq![p] + sorted
    } else {
        seq![sorted[0]] + insert_pair(sorted.drop_first(), p)
    }
}

/// Insertion sort of the scored candidates. Inserting in list order makes
/// the sort stable: an entry with an equal score lands after the earlier
/// ones.
pub open spec fn sort_pairs(s: Seq<(i64, int)>) -> Seq<(i64, int)>
    decreases s.len(),
{
    if s.len() == 0 {
        Seq::empty()
    } else {
        insert_pair(sort_pairs(s.drop_last()), s.last())
    }
}

/// Every pair ranks no later than the pairs after it.
pub open spec fn pairs_sorted(s: Seq<(i64, int)>) -> bool {
    forall|i: int, j: int| 0 <= i < j < s.len() ==> pair_le(#[trigger] s[i], #[trigger] s[j])
}

/// What the classifier returns for candidate list `subs`, query `q` and
/// result bound `n`: the scored candidates, stably sorted by descending
/// score, cut to the first `n`, read back as subjects.
pub open spec fn top_matches(subs: Seq<SubjectV>, q: Seq<char>, n: int) -> Seq<SubjectV> {
    let sorted = sort_pairs(scored_pairs(subs, q));
    let m = if n <= sorted.len() { n } else { sorted.len() as int };
    sorted.take(m).map_values(|p: (i64, int)| subs[p.1])
}

proof fn lemma_insert_pair_len(s: Seq<(i64, int)>, p: (i64, int))
    ensures
        insert_pair(s, p).len() == s.len() + 1,
    decreases s.len(),
{
    if s.len() > 0 && !pair_precedes(p, s[0]) {
        lemma_insert_pair_len(s.drop_first(), p);
    }
}

proof fn lemma_insert_pair_elems(s: Seq<(i64, int)>, p: (i64, int))
    ensures
        forall|k: int|
            0 <= k < insert_pair(s, p).len() ==> (#[trigger] insert_pair(s, p)[k] == p
                || s.contains(insert_pair(s, p)[k])),
    decreases s.len(),
{
    if s.len() == 0 {
    } else if pair_precedes(p, s[0]) {
        assert forall|k: int| 0 <= k < insert_pair(s, p).len() implies (#[trigger] insert_pair(
            s,
            p,
        )[k] == p || s.contains(insert_pair(s, p)[k])) by {
            if k > 0 {
                assert(insert_pair(s, p)[k] == s[k - 1]);
            }
        }
    } else {
        lemma_insert_pair_elems(s.drop_first(), p);
        let rec = insert_pair(s.drop_first(), p);
        assert forall|k: int| 0 <= k < insert_pair(s, p).len() implies (#[trigger] insert_pair(
            s,
            p,
        )[k] == p || s.contains(insert_pair(s, p)[k])) by {
            if k > 0 {
                assert(insert_pair(s, p)[k] == rec[k - 1]);
                if rec[k - 1] != p {
                    let j = choose|j: int|
                        0 <= j < s.drop_first().len() && s.drop_first()[j] == rec[k - 1];
                    assert(s[j + 1] == rec[k - 1]);
                }
            } else {
                assert(s.contains(s[0]));
            }
        }
    }
}

proof fn lemma_insert_pair_sorted(s: Seq<(i64, int)>, p: (i64, int))
    requires
        pairs_sorted(s),
    ensures
        pairs_sorted(insert_pair(s, p)),
    decreases s.len(),
{
    if s.len() == 0 {
    } else if pair_precedes(p, s[0]) {
        let r = seq![p] + s;
        assert forall|i: int, j: int| 0 <= i < j < r.len() implies pair_le(
            #[trigger] r[i],
            #[trigger] r[j],
        ) by {
            if i == 0 {
                assert(r[j] == s[j - 1]);
                if j > 1 {
                    assert(pair_le(s[0], s[j - 1]));
                }
            } else {
                assert(r[i] == s[i - 1] && r[j] == s[j - 1]);
            }
        }
    } else {
        let t = s.drop_first();
        assert(pairs_sorted(t)) by {
            assert forall|i: int, j: int| 0 <= i < j < t.len() implies pair_le(
                #[trigger] t[i],
                #[trigger] t[j],
            ) by {
                assert(t[i] == s[i + 1] && t[j] == s[j + 1]);
            }
        }
        lemma_insert_pair_sorted(t, p);
        lemma_insert_pair_elems(t, p);
        let rec = insert_pair(t, p);
        let r = seq![s[0]] + rec;
        assert forall|i: int, j: int| 0 <= i < j < r.len() implies pair_le(
            #[trigger] r[i],
            #[trigger] r[j],
        ) by {
            if i == 0 {
                assert(r[j] == rec[j - 1]);
                if rec[j - 1] == p {
                    assert(pair_le(s[0], p));
                } else {
                    let m = choose|m: int| 0 <= m < t.len() && t[m] == rec[j - 1];
                    assert(t[m] == s[m + 1]);
                    assert(pair_le(s[0], s[m + 1]));
                }
            } else {
                assert(r[i] == rec[i - 1] && r[j] == rec[j - 1]);
            }
        }
    }
}

proof fn lemma_sort_pairs_len(s: Seq<(i64, int)>)
    ensures
        sort_pairs(s).len() == s.len(),
    decreases s.len(),
{
    if s.len() > 0 {
        lemma_sort_pairs_len(s.drop_last());
        lemma_insert_pair_len(sort_pairs(s.drop_last()), s.last());
    }
}

proof fn lemma_sort_pairs_sorted(s: Seq<(i64, int)>)
    ensures
        pairs_sorted(sort_pairs(s)),
    decreases s.len(),
{
    if s.len() > 0 {
        lemma_sort_pairs_sorted(s.drop_last());
        lemma_insert_pair_sorted(sort_pairs(s.drop_last()), s.last());
    }
}

proof fn lemma_sort_pairs_elems(s: Seq<(i64, int)>)
    ensures
        forall|k: int|
            0 <= k < sort_pairs(s).len() ==> s.contains(#[trigger] sort_pairs(s)[k]),
    decreases s.len(),
{
    if s.len() > 0 {
        let t = s.drop_last();
        lemma_sort_pairs_elems(t);
        lemma_insert_pair_elems(sort_pairs(t), s.last());
        assert forall|k: int| 0 <= k < sort_pairs(s).len() implies s.contains(
            #[trigger] sort_pairs(s)[k],
        ) by {
            let x = sort_pairs(s)[k];
            if x == s.last() {
                assert(s[s.len() - 1] == x);
            } else {
                let m = choose|m: int| 0 <= m < sort_pairs(t).len() && sort_pairs(t)[m] == x;
                let j = choose|j: int| 0 <= j < t.len() && t[j] == x;
                assert(s[j] == x);
            }
        }
    }
}

/// Every scored pair points into the candidate list and carries exactly the
/// score the scorer gave that candidate.
proof fn lemma_scored_pairs_ok(subs: Seq<SubjectV>, q: Seq<char>)
    ensures
        forall|k: int|
            0 <= k < scored_pairs(subs, q).len() ==> {
                let p = #[trigger] scored_pairs(subs, q)[k];
                0 <= p.1 < subs.len() && query_score(subs[p.1].name, q) == Some(p.0)
            },
    decreases subs.len(),
{
    if subs.len() > 0 {
        let t = subs.drop_last();
        lemma_scored_pairs_ok(t, q);
        assert forall|k: int| 0 <= k < scored_pairs(subs, q).len() implies {
            let p = #[trigger] scored_pairs(subs, q)[k];
            0 <= p.1 < subs.len() && query_score(subs[p.1].name, q) == Some(p.0)
        } by {
            let p = scored_pairs(subs, q)[k];
            if k < scored_pairs(t, q).len() {
                assert(scored_pairs(t, q)[k] == p);
                assert(t[p.1] == subs[p.1]);
            } else {
                assert(subs.last() == subs[subs.len() - 1]);
            }
        }
    }
}

proof fn lemma_insert_pair_at(s: Seq<(i64, int)>, p: (i64, int), j: int)
    requires
        0 <= j <= s.len(),
        forall|m: int| 0 <= m < j ==> !pair_precedes(p, #[trigger] s[m]),
        j < s.len() ==> pair_precedes(p, s[j]),
    ensures
        insert_pair(s, p) == s.take(j) + seq![p] + s.skip(j),
    decreases s.len(),
{
    if s.len() == 0 {
        assert(insert_pair(s, p) =~= s.take(0) + seq![p] + s.skip(0));
    } else if j == 0 {
        assert(insert_pair(s, p) =~= s.take(0) + seq![p] + s.skip(0));
    } else {
        let t = s.drop_first();
        assert forall|m: int| 0 <= m < j - 1 implies !pair_precedes(p, #[trigger] t[m]) by {
            assert(t[m] == s[m + 1]);
        }
        if j - 1 < t.len() {
            assert(t[j - 1] == s[j]);
        }
        lemma_insert_pair_at(t, p, j - 1);
        assert(seq![s[0]] + (t.take(j - 1) + seq![p] + t.skip(j - 1)) =~= s.take(j) + seq![p]
            + s.skip(j));
    }
}

/// The view of an exec score/index pair.
pub open spec fn pair_view(p: (i64, usize)) -> (i64, int) {
    (p.0, p.1 as int)
}

/// The views of a sequence of exec score/index pairs.
pub open spec fn pair_views(s: Seq<(i64, usize)>) -> Seq<(i64, int)> {
    s.map_values(|p: (i64, usize)| pair_view(p))
}

/// Ranks the stored subjects against a free-text query and returns at most
/// `number_of_results` of them, best score first; subjects the scorer
/// rejects outright are left out, and equal scores keep the stored order.
pub fn match_subjects(subjects: &Vec<Subject>, query: &str, number_of_results: usize) -> (r: Vec<
    Subject,
>)
    ensures
        r.deep_view() == top_matches(subjects.deep_view(), query@, number_of_results as int),
{
    let ghost subsv = subjects.deep_view();
    let ghost qv = query@;
    let n = subjects.len();

    let mut cands: Vec<String> = Vec::new();
    cands.push(String::from_str(query));
    let mut words = split_on(query, ' ');
    cands.append(&mut words);
    proof {
        assert(cands.deep_view() =~= query_patterns(qv));
    }
    let ghost candsv = cands.deep_view();
    let n_cands = cands.len();

    let mut scored: Vec<(i64, usize)> = Vec::new();
    let mut i: usize = 0;
    while i < n
        invariant
            n == subjects.len(),
            subsv == subjects.deep_view(),
            qv == query@,
            subsv.len() == n,
            0 <= i <= n,
            candsv == cands.deep_view(),
            candsv == query_patterns(qv),
            candsv.len() == n_cands == cands.len(),
            pair_views(scored@) == scored_pairs(subsv.take(i as int), qv),
            forall|k: int| 0 <= k < scored@.len() ==> (#[trigger] scored@[k]).1 < n,
        decreases n - i,
    {
        let mut best: Option<i64> = None;
        let mut t: usize = 0;
        proof {
            assert(candsv.take(0) =~= Seq::<Seq<char>>::empty());
        }
        while t < n_cands
            invariant
                0 <= t <= n_cands == cands.len(),
                candsv == cands.deep_view(),
                i < subjects.len(),
                subsv == subjects.deep_view(),
                subsv.len() == n,
                best == best_score(subsv[i as int].name, candsv.take(t as int)),
            decreases n_cands - t,
        {
            let cur = if cands[t].as_str().unicode_len() == 0 {
                None
            } else {
                skim_fuzzy_match(subjects[i].name.as_str(), cands[t].as_str())
            };
            best = match (best, cur) {
                (Some(x), Some(y)) => if x >= y {
                    Some(x)
                } else {
                    Some(y)
                },
                (Some(x), None) => Some(x),
                (None, y) => y,
            };
            proof {
                assert(candsv.take(t + 1).drop_last() =~= candsv.take(t as int));
                assert(candsv.take(t + 1).last() == candsv[t as int]);
            }
            t += 1;
        }
        proof {
            assert(candsv.take(n_cands as int) =~= candsv);
            assert(best == query_score(subsv[i as int].name, qv));
            assert(subsv.take(i + 1).drop_last() =~= subsv.take(i as int));
            assert(subsv.take(i + 1).last() == subsv[i as int]);
        }
        match best {
            Some(s) => {
                scored.push((s, i));
                proof {
                    assert(pair_views(scored@) =~= scored_pairs(subsv.take(i + 1), qv));
                }
            }
            None => {}
        }
        i += 1;
    }
    proof {
        assert(subsv.take(n as int) =~= subsv);
    }
    let ghost scoredv = pair_views(scored@);

    let mut sorted: Vec<(i64, usize)> = Vec::new();
    let mut k: usize = 0;
    while k < scored.len()
        invariant
            scoredv == pair_views(scored@),
            scoredv.len() == scored@.len(),
            0 <= k <= scored@.len(),
            pair_views(sorted@) == sort_pairs(scoredv.take(k as int)),
            sorted@.len() == k,
            forall|m: int| 0 <= m < scored@.len() ==> (#[trigger] scored@[m]).1 < n,
            forall|m: int| 0 <= m < sorted@.len() ==> (#[trigger] sorted@[m]).1 < n,
        decreases scored@.len() - k,
    {
        let p = scored[k];
        let mut j: usize = 0;
        while j < sorted.len() && !(p.0 > sorted[j].0 || (p.0 == sorted[j].0 && p.1 < sorted[j].1))
            invariant
                0 <= j <= sorted@.len(),
                forall|m: int|
                    0 <= m < j ==> !pair_precedes(pair_view(p), pair_views(sorted@)[m]),
            decreases sorted@.len() - j,
        {
            proof {
                assert(pair_views(sorted@)[j as int] == pair_view(sorted@[j as int]));
            }
            j += 1;
        }
        proof {
            if j < sorted@.len() {
                assert(pair_precedes(pair_view(p), pair_views(sorted@)[j as int]));
            }
            lemma_insert_pair_at(pair_views(sorted@), pair_view(p), j as int);
        }
        let ghost old_sorted = sorted@;
        sorted.insert(j, p);
        proof {
            assert(pair_views(sorted@) =~= pair_views(old_sorted).take(j as int) + seq![
                pair_view(p),
            ] + pair_views(old_sorted).skip(j as int));
            assert(scoredv.take(k + 1).drop_last() =~= scoredv.take(k as int));
            assert(scoredv.take(k + 1).last() == pair_view(scored@[k as int]));
        }
        k += 1;
    }
    proof {
        assert(scoredv.take(scored@.len() as int) =~= scoredv);
    }

    if sorted.len() > number_of_results {
        sorted.truncate(number_of_results);
        proof {
            assert(pair_views(sorted@) =~= sort_pairs(scoredv).take(number_of_results as int));
        }
    }

    let mut result: Vec<Subject> = Vec::new();
    let mut m: usize = 0;
    let ghost finalv = pair_views(sorted@);
    while m < sorted.len()
        invariant
            subsv == subjects.deep_view(),
            subsv.len() == subjects.len(),
            finalv == pair_views(sorted@),
            finalv.len() == sorted@.len(),
            0 <= m <= sorted@.len(),
            forall|t: int| 0 <= t < sorted@.len() ==> (#[trigger] sorted@[t]).1 < subjects.len(),
            result.deep_view() == finalv.take(m as int).map_values(
                |p: (i64, int)| subsv[p.1],
            ),
        decreases sorted@.len() - m,
    {
        let idx = sorted[m].1;
        let ghost prev = result.deep_view();
        proof {
            assert(prev.len() == m);
            assert(result@.len() == m);
        }
        result.push(subjects[idx].clone());
        proof {
            let target = finalv.take(m + 1).map_values(|p: (i64, int)| subsv[p.1]);
            assert(finalv[m as int] == pair_view(sorted@[m as int]));
            assert(result.deep_view()[m as int] == subjects@[idx as int].deep_view());
            assert forall|t: int| 0 <= t < m implies result.deep_view()[t] == target[t] by {
                assert(result.deep_view()[t] == prev[t]);
                assert(finalv.take(m + 1)[t] == finalv.take(m as int)[t]);
            }
            assert(result.deep_view() =~= target);
        }
        m += 1;
    }
    proof {
        assert(finalv.take(sorted@.len() as int) =~= finalv);
        let full = sort_pairs(scored_pairs(subsv, qv));
        lemma_sort_pairs_len(scoredv);
        if scoredv.len() <= number_of_results {
            assert(full.take(full.len() as int) =~= full);
        }
        assert(result.deep_view() == top_matches(subsv, qv, number_of_results as int));
    }
    result
}

/// The synthetic fall-back option a requester can always pick.
pub open spec fn other_subject() -> SubjectV {
    SubjectV { id: None, name: "Other"@, channel_id: None }
}

/// Appends the "Other" fall-back option after the matched subjects.
pub fn with_other_option(matches: Vec<Subject>) -> (r: Vec<Subject>)
    ensures
        r.deep_view() == matches.deep_view().push(other_subject()),
{
    let ghost mv = matches.deep_view();
    let mut r = matches;
    r.push(Subject { id: None, name: String::from_str("Other"), channel_id: None });
    proof {
        assert(r.deep_view() =~= mv.push(other_subject()));
    }
    r
}

/// Law: for every subject list, query and bound `n`, the classifier returns
/// at most `n` subjects — at most `n + 1` options once "Other" is appended —
/// ordered by non-increasing score; each is one of the stored subjects, and
/// none was rejected by the scorer.
pub proof fn lemma_top_matches_properties(subs: Seq<SubjectV>, q: Seq<char>, n: int)
    requires
        0 <= n,
    ensures
        top_matches(subs, q, n).len() <= n,
        top_matches(subs, q, n).push(other_subject()).len() <= n + 1,
        forall|k: int|
            0 <= k < top_matches(subs, q, n).len() ==> query_score(
                (#[trigger] top_matches(subs, q, n)[k]).name,
                q,
            ) is Some,
        forall|k: int|
            0 <= k < top_matches(subs, q, n).len() ==> subs.contains(
                #[trigger] top_matches(subs, q, n)[k],
            ),
        forall|k1: int, k2: int|
            0 <= k1 <= k2 < top_matches(subs, q, n).len() ==> query_score(
                (#[trigger] top_matches(subs, q, n)[k1]).name,
                q,
            )->Some_0 >= query_score((#[trigger] top_matches(subs, q, n)[k2]).name, q)->Some_0,
{
    let scored = scored_pairs(subs, q);
    let sorted = sort_pairs(scored);
    let m = if n <= sorted.len() { n } else { sorted.len() as int };
    let top = top_matches(subs, q, n);
    lemma_sort_pairs_len(scored);
    lemma_sort_pairs_sorted(scored);
    lemma_sort_pairs_elems(scored);
    lemma_scored_pairs_ok(subs, q);
    assert(top.len() == m);
    assert forall|k: int| 0 <= k < top.len() implies {
        &&& query_score((#[trigger] top[k]).name, q) is Some
        &&& subs.contains(top[k])
        &&& query_score(top[k].name, q)->Some_0 == sorted[k].0
    } by {
        let p = sorted[k];
        assert(scored.contains(p));
        let t = choose|t: int| 0 <= t < scored.len() && scored[t] == p;
        assert(top[k] == subs[p.1]);
        assert(subs.contains(subs[p.1]));
    }
    assert forall|k1: int, k2: int| 0 <= k1 <= k2 < top.len() implies query_score(
        (#[trigger] top[k1]).name,
        q,
    )->Some_0 >= query_score((#[trigger] top[k2]).name, q)->Some_0 by {
        if k1 < k2 {
            assert(pair_le(sorted[k1], sorted[k2]));
        }
    }
}

} // verus!
