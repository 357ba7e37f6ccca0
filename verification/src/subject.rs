//! Subjects: the named categories a ticket can be classified under.
//!
//! Staff curate one subject list per server; the intake flow matches the
//! requester's free text against it. Names are 1 to 100 characters long and
//! unique within a server's list.

use vstd::prelude::*;
use vstd::string::StringExecFns;

use crate::parser::{after_last_slash, parse_discord_channel_id_url, parse_u64_spec};
use crate::text::{split_char, split_on, str_eq, trim, trim_spaces, u64_digits, u64_to_string};

verus! {

/// The shortest subject name accepted.
pub const MIN_SUBJECT_LENGTH: usize = 1;

/// The longest subject name accepted.
pub const MAX_SUBJECT_LENGTH: usize = 100;

/// A named category a ticket can be filed under. `id` is the store's key;
/// the synthetic "Other" option a requester can always fall back to has no
/// key at all. `channel_id` is an optional hint at a related channel.
pub struct Subject {
    pub id: Option<u64>,
    pub name: String,
    pub channel_id: Option<u64>,
}

/// Mathematical image of a [`Subject`].
pub struct SubjectV {
    pub id: Option<u64>,
    pub name: Seq<char>,
    pub channel_id: Option<u64>,
}

impl View for Subject {
    type V = SubjectV;

    open spec fn view(&self) -> SubjectV {
        SubjectV { id: self.id, name: self.name@, channel_id: self.channel_id }
    }
}

impl DeepView for Subject {
    type V = SubjectV;

    open spec fn deep_view(&self) -> SubjectV {
        self.view()
    }
}

impl Clone for Subject {
    fn clone(&self) -> (res: Self)
        ensures
            res == *self,
    {
        Subject { id: self.id, name: self.name.clone(), channel_id: self.channel_id }
    }
}

impl Default for Subject {
    fn default() -> (res: Self)
        ensures
            res.id is None,
            res.name@ == Seq::<char>::empty(),
            res.channel_id is None,
    {
        Subject { id: None, name: String::new(), channel_id: None }
    }
}

/// A subject name must be 1 to 100 characters long.
pub open spec fn subject_name_ok(name: Seq<char>) -> bool {
    MIN_SUBJECT_LENGTH <= name.len() <= MAX_SUBJECT_LENGTH
}

/// Checks the length bounds on a proposed subject name.
pub fn validate_subject_name(name: &str) -> (r: bool)
    ensures
        r == subject_name_ok(name@),
{
    let n = name.unicode_len();
    MIN_SUBJECT_LENGTH <= n && n <= MAX_SUBJECT_LENGTH
}

/// Some subject in `subs` carries exactly the name `name`.
pub open spec fn has_subject_named(subs: Seq<SubjectV>, name: Seq<char>) -> bool {
    exists|i: int| 0 <= i < subs.len() && subs[i].name == name
}

/// Whether the list already holds a subject with this exact name.
pub fn subject_exists(subjects: &Vec<Subject>, name: &str) -> (r: bool)
    ensures
        r == has_subject_named(subjects.deep_view(), name@),
{
    let n = subjects.len();
    let mut i: usize = 0;
    while i < n
        invariant
            0 <= i <= n == subjects.len(),
            forall|j: int| 0 <= j < i ==> subjects.deep_view()[j].name != name@,
        decreases n - i,
    {
        if str_eq(subjects[i].name.as_str(), name) {
            assert(subjects.deep_view()[i as int].name == name@);
            return true;
        }
        i += 1;
    }
    false
}

/// Why a proposed subject is rejected.
#[derive(Clone, Copy, Debug, PartialEq, Eq, Structural)]
pub enum SubjectAddError {
    /// The name is over the length cap.
    TooLong,
    /// The name is empty.
    TooShort,
    /// The linked channel is neither an ID nor a channel deep link.
    InvalidChannel,
    /// The list already holds a subject with this name.
    Duplicate,
}

impl SubjectAddError {
    /// The user-visible text for this error.
    pub fn message(&self) -> (r: &'static str)
        ensures
            *self is TooLong ==> r@ == "The subject is too long"@,
            *self is TooShort ==> r@ == "The subject is too short"@,
            *self is InvalidChannel ==> r@ == "Invalid channel ID"@,
            *self is Duplicate ==> r@ == "Subject already exists"@,
    {
        match self {
            SubjectAddError::TooLong => "The subject is too long",
            SubjectAddError::TooShort => "The subject is too short",
            SubjectAddError::InvalidChannel => "Invalid channel ID",
            SubjectAddError::Duplicate => "Subject already exists",
        }
    }
}

/// What adding one subject with a linked channel yields: the channel the
/// new row should point at, or the first reason to reject — an over-long
/// name, an empty name, an unreadable channel reference, a name already
/// taken.
pub open spec fn add_subject_spec(
    subs: Seq<SubjectV>,
    name: Seq<char>,
    channel_ref: Seq<char>,
) -> Result<u64, SubjectAddError> {
    if name.len() > MAX_SUBJECT_LENGTH {
        Err(SubjectAddError::TooLong)
    } else if name.len() < MIN_SUBJECT_LENGTH {
        Err(SubjectAddError::TooShort)
    } else {
        match parse_u64_spec(after_last_slash(channel_ref)) {
            None => Err(SubjectAddError::InvalidChannel),
            Some(cid) => if has_subject_named(subs, name) {
                Err(SubjectAddError::Duplicate)
            } else {
                Ok(cid)
            },
        }
    }
}

/// Validates one proposed subject with a linked channel and, when every
/// check passes, returns the row to persist (the store assigns its key).
pub fn add_subject(subjects: &Vec<Subject>, name: &str, channel_ref: &str) -> (r: Result<
    Subject,
    SubjectAddError,
>)
    ensures
        ({
            let decision = add_subject_spec(subjects.deep_view(), name@, channel_ref@);
            match r {
                Ok(s) => decision is Ok && s@ == (SubjectV {
                    id: None,
                    name: name@,
                    channel_id: Some(decision->Ok_0),
                }),
                Err(e) => decision is Err && e == decision->Err_0,
            }
        }),
{
    let len = name.unicode_len();
    if len > MAX_SUBJECT_LENGTH {
        return Err(SubjectAddError::TooLong);
    }
    if len < MIN_SUBJECT_LENGTH {
        return Err(SubjectAddError::TooShort);
    }
    match parse_discord_channel_id_url(channel_ref) {
        None => Err(SubjectAddError::InvalidChannel),
        Some(cid) => {
            if subject_exists(subjects, name) {
                Err(SubjectAddError::Duplicate)
            } else {
                Ok(Subject { id: None, name: String::from_str(name), channel_id: Some(cid) })
            }
        }
    }
}

/// How one entry of a batched subject addition came out.
#[derive(Clone, Copy, Debug, PartialEq, Eq, Structural)]
pub enum BatchOutcome {
    /// The entry passed every check and is to be inserted.
    Added,
    /// The entry's name is outside the length bounds.
    BadLength,
    /// A stored subject, or an earlier entry of the same batch, already
    /// carries this name.
    Duplicate,
}

/// One entry of a batched subject addition: the trimmed name and what
/// became of it.
pub struct BatchEntry {
    pub name: String,
    pub outcome: BatchOutcome,
}

/// Mathematical image of a [`BatchEntry`].
pub struct BatchEntryV {
    pub name: Seq<char>,
    pub outcome: BatchOutcome,
}

impl View for BatchEntry {
    type V = BatchEntryV;

    open spec fn view(&self) -> BatchEntryV {
        BatchEntryV { name: self.name@, outcome: self.outcome }
    }
}

impl DeepView for BatchEntry {
    type V = BatchEntryV;

    open spec fn deep_view(&self) -> BatchEntryV {
        self.view()
    }
}

/// The outcomes of the batch entries `names` (untrimmed), checked in order
/// against the names in `known`; each accepted entry joins `known`, so a
/// batch cannot add one name twice.
pub open spec fn batch_outcomes(names: Seq<Seq<char>>, known: Seq<Seq<char>>) -> Seq<
    BatchEntryV,
>
    decreases names.len(),
{
    if names.len() == 0 {
        Seq::empty()
    } else {
        let t = trim_spaces(names[0]);
        if !subject_name_ok(t) {
            seq![BatchEntryV { name: t, outcome: BatchOutcome::BadLength }] + batch_outcomes(
                names.drop_first(),
                known,
            )
        } else if known.contains(t) {
            seq![BatchEntryV { name: t, outcome: BatchOutcome::Duplicate }] + batch_outcomes(
                names.drop_first(),
                known,
            )
        } else {
            seq![BatchEntryV { name: t, outcome: BatchOutcome::Added }] + batch_outcomes(
                names.drop_first(),
                known.push(t),
            )
        }
    }
}

/// The names of the stored subjects, in order.
pub open spec fn subject_names(subs: Seq<SubjectV>) -> Seq<Seq<char>> {
    subs.map_values(|s: SubjectV| s.name)
}

/// What a batched addition yields: the input split at `$`, each piece
/// trimmed and checked in order.
pub open spec fn subject_batch_spec(subs: Seq<SubjectV>, input: Seq<char>) -> Seq<BatchEntryV> {
    batch_outcomes(split_char(input, '$'), subject_names(subs))
}

fn contains_string(v: &Vec<String>, s: &str) -> (r: bool)
    ensures
        r == v.deep_view().contains(s@),
{
    let n = v.len();
    let mut i: usize = 0;
    while i < n
        invariant
            0 <= i <= n == v.len(),
            forall|j: int| 0 <= j < i ==> v.deep_view()[j] != s@,
        decreases n - i,
    {
        if str_eq(v[i].as_str(), s) {
            assert(v.deep_view()[i as int] == s@);
            return true;
        }
        i += 1;
    }
    proof {
        if v.deep_view().contains(s@) {
            let j = choose|j: int| 0 <= j < v.deep_view().len() && v.deep_view()[j] == s@;
        }
    }
    false
}

/// Checks a whole `$`-separated batch of subject names against the stored
/// list: each piece is trimmed and either accepted or rejected with its
/// reason; accepted pieces count as taken for the rest of the batch. The
/// caller persists the accepted names.
pub fn process_subject_batch(subjects: &Vec<Subject>, input: &str) -> (r: Vec<BatchEntry>)
    ensures
        r.deep_view() == subject_batch_spec(subjects.deep_view(), input@),
{
    let segs = split_on(input, '$');
    let ghost segsv = segs.deep_view();

    let mut known: Vec<String> = Vec::new();
    let n = subjects.len();
    let mut i: usize = 0;
    while i < n
        invariant
            0 <= i <= n == subjects.len(),
            known.deep_view() =~= subject_names(subjects.deep_view()).take(i as int),
        decreases n - i,
    {
        let ghost known0 = known.deep_view();
        proof {
            assert(known0.len() == i);
            assert(known@.len() == i);
        }
        known.push(subjects[i].name.clone());
        proof {
            let names = subject_names(subjects.deep_view());
            assert(names[i as int] == subjects.deep_view()[i as int].name);
            assert(known.deep_view()[i as int] == names[i as int]);
            assert forall|j: int| 0 <= j < i implies known.deep_view()[j] == names.take(i + 1)[j]
                by {
                assert(known.deep_view()[j] == known0[j]);
            }
            assert(known.deep_view() =~= names.take(i + 1));
        }
        i += 1;
    }
    proof {
        assert(subject_names(subjects.deep_view()).take(n as int) =~= subject_names(
            subjects.deep_view(),
        ));
        assert(known.deep_view() == subject_names(subjects.deep_view()));
    }

    let mut r: Vec<BatchEntry> = Vec::new();
    let mut k: usize = 0;
    let m = segs.len();
    proof {
        assert(segsv.skip(0) =~= segsv);
        assert(r.deep_view() + batch_outcomes(segsv, known.deep_view()) =~= batch_outcomes(
            segsv,
            known.deep_view(),
        ));
    }
    while k < m
        invariant
            0 <= k <= m == segs.len(),
            segsv == segs.deep_view(),
            segsv.len() == m,
            batch_outcomes(segsv, subject_names(subjects.deep_view())) == r.deep_view()
                + batch_outcomes(segsv.skip(k as int), known.deep_view()),
        decreases m - k,
    {
        let ghost known0 = known.deep_view();
        let ghost r0 = r.deep_view();
        proof {
            assert(segsv.skip(k as int)[0] == segsv[k as int]);
            assert(segsv.skip(k as int).drop_first() =~= segsv.skip(k + 1));
        }
        let t = trim(segs[k].as_str());
        let outcome = if !validate_subject_name(t) {
            BatchOutcome::BadLength
        } else if contains_string(&known, t) {
            BatchOutcome::Duplicate
        } else {
            known.push(String::from_str(t));
            BatchOutcome::Added
        };
        r.push(BatchEntry { name: String::from_str(t), outcome });
        proof {
            if outcome is Added {
                assert(known.deep_view() =~= known0.push(t@));
            }
            assert(r.deep_view() =~= r0.push(BatchEntryV { name: t@, outcome }));
            assert(r.deep_view() + batch_outcomes(segsv.skip(k + 1), known.deep_view()) =~= r0
                + batch_outcomes(segsv.skip(k as int), known0));
        }
        k += 1;
    }
    proof {
        assert(segsv.skip(m as int) =~= Seq::<Seq<char>>::empty());
        assert(r.deep_view() + batch_outcomes(segsv.skip(m as int), known.deep_view())
            =~= r.deep_view());
    }
    r
}

/// Removes the first stored subject carrying exactly this name; reports
/// whether one was found. When none is, the list is left untouched.
pub fn remove_subject(subjects: &mut Vec<Subject>, name: &str) -> (r: bool)
    ensures
        r == has_subject_named(old(subjects).deep_view(), name@),
        !r ==> *final(subjects) == *old(subjects),
        r ==> exists|i: int|
            {
                &&& 0 <= i < old(subjects).deep_view().len()
                &&& old(subjects).deep_view()[i].name == name@
                &&& (forall|j: int|
                    0 <= j < i ==> #[trigger] old(subjects).deep_view()[j].name != name@)
                &&& final(subjects).deep_view() == old(subjects).deep_view().remove(i)
            },
{
    let n = subjects.len();
    let mut i: usize = 0;
    while i < n
        invariant
            0 <= i <= n == subjects.len(),
            *subjects == *old(subjects),
            forall|j: int| 0 <= j < i ==> #[trigger] subjects.deep_view()[j].name != name@,
        decreases n - i,
    {
        if str_eq(subjects[i].name.as_str(), name) {
            let ghost before = subjects.deep_view();
            subjects.remove(i);
            proof {
                assert(before[i as int].name == name@);
                assert(subjects.deep_view() =~= before.remove(i as int));
                assert(has_subject_named(before, name@));
            }
            return true;
        }
        i += 1;
    }
    proof {
        if has_subject_named(subjects.deep_view(), name@) {
            let j = choose|j: int|
                0 <= j < subjects.deep_view().len() && subjects.deep_view()[j].name == name@;
        }
    }
    false
}

/// The listing line for one subject: its name, and the linked channel when
/// it has one.
pub open spec fn subject_line(s: SubjectV) -> Seq<char> {
    match s.channel_id {
        Some(c) => "- "@ + s.name + " - <#"@ + u64_digits(c as nat) + ">"@,
        None => "- "@ + s.name,
    }
}

/// The listing of a whole subject list, one line per subject.
pub open spec fn subject_list_text(subs: Seq<SubjectV>) -> Seq<char>
    decreases subs.len(),
{
    if subs.len() == 0 {
        Seq::empty()
    } else if subs.len() == 1 {
        subject_line(subs[0])
    } else {
        subject_list_text(subs.drop_last()) + "\n"@ + subject_line(subs.last())
    }
}

fn format_subject_line(s: &Subject) -> (r: String)
    ensures
        r@ == subject_line(s@),
{
    let mut line = String::from_str("- ");
    line.append(s.name.as_str());
    match s.channel_id {
        Some(c) => {
            line.append(" - <#");
            let digits = u64_to_string(c);
            line.append(digits.as_str());
            line.append(">");
        }
        None => {}
    }
    line
}

/// Renders the stored subjects for the listing command, one line per
/// subject; empty when there are none (the caller words that case).
pub fn format_subject_list(subjects: &Vec<Subject>) -> (r: String)
    ensures
        r@ == subject_list_text(subjects.deep_view()),
{
    let n = subjects.len();
    let mut acc = String::new();
    let mut i: usize = 0;
    while i < n
        invariant
            0 <= i <= n == subjects.len(),
            acc@ == subject_list_text(subjects.deep_view().take(i as int)),
        decreases n - i,
    {
        if i > 0 {
            acc.append("\n");
        }
        let line = format_subject_line(&subjects[i]);
        acc.append(line.as_str());
        proof {
            let pre = subjects.deep_view().take(i as int);
            let cur = subjects.deep_view().take(i + 1);
            assert(cur.drop_last() =~= pre);
            assert(cur.last() == subjects.deep_view()[i as int]);
            if i == 0 {
                assert(Seq::<char>::empty() + subject_line(cur[0]) =~= subject_line(cur[0]));
            }
        }
        i += 1;
    }
    proof {
        assert(subjects.deep_view().take(n as int) =~= subjects.deep_view());
    }
    acc
}

} // verus!
