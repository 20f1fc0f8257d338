//! The ordered filter pipeline over a notification collection.
//!
//! Stages run in a fixed order, each narrowing the collection handed to the
//! next: ignore-list, title regex set, kind, subject state, count cap.  The
//! subject-state stage needs resolved details and network access, so it is a
//! separate stage between the kind and count stages on the removal path;
//! `apply_filters` composes the stages that need none.

use vstd::prelude::*;

use crate::error::Error;
use crate::gh_objects::SubjectState;
use crate::gh_objects::SubjectType;
use crate::subscription::Subscription;
use crate::text::spec_parse_u64;
use crate::text::spec_non_empty_lines;
use crate::text::non_empty_lines;
use crate::text::parse_u64;
use crate::subscription::ThreadID;

verus! {

/// Requests are dispatched in concurrent batches of at most this many.
pub const CHUNK_SIZE: usize = 64;

/// Declares `regex::RegexSet` so the compiled, case-insensitive pattern set
/// can stand in `Filters`; the set is opaque here and is read only through
/// the trusted calls below.
#[verifier::external_type_specification]
#[verifier::external_body]
pub struct ExRegexSet(regex::RegexSet);

/// The patterns a regex set was built from, in order.
pub uninterp spec fn regex_set_patterns(rs: regex::RegexSet) -> Seq<Seq<char>>;

/// Whether building a case-insensitive regex set over these patterns
/// succeeds.
pub uninterp spec fn regex_set_ok(patterns: Seq<Seq<char>>) -> bool;

/// Whether the regex `pattern`, compiled case-insensitively, matches
/// somewhere in `text`.
pub uninterp spec fn regex_ci_match(pattern: Seq<char>, text: Seq<char>) -> bool;

/// Whether at least one of `patterns` matches `text`, case-insensitively.
pub open spec fn spec_title_matches(patterns: Seq<Seq<char>>, text: Seq<char>) -> bool {
    exists|i: int|
        0 <= i < patterns.len() && #[trigger] regex_ci_match(patterns[i], text)
}

/// Relies on `regex::RegexSetBuilder`: `build` returns a set over exactly
/// the given patterns, matching case-insensitively, and fails exactly when
/// the patterns do not compile; the error is rendered through its `Display`.
#[verifier::external_body]
fn build_regex_set(patterns: &Vec<String>) -> (r: Result<regex::RegexSet, String>)
    ensures
        r is Ok <==> regex_set_ok(patterns.deep_view()),
        r matches Ok(rs) ==> regex_set_patterns(rs) == patterns.deep_view(),
{
    regex::RegexSetBuilder::new(patterns)
        .case_insensitive(true)
        .build()
        .map_err(|e| e.to_string())
}

/// Relies on `regex::RegexSet::is_match`: true if and only if at least one
/// of the regexes in the set matches the text.  Sets are built only by
/// `build_regex_set`, so matching is case-insensitive.
#[verifier::external_body]
fn regex_set_is_match(rs: &regex::RegexSet, text: &str) -> (r: bool)
    ensures
        r == (exists|i: int|
            0 <= i < regex_set_patterns(*rs).len() && #[trigger] regex_ci_match(
                regex_set_patterns(*rs)[i],
                text@,
            )),
{
    rs.is_match(text)
}

/// The filter configuration, built once per invocation and read-only
/// afterward: an optional regex set, an optional kind restriction and an
/// optional result-count cap.
pub struct Filters {
    pub regex: Option<regex::RegexSet>,
    pub kind: Option<SubjectType>,
    pub count: Option<usize>,
}

impl Filters {
    /// The patterns of the configured regex set, if one is configured.
    pub open spec fn spec_regex_patterns(self) -> Option<Seq<Seq<char>>> {
        match self.regex {
            Some(rs) => Some(regex_set_patterns(rs)),
            None => None,
        }
    }

    /// Build the filter configuration.  Compiles the given patterns into a
    /// case-insensitive regex set; fails exactly when they do not compile.
    pub fn new(patterns: Option<Vec<String>>, kind: Option<SubjectType>, count: Option<usize>) -> (r: Result<
        Filters,
        Error,
    >)
        ensures
            match patterns {
                Some(ps) => {
                    if regex_set_ok(ps.deep_view()) {
                        r matches Ok(f) && f.spec_regex_patterns() == Some(ps.deep_view())
                            && f.kind == kind && f.count == count
                    } else {
                        r matches Err(e) && e matches Error::InvalidRegex { .. }
                    }
                },
                None => r matches Ok(f) && f.regex is None && f.kind == kind && f.count == count,
            },
    {
        match patterns {
            Some(ps) => match build_regex_set(&ps) {
                Ok(rs) => Ok(Filters { regex: Some(rs), kind, count }),
                Err(message) => Err(Error::InvalidRegex { message }),
            },
            None => Ok(Filters { regex: None, kind, count }),
        }
    }
}

/// The thread ids read from the lines of an ignore file.
pub open spec fn spec_ids_of(lines: Seq<Seq<char>>) -> Seq<ThreadID> {
    lines.map_values(|l: Seq<char>| spec_parse_u64(l)->Some_0)
}

/// Read an ignore file's text as a list of thread ids: one decimal id per
/// non-empty line.  Fails with `Error::MalformedThreadId` exactly when some
/// non-empty line is not a decimal id, naming the first such line.
pub fn parse_ignore_list(s: &str) -> (r: Result<Vec<ThreadID>, Error>)
    ensures
        r is Ok <==> (forall|i: int|
            0 <= i < spec_non_empty_lines(s@).len() ==> spec_parse_u64(
                #[trigger] spec_non_empty_lines(s@)[i],
            ) is Some),
        r matches Ok(ids) ==> ids@ == spec_ids_of(spec_non_empty_lines(s@)),
        r matches Err(e) ==> (e matches Error::MalformedThreadId { id } && spec_parse_u64(id@)
            is None && exists|i: int|
            0 <= i < spec_non_empty_lines(s@).len() && spec_non_empty_lines(s@)[i] == id@),
{
    let lines = non_empty_lines(s);
    let ghost dv = lines.deep_view();
    let mut ids: Vec<ThreadID> = Vec::new();
    let mut i: usize = 0;
    while i < lines.len()
        invariant
            dv == lines.deep_view(),
            dv == spec_non_empty_lines(s@),
            dv.len() == lines@.len(),
            i <= lines@.len(),
            forall|j: int| 0 <= j < i ==> spec_parse_u64(#[trigger] dv[j]) is Some,
            ids@ == spec_ids_of(dv.take(i as int)),
        decreases lines@.len() - i,
    {
        proof {
            assert(dv[i as int] == lines@[i as int]@);
        }
        match parse_u64(lines[i].as_str()) {
            Some(n) => {
                ids.push(n);
                proof {
                    assert(spec_ids_of(dv.take(i as int + 1)) =~= spec_ids_of(
                        dv.take(i as int),
                    ).push(spec_parse_u64(dv[i as int])->Some_0));
                }
            },
            None => {
                return Err(Error::MalformedThreadId { id: lines[i].clone() });
            },
        }
        i = i + 1;
    }
    proof {
        assert(dv.take(dv.len() as int) =~= dv);
    }
    Ok(ids)
}

/// What the ignore-list stage keeps: subscriptions whose thread id is not in
/// the ignore set.
pub open spec fn ignore_pred(ignored: Seq<ThreadID>) -> spec_fn(Subscription) -> bool {
    |s: Subscription| !ignored.contains(s.thread_id)
}

/// The ignore-list stage: drop every subscription whose thread id is in the
/// externally supplied ignore set, and no other.
pub open spec fn spec_ignore_stage(ignored: Seq<ThreadID>, ss: Seq<Subscription>) -> Seq<
    Subscription,
> {
    ss.filter(ignore_pred(ignored))
}

fn contains_id(ids: &Vec<ThreadID>, x: ThreadID) -> (r: bool)
    ensures
        r == ids@.contains(x),
{
    let mut i: usize = 0;
    while i < ids.len()
        invariant
            i <= ids@.len(),
            forall|j: int| 0 <= j < i ==> ids@[j] != x,
        decreases ids@.len() - i,
    {
        if ids[i] == x {
            return true;
        }
        i = i + 1;
    }
    false
}

/// Apply the ignore-list stage.
pub fn filter_ignored(ss: Vec<Subscription>, ignored: &Vec<ThreadID>) -> (r: Vec<Subscription>)
    ensures
        r@ == spec_ignore_stage(ignored@, ss@),
{
    broadcast use vstd::seq_lib::group_seq_lib_default;

    let ghost s0 = ss@;
    let mut rest = ss;
    let mut out: Vec<Subscription> = Vec::new();
    while rest.len() > 0
        invariant
            rest@.len() <= s0.len(),
            rest@ == s0.skip(s0.len() - rest@.len()),
            out@ == s0.take(s0.len() - rest@.len()).filter(ignore_pred(ignored@)),
        decreases rest@.len(),
    {
        let ghost i = s0.len() - rest@.len();
        proof {
            assert(rest@[0] == s0.skip(i as int)[0]);
        }
        let s = rest.remove(0);
        proof {
            assert(rest@ =~= s0.skip(i as int + 1));
        }
        let keep = !contains_id(ignored, s.thread_id);
        if keep {
            out.push(s);
        }
        proof {
            reveal_with_fuel(Seq::<Subscription>::filter, 2);
            assert(s0.take(i as int + 1) =~= s0.take(i as int) + seq![s0[i as int]]);
            assert(seq![s0[i as int]].drop_last() =~= Seq::<Subscription>::empty());
        }
    }
    proof {
        assert(s0.take(s0.len() as int) =~= s0);
    }
    out
}

/// What the regex stage keeps: subscriptions whose title matches at least
/// one configured pattern, case-insensitively.
pub open spec fn regex_pred(patterns: Seq<Seq<char>>) -> spec_fn(Subscription) -> bool {
    |s: Subscription| spec_title_matches(patterns, s.subject.title@)
}

/// The regex stage: with patterns configured, keep only matching titles;
/// with none configured, pass the collection through unchanged.
pub open spec fn spec_regex_stage(patterns: Option<Seq<Seq<char>>>, ss: Seq<Subscription>) -> Seq<
    Subscription,
> {
    match patterns {
        Some(ps) => ss.filter(regex_pred(ps)),
        None => ss,
    }
}

/// Apply the regex stage with a configured regex set.
pub fn filter_by_regex(ss: Vec<Subscription>, rs: &regex::RegexSet) -> (r: Vec<Subscription>)
    ensures
        r@ == spec_regex_stage(Some(regex_set_patterns(*rs)), ss@),
{
    broadcast use vstd::seq_lib::group_seq_lib_default;

    let ghost s0 = ss@;
    let mut rest = ss;
    let mut out: Vec<Subscription> = Vec::new();
    while rest.len() > 0
        invariant
            rest@.len() <= s0.len(),
            rest@ == s0.skip(s0.len() - rest@.len()),
            out@ == s0.take(s0.len() - rest@.len()).filter(regex_pred(regex_set_patterns(*rs))),
        decreases rest@.len(),
    {
        let ghost i = s0.len() - rest@.len();
        proof {
            assert(rest@[0] == s0.skip(i as int)[0]);
        }
        let s = rest.remove(0);
        proof {
            assert(rest@ =~= s0.skip(i as int + 1));
        }
        let keep = regex_set_is_match(rs, s.subject.title.as_str());
        if keep {
            out.push(s);
        }
        proof {
            reveal_with_fuel(Seq::<Subscription>::filter, 2);
            assert(s0.take(i as int + 1) =~= s0.take(i as int) + seq![s0[i as int]]);
            assert(seq![s0[i as int]].drop_last() =~= Seq::<Subscription>::empty());
        }
    }
    proof {
        assert(s0.take(s0.len() as int) =~= s0);
    }
    out
}

/// What the kind stage keeps: subscriptions of the restricted kind.
pub open spec fn kind_pred(kind: SubjectType) -> spec_fn(Subscription) -> bool {
    |s: Subscription| s.subject.kind == kind
}

/// The kind stage: with a kind restriction configured, keep only that kind;
/// with none, pass the collection through unchanged.
pub open spec fn spec_kind_stage(kind: Option<SubjectType>, ss: Seq<Subscription>) -> Seq<
    Subscription,
> {
    match kind {
        Some(k) => ss.filter(kind_pred(k)),
        None => ss,
    }
}

/// Apply the kind stage with a configured kind restriction.
pub fn filter_by_kind(ss: Vec<Subscription>, kind: SubjectType) -> (r: Vec<Subscription>)
    ensures
        r@ == spec_kind_stage(Some(kind), ss@),
{
    broadcast use vstd::seq_lib::group_seq_lib_default;

    let ghost s0 = ss@;
    let mut rest = ss;
    let mut out: Vec<Subscription> = Vec::new();
    while rest.len() > 0
        invariant
            rest@.len() <= s0.len(),
            rest@ == s0.skip(s0.len() - rest@.len()),
            out@ == s0.take(s0.len() - rest@.len()).filter(kind_pred(kind)),
        decreases rest@.len(),
    {
        let ghost i = s0.len() - rest@.len();
        proof {
            assert(rest@[0] == s0.skip(i as int)[0]);
        }
        let s = rest.remove(0);
        proof {
            assert(rest@ =~= s0.skip(i as int + 1));
        }
        let keep = s.subject.kind == kind;
        if keep {
            out.push(s);
        }
        proof {
            reveal_with_fuel(Seq::<Subscription>::filter, 2);
            assert(s0.take(i as int + 1) =~= s0.take(i as int) + seq![s0[i as int]]);
            assert(seq![s0[i as int]].drop_last() =~= Seq::<Subscription>::empty());
        }
    }
    proof {
        assert(s0.take(s0.len() as int) =~= s0);
    }
    out
}

/// What the subject-state stage keeps: commits (no state concept, always
/// eligible), and subscriptions with a state that resolved to the target
/// state.  Discussions have no reliable state and are always dropped.
pub open spec fn spec_state_keep(s: Subscription, state: SubjectState) -> bool {
    ||| s.subject.kind == SubjectType::Commit
    ||| (s.subject.kind != SubjectType::Commit && s.subject.kind != SubjectType::Discussion
        && s.spec_detail() is Some && s.spec_detail()->Some_0.state == Some(state))
}

/// What the subject-state stage keeps, as a filter predicate.
pub open spec fn state_pred(state: SubjectState) -> spec_fn(Subscription) -> bool {
    |s: Subscription| spec_state_keep(s, state)
}

/// The subject-state stage over a collection whose issue and pull-request
/// entries carry resolved details.
pub open spec fn spec_state_stage(state: SubjectState, ss: Seq<Subscription>) -> Seq<Subscription> {
    ss.filter(state_pred(state))
}

/// Whether every issue or pull request in the collection has its subject
/// detail resolved, which the subject-state stage needs.
pub open spec fn all_states_resolved(ss: Seq<Subscription>) -> bool {
    forall|i: int|
        0 <= i < ss.len() ==> ((#[trigger] ss[i].subject.kind) == SubjectType::Issue
            || ss[i].subject.kind == SubjectType::PullRequest) ==> ss[i].spec_detail() is Some
}

/// What to do with one subscription at the subject-state stage.
#[derive(Clone, Copy, Debug, PartialEq, Eq, Structural)]
pub enum StateDecision {
    /// Eligible without a fetch (commits) or with a matching resolved state.
    Keep,
    /// Ineligible: a discussion, or a resolved state that does not match.
    Drop,
    /// An issue or pull request whose detail is not resolved yet: resolve
    /// it, then decide again.
    NeedsDetail,
}

/// Decide one subscription at the subject-state stage.  Commits are kept
/// without a fetch; discussions are dropped without one; anything else needs
/// its resolved state, which must equal the target state.
pub fn state_filter_decision(s: &Subscription, state: SubjectState) -> (r: StateDecision)
    ensures
        s.subject.kind == SubjectType::Commit ==> r == StateDecision::Keep,
        s.subject.kind == SubjectType::Discussion ==> r == StateDecision::Drop,
        (s.subject.kind == SubjectType::Issue || s.subject.kind == SubjectType::PullRequest)
            ==> if s.spec_detail() is None {
            r == StateDecision::NeedsDetail
        } else {
            r == (if spec_state_keep(*s, state) {
                StateDecision::Keep
            } else {
                StateDecision::Drop
            })
        },
{
    match s.subject.kind {
        SubjectType::Commit => StateDecision::Keep,
        SubjectType::Discussion => StateDecision::Drop,
        _ => match s.detail() {
            None => StateDecision::NeedsDetail,
            Some(d) => match d.state {
                Some(st) => if st == state {
                    StateDecision::Keep
                } else {
                    StateDecision::Drop
                },
                None => StateDecision::Drop,
            },
        },
    }
}

/// Apply the subject-state stage.  Every issue and pull request must carry
/// its resolved detail; commits and discussions need none.
pub fn filter_by_subject_state(ss: Vec<Subscription>, state: SubjectState) -> (r: Vec<
    Subscription,
>)
    requires
        all_states_resolved(ss@),
    ensures
        r@ == spec_state_stage(state, ss@),
{
    broadcast use vstd::seq_lib::group_seq_lib_default;

    let ghost s0 = ss@;
    let mut rest = ss;
    let mut out: Vec<Subscription> = Vec::new();
    while rest.len() > 0
        invariant
            all_states_resolved(s0),
            rest@.len() <= s0.len(),
            rest@ == s0.skip(s0.len() - rest@.len()),
            out@ == s0.take(s0.len() - rest@.len()).filter(state_pred(state)),
        decreases rest@.len(),
    {
        let ghost i = s0.len() - rest@.len();
        proof {
            assert(rest@[0] == s0.skip(i as int)[0]);
            assert(s0.skip(i as int)[0] == s0[i as int]);
        }
        let s = rest.remove(0);
        proof {
            assert(rest@ =~= s0.skip(i as int + 1));
        }
        let decision = state_filter_decision(&s, state);
        let keep = match decision {
            StateDecision::Keep => true,
            StateDecision::Drop => false,
            StateDecision::NeedsDetail => unreached(),
        };
        if keep {
            out.push(s);
        }
        proof {
            reveal_with_fuel(Seq::<Subscription>::filter, 2);
            assert(s0.take(i as int + 1) =~= s0.take(i as int) + seq![s0[i as int]]);
            assert(seq![s0[i as int]].drop_last() =~= Seq::<Subscription>::empty());
        }
    }
    proof {
        assert(s0.take(s0.len() as int) =~= s0);
    }
    out
}

/// The count-cap stage: with a cap configured, truncate the collection to
/// that many entries, keeping the original order; with none, pass it
/// through unchanged.
pub open spec fn spec_count_stage(count: Option<usize>, ss: Seq<Subscription>) -> Seq<
    Subscription,
> {
    match count {
        Some(n) => if n < ss.len() {
            ss.take(n as int)
        } else {
            ss
        },
        None => ss,
    }
}

/// Apply the count-cap stage with a configured cap.
pub fn cap_count(ss: Vec<Subscription>, n: usize) -> (r: Vec<Subscription>)
    ensures
        r@ == spec_count_stage(Some(n), ss@),
{
    let mut v = ss;
    let ghost s0 = v@;
    v.truncate(n);
    proof {
        if n >= s0.len() {
            assert(v@ =~= s0);
        }
    }
    v
}

/// The stages of the pipeline that need no detail resolution, in their
/// fixed order: ignore-list, regex, kind, count cap.
pub open spec fn spec_apply_filters(
    f: Filters,
    ignored: Seq<ThreadID>,
    ss: Seq<Subscription>,
) -> Seq<Subscription> {
    spec_count_stage(
        f.count,
        spec_kind_stage(f.kind, spec_regex_stage(f.spec_regex_patterns(), spec_ignore_stage(ignored, ss))),
    )
}

/// The pipeline stages ahead of the subject-state stage, in their fixed
/// order: ignore-list, regex, kind.  The removal path runs these cheap
/// stages first, resolves subject details for what is left, and only then
/// runs the subject-state and count stages: this spares detail fetches.
pub fn removal_prefilter(ss: Vec<Subscription>, filters: &Filters, ignored: &Vec<ThreadID>) -> (r:
    Vec<Subscription>)
    ensures
        r@ == spec_kind_stage(
            filters.kind,
            spec_regex_stage(filters.spec_regex_patterns(), spec_ignore_stage(ignored@, ss@)),
        ),
{
    let s1 = filter_ignored(ss, ignored);
    let s2 = match &filters.regex {
        Some(rs) => filter_by_regex(s1, rs),
        None => s1,
    };
    match &filters.kind {
        Some(k) => filter_by_kind(s2, *k),
        None => s2,
    }
}

/// The tail of the removal pipeline, once every remaining issue and pull
/// request carries its resolved detail: the subject-state stage, then the
/// count cap.
pub fn removal_postfilter(ss: Vec<Subscription>, state: SubjectState, count: Option<usize>) -> (r:
    Vec<Subscription>)
    requires
        all_states_resolved(ss@),
    ensures
        r@ == spec_count_stage(count, spec_state_stage(state, ss@)),
{
    let s1 = filter_by_subject_state(ss, state);
    match count {
        Some(n) => cap_count(s1, n),
        None => s1,
    }
}

/// Apply the ignore-list, regex, kind and count stages, in that order.  The
/// removal path runs the subject-state stage between the kind and count
/// stages instead: it composes `removal_prefilter` and `removal_postfilter`
/// around the detail resolution.
pub fn apply_filters(ss: Vec<Subscription>, filters: &Filters, ignored: &Vec<ThreadID>) -> (r: Vec<
    Subscription,
>)
    ensures
        r@ == spec_apply_filters(*filters, ignored@, ss@),
{
    let s3 = removal_prefilter(ss, filters, ignored);
    match filters.count {
        Some(n) => cap_count(s3, n),
        None => s3,
    }
}

/// The subject-state stage, applied only on the removal path.
pub open spec fn spec_state_stage_opt(state: Option<SubjectState>, ss: Seq<Subscription>) -> Seq<
    Subscription,
> {
    match state {
        Some(st) => spec_state_stage(st, ss),
        None => ss,
    }
}

/// The whole pipeline in its fixed stage order — ignore-list, regex, kind,
/// subject-state, count cap — with the subject-state stage applied only on
/// the removal path.
pub open spec fn spec_pipeline(
    f: Filters,
    ignored: Seq<ThreadID>,
    state: Option<SubjectState>,
    ss: Seq<Subscription>,
) -> Seq<Subscription> {
    spec_count_stage(
        f.count,
        spec_state_stage_opt(
            state,
            spec_kind_stage(f.kind, spec_regex_stage(f.spec_regex_patterns(), spec_ignore_stage(ignored, ss))),
        ),
    )
}

/// The full removal pipeline: ignore-list, regex, kind, subject-state,
/// count cap.
pub open spec fn spec_removal_pipeline(
    f: Filters,
    ignored: Seq<ThreadID>,
    state: SubjectState,
    ss: Seq<Subscription>,
) -> Seq<Subscription> {
    spec_pipeline(f, ignored, Some(state), ss)
}

proof fn lemma_filter_all_true(ss: Seq<Subscription>, p: spec_fn(Subscription) -> bool)
    requires
        forall|i: int| 0 <= i < ss.len() ==> p(#[trigger] ss[i]),
    ensures
        ss.filter(p) == ss,
    decreases ss.len(),
{
    reveal_with_fuel(Seq::<_>::filter, 1);
    if ss.len() == 0 {
        assert(ss.filter(p) =~= ss);
    } else {
        assert(forall|i: int| 0 <= i < ss.drop_last().len() ==> p(#[trigger] ss.drop_last()[i]));
        lemma_filter_all_true(ss.drop_last(), p);
        assert(ss.filter(p) =~= ss);
    }
}

proof fn lemma_filter_preserves_pred(
    ss: Seq<Subscription>,
    p: spec_fn(Subscription) -> bool,
    q: spec_fn(Subscription) -> bool,
)
    requires
        forall|i: int| 0 <= i < ss.len() ==> p(#[trigger] ss[i]),
    ensures
        forall|j: int| 0 <= j < ss.filter(q).len() ==> p(#[trigger] ss.filter(q)[j]),
    decreases ss.len(),
{
    reveal_with_fuel(Seq::<_>::filter, 1);
    if ss.len() > 0 {
        assert(forall|i: int| 0 <= i < ss.drop_last().len() ==> p(#[trigger] ss.drop_last()[i]));
        lemma_filter_preserves_pred(ss.drop_last(), p, q);
        let rest = ss.drop_last().filter(q);
        if q(ss.last()) {
            assert(ss.filter(q) == rest.push(ss.last()));
            assert forall|j: int| 0 <= j < ss.filter(q).len() implies p(
                #[trigger] ss.filter(q)[j],
            ) by {
                if j < rest.len() {
                    assert(ss.filter(q)[j] == rest[j]);
                } else {
                    assert(ss.filter(q)[j] == ss.last());
                    assert(p(ss.last()));
                }
            }
        } else {
            assert(ss.filter(q) == rest);
        }
    }
}

/// Law of the ignore-list stage: it never outputs a subscription whose
/// thread id is in the ignore set, and never drops one whose id is absent
/// from it.
pub proof fn lemma_ignore_stage_sound(ignored: Seq<ThreadID>, ss: Seq<Subscription>)
    ensures
        forall|j: int|
            0 <= j < spec_ignore_stage(ignored, ss).len() ==> !ignored.contains(
                (#[trigger] spec_ignore_stage(ignored, ss)[j]).thread_id,
            ),
        forall|i: int|
            0 <= i < ss.len() && !ignored.contains(ss[i].thread_id) ==> spec_ignore_stage(
                ignored,
                ss,
            ).contains(#[trigger] ss[i]),
{
    broadcast use vstd::seq_lib::group_filter_ensures;

}

/// Law of the regex stage: every title it outputs matches at least one
/// configured pattern, case-insensitively; with no regex configured, the
/// output equals the input.
pub proof fn lemma_regex_stage_sound(patterns: Seq<Seq<char>>, ss: Seq<Subscription>)
    ensures
        forall|j: int|
            0 <= j < spec_regex_stage(Some(patterns), ss).len() ==> spec_title_matches(
                patterns,
                (#[trigger] spec_regex_stage(Some(patterns), ss)[j]).subject.title@,
            ),
        spec_regex_stage(None, ss) == ss,
{
    broadcast use vstd::seq_lib::group_filter_ensures;

}

/// Law of the count-cap stage: it never returns more than `n` entries; for
/// `n` at or above the input length it returns the input unchanged; and what
/// it returns is a prefix of the input, in the original order.
pub proof fn lemma_count_stage_sound(n: usize, ss: Seq<Subscription>)
    ensures
        spec_count_stage(Some(n), ss).len() <= n,
        n >= ss.len() ==> spec_count_stage(Some(n), ss) == ss,
        forall|i: int|
            0 <= i < spec_count_stage(Some(n), ss).len() ==> spec_count_stage(Some(n), ss)[i]
                == ss[i],
{
}

/// Law of the subject-state stage: it retains exactly the commits and the
/// entries whose resolved state equals the target state, and drops every
/// discussion and every entry whose state differs.
pub proof fn lemma_state_stage_sound(state: SubjectState, ss: Seq<Subscription>)
    ensures
        forall|j: int|
            0 <= j < spec_state_stage(state, ss).len() ==> spec_state_keep(
                #[trigger] spec_state_stage(state, ss)[j],
                state,
            ),
        forall|i: int|
            0 <= i < ss.len() && spec_state_keep(ss[i], state) ==> spec_state_stage(
                state,
                ss,
            ).contains(#[trigger] ss[i]),
{
    broadcast use vstd::seq_lib::group_filter_ensures;

}

/// Law of the whole pipeline: applied to its own output it changes nothing.
/// The pipeline is a function of the fetched collection and the
/// configuration alone, so two runs over identical remote state with no
/// mutation in between select identical batches.
pub proof fn lemma_pipeline_idempotent(
    f: Filters,
    ignored: Seq<ThreadID>,
    state: Option<SubjectState>,
    ss: Seq<Subscription>,
)
    ensures
        spec_pipeline(f, ignored, state, spec_pipeline(f, ignored, state, ss)) == spec_pipeline(
            f,
            ignored,
            state,
            ss,
        ),
{
    broadcast use vstd::seq_lib::group_filter_ensures;

    let ip = ignore_pred(ignored);
    let a = spec_ignore_stage(ignored, ss);
    let b = spec_regex_stage(f.spec_regex_patterns(), a);
    let c = spec_kind_stage(f.kind, b);
    let d = spec_state_stage_opt(state, c);
    let e = spec_count_stage(f.count, d);

    // Every entry of the output satisfies the predicate of each filtering
    // stage it went through, and later stages only narrow the collection.
    if f.spec_regex_patterns() is Some {
        lemma_filter_preserves_pred(a, ip, regex_pred(f.spec_regex_patterns()->Some_0));
    }
    if f.kind is Some {
        lemma_filter_preserves_pred(b, ip, kind_pred(f.kind->Some_0));
        if f.spec_regex_patterns() is Some {
            lemma_filter_preserves_pred(b, regex_pred(f.spec_regex_patterns()->Some_0), kind_pred(f.kind->Some_0));
        }
    }
    if state is Some {
        lemma_filter_preserves_pred(c, ip, state_pred(state->Some_0));
        if f.spec_regex_patterns() is Some {
            lemma_filter_preserves_pred(c, regex_pred(f.spec_regex_patterns()->Some_0), state_pred(state->Some_0));
        }
        if f.kind is Some {
            lemma_filter_preserves_pred(c, kind_pred(f.kind->Some_0), state_pred(state->Some_0));
        }
    }
    assert(forall|i: int| 0 <= i < e.len() ==> ip(#[trigger] e[i]));
    assert(forall|i: int| 0 <= i < e.len() ==> e[i] == d[i]);

    lemma_filter_all_true(e, ip);
    assert(spec_ignore_stage(ignored, e) == e);
    if f.spec_regex_patterns() is Some {
        lemma_filter_all_true(e, regex_pred(f.spec_regex_patterns()->Some_0));
    }
    assert(spec_regex_stage(f.spec_regex_patterns(), e) == e);
    if f.kind is Some {
        lemma_filter_all_true(e, kind_pred(f.kind->Some_0));
    }
    assert(spec_kind_stage(f.kind, e) == e);
    if state is Some {
        lemma_filter_all_true(e, state_pred(state->Some_0));
    }
    assert(spec_state_stage_opt(state, e) == e);
    assert(spec_count_stage(f.count, e) == e);
}

} // verus!

