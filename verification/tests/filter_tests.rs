use ghnf::filters::{
    apply_filters, cap_count, filter_by_kind, filter_by_regex, filter_by_subject_state,
    filter_ignored, parse_ignore_list, removal_postfilter, removal_prefilter,
    state_filter_decision, Filters, StateDecision, CHUNK_SIZE,
};
use ghnf::error::Error;
use ghnf::gh_objects::{Subject, SubjectDetail, SubjectState, SubjectType};
use ghnf::subscription::Subscription;

fn sub(id: u64, title: &str, kind: SubjectType) -> Subscription {
    Subscription {
        subject: Subject {
            title: title.to_string(),
            url: match kind {
                SubjectType::Discussion => None,
                _ => Some(format!("https://api.github.com/x/{}", id)),
            },
            kind,
        },
        thread_id: id,
        repo_name: "octo/repo".to_string(),
        updated_at: "2024-01-01T00:00:00Z".to_string(),
        subject_detail: None,
    }
}

fn with_state(mut s: Subscription, state: Option<SubjectState>) -> Subscription {
    s.set_detail(SubjectDetail {
        url: "https://api.github.com/x".to_string(),
        html_url: "https://github.com/x".to_string(),
        state,
        title: Some("t".to_string()),
    });
    s
}

fn ids(ss: &[Subscription]) -> Vec<u64> {
    ss.iter().map(|s| s.thread_id).collect()
}

#[test]
fn ignore_stage_drops_exactly_the_ignored() {
    let ss = vec![
        sub(1, "a", SubjectType::Issue),
        sub(2, "b", SubjectType::Issue),
        sub(3, "c", SubjectType::Issue),
    ];
    let ignored = vec![2, 99];
    let out = filter_ignored(ss, &ignored);
    assert_eq!(ids(&out), vec![1, 3]);
    for s in &out {
        assert!(!ignored.contains(&s.thread_id));
    }
}

#[test]
fn ignore_stage_keeps_everything_when_nothing_is_ignored() {
    let ss = vec![sub(1, "a", SubjectType::Issue), sub(2, "b", SubjectType::Commit)];
    let out = filter_ignored(ss, &Vec::new());
    assert_eq!(ids(&out), vec![1, 2]);
}

#[test]
fn regex_stage_is_case_insensitive() {
    let f = Filters::new(Some(vec!["todo".to_string()]), None, None).unwrap();
    let rs = f.regex.as_ref().unwrap();
    let ss = vec![
        sub(1, "TODO: fix the build", SubjectType::Issue),
        sub(2, "unrelated", SubjectType::Issue),
        sub(3, "one ToDo left", SubjectType::Issue),
    ];
    let out = filter_by_regex(ss, rs);
    assert_eq!(ids(&out), vec![1, 3]);
}

#[test]
fn regex_stage_keeps_only_matching_titles() {
    let f = Filters::new(Some(vec!["^release".to_string(), "ci$".to_string()]), None, None)
        .unwrap();
    let rs = f.regex.as_ref().unwrap();
    let ss = vec![
        sub(1, "release 1.2", SubjectType::Issue),
        sub(2, "broken ci", SubjectType::Issue),
        sub(3, "neither", SubjectType::Issue),
    ];
    let out = filter_by_regex(ss, rs);
    assert_eq!(ids(&out), vec![1, 2]);
}

#[test]
fn invalid_pattern_is_reported() {
    let r = Filters::new(Some(vec!["(unclosed".to_string()]), None, None);
    assert!(matches!(r, Err(Error::InvalidRegex { .. })));
}

#[test]
fn no_regex_passes_everything_through() {
    let f = Filters { regex: None, kind: None, count: None };
    let ss = vec![sub(1, "a", SubjectType::Issue), sub(2, "b", SubjectType::Commit)];
    let out = apply_filters(ss, &f, &Vec::new());
    assert_eq!(ids(&out), vec![1, 2]);
}

#[test]
fn kind_stage_keeps_one_kind() {
    let ss = vec![
        sub(1, "a", SubjectType::Issue),
        sub(2, "b", SubjectType::PullRequest),
        sub(3, "c", SubjectType::Issue),
    ];
    let out = filter_by_kind(ss, SubjectType::Issue);
    assert_eq!(ids(&out), vec![1, 3]);
}

#[test]
fn count_cap_truncates_in_order() {
    let ss = vec![
        sub(1, "a", SubjectType::Issue),
        sub(2, "b", SubjectType::Issue),
        sub(3, "c", SubjectType::Issue),
    ];
    let out = cap_count(ss, 2);
    assert_eq!(ids(&out), vec![1, 2]);
}

#[test]
fn count_cap_at_or_above_length_keeps_the_full_input() {
    let ss = vec![sub(1, "a", SubjectType::Issue), sub(2, "b", SubjectType::Issue)];
    let out = cap_count(ss, 2);
    assert_eq!(ids(&out), vec![1, 2]);
    let ss = vec![sub(1, "a", SubjectType::Issue), sub(2, "b", SubjectType::Issue)];
    let out = cap_count(ss, 5);
    assert_eq!(ids(&out), vec![1, 2]);
    let ss = vec![sub(1, "a", SubjectType::Issue)];
    let out = cap_count(ss, 0);
    assert!(out.is_empty());
}

#[test]
fn state_stage_keeps_exactly_closed_and_commits() {
    let ss = vec![
        with_state(sub(1, "open issue", SubjectType::Issue), Some(SubjectState::Open)),
        with_state(sub(2, "closed issue", SubjectType::Issue), Some(SubjectState::Closed)),
        sub(3, "commit", SubjectType::Commit),
        sub(4, "discussion", SubjectType::Discussion),
        with_state(sub(5, "closed pr", SubjectType::PullRequest), Some(SubjectState::Closed)),
    ];
    let out = filter_by_subject_state(ss, SubjectState::Closed);
    assert_eq!(ids(&out), vec![2, 3, 5]);
}

#[test]
fn state_decisions_per_kind() {
    let commit = sub(1, "c", SubjectType::Commit);
    assert_eq!(state_filter_decision(&commit, SubjectState::Closed), StateDecision::Keep);
    let discussion = sub(2, "d", SubjectType::Discussion);
    assert_eq!(state_filter_decision(&discussion, SubjectState::Closed), StateDecision::Drop);
    let fresh_issue = sub(3, "i", SubjectType::Issue);
    assert_eq!(state_filter_decision(&fresh_issue, SubjectState::Closed), StateDecision::NeedsDetail);
    let closed_issue = with_state(sub(4, "i", SubjectType::Issue), Some(SubjectState::Closed));
    assert_eq!(state_filter_decision(&closed_issue, SubjectState::Closed), StateDecision::Keep);
    let open_issue = with_state(sub(5, "i", SubjectType::Issue), Some(SubjectState::Open));
    assert_eq!(state_filter_decision(&open_issue, SubjectState::Closed), StateDecision::Drop);
}

#[test]
fn resolving_once_is_enough() {
    // One underlying fetch per subscription: once the detail cache is set,
    // the state stage never asks for another fetch.
    let s = sub(7, "i", SubjectType::Issue);
    assert_eq!(state_filter_decision(&s, SubjectState::Closed), StateDecision::NeedsDetail);
    let s = with_state(s, Some(SubjectState::Closed));
    for _ in 0..3 {
        assert_ne!(state_filter_decision(&s, SubjectState::Closed), StateDecision::NeedsDetail);
    }
}

#[test]
fn pipeline_applies_stages_in_order() {
    let f = Filters::new(Some(vec!["keep".to_string()]), Some(SubjectType::Issue), Some(2))
        .unwrap();
    let ss = vec![
        sub(1, "keep one", SubjectType::Issue),
        sub(2, "keep two", SubjectType::PullRequest),
        sub(3, "skip", SubjectType::Issue),
        sub(4, "keep three", SubjectType::Issue),
        sub(5, "keep four", SubjectType::Issue),
        sub(6, "keep ignored", SubjectType::Issue),
    ];
    let out = apply_filters(ss, &f, &vec![6]);
    assert_eq!(ids(&out), vec![1, 4]);
}

#[test]
fn pipeline_twice_yields_identical_output() {
    let f = Filters::new(Some(vec!["x".to_string()]), None, Some(3)).unwrap();
    let ss = vec![
        sub(1, "x one", SubjectType::Issue),
        sub(2, "other", SubjectType::Issue),
        sub(3, "x two", SubjectType::Commit),
        sub(4, "x three", SubjectType::Issue),
        sub(5, "x four", SubjectType::Issue),
    ];
    let ignored = vec![4];
    let first = apply_filters(ss.clone(), &f, &ignored);
    let second = apply_filters(ss, &f, &ignored);
    assert_eq!(ids(&first), ids(&second));
    // And re-filtering the selected batch changes nothing.
    let again = apply_filters(first.clone(), &f, &ignored);
    assert_eq!(ids(&again), ids(&first));
}

#[test]
fn ignore_list_parses_one_id_per_line() {
    let r = parse_ignore_list("123\n\n456\n").unwrap();
    assert_eq!(r, vec![123, 456]);
    let r = parse_ignore_list("").unwrap();
    assert!(r.is_empty());
}

#[test]
fn ignore_list_reports_the_bad_line() {
    match parse_ignore_list("123\nnot-a-number\n456") {
        Err(Error::MalformedThreadId { id }) => assert_eq!(id, "not-a-number"),
        other => panic!("expected a malformed id error, got {:?}", other),
    }
}

#[test]
fn removal_pipeline_in_the_fixed_stage_order() {
    // ignore-list, regex, kind ahead of the detail resolution; then the
    // subject-state stage, then the count cap.
    let f = Filters::new(Some(vec!["keep".to_string()]), Some(SubjectType::Issue), Some(1))
        .unwrap();
    let ss = vec![
        sub(1, "keep ignored", SubjectType::Issue),
        sub(2, "keep wrong kind", SubjectType::PullRequest),
        sub(3, "skip", SubjectType::Issue),
        sub(4, "keep open", SubjectType::Issue),
        sub(5, "keep closed", SubjectType::Issue),
        sub(6, "keep closed too", SubjectType::Issue),
    ];
    let pre = removal_prefilter(ss, &f, &vec![1]);
    assert_eq!(ids(&pre), vec![4, 5, 6]);
    let resolved: Vec<_> = pre
        .into_iter()
        .map(|s| {
            let state = if s.thread_id == 4 { SubjectState::Open } else { SubjectState::Closed };
            with_state(s, Some(state))
        })
        .collect();
    let out = removal_postfilter(resolved, SubjectState::Closed, f.count);
    // The count cap comes last: of the two closed entries, the first one.
    assert_eq!(ids(&out), vec![5]);
}

#[test]
fn chunk_size_matches_the_documented_bound() {
    assert_eq!(CHUNK_SIZE, 64);
}
