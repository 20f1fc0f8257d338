use ghnf::error::Error;
use ghnf::gh_objects::{Notification, Repository, Subject, SubjectDetail, SubjectState, SubjectType};
use ghnf::subscription::{
    flatten_pages, notifications_url, page_numbers, subscription_url, thread_url, Subscription,
};

fn notification(id: &str) -> Notification {
    Notification {
        id: id.to_string(),
        repository: Repository { full_name: "octo/repo".to_string() },
        subject: Subject {
            title: "Fix the flaky test".to_string(),
            url: Some("https://api.github.com/repos/octo/repo/issues/7".to_string()),
            kind: SubjectType::Issue,
        },
        updated_at: "2024-05-06T07:08:09Z".to_string(),
    }
}

#[test]
fn from_notification_parses_the_thread_id() {
    let s = Subscription::from_notification(notification("4242")).unwrap();
    assert_eq!(s.thread_id, 4242);
    assert_eq!(s.repo_name, "octo/repo");
    assert_eq!(s.subject.title, "Fix the flaky test");
    assert_eq!(s.updated_at, "2024-05-06T07:08:09Z");
    assert!(s.subject_detail.is_none());
}

#[test]
fn from_notification_rejects_a_malformed_id() {
    match Subscription::from_notification(notification("12ab")) {
        Err(Error::MalformedThreadId { id }) => assert_eq!(id, "12ab"),
        other => panic!("expected a malformed id error, got {:?}", other),
    }
}

#[test]
fn describe_prints_the_original_line() {
    let mut s = Subscription::from_notification(notification("99")).unwrap();
    assert_eq!(
        s.describe(),
        "[Issue] octo/repo : Fix the flaky test (99) at 2024-05-06T07:08:09Z"
    );
    s.subject.kind = SubjectType::PullRequest;
    assert!(s.describe().starts_with("[PullReq] "));
    s.subject.kind = SubjectType::Commit;
    assert!(s.describe().starts_with("[Commit] "));
    s.subject.kind = SubjectType::Discussion;
    assert!(s.describe().starts_with("[Discuss] "));
}

#[test]
fn kind_flags_map_to_kinds() {
    assert_eq!(SubjectType::from_flag("commit"), Some(SubjectType::Commit));
    assert_eq!(SubjectType::from_flag("issue"), Some(SubjectType::Issue));
    assert_eq!(SubjectType::from_flag("pr"), Some(SubjectType::PullRequest));
    assert_eq!(SubjectType::from_flag("discussion"), None);
    assert_eq!(SubjectType::from_flag(""), None);
}

#[test]
fn urls_follow_the_remote_layout() {
    assert_eq!(notifications_url(), "https://api.github.com/notifications");
    assert_eq!(thread_url(7), "https://api.github.com/notifications/threads/7");
    assert_eq!(
        subscription_url(1234567),
        "https://api.github.com/notifications/threads/1234567/subscription"
    );
}

#[test]
fn detail_cache_serves_state_and_url_once_set() {
    let mut s = Subscription::from_notification(notification("5")).unwrap();
    assert!(!s.detail_resolved());
    s.set_detail(SubjectDetail {
        url: "https://api.github.com/repos/octo/repo/issues/7".to_string(),
        html_url: "https://github.com/octo/repo/issues/7".to_string(),
        state: Some(SubjectState::Closed),
        title: Some("Fix the flaky test".to_string()),
    });
    assert!(s.detail_resolved());
    assert_eq!(s.subject_state(), Some(SubjectState::Closed));
    assert_eq!(s.html_url(), "https://github.com/octo/repo/issues/7");
}

#[test]
fn pages_flatten_in_page_order() {
    let a = Subscription::from_notification(notification("1")).unwrap();
    let b = Subscription::from_notification(notification("2")).unwrap();
    let c = Subscription::from_notification(notification("3")).unwrap();
    let flat = flatten_pages(vec![vec![a, b], vec![], vec![c]]);
    let ids: Vec<u64> = flat.iter().map(|s| s.thread_id).collect();
    assert_eq!(ids, vec![1, 2, 3]);
}

#[test]
fn one_request_per_page() {
    assert_eq!(page_numbers(0), Vec::<usize>::new());
    assert_eq!(page_numbers(4), vec![1, 2, 3, 4]);
}
