use ghnf::filters::CHUNK_SIZE;
use ghnf::gh_objects::{Subject, SubjectType};
use ghnf::mutation::{chunk_ids, mutation_plan, thread_ids, MutationPlan, RunMode};
use ghnf::subscription::Subscription;

fn sub(id: u64) -> Subscription {
    Subscription {
        subject: Subject {
            title: format!("title {}", id),
            url: Some(format!("https://api.github.com/x/{}", id)),
            kind: SubjectType::Issue,
        },
        thread_id: id,
        repo_name: "octo/repo".to_string(),
        updated_at: "2024-01-01T00:00:00Z".to_string(),
        subject_detail: None,
    }
}

#[test]
fn empty_batch_matches_nothing_in_every_mode() {
    // "No notification matched": zero mutation calls follow.
    for mode in [RunMode::Dry, RunMode::Confirm, RunMode::Execute] {
        assert!(matches!(mutation_plan(&Vec::new(), mode), MutationPlan::NothingMatched));
    }
}

#[test]
fn dry_run_previews_without_chunks() {
    let batch = vec![sub(1), sub(2)];
    assert!(matches!(mutation_plan(&batch, RunMode::Dry), MutationPlan::Preview));
}

#[test]
fn execute_issues_one_unsubscribe_and_one_mark_read_per_candidate() {
    // Three filtered candidates: exactly the three ids are mutated, in one
    // chunk far below the bound, so three unsubscribe and three mark-read
    // requests follow.
    let batch = vec![sub(10), sub(20), sub(30)];
    match mutation_plan(&batch, RunMode::Execute) {
        MutationPlan::Mutate(chunks) => {
            assert_eq!(chunks.len(), 1);
            assert_eq!(chunks[0], vec![10, 20, 30]);
            let total: usize = chunks.iter().map(|c| c.len()).sum();
            assert_eq!(total, 3);
            assert!(chunks.iter().all(|c| c.len() <= CHUNK_SIZE));
        },
        _ => panic!("execute mode must mutate"),
    }
}

#[test]
fn confirm_waits_then_mutates_the_same_chunks() {
    let batch = vec![sub(1), sub(2)];
    match mutation_plan(&batch, RunMode::Confirm) {
        MutationPlan::ConfirmThenMutate(chunks) => {
            assert_eq!(chunks, vec![vec![1, 2]]);
        },
        _ => panic!("confirm mode must wait, then mutate"),
    }
}

#[test]
fn chunks_never_exceed_the_bound_and_lose_nothing() {
    let ids: Vec<u64> = (0..150).collect();
    let chunks = chunk_ids(ids.clone(), CHUNK_SIZE);
    assert_eq!(chunks.len(), 3);
    assert_eq!(chunks[0].len(), 64);
    assert_eq!(chunks[1].len(), 64);
    assert_eq!(chunks[2].len(), 22);
    let flat: Vec<u64> = chunks.concat();
    assert_eq!(flat, ids);
}

#[test]
fn exact_multiple_fills_every_chunk() {
    let ids: Vec<u64> = (0..128).collect();
    let chunks = chunk_ids(ids, CHUNK_SIZE);
    assert_eq!(chunks.len(), 2);
    assert!(chunks.iter().all(|c| c.len() == 64));
}

#[test]
fn thread_ids_keep_batch_order() {
    let batch = vec![sub(5), sub(3), sub(9)];
    assert_eq!(thread_ids(&batch), vec![5, 3, 9]);
}
