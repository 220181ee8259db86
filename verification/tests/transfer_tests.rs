use reelname::transfer::{
    dir_prefixes, progress_milli, remote_join, resume_decision, ItemState, ResumePlan, Scheduler,
    TransferState, MAX_CONCURRENT,
};

#[test]
fn rerun_on_complete_destination_is_idempotent() {
    // Destination size equals source size: complete on the spot, zero
    // bytes owed, progress reports full immediately.
    let (plan, to_write) = resume_decision(4096, 4096);
    assert_eq!(plan, ResumePlan::AlreadyComplete);
    assert_eq!(to_write, 0);
    assert_eq!(progress_milli(4096, 4096), 1000);
}

#[test]
fn partial_destination_resumes_with_exact_remainder() {
    // Destination of K bytes against a larger source: append from K and
    // write exactly total - K further bytes.
    let (plan, to_write) = resume_decision(1000, 4096);
    assert_eq!(plan, ResumePlan::Append { offset: 1000 });
    assert_eq!(to_write, 3096);
    assert_eq!(1000 + to_write, 4096);
}

#[test]
fn missing_destination_copies_from_start() {
    let (plan, to_write) = resume_decision(0, 4096);
    assert_eq!(plan, ResumePlan::Create);
    assert_eq!(to_write, 4096);
}

#[test]
fn oversized_destination_counts_as_complete() {
    let (plan, to_write) = resume_decision(9999, 4096);
    assert_eq!(plan, ResumePlan::AlreadyComplete);
    assert_eq!(to_write, 0);
}

#[test]
fn progress_values() {
    assert_eq!(progress_milli(0, 1000), 0);
    assert_eq!(progress_milli(250, 1000), 250);
    assert_eq!(progress_milli(1, 3), 333);
    assert_eq!(progress_milli(0, 0), 1000);
    assert_eq!(progress_milli(2000, 1000), 1000);
}

#[test]
fn chunked_copy_reaches_total_and_progress_never_drops() {
    let mut st = TransferState::begin(1000, 4096);
    let mut last = st.progress();
    let mut remaining = 4096 - st.transferred;
    while remaining > 0 {
        let n = if remaining > 512 { 512 } else { remaining };
        st.record_chunk(n);
        let p = st.progress();
        assert!(p >= last);
        last = p;
        remaining = 4096 - st.transferred;
    }
    assert!(st.is_done());
    assert_eq!(st.transferred, 4096);
    assert_eq!(st.progress(), 1000);
}

#[test]
fn concurrency_bound_is_never_exceeded() {
    // Five queued items under the default bound: drive starts and
    // finishes in an arbitrary order, checking the bound at every
    // instant.
    let n = 5;
    let mut sched = Scheduler::new_batch(n, MAX_CONCURRENT);
    let active = |s: &Scheduler| {
        s.states
            .iter()
            .filter(|st| **st == ItemState::Transferring)
            .count()
    };
    let mut next = 0;
    let mut running: Vec<usize> = Vec::new();
    let mut finished = 0;
    while finished < n {
        while next < n && sched.can_start() {
            sched.start_item(next);
            running.push(next);
            next += 1;
            assert!(active(&sched) <= MAX_CONCURRENT);
        }
        assert!(active(&sched) <= MAX_CONCURRENT);
        let item = running.remove(0);
        sched.finish_item(item, true);
        finished += 1;
        assert!(active(&sched) <= MAX_CONCURRENT);
    }
    assert_eq!(active(&sched), 0);
}

#[test]
fn one_failure_leaves_other_items_untouched() {
    let mut sched = Scheduler::new_batch(4, MAX_CONCURRENT);
    sched.start_item(0);
    sched.finish_item(0, true);
    sched.start_item(1);
    sched.start_item(2);
    sched.finish_item(2, true);
    // Item 1 fails mid-batch.
    sched.finish_item(1, false);
    assert_eq!(sched.states[0], ItemState::Completed);
    assert_eq!(sched.states[1], ItemState::Failed);
    assert_eq!(sched.states[2], ItemState::Completed);
    assert_eq!(sched.states[3], ItemState::Queued);
    // The remaining item still runs to completion.
    sched.start_item(3);
    sched.finish_item(3, true);
    assert_eq!(sched.states[3], ItemState::Completed);
    assert_eq!(sched.states[1], ItemState::Failed);
}

#[test]
fn remote_paths_are_normalised_and_joined() {
    assert_eq!(remote_join("/srv/media/", "Show/Season 01/a.mkv"), "/srv/media/Show/Season 01/a.mkv");
    assert_eq!(remote_join("/srv/media", "Show/a.mkv"), "/srv/media/Show/a.mkv");
    assert_eq!(remote_join("C:\\media\\", "Show\\a.mkv"), "C:/media/Show/a.mkv");
}

#[test]
fn directory_prefixes_cover_every_ancestor() {
    assert_eq!(
        dir_prefixes("/srv/media/Show"),
        vec!["/srv".to_string(), "/srv/media".to_string(), "/srv/media/Show".to_string()]
    );
    assert_eq!(
        dir_prefixes("a/b"),
        vec!["a".to_string(), "a/b".to_string()]
    );
    assert_eq!(dir_prefixes("//x//y/"), vec!["/x".to_string(), "/x/y".to_string()]);
    assert_eq!(dir_prefixes(""), Vec::<String>::new());
}
