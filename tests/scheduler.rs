use upload_client::{
    failure_line, response_outcome, Action, ClientError, Scheduler, UploadResult, UploadTask,
};

fn paths(names: &[&str]) -> Vec<String> {
    names.iter().map(|n| n.to_string()).collect()
}

/// Drives a batch to its end, completing the oldest upload in flight first,
/// and answers each upload with `endpoint(path)`. Returns the lines the sink
/// logged, the number of requests made and the largest number in flight.
fn drive(
    s: &mut Scheduler,
    endpoint: &dyn Fn(&str) -> UploadResult,
) -> (Vec<String>, usize, usize) {
    let mut running: Vec<UploadTask> = Vec::new();
    let mut lines = Vec::new();
    let mut requests = 0;
    let mut peak = 0;
    loop {
        match s.next_action() {
            Action::Start(i) => {
                running.push(s.task(i));
                requests += 1;
                peak = peak.max(s.in_flight_count());
                assert!(s.in_flight_count() <= s.budget());
            }
            Action::Wait => {
                assert!(!running.is_empty());
                let t = running.remove(0);
                let r = endpoint(&t.path);
                if let Some(l) = failure_line(&t.path, &r) {
                    lines.push(l);
                }
                assert!(s.complete(t.index, r));
            }
            Action::Finished => break,
        }
    }
    assert!(running.is_empty());
    (lines, requests, peak)
}

#[test]
fn three_files_one_rejected() {
    let mut s = Scheduler::new("localhost:8000".to_string(), paths(&["a.jpg", "b.jpg", "c.jpg"]), 1);
    let (lines, requests, peak) = drive(&mut s, &|p| {
        if p == "b.jpg" {
            response_outcome(500, "disk full".to_string())
        } else {
            response_outcome(200, String::new())
        }
    });
    assert_eq!(requests, 3);
    assert_eq!(peak, 1);
    assert_eq!(
        s.results().clone(),
        vec![
            Some(UploadResult::Success),
            Some(UploadResult::Failure(ClientError::UploadRejected(500, "disk full".to_string()))),
            Some(UploadResult::Success),
        ]
    );
    assert_eq!(lines.len(), 1);
    assert!(lines[0].contains("b.jpg"));
    assert_eq!(lines[0], "b.jpg: upload rejected with status 500: disk full");
}

#[test]
fn empty_directory_finishes_at_once() {
    let mut s = Scheduler::new("localhost:8000".to_string(), Vec::new(), 1);
    assert!(s.is_finished());
    assert_eq!(s.next_action(), Action::Finished);
    assert_eq!(s.results().len(), 0);
    assert_eq!(s.in_flight_count(), 0);
}

#[test]
fn missing_directory_is_enumeration_error() {
    let r = Scheduler::from_listing(
        "localhost:8000".to_string(),
        Err("no such file or directory".to_string()),
        1,
    );
    match r {
        Err(e) => assert_eq!(
            e,
            ClientError::EnumerationError("no such file or directory".to_string())
        ),
        Ok(_) => panic!("a failed listing must abort the batch"),
    }
}

#[test]
fn listing_builds_a_batch() {
    let s = Scheduler::from_listing("h".to_string(), Ok(paths(&["x", "y"])), 2).ok().unwrap();
    assert_eq!(s.len(), 2);
    assert_eq!(s.budget(), 2);
    assert_eq!(s.results(), &vec![None, None]);
    let t = s.task(1);
    assert_eq!(t.index, 1);
    assert_eq!(t.path, "y");
    assert_eq!(t.host, "h");
}

#[test]
fn one_result_per_file_even_when_all_fail() {
    let names: Vec<String> = (0..7).map(|i| format!("f{}.jpg", i)).collect();
    let mut s = Scheduler::new("h".to_string(), names, 3);
    let (lines, requests, _) = drive(&mut s, &|_| {
        UploadResult::Failure(ClientError::TransportError("connection refused".to_string()))
    });
    assert_eq!(requests, 7);
    assert_eq!(lines.len(), 7);
    assert_eq!(s.results().len(), 7);
    assert!(s.results().iter().all(|r| r.is_some()));
    assert!(s.is_finished());
}

#[test]
fn budget_bounds_uploads_in_flight() {
    let names: Vec<String> = (0..10).map(|i| format!("{}.jpg", i)).collect();
    let mut s = Scheduler::new("h".to_string(), names, 4);
    let (_, requests, peak) = drive(&mut s, &|_| UploadResult::Success);
    assert_eq!(requests, 10);
    assert_eq!(peak, 4);
}

#[test]
fn admission_waits_for_a_free_slot() {
    let mut s = Scheduler::new("h".to_string(), paths(&["a", "b", "c"]), 2);
    assert_eq!(s.next_action(), Action::Start(0));
    assert_eq!(s.next_action(), Action::Start(1));
    assert_eq!(s.next_action(), Action::Wait);
    assert_eq!(s.in_flight_count(), 2);
    // Completion out of submission order frees a slot at once.
    assert!(s.complete(1, UploadResult::Success));
    assert_eq!(s.next_action(), Action::Start(2));
    assert_eq!(s.next_action(), Action::Wait);
    assert!(s.complete(2, UploadResult::Success));
    assert!(s.complete(0, UploadResult::Success));
    assert_eq!(s.next_action(), Action::Finished);
}

#[test]
fn failing_file_does_not_affect_the_others() {
    let names: Vec<String> = (0..6).map(|i| format!("img{}.jpg", i)).collect();
    let mut s = Scheduler::new("h".to_string(), names, 2);
    let (lines, _, _) = drive(&mut s, &|p| {
        if p == "img3.jpg" {
            UploadResult::Failure(ClientError::FileAccessError("permission denied".to_string()))
        } else {
            UploadResult::Success
        }
    });
    assert_eq!(lines, vec!["img3.jpg: cannot open the file: permission denied".to_string()]);
    for (i, r) in s.results().iter().enumerate() {
        if i == 3 {
            assert!(!r.as_ref().unwrap().is_success());
        } else {
            assert_eq!(r, &Some(UploadResult::Success));
        }
    }
}

#[test]
fn result_for_a_path_not_in_flight_is_ignored() {
    let mut s = Scheduler::new("h".to_string(), paths(&["a", "b"]), 1);
    assert!(!s.complete(0, UploadResult::Success));
    assert_eq!(s.next_action(), Action::Start(0));
    assert!(!s.complete(1, UploadResult::Success));
    assert!(!s.complete(5, UploadResult::Success));
    assert!(s.complete(0, UploadResult::Success));
    assert!(!s.complete(0, UploadResult::Failure(ClientError::TransportError("late".to_string()))));
    assert_eq!(s.results()[0], Some(UploadResult::Success));
    assert_eq!(s.results()[1], None);
}
