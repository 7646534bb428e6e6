use ec2_connect::dispatch::{
    copy_reason, decide, is_eligible, Action, Dispatcher, OperationResult, Outcome,
    ProviderCall, SkipReason, Step, Transition,
};
use ec2_connect::instance::{InstanceRecord, InstanceState};
use ec2_connect::resolve::{copy_error, ResolutionError};

fn record(id: &str, name: &str, state: InstanceState) -> InstanceRecord {
    InstanceRecord {
        id: id.to_string(),
        name: name.to_string(),
        public_ip: None,
        state,
        group: None,
    }
}

fn names(list: &[&str]) -> Vec<String> {
    list.iter().map(|s| s.to_string()).collect()
}

fn result(id: &str, name: &str, transition: Transition, outcome: Outcome) -> OperationResult {
    OperationResult {
        instance_id: id.to_string(),
        instance_name: name.to_string(),
        requested_transition: transition,
        outcome,
    }
}

/// Runs a dispatch to its end, answering the calls with `replies` in turn,
/// and returns the calls that were made and the results.
fn run(
    transition: Transition,
    targets: &Vec<String>,
    directory: &Vec<InstanceRecord>,
    replies: Vec<Result<(), String>>,
) -> (Vec<ProviderCall>, Vec<OperationResult>) {
    let mut dispatcher = Dispatcher::begin(transition, targets, directory);
    let mut calls = Vec::new();
    let mut replies = replies.into_iter();
    loop {
        match dispatcher.poll() {
            Action::Done => break,
            Action::Call(call) => {
                assert!(dispatcher.awaits_reply());
                calls.push(call);
                dispatcher.record(replies.next().expect("a reply for every call"));
            }
        }
    }
    assert!(dispatcher.finished());
    (calls, dispatcher.into_results())
}

#[test]
fn stop_group_with_absent_member_skips_it_and_stops_the_other() {
    let directory = vec![record("i-1", "web-a", InstanceState::Running)];
    let (calls, results) = run(
        Transition::Stop,
        &names(&["web-a", "web-b"]),
        &directory,
        vec![Ok(())],
    );
    assert_eq!(
        calls,
        vec![ProviderCall {
            transition: Transition::Stop,
            instance_id: "i-1".to_string()
        }]
    );
    assert_eq!(
        results,
        vec![
            result("i-1", "web-a", Transition::Stop, Outcome::Succeeded),
            result(
                "",
                "web-b",
                Transition::Stop,
                Outcome::Skipped(SkipReason::Unresolved(ResolutionError::NotFound(
                    "web-b".to_string()
                )))
            ),
        ]
    );
}

#[test]
fn apply_goes_on_after_a_target_that_does_not_resolve() {
    let directory = vec![
        record("i-1", "a", InstanceState::Stopped),
        record("i-2", "dup", InstanceState::Stopped),
        record("i-3", "dup", InstanceState::Stopped),
        record("i-4", "c", InstanceState::Stopped),
    ];
    let (calls, results) = run(
        Transition::Start,
        &names(&["a", "missing", "dup", "c"]),
        &directory,
        vec![Ok(()), Ok(())],
    );
    assert_eq!(calls.len(), 2);
    assert_eq!(calls[0].instance_id, "i-1");
    assert_eq!(calls[1].instance_id, "i-4");
    assert_eq!(
        results,
        vec![
            result("i-1", "a", Transition::Start, Outcome::Succeeded),
            result(
                "",
                "missing",
                Transition::Start,
                Outcome::Skipped(SkipReason::Unresolved(ResolutionError::NotFound(
                    "missing".to_string()
                )))
            ),
            result(
                "",
                "dup",
                Transition::Start,
                Outcome::Skipped(SkipReason::Unresolved(ResolutionError::AmbiguousName(
                    "dup".to_string(),
                    vec!["i-2".to_string(), "i-3".to_string()]
                )))
            ),
            result("i-4", "c", Transition::Start, Outcome::Succeeded),
        ]
    );
}

#[test]
fn apply_goes_on_after_a_call_that_fails() {
    let directory = vec![
        record("i-1", "a", InstanceState::Running),
        record("i-2", "b", InstanceState::Running),
        record("i-3", "c", InstanceState::Running),
    ];
    let (calls, results) = run(
        Transition::Stop,
        &names(&["a", "b", "c"]),
        &directory,
        vec![Ok(()), Err("denied".to_string()), Ok(())],
    );
    assert_eq!(calls.len(), 3);
    assert_eq!(
        results,
        vec![
            result("i-1", "a", Transition::Stop, Outcome::Succeeded),
            result(
                "i-2",
                "b",
                Transition::Stop,
                Outcome::Failed("denied".to_string())
            ),
            result("i-3", "c", Transition::Stop, Outcome::Succeeded),
        ]
    );
}

#[test]
fn stop_of_stopped_instance_is_skipped_without_a_call() {
    let directory = vec![record("i-1", "web", InstanceState::Stopped)];
    let mut dispatcher = Dispatcher::begin(Transition::Stop, &names(&["web"]), &directory);
    assert!(!dispatcher.awaits_reply());
    assert_eq!(dispatcher.poll(), Action::Done);
    assert!(dispatcher.finished());
    assert_eq!(
        dispatcher.into_results(),
        vec![result(
            "i-1",
            "web",
            Transition::Stop,
            Outcome::Skipped(SkipReason::NotEligible(InstanceState::Stopped))
        )]
    );
}

#[test]
fn start_of_running_instance_is_skipped_without_a_call() {
    let directory = vec![record("i-1", "web", InstanceState::Running)];
    let (calls, results) = run(Transition::Start, &names(&["web"]), &directory, vec![]);
    assert!(calls.is_empty());
    assert_eq!(
        results,
        vec![result(
            "i-1",
            "web",
            Transition::Start,
            Outcome::Skipped(SkipReason::NotEligible(InstanceState::Running))
        )]
    );
}

#[test]
fn eligibility_by_transition_and_state() {
    let all = [
        InstanceState::Pending,
        InstanceState::Running,
        InstanceState::ShuttingDown,
        InstanceState::Terminated,
        InstanceState::Stopping,
        InstanceState::Stopped,
        InstanceState::Unknown,
    ];
    for state in all {
        assert_eq!(
            is_eligible(Transition::Start, state),
            state == InstanceState::Stopped
        );
        assert_eq!(
            is_eligible(Transition::Stop, state),
            state == InstanceState::Running
        );
    }
}

#[test]
fn decide_gives_call_or_skip() {
    let directory = vec![
        record("i-1", "up", InstanceState::Running),
        record("i-2", "down", InstanceState::Stopped),
        record("i-3", "gone", InstanceState::Terminated),
    ];
    assert_eq!(
        decide(Transition::Stop, "up", &directory),
        Step::Call {
            instance_id: "i-1".to_string(),
            instance_name: "up".to_string()
        }
    );
    assert_eq!(
        decide(Transition::Start, "down", &directory),
        Step::Call {
            instance_id: "i-2".to_string(),
            instance_name: "down".to_string()
        }
    );
    assert_eq!(
        decide(Transition::Start, "gone", &directory),
        Step::Skip {
            instance_id: "i-3".to_string(),
            instance_name: "gone".to_string(),
            reason: SkipReason::NotEligible(InstanceState::Terminated)
        }
    );
    assert_eq!(
        decide(Transition::Stop, "nobody", &directory),
        Step::Skip {
            instance_id: "".to_string(),
            instance_name: "nobody".to_string(),
            reason: SkipReason::Unresolved(ResolutionError::NotFound("nobody".to_string()))
        }
    );
}

#[test]
fn dispatch_over_no_targets_is_done_at_once() {
    let directory = vec![record("i-1", "web", InstanceState::Running)];
    let mut dispatcher = Dispatcher::begin(Transition::Stop, &Vec::new(), &directory);
    assert!(dispatcher.finished());
    assert_eq!(dispatcher.poll(), Action::Done);
    assert!(dispatcher.results().is_empty());
    assert!(dispatcher.plan().is_empty());
}

#[test]
fn poll_repeats_the_call_until_its_reply_is_recorded() {
    let directory = vec![
        record("i-0", "idle", InstanceState::Stopped),
        record("i-1", "web", InstanceState::Running),
    ];
    let mut dispatcher =
        Dispatcher::begin(Transition::Stop, &names(&["idle", "web", "idle"]), &directory);
    assert_eq!(dispatcher.plan().len(), 3);
    let call = Action::Call(ProviderCall {
        transition: Transition::Stop,
        instance_id: "i-1".to_string(),
    });
    assert!(!dispatcher.awaits_reply());
    assert_eq!(dispatcher.poll(), call);
    assert_eq!(dispatcher.results().len(), 1);
    assert_eq!(dispatcher.poll(), call);
    assert_eq!(dispatcher.results().len(), 1);
    assert!(dispatcher.awaits_reply());
    assert!(!dispatcher.finished());
    dispatcher.record(Err("throttled".to_string()));
    assert!(!dispatcher.awaits_reply());
    assert_eq!(dispatcher.results().len(), 2);
    assert_eq!(
        dispatcher.results()[1].outcome,
        Outcome::Failed("throttled".to_string())
    );
    assert_eq!(dispatcher.poll(), Action::Done);
    assert_eq!(dispatcher.results().len(), 3);
}

#[test]
fn results_follow_the_order_of_the_targets() {
    let directory = vec![
        record("i-1", "a", InstanceState::Running),
        record("i-2", "b", InstanceState::Running),
    ];
    let (calls, results) = run(
        Transition::Stop,
        &names(&["b", "a", "b"]),
        &directory,
        vec![Ok(()), Ok(()), Ok(())],
    );
    let called: Vec<&str> = calls.iter().map(|c| c.instance_id.as_str()).collect();
    assert_eq!(called, vec!["i-2", "i-1", "i-2"]);
    let reported: Vec<&str> = results.iter().map(|r| r.instance_name.as_str()).collect();
    assert_eq!(reported, vec!["b", "a", "b"]);
}

#[test]
fn copies_of_errors_and_reasons_are_equal() {
    let errors = vec![
        ResolutionError::NotFound("a".to_string()),
        ResolutionError::AmbiguousName("a".to_string(), vec!["i-1".to_string(), "i-2".to_string()]),
        ResolutionError::GroupNotFound("g".to_string()),
        ResolutionError::NoAddress("a".to_string()),
    ];
    for e in &errors {
        assert_eq!(&copy_error(e), e);
        let reason = SkipReason::Unresolved(copy_error(e));
        assert_eq!(copy_reason(&reason), reason);
    }
    let state = SkipReason::NotEligible(InstanceState::Pending);
    assert_eq!(copy_reason(&state), state);
}

#[test]
fn no_reply_is_awaited_before_the_call_is_handed_out() {
    let directory = vec![
        record("i-1", "a", InstanceState::Running),
        record("i-2", "b", InstanceState::Running),
    ];
    let mut dispatcher = Dispatcher::begin(Transition::Stop, &names(&["a", "b"]), &directory);
    assert!(!dispatcher.awaits_reply());
    assert!(!dispatcher.finished());
    match dispatcher.poll() {
        Action::Call(call) => assert_eq!(call.instance_id, "i-1"),
        Action::Done => panic!("a call is due"),
    }
    assert!(dispatcher.awaits_reply());
    dispatcher.record(Ok(()));
    assert!(!dispatcher.awaits_reply());
    assert!(!dispatcher.finished());
    match dispatcher.poll() {
        Action::Call(call) => assert_eq!(call.instance_id, "i-2"),
        Action::Done => panic!("a call is due"),
    }
    dispatcher.record(Ok(()));
    assert!(dispatcher.finished());
    assert!(!dispatcher.awaits_reply());
    assert_eq!(dispatcher.poll(), Action::Done);
}
