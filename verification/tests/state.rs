use jobrail::job::JobState;

#[test]
fn waiting_can_become_active() {
    assert!(JobState::Waiting.can_transition_to(JobState::Active));
}

#[test]
fn active_can_become_completed() {
    assert!(JobState::Active.can_transition_to(JobState::Completed));
}

#[test]
fn active_can_become_failed() {
    assert!(JobState::Active.can_transition_to(JobState::Failed));
}

#[test]
fn active_can_become_delayed() {
    assert!(JobState::Active.can_transition_to(JobState::Delayed));
}

#[test]
fn delayed_can_become_waiting() {
    assert!(JobState::Delayed.can_transition_to(JobState::Waiting));
}

#[test]
fn completed_cannot_become_active() {
    assert!(!JobState::Completed.can_transition_to(JobState::Active));
}

#[test]
fn failed_cannot_become_completed() {
    assert!(!JobState::Failed.can_transition_to(JobState::Completed));
}

#[test]
fn active_can_return_to_waiting_after_recovery() {
    assert!(JobState::Active.can_transition_to(JobState::Waiting));
}

#[test]
fn terminal_states_have_no_way_out() {
    let all = [
        JobState::Waiting,
        JobState::Prioritized,
        JobState::Scheduled,
        JobState::Delayed,
        JobState::Active,
        JobState::Completed,
        JobState::Failed,
        JobState::Cancelled,
    ];
    for from in [JobState::Completed, JobState::Failed, JobState::Cancelled] {
        for to in all {
            assert!(!from.can_transition_to(to));
        }
    }
    for state in all {
        assert!(!state.can_transition_to(state));
    }
}
