use tensor_vm::validator_role::{
    validator_role_step, ValidatorRoleAction, ValidatorRoleEvent, ValidatorRolePhase, ValidatorRoleState,
};

fn run(events: &[ValidatorRoleEvent]) -> Vec<ValidatorRoleAction> {
    let mut state = ValidatorRoleState::start();
    let mut actions = Vec::new();
    for e in events {
        let (next, action) = validator_role_step(&state, *e);
        state = next;
        actions.push(action);
    }
    actions
}

#[test]
fn unregistered_roles_do_nothing() {
    assert_eq!(
        run(&[ValidatorRoleEvent::Started { wallet: Some([1; 32]), registered_validator: false }]),
        vec![ValidatorRoleAction::Finish]
    );
    assert_eq!(
        run(&[ValidatorRoleEvent::Started { wallet: None, registered_validator: true }]),
        vec![ValidatorRoleAction::Finish]
    );
}

#[test]
fn missing_artifacts_are_fetched_before_attesting() {
    let actions = run(&[
        ValidatorRoleEvent::Started { wallet: Some([1; 32]), registered_validator: true },
        ValidatorRoleEvent::Observed { ready: None, missing: Some([7; 32]), changed: false },
        ValidatorRoleEvent::Fetched { activity: true, ready_after: Some([7; 32]) },
        ValidatorRoleEvent::Attested { submitted: true },
        ValidatorRoleEvent::Voted { submitted: false },
        ValidatorRoleEvent::StatusWritten,
    ]);
    assert_eq!(
        actions,
        vec![
            ValidatorRoleAction::ObserveWork,
            ValidatorRoleAction::FetchMissingTensors([7; 32]),
            ValidatorRoleAction::SubmitAttestation([7; 32]),
            ValidatorRoleAction::SubmitBlockVote,
            ValidatorRoleAction::WriteStatus,
            ValidatorRoleAction::Finish,
        ]
    );
}

#[test]
fn quiet_ticks_skip_the_status_file() {
    let mut state = ValidatorRoleState::start();
    for e in [
        ValidatorRoleEvent::Started { wallet: Some([1; 32]), registered_validator: true },
        ValidatorRoleEvent::Observed { ready: None, missing: None, changed: false },
        ValidatorRoleEvent::Voted { submitted: false },
    ] {
        state = validator_role_step(&state, e).0;
    }
    assert_eq!(state.phase, ValidatorRolePhase::Done);
    assert!(!state.status_changed);
}
