use workshop_publisher::manifest::Descriptor;
use workshop_publisher::orchestrate::{
    resolve_identity, plan_start, step, CompletionOutcome, Report, Session, StartPlan, State,
    UploadConfig, Visibility,
};

fn descriptor(remote_file_id: Option<&str>, tags: Option<Vec<&str>>) -> Descriptor {
    Descriptor {
        tags: tags.map(|t| t.into_iter().map(|s| s.to_string()).collect()),
        name: "Example".to_string(),
        remote_file_id: remote_file_id.map(|s| s.to_string()),
    }
}

fn config() -> UploadConfig {
    UploadConfig {
        visible: false,
        thumbnail: None,
        description: "A description".to_string(),
        path: "/mods/example".to_string(),
        changenotes: None,
    }
}

fn session(remote_file_id: Option<&str>, tags: Option<Vec<&str>>) -> Session {
    Session { descriptor: descriptor(remote_file_id, tags), config: config() }
}

#[test]
fn cli_identifier_wins_over_manifest() {
    let remote = Some("7".to_string());
    assert_eq!(resolve_identity(Some(42), &remote), Some(42));
}

#[test]
fn manifest_identifier_used_without_cli_identifier() {
    let remote = Some("7".to_string());
    assert_eq!(resolve_identity(None, &remote), Some(7));
    assert_eq!(resolve_identity(None, &None), None);
}

#[test]
fn known_identity_skips_creation() {
    match plan_start(session(Some("7"), None), None) {
        StartPlan::Submit(req) => assert_eq!(req.item_id, 7),
        StartPlan::Create(_) => panic!("creation planned although the identity was known"),
    }
}

#[test]
fn unknown_identity_plans_creation() {
    match plan_start(session(None, None), None) {
        StartPlan::Create(s) => assert_eq!(s.descriptor.name, "Example"),
        StartPlan::Submit(_) => panic!("submit planned although no identity was known"),
    }
}

#[test]
fn created_item_is_the_submit_target() {
    let plan = plan_start(session(None, None), None);
    let sess = match plan {
        StartPlan::Create(s) => s,
        StartPlan::Submit(_) => panic!("submit planned although no identity was known"),
    };
    let t = step(State::Creating(sess), CompletionOutcome::Success(99));
    let req = t.request.expect("a submit request must follow a successful create");
    assert_eq!(req.item_id, 99);
    assert_eq!(t.state, State::Submitting(99));
    assert_eq!(t.report, Some(Report::ItemCreated(99)));
    assert!(!t.exit_success);
}

#[test]
fn agreement_required_stops_the_run() {
    let t = step(
        State::Creating(session(None, None)),
        CompletionOutcome::AgreementRequired,
    );
    assert!(t.request.is_none());
    assert!(!t.exit_success);
    assert_eq!(t.state, State::Blocked);
    assert_eq!(t.report, Some(Report::MustAgreeCreate));

    let t = step(State::Submitting(5), CompletionOutcome::AgreementRequired);
    assert!(t.request.is_none());
    assert!(!t.exit_success);
    assert_eq!(t.state, State::Blocked);
    assert_eq!(t.report, Some(Report::MustAgreeSubmit));
}

#[test]
fn submit_success_reports_id_and_terminates() {
    let t = step(State::Submitting(123), CompletionOutcome::Success(123));
    assert_eq!(t.report, Some(Report::Uploaded(123)));
    assert!(t.exit_success);
    assert_eq!(t.state, State::Done(123));
    assert!(t.request.is_none());
}

#[test]
fn failures_are_reported_without_terminating() {
    let t = step(
        State::Creating(session(None, None)),
        CompletionOutcome::Failure("no connection".to_string()),
    );
    assert_eq!(t.state, State::Failed);
    assert_eq!(t.report, Some(Report::CreateFailed("no connection".to_string())));
    assert!(!t.exit_success);
    assert!(t.request.is_none());

    let t = step(
        State::Submitting(5),
        CompletionOutcome::Failure("quota".to_string()),
    );
    assert_eq!(t.state, State::Failed);
    assert_eq!(t.report, Some(Report::SubmitFailed("quota".to_string())));
    assert!(!t.exit_success);
    assert!(t.request.is_none());
}

#[test]
fn terminal_states_absorb_outcomes() {
    for state in [State::Blocked, State::Failed, State::Done(1)] {
        let expected = match &state {
            State::Blocked => State::Blocked,
            State::Failed => State::Failed,
            _ => State::Done(1),
        };
        let t = step(state, CompletionOutcome::Success(2));
        assert_eq!(t.state, expected);
        assert!(t.request.is_none());
        assert!(t.report.is_none());
        assert!(!t.exit_success);
    }
}

#[test]
fn absent_tags_and_preview_stay_absent() {
    match plan_start(session(Some("7"), None), None) {
        StartPlan::Submit(req) => {
            assert!(req.tags.is_none());
            assert!(req.preview_path.is_none());
            assert!(req.change_notes.is_none());
        },
        StartPlan::Create(_) => panic!("creation planned although the identity was known"),
    }
}

#[test]
fn present_tags_come_over_exactly_and_in_order() {
    match plan_start(session(Some("7"), Some(vec!["a", "b"])), None) {
        StartPlan::Submit(req) => {
            assert_eq!(req.tags, Some(vec!["a".to_string(), "b".to_string()]));
        },
        StartPlan::Create(_) => panic!("creation planned although the identity was known"),
    }
}

#[test]
fn submit_request_carries_all_settings() {
    let sess = Session {
        descriptor: descriptor(None, Some(vec!["a"])),
        config: UploadConfig {
            visible: true,
            thumbnail: Some("/mods/example/thumb.png".to_string()),
            description: "A description".to_string(),
            path: "/mods/example".to_string(),
            changenotes: Some("first release".to_string()),
        },
    };
    let t = step(State::Creating(sess), CompletionOutcome::Success(8));
    let req = t.request.unwrap();
    assert_eq!(req.item_id, 8);
    assert_eq!(req.title, "Example");
    assert_eq!(req.content_path, "/mods/example");
    assert_eq!(req.description, "A description");
    assert_eq!(req.visibility, Visibility::Public);
    assert_eq!(req.preview_path, Some("/mods/example/thumb.png".to_string()));
    assert_eq!(req.change_notes, Some("first release".to_string()));
}

#[test]
fn invisible_upload_is_private() {
    match plan_start(session(Some("7"), None), None) {
        StartPlan::Submit(req) => assert_eq!(req.visibility, Visibility::Private),
        StartPlan::Create(_) => panic!("creation planned although the identity was known"),
    }
}

#[test]
fn parsed_manifest_drives_the_update_path() {
    let d = Descriptor::parse("name=\"Example\"\nremote_file_id=\"2923869830\"\n").unwrap();
    let sess = Session { descriptor: d, config: config() };
    match plan_start(sess, None) {
        StartPlan::Submit(req) => {
            assert_eq!(req.item_id, 2923869830);
            assert_eq!(req.title, "Example");
        },
        StartPlan::Create(_) => panic!("creation planned although the identity was known"),
    }
}
