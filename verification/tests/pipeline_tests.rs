use appforge::errors::{AppError, IconError};
use appforge::icon::Platform;
use appforge::pipeline::{
    holds_name, relocates, requested_platforms, step, PipelineAction, PipelineEvent,
    PipelineState,
};

fn names(list: &[&str]) -> Vec<String> {
    list.iter().map(|s| s.to_string()).collect()
}

#[test]
fn desktop_stands_for_both_containers() {
    assert_eq!(requested_platforms(&names(&["desktop"])), vec![Platform::MacOs, Platform::Windows]);
}

#[test]
fn platforms_are_requested_once_each_in_fixed_order() {
    assert_eq!(
        requested_platforms(&names(&["android", "ios", "desktop", "ios"])),
        vec![Platform::MacOs, Platform::Windows, Platform::Ios, Platform::Android]
    );
    assert_eq!(requested_platforms(&names(&["android"])), vec![Platform::Android]);
    assert_eq!(requested_platforms(&names(&["ios"])), vec![Platform::Ios]);
    assert!(requested_platforms(&names(&[])).is_empty());
    assert!(requested_platforms(&names(&["Desktop", "linux", ""])).is_empty());
}

#[test]
fn holds_name_compares_whole_names() {
    assert!(holds_name(&names(&["a", "ios"]), "ios"));
    assert!(!holds_name(&names(&["a", "ios "]), "ios"));
    assert!(!holds_name(&names(&[]), "ios"));
}

#[test]
fn only_mobile_platforms_are_relocated() {
    assert!(relocates(Platform::Ios));
    assert!(relocates(Platform::Android));
    assert!(!relocates(Platform::Windows));
    assert!(!relocates(Platform::MacOs));
}

#[test]
fn a_run_without_failure_visits_every_platform_once() {
    let (mut state, action) = step(PipelineState::Idle, 3, PipelineEvent::Start);
    assert_eq!(state, PipelineState::Decoding);
    assert!(matches!(action, PipelineAction::Decode));
    let mut generated = Vec::new();
    loop {
        let (next, action) = step(state, 3, PipelineEvent::Succeeded);
        state = next;
        match action {
            PipelineAction::Generate(i) => {
                assert_eq!(state, PipelineState::GeneratingPlatform(i));
                generated.push(i);
            }
            PipelineAction::Migrate => assert_eq!(state, PipelineState::Migrating),
            PipelineAction::Finish => break,
            other => panic!("unexpected action {:?}", other),
        }
    }
    assert_eq!(generated, vec![0, 1, 2]);
    assert_eq!(state, PipelineState::Done);
}

#[test]
fn a_run_without_platforms_goes_straight_to_relocation() {
    let (state, action) = step(PipelineState::Decoding, 0, PipelineEvent::Succeeded);
    assert_eq!(state, PipelineState::Migrating);
    assert!(matches!(action, PipelineAction::Migrate));
    let (state, action) = step(state, 0, PipelineEvent::Succeeded);
    assert_eq!(state, PipelineState::Done);
    assert!(matches!(action, PipelineAction::Finish));
}

#[test]
fn the_first_failure_ends_the_run() {
    for state in [
        PipelineState::Idle,
        PipelineState::Decoding,
        PipelineState::GeneratingPlatform(0),
        PipelineState::GeneratingPlatform(1),
        PipelineState::Migrating,
    ] {
        let error = IconError::ContainerEncodeFailure("boom".to_string());
        let (next, action) = step(state, 2, PipelineEvent::Failed(error));
        assert_eq!(next, PipelineState::Failed);
        match action {
            PipelineAction::Abort(IconError::ContainerEncodeFailure(m)) => assert_eq!(m, "boom"),
            other => panic!("unexpected action {:?}", other),
        }
    }
}

#[test]
fn terminal_states_accept_nothing() {
    for state in [PipelineState::Done, PipelineState::Failed] {
        for event in [
            PipelineEvent::Start,
            PipelineEvent::Succeeded,
            PipelineEvent::Failed(IconError::SourceNotFound("x".to_string())),
        ] {
            let (next, action) = step(state, 2, event);
            assert_eq!(next, state);
            assert!(matches!(action, PipelineAction::Nothing));
        }
    }
}

#[test]
fn events_out_of_turn_are_ignored() {
    let (state, action) = step(PipelineState::Idle, 2, PipelineEvent::Succeeded);
    assert_eq!(state, PipelineState::Idle);
    assert!(matches!(action, PipelineAction::Nothing));
    let (state, action) = step(PipelineState::Migrating, 2, PipelineEvent::Start);
    assert_eq!(state, PipelineState::Migrating);
    assert!(matches!(action, PipelineAction::Nothing));
    // an index past the request is treated as the last platform
    let (state, _) = step(PipelineState::GeneratingPlatform(9), 2, PipelineEvent::Succeeded);
    assert_eq!(state, PipelineState::Migrating);
}

#[test]
fn app_error_messages() {
    assert_eq!(AppError::Io("disk".to_string()).message(), "IO error: disk");
    assert_eq!(AppError::Command("adb".to_string()).message(), "Command failed: adb");
    assert_eq!(AppError::Internal("oops".to_string()).message(), "Internal error: oops");
    assert_eq!(AppError::NotFound("file".to_string()).message(), "NotFound: file");
}

#[test]
fn icon_errors_become_internal_errors() {
    let cases = [
        (IconError::SourceNotFound("a.png".to_string()), "Source file does not exist: a.png"),
        (IconError::DecodeFailure("bad".to_string()), "Failed to open image: bad"),
        (
            IconError::DirectoryCreationFailure("denied".to_string()),
            "Failed to create target directory: denied",
        ),
        (IconError::ContainerEncodeFailure("png".to_string()), "Failed to encode icons: png"),
        (IconError::FileWriteFailure("full".to_string()), "Failed to write icons: full"),
        (IconError::MigrationFailure("busy".to_string()), "Failed to move icons: busy"),
    ];
    for (error, expected) in cases {
        match error.into_app_error() {
            AppError::Internal(text) => assert_eq!(text, expected),
            other => panic!("unexpected: {:?}", other),
        }
    }
}
