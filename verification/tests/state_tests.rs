use multirust::errors::Error;
use multirust::install::{plan_install, select_source, InstallAction, InstallSource};
use multirust::state::{
    confirmation_accepted, tool_version_lines, InstallOutcome, ManagerState,
};

#[test]
fn install_source_precedence_is_strict() {
    let s = select_source(
        Some(vec!["a.pkg".to_string()]),
        Some("/copy".to_string()),
        Some("/link".to_string()),
    );
    assert!(matches!(s, InstallSource::Installers { .. }));
    let s = select_source(None, Some("/copy".to_string()), Some("/link".to_string()));
    assert!(matches!(s, InstallSource::CopyLocal { .. }));
    let s = select_source(None, None, Some("/link".to_string()));
    assert!(matches!(s, InstallSource::LinkLocal { .. }));
    let s = select_source(None, None, None);
    assert!(matches!(s, InstallSource::Channel));
}

#[test]
fn installed_toolchain_with_no_source_flags_is_a_no_op() {
    let mut state = ManagerState::new();
    let r = state.install_toolchain("stable", &InstallSource::Channel, false, true);
    assert!(matches!(r, Ok(InstallOutcome::Installed)));
    let again = state.install_toolchain("stable", &InstallSource::Channel, false, true);
    assert!(matches!(again, Ok(InstallOutcome::AlreadyInstalled)));
    assert_eq!(state.toolchains.len(), 1);
}

#[test]
fn the_update_path_always_reattempts() {
    let mut state = ManagerState::new();
    state
        .install_toolchain("stable", &InstallSource::Channel, false, true)
        .expect("install");
    let r = state.install_toolchain("stable", &InstallSource::Channel, true, true);
    assert!(matches!(r, Ok(InstallOutcome::Installed)));
}

#[test]
fn planning_mirrors_idempotence() {
    let a = plan_install(true, &InstallSource::Channel, false);
    assert!(matches!(a, InstallAction::AlreadyInstalled));
    let a = plan_install(true, &InstallSource::Channel, true);
    assert!(matches!(a, InstallAction::Install));
    let a = plan_install(false, &InstallSource::Channel, false);
    assert!(matches!(a, InstallAction::Install));
    let a = plan_install(
        true,
        &InstallSource::CopyLocal { path: "/copy".to_string() },
        false,
    );
    assert!(matches!(a, InstallAction::Install));
}

#[test]
fn failed_fetch_reports_and_leaves_state_untouched() {
    let mut state = ManagerState::new();
    let r = state.install_toolchain("beta", &InstallSource::Channel, false, false);
    match r {
        Err(Error::InstallSourceFailure { name }) => assert_eq!(name, "beta"),
        _ => panic!("expected InstallSourceFailure"),
    }
    assert_eq!(state.toolchains.len(), 0);
}

#[test]
fn declined_confirmation_leaves_everything_identical() {
    let mut state = ManagerState::new();
    state
        .install_toolchain("stable", &InstallSource::Channel, false, true)
        .expect("install");
    state.override_db.insert("/proj", "stable", "manual");
    state.set_default("stable");
    let confirmed = confirmation_accepted("n");
    assert!(!confirmed);
    state.delete_data(confirmed);
    assert_eq!(state.toolchains.len(), 1);
    assert_eq!(state.override_db.len(), 1);
    assert_eq!(state.override_db.list()[0].path, "/proj");
    assert_eq!(state.find_default().as_deref(), Some("stable"));
}

#[test]
fn empty_input_also_declines() {
    assert!(!confirmation_accepted(""));
    assert!(!confirmation_accepted("yes"));
    assert!(!confirmation_accepted("N"));
}

#[test]
fn affirmed_confirmation_wipes_everything() {
    let mut state = ManagerState::new();
    state
        .install_toolchain("stable", &InstallSource::Channel, false, true)
        .expect("install");
    state.override_db.insert("/proj", "stable", "manual");
    state.set_default("stable");
    assert!(confirmation_accepted("y"));
    assert!(confirmation_accepted("Y"));
    state.delete_data(true);
    assert_eq!(state.toolchains.len(), 0);
    assert_eq!(state.override_db.len(), 0);
    assert!(state.find_default().is_none());
}

#[test]
fn update_all_isolates_a_failing_channel() {
    let mut state = ManagerState::new();
    let outcomes = state.update_all_channels(&vec![true, false, true]);
    assert_eq!(outcomes.len(), 3);
    assert_eq!(outcomes[0].channel, "stable");
    assert!(outcomes[0].ok);
    assert_eq!(outcomes[1].channel, "beta");
    assert!(!outcomes[1].ok);
    assert_eq!(outcomes[2].channel, "nightly");
    assert!(outcomes[2].ok);
    assert!(state.toolchains.contains("stable"));
    assert!(!state.toolchains.contains("beta"));
    assert!(state.toolchains.contains("nightly"));
}

#[test]
fn remove_toolchain_requires_it_installed() {
    let mut state = ManagerState::new();
    match state.remove_toolchain("stable") {
        Err(Error::ToolchainNotInstalled { name }) => assert_eq!(name, "stable"),
        _ => panic!("expected ToolchainNotInstalled"),
    }
    state
        .install_toolchain("stable", &InstallSource::Channel, false, true)
        .expect("install");
    assert!(state.remove_toolchain("stable").is_ok());
    assert!(!state.toolchains.contains("stable"));
}

#[test]
fn toolchain_listing_is_sorted() {
    let mut state = ManagerState::new();
    for name in ["nightly", "beta", "stable"] {
        state
            .install_toolchain(name, &InstallSource::Channel, false, true)
            .expect("install");
    }
    let names: Vec<&str> = state.toolchains.list().iter().map(|s| s.as_str()).collect();
    assert_eq!(names, vec!["beta", "nightly", "stable"]);
}

#[test]
fn version_summary_lines_are_best_effort() {
    let lines = tool_version_lines(false, &None, &None);
    assert_eq!(lines, vec!["(toolchain not installed)".to_string()]);
    let lines = tool_version_lines(
        true,
        &Some("rustc 1.0.0".to_string()),
        &None,
    );
    assert_eq!(lines[0], "rustc 1.0.0");
    assert_eq!(lines[1], "(no cargo command in toolchain?)");
    let lines = tool_version_lines(
        true,
        &None,
        &Some("cargo 0.2.0".to_string()),
    );
    assert_eq!(lines[0], "(no rustc command in toolchain?)");
    assert_eq!(lines[1], "cargo 0.2.0");
}
