use multirust::dispatch::ManagementCommand;
use multirust::errors::Error;
use multirust::metadata::{
    check_metadata_version, gate_command, gate_state, GateState, METADATA_VERSION,
};
use multirust::state::ManagerState;

#[test]
fn stale_store_refuses_every_gated_command() {
    let stale = METADATA_VERSION - 1;
    for cmd in [
        ManagementCommand::Update,
        ManagementCommand::Default,
        ManagementCommand::Override,
        ManagementCommand::ShowDefault,
        ManagementCommand::ShowOverride,
        ManagementCommand::ListOverrides,
        ManagementCommand::ListToolchains,
        ManagementCommand::RemoveOverride,
        ManagementCommand::RemoveToolchain,
        ManagementCommand::Which,
        ManagementCommand::Doc,
        ManagementCommand::Ctl,
    ] {
        assert!(matches!(
            gate_command(&cmd, stale),
            Err(Error::MetadataVersionMismatch)
        ));
    }
}

#[test]
fn the_two_bypass_commands_pass_a_stale_store() {
    let stale = METADATA_VERSION - 1;
    assert!(gate_command(&ManagementCommand::UpgradeData, stale).is_ok());
    assert!(gate_command(&ManagementCommand::DeleteData, stale).is_ok());
}

#[test]
fn upgrade_mends_the_store_and_commands_then_pass() {
    let mut state = ManagerState::new();
    state.metadata_version = METADATA_VERSION - 1;
    assert!(matches!(
        gate_command(&ManagementCommand::Update, state.metadata_version),
        Err(Error::MetadataVersionMismatch)
    ));
    state.upgrade_data();
    assert_eq!(state.metadata_version, METADATA_VERSION);
    assert!(gate_command(&ManagementCommand::Update, state.metadata_version).is_ok());
}

#[test]
fn gate_state_reflects_the_marker() {
    assert_eq!(gate_state(METADATA_VERSION), GateState::Current);
    assert_eq!(gate_state(METADATA_VERSION - 1), GateState::Stale);
    assert_eq!(gate_state(METADATA_VERSION + 1), GateState::Stale);
}

#[test]
fn plain_version_check_is_an_exact_match() {
    assert!(check_metadata_version(METADATA_VERSION).is_ok());
    assert!(matches!(
        check_metadata_version(0),
        Err(Error::MetadataVersionMismatch)
    ));
}
