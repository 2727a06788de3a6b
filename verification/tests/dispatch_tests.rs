use multirust::dispatch::{
    classify, doc_url, parse_command, parse_ctl, CtlRequest, Invocation, ManagementCommand,
};
use multirust::errors::Error;

fn strings(words: &[&str]) -> Vec<String> {
    words.iter().map(|w| w.to_string()).collect()
}

#[test]
fn unknown_invocation_name_is_refused() {
    let args = strings(&[]);
    let r = classify("gcc", &args);
    match r {
        Err(Error::UnknownBinary { name }) => assert_eq!(name, "gcc"),
        _ => panic!("expected UnknownBinary"),
    }
}

#[test]
fn every_recognized_proxy_name_proxies_itself() {
    for name in ["rustc", "rustdoc", "cargo", "rust-lldb", "rust-gdb"] {
        let args = strings(&["--version"]);
        match classify(name, &args) {
            Ok(Invocation::Proxy { binary, args_from }) => {
                assert_eq!(binary, name);
                assert_eq!(args_from, 0);
            },
            _ => panic!("expected proxy mode for {}", name),
        }
    }
}

#[test]
fn manager_run_proxies_named_binary() {
    let args = strings(&["run", "rustc", "--version"]);
    match classify("multirust", &args) {
        Ok(Invocation::Proxy { binary, args_from }) => {
            assert_eq!(binary, "rustc");
            assert_eq!(args_from, 2);
        },
        _ => panic!("expected proxy mode"),
    }
}

#[test]
fn manager_run_with_flag_like_binary_is_management() {
    let args = strings(&["run", "-v"]);
    assert!(matches!(classify("multirust", &args), Ok(Invocation::Manage)));
}

#[test]
fn manager_without_run_is_management() {
    let args = strings(&["update"]);
    assert!(matches!(classify("multirust-rs", &args), Ok(Invocation::Manage)));
    let none = strings(&[]);
    assert!(matches!(classify("multirust", &none), Ok(Invocation::Manage)));
}

#[test]
fn unknown_name_spawns_nothing_and_names_the_culprit() {
    let args = strings(&["run", "rustc"]);
    match classify("rustup", &args) {
        Err(Error::UnknownBinary { name }) => assert_eq!(name, "rustup"),
        _ => panic!("expected UnknownBinary"),
    }
}

#[test]
fn subcommand_words_parse_to_their_commands() {
    assert!(matches!(parse_command("update"), Some(ManagementCommand::Update)));
    assert!(matches!(parse_command("default"), Some(ManagementCommand::Default)));
    assert!(matches!(parse_command("override"), Some(ManagementCommand::Override)));
    assert!(matches!(parse_command("show-default"), Some(ManagementCommand::ShowDefault)));
    assert!(matches!(parse_command("show-override"), Some(ManagementCommand::ShowOverride)));
    assert!(matches!(parse_command("list-overrides"), Some(ManagementCommand::ListOverrides)));
    assert!(matches!(parse_command("list-toolchains"), Some(ManagementCommand::ListToolchains)));
    assert!(matches!(parse_command("remove-override"), Some(ManagementCommand::RemoveOverride)));
    assert!(matches!(parse_command("remove-toolchain"), Some(ManagementCommand::RemoveToolchain)));
    assert!(matches!(parse_command("upgrade-data"), Some(ManagementCommand::UpgradeData)));
    assert!(matches!(parse_command("delete-data"), Some(ManagementCommand::DeleteData)));
    assert!(matches!(parse_command("which"), Some(ManagementCommand::Which)));
    assert!(matches!(parse_command("doc"), Some(ManagementCommand::Doc)));
    assert!(matches!(parse_command("ctl"), Some(ManagementCommand::Ctl)));
    assert!(parse_command("install").is_none());
    assert!(parse_command("").is_none());
}

#[test]
fn doc_url_picks_the_page() {
    assert_eq!(doc_url(true), "index.html");
    assert_eq!(doc_url(false), "std/index.html");
}

#[test]
fn control_words_parse_to_their_queries() {
    assert!(matches!(parse_ctl("home"), Some(CtlRequest::Home)));
    assert!(matches!(parse_ctl("override-toolchain"), Some(CtlRequest::OverrideToolchain)));
    assert!(matches!(parse_ctl("default-toolchain"), Some(CtlRequest::DefaultToolchain)));
    assert!(matches!(parse_ctl("toolchain-sysroot"), Some(CtlRequest::ToolchainSysroot)));
    assert!(parse_ctl("sysroot").is_none());
}
