use multirust::errors::Error;
use multirust::proxy::{
    binary_path, child_lib_path, forward_exit_code, plan_proxy, toolchain_prefix,
};

#[test]
fn prefix_and_binary_paths_are_exact() {
    let prefix = toolchain_prefix("/home/u/.multirust", "stable");
    assert_eq!(prefix, "/home/u/.multirust/toolchains/stable");
    let bin = binary_path(prefix.as_str(), "rustc");
    assert_eq!(bin, "/home/u/.multirust/toolchains/stable/bin/rustc");
}

#[test]
fn library_path_is_prepended_never_replaced() {
    let with_prior = child_lib_path("/p", &Some("/usr/lib:/lib".to_string()));
    assert_eq!(with_prior, "/p/lib:/usr/lib:/lib");
    let without = child_lib_path("/p", &None);
    assert_eq!(without, "/p/lib");
}

#[test]
fn proxying_an_uninstalled_toolchain_is_refused() {
    let r = plan_proxy("nightly", false, "/p", "rustc", true, &None);
    match r {
        Err(Error::ToolchainNotInstalled { name }) => assert_eq!(name, "nightly"),
        _ => panic!("expected ToolchainNotInstalled"),
    }
}

#[test]
fn proxying_a_missing_binary_is_refused_before_any_spawn() {
    let r = plan_proxy("stable", true, "/p", "rust-gdb", false, &None);
    match r {
        Err(Error::BinaryNotFound { name }) => assert_eq!(name, "rust-gdb"),
        _ => panic!("expected BinaryNotFound"),
    }
}

#[test]
fn a_full_plan_carries_both_paths() {
    let plan = plan_proxy(
        "stable",
        true,
        "/h/toolchains/stable",
        "cargo",
        true,
        &Some("/usr/lib".to_string()),
    )
    .expect("plan");
    assert_eq!(plan.binary_path, "/h/toolchains/stable/bin/cargo");
    assert_eq!(plan.lib_search_path, "/h/toolchains/stable/lib:/usr/lib");
}

#[test]
fn exit_codes_are_forwarded_with_one_as_fallback() {
    assert_eq!(forward_exit_code(Some(0)), 0);
    assert_eq!(forward_exit_code(Some(101)), 101);
    assert_eq!(forward_exit_code(None), 1);
}

#[test]
fn error_messages_name_what_failed() {
    let e = Error::UnknownBinary { name: "gcc".to_string() };
    assert_eq!(e.message(), "don't know how to proxy that binary: gcc");
    let e = Error::NoDefaultToolchain;
    assert_eq!(e.message(), "no default toolchain configured");
    let e = Error::ToolchainNotInstalled { name: "beta".to_string() };
    assert_eq!(e.message(), "toolchain is not installed: beta");
    let e = Error::BinaryNotFound { name: "rustc".to_string() };
    assert_eq!(e.message(), "binary not found: rustc");
    let e = Error::MetadataVersionMismatch;
    assert_eq!(
        e.message(),
        "metadata version is out of date; run the metadata upgrade command"
    );
    let e = Error::InstallSourceFailure { name: "stable".to_string() };
    assert_eq!(e.message(), "failed to install from source: stable");
    let e = Error::WorkingDirectoryUnavailable;
    assert_eq!(e.message(), "could not determine the working directory");
    let e = Error::ProxySpawnFailure { name: "rustc".to_string() };
    assert_eq!(e.message(), "failed to start: rustc");
}
