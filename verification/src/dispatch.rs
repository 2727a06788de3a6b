//! The entry-point dispatcher: from the name a process was invoked
//! under (and, for the manager itself, a leading `run <binary>` pair)
//! decide whether this invocation proxies a compiler-suite binary or
//! runs a management subcommand. The mapping from recognized names to
//! modes is explicit data here, not inferred elsewhere.

use vstd::prelude::*;

use crate::errors::Error;
use crate::strutil::str_eq;

verus! {

/// The names under which the manager itself answers.
pub open spec fn is_manager_name(s: Seq<char>) -> bool {
    s == "multirust"@ || s == "multirust-rs"@
}

/// The compiler-suite binaries that are proxied when invoked directly:
/// the compiler, the doc tool, the build tool and the two debuggers.
pub open spec fn is_proxyable_name(s: Seq<char>) -> bool {
    ||| s == "rustc"@
    ||| s == "rustdoc"@
    ||| s == "cargo"@
    ||| s == "rust-lldb"@
    ||| s == "rust-gdb"@
}

/// A manager invocation that reads `run <binary> ...` with a binary
/// name that is not flag-like.
pub open spec fn is_run_request(args: Seq<Seq<char>>) -> bool {
    args.len() >= 2 && args[0] == "run"@ && args[1].len() > 0 && args[1][0] != '-'
}

/// How one process invocation is to be handled.
#[derive(Debug)]
pub enum Invocation {
    /// Re-exec `binary` through the resolved toolchain, forwarding the
    /// arguments from index `args_from` of the argument list onward.
    Proxy { binary: String, args_from: usize },
    /// Management mode: parse and dispatch a subcommand.
    Manage,
}

/// Classify one invocation. `arg0_stem` is the file stem the process
/// was started under; `args` are the arguments after it. No child is
/// spawned here: an unrecognized name is refused outright.
pub fn classify(arg0_stem: &str, args: &Vec<String>) -> (r: Result<Invocation, Error>)
    ensures
        match r {
            Ok(inv) => match inv {
                Invocation::Proxy { binary, args_from } => {
                    ||| {
                        &&& is_proxyable_name(arg0_stem@)
                        &&& binary@ == arg0_stem@
                        &&& args_from == 0
                    }
                    ||| {
                        &&& is_manager_name(arg0_stem@)
                        &&& is_run_request(args.deep_view())
                        &&& binary@ == args@[1]@
                        &&& args_from == 2
                    }
                },
                Invocation::Manage => {
                    &&& is_manager_name(arg0_stem@)
                    &&& !is_run_request(args.deep_view())
                },
            },
            Err(e) => {
                &&& !is_manager_name(arg0_stem@)
                &&& !is_proxyable_name(arg0_stem@)
                &&& e matches Error::UnknownBinary { name } && name@ == arg0_stem@
            },
        },
        !is_manager_name(arg0_stem@) && !is_proxyable_name(arg0_stem@)
            ==> (r matches Err(e) && e matches Error::UnknownBinary { name } && name@
            == arg0_stem@),
{
    if str_eq(arg0_stem, "multirust") || str_eq(arg0_stem, "multirust-rs") {
        if args.len() >= 2 {
            let a0: &String = &args[0];
            if str_eq(a0.as_str(), "run") {
                let a1: &String = &args[1];
                let flag_like: bool = if a1.as_str().unicode_len() > 0 {
                    a1.as_str().get_char(0) == '-'
                } else {
                    true
                };
                if !flag_like {
                    proof {
                        assert(args.deep_view()[0] == args@[0]@);
                        assert(args.deep_view()[1] == args@[1]@);
                    }
                    return Ok(Invocation::Proxy { binary: a1.clone(), args_from: 2 });
                }
            }
        }
        proof {
            if args.deep_view().len() >= 2 {
                assert(args.deep_view()[0] == args@[0]@);
                assert(args.deep_view()[1] == args@[1]@);
            }
        }
        Ok(Invocation::Manage)
    } else if str_eq(arg0_stem, "rustc") || str_eq(arg0_stem, "rustdoc") || str_eq(
        arg0_stem,
        "cargo",
    ) || str_eq(arg0_stem, "rust-lldb") || str_eq(arg0_stem, "rust-gdb") {
        Ok(Invocation::Proxy { binary: String::from_str(arg0_stem), args_from: 0 })
    } else {
        Err(Error::UnknownBinary { name: String::from_str(arg0_stem) })
    }
}

/// The management subcommands, as an already-validated request.
#[derive(Debug, Clone, Copy, PartialEq, Eq, Structural)]
pub enum ManagementCommand {
    Update,
    Default,
    Override,
    ShowDefault,
    ShowOverride,
    ListOverrides,
    ListToolchains,
    RemoveOverride,
    RemoveToolchain,
    UpgradeData,
    DeleteData,
    Which,
    Doc,
    Ctl,
}

/// The spelled-out mapping from a subcommand word to the command it
/// requests; any other word requests nothing.
pub open spec fn spec_parse_command(s: Seq<char>) -> Option<ManagementCommand> {
    if s == "update"@ {
        Some(ManagementCommand::Update)
    } else if s == "default"@ {
        Some(ManagementCommand::Default)
    } else if s == "override"@ {
        Some(ManagementCommand::Override)
    } else if s == "show-default"@ {
        Some(ManagementCommand::ShowDefault)
    } else if s == "show-override"@ {
        Some(ManagementCommand::ShowOverride)
    } else if s == "list-overrides"@ {
        Some(ManagementCommand::ListOverrides)
    } else if s == "list-toolchains"@ {
        Some(ManagementCommand::ListToolchains)
    } else if s == "remove-override"@ {
        Some(ManagementCommand::RemoveOverride)
    } else if s == "remove-toolchain"@ {
        Some(ManagementCommand::RemoveToolchain)
    } else if s == "upgrade-data"@ {
        Some(ManagementCommand::UpgradeData)
    } else if s == "delete-data"@ {
        Some(ManagementCommand::DeleteData)
    } else if s == "which"@ {
        Some(ManagementCommand::Which)
    } else if s == "doc"@ {
        Some(ManagementCommand::Doc)
    } else if s == "ctl"@ {
        Some(ManagementCommand::Ctl)
    } else {
        None
    }
}

/// Parse one subcommand word.
pub fn parse_command(name: &str) -> (r: Option<ManagementCommand>)
    ensures
        r == spec_parse_command(name@),
{
    if str_eq(name, "update") {
        Some(ManagementCommand::Update)
    } else if str_eq(name, "default") {
        Some(ManagementCommand::Default)
    } else if str_eq(name, "override") {
        Some(ManagementCommand::Override)
    } else if str_eq(name, "show-default") {
        Some(ManagementCommand::ShowDefault)
    } else if str_eq(name, "show-override") {
        Some(ManagementCommand::ShowOverride)
    } else if str_eq(name, "list-overrides") {
        Some(ManagementCommand::ListOverrides)
    } else if str_eq(name, "list-toolchains") {
        Some(ManagementCommand::ListToolchains)
    } else if str_eq(name, "remove-override") {
        Some(ManagementCommand::RemoveOverride)
    } else if str_eq(name, "remove-toolchain") {
        Some(ManagementCommand::RemoveToolchain)
    } else if str_eq(name, "upgrade-data") {
        Some(ManagementCommand::UpgradeData)
    } else if str_eq(name, "delete-data") {
        Some(ManagementCommand::DeleteData)
    } else if str_eq(name, "which") {
        Some(ManagementCommand::Which)
    } else if str_eq(name, "doc") {
        Some(ManagementCommand::Doc)
    } else if str_eq(name, "ctl") {
        Some(ManagementCommand::Ctl)
    } else {
        None
    }
}

/// The control queries: direct answers about the store's layout.
#[derive(Debug, Clone, Copy, PartialEq, Eq, Structural)]
pub enum CtlRequest {
    Home,
    OverrideToolchain,
    DefaultToolchain,
    ToolchainSysroot,
}

/// The spelled-out mapping from a control word to its query.
pub open spec fn spec_parse_ctl(s: Seq<char>) -> Option<CtlRequest> {
    if s == "home"@ {
        Some(CtlRequest::Home)
    } else if s == "override-toolchain"@ {
        Some(CtlRequest::OverrideToolchain)
    } else if s == "default-toolchain"@ {
        Some(CtlRequest::DefaultToolchain)
    } else if s == "toolchain-sysroot"@ {
        Some(CtlRequest::ToolchainSysroot)
    } else {
        None
    }
}

/// Parse one control word.
pub fn parse_ctl(word: &str) -> (r: Option<CtlRequest>)
    ensures
        r == spec_parse_ctl(word@),
{
    if str_eq(word, "home") {
        Some(CtlRequest::Home)
    } else if str_eq(word, "override-toolchain") {
        Some(CtlRequest::OverrideToolchain)
    } else if str_eq(word, "default-toolchain") {
        Some(CtlRequest::DefaultToolchain)
    } else if str_eq(word, "toolchain-sysroot") {
        Some(CtlRequest::ToolchainSysroot)
    } else {
        None
    }
}

/// The documentation page a `doc` request opens, relative to the
/// toolchain's documentation root.
pub fn doc_url(all: bool) -> (r: &'static str)
    ensures
        all ==> r@ == "index.html"@,
        !all ==> r@ == "std/index.html"@,
{
    if all {
        "index.html"
    } else {
        "std/index.html"
    }
}

} // verus!
