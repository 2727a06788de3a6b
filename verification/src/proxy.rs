//! Proxy-execution planning: from a resolved toolchain, a binary name
//! and the caller's current library search path, build exactly what the
//! child process needs — the binary's path inside the toolchain prefix
//! and the search path with the toolchain's library directory prepended
//! (never replacing what was there). Spawning itself, stdio and waiting
//! stay outside this crate; the plan is refused here when the toolchain
//! or the binary is missing, so nothing is ever spawned blindly.

use vstd::prelude::*;

use crate::errors::Error;

verus! {

/// The installation prefix of a toolchain under the manager's home
/// directory: one subdirectory per toolchain name.
pub open spec fn spec_toolchain_prefix(home: Seq<char>, name: Seq<char>) -> Seq<char> {
    home + "/toolchains/"@ + name
}

pub fn toolchain_prefix(home: &str, name: &str) -> (r: String)
    ensures
        r@ == spec_toolchain_prefix(home@, name@),
{
    String::from_str(home).concat("/toolchains/").concat(name)
}

/// Prefixes never collide: under one home directory, two distinct
/// toolchain names get distinct installation prefixes.
pub proof fn lemma_prefix_unique_per_name(home: Seq<char>, n1: Seq<char>, n2: Seq<char>)
    ensures
        spec_toolchain_prefix(home, n1) == spec_toolchain_prefix(home, n2) ==> n1 == n2,
{
    if spec_toolchain_prefix(home, n1) == spec_toolchain_prefix(home, n2) {
        let base = home + "/toolchains/"@;
        assert(base + n1 == base + n2);
        assert(n1.len() == n2.len());
        assert forall|i: int| 0 <= i < n1.len() implies n1[i] == n2[i] by {
            assert((base + n1)[base.len() + i] == n1[i]);
            assert((base + n2)[base.len() + i] == n2[i]);
        }
        assert(n1 =~= n2);
    }
}

/// The path of a binary inside a toolchain's prefix.
pub open spec fn spec_binary_path(prefix: Seq<char>, binary: Seq<char>) -> Seq<char> {
    prefix + "/bin/"@ + binary
}

pub fn binary_path(prefix: &str, binary: &str) -> (r: String)
    ensures
        r@ == spec_binary_path(prefix@, binary@),
{
    String::from_str(prefix).concat("/bin/").concat(binary)
}

/// The library search path handed to the child: the toolchain's
/// library directory first, then whatever the caller already had.
pub open spec fn spec_child_lib_path(prefix: Seq<char>, existing: Option<Seq<char>>) -> Seq<
    char,
> {
    match existing {
        Some(e) => prefix + "/lib"@ + ":"@ + e,
        None => prefix + "/lib"@,
    }
}

pub fn child_lib_path(prefix: &str, existing: &Option<String>) -> (r: String)
    ensures
        match existing {
            Some(e) => r@ == spec_child_lib_path(prefix@, Some(e@)),
            None => r@ == spec_child_lib_path(prefix@, None),
        },
{
    let base = String::from_str(prefix).concat("/lib");
    match existing {
        Some(e) => base.concat(":").concat(e.as_str()),
        None => base,
    }
}

/// Everything the spawning code needs for one proxied child.
#[derive(Debug, Clone)]
pub struct SpawnPlan {
    /// The full path of the binary to run.
    pub binary_path: String,
    /// The value the child's library search path variable is set to.
    pub lib_search_path: String,
}

/// Build the spawn plan for a proxied invocation, or refuse it: a
/// toolchain with no installed prefix and a binary missing inside an
/// installed prefix are reported errors, never attempted spawns.
pub fn plan_proxy(
    toolchain: &str,
    installed: bool,
    prefix: &str,
    binary: &str,
    binary_present: bool,
    existing_lib_path: &Option<String>,
) -> (r: Result<SpawnPlan, Error>)
    ensures
        !installed ==> (r matches Err(e) && e matches Error::ToolchainNotInstalled { name }
            && name@ == toolchain@),
        installed && !binary_present ==> (r matches Err(e) && e matches Error::BinaryNotFound {
            name,
        } && name@ == binary@),
        installed && binary_present ==> (r matches Ok(plan) && plan.binary_path@
            == spec_binary_path(prefix@, binary@) && plan.lib_search_path@
            == spec_child_lib_path(
            prefix@,
            match existing_lib_path {
                Some(e) => Some(e@),
                None => None,
            },
        )),
{
    if !installed {
        return Err(Error::ToolchainNotInstalled { name: String::from_str(toolchain) });
    }
    if !binary_present {
        return Err(Error::BinaryNotFound { name: String::from_str(binary) });
    }
    Ok(
        SpawnPlan {
            binary_path: binary_path(prefix, binary),
            lib_search_path: child_lib_path(prefix, existing_lib_path),
        },
    )
}

/// The exit code the parent terminates with: the child's own code,
/// or 1 when the child could not report one.
pub fn forward_exit_code(child_code: Option<i32>) -> (r: i32)
    ensures
        match child_code {
            Some(c) => r == c,
            None => r == 1,
        },
{
    match child_code {
        Some(c) => c,
        None => 1,
    }
}

} // verus!
