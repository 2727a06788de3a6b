//! Installation-source orchestration: exactly one source per install
//! invocation, chosen by a strict precedence over the flags given, and
//! the idempotence rule — an already-installed toolchain with no
//! explicit source is left alone, unless the update path asked.

use vstd::prelude::*;

verus! {

/// One installation source.
#[derive(Debug, Clone)]
pub enum InstallSource {
    /// Explicit local installer packages.
    Installers { files: Vec<String> },
    /// Duplicate a local directory's contents into the prefix.
    CopyLocal { path: String },
    /// Create the prefix as a reference to a local directory.
    LinkLocal { path: String },
    /// Fetch from the remote distribution channel named like the toolchain.
    Channel,
}

/// Select the source for one invocation, in strict precedence order:
/// installer files win over a copy directory, a copy over a link, and
/// only with none of the three given does the remote channel apply.
/// The flags that lost are ignored outright.
pub fn select_source(
    installers: Option<Vec<String>>,
    copy_local: Option<String>,
    link_local: Option<String>,
) -> (s: InstallSource)
    ensures
        match s {
            InstallSource::Installers { files } => installers == Some(files),
            InstallSource::CopyLocal { path } => installers is None && copy_local == Some(path),
            InstallSource::LinkLocal { path } => {
                &&& installers is None
                &&& copy_local is None
                &&& link_local == Some(path)
            },
            InstallSource::Channel => {
                &&& installers is None
                &&& copy_local is None
                &&& link_local is None
            },
        },
{
    match installers {
        Some(files) => InstallSource::Installers { files },
        None => match copy_local {
            Some(path) => InstallSource::CopyLocal { path },
            None => match link_local {
                Some(path) => InstallSource::LinkLocal { path },
                None => InstallSource::Channel,
            },
        },
    }
}

/// What one install invocation decides to do.
#[derive(Debug, Clone, Copy, PartialEq, Eq, Structural)]
pub enum InstallAction {
    /// Already installed, nothing asked for explicitly: report
    /// "already installed" and touch nothing.
    AlreadyInstalled,
    /// Perform the installation from the selected source.
    Install,
}

/// The idempotence rule. An explicit source always installs; the
/// channel source is a no-op on an installed toolchain — unless the
/// caller is the update path, which always re-attempts.
pub open spec fn spec_plan_install(
    installed: bool,
    s: InstallSource,
    from_update: bool,
) -> InstallAction {
    if s is Channel && installed && !from_update {
        InstallAction::AlreadyInstalled
    } else {
        InstallAction::Install
    }
}

pub fn plan_install(installed: bool, s: &InstallSource, from_update: bool) -> (a: InstallAction)
    ensures
        a == spec_plan_install(installed, *s, from_update),
{
    match s {
        InstallSource::Channel => {
            if installed && !from_update {
                InstallAction::AlreadyInstalled
            } else {
                InstallAction::Install
            }
        },
        _ => InstallAction::Install,
    }
}

/// The idempotence law: with no source flags, installing an installed
/// toolchain is a no-op, and the very same request through the update
/// path re-attempts; a never-installed toolchain always installs.
pub proof fn lemma_install_idempotent(installed: bool, from_update: bool)
    ensures
        spec_plan_install(true, InstallSource::Channel, false) is AlreadyInstalled,
        spec_plan_install(installed, InstallSource::Channel, true) is Install,
        spec_plan_install(false, InstallSource::Channel, from_update) is Install,
{
}

} // verus!
