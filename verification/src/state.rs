//! The Configuration Root: the registry of installed toolchains, the
//! Override Database, the default-toolchain pointer and the metadata
//! version, with the high-level operations over them. Every mutation
//! here is a pure state transition; the caller mirrors it to disk with
//! a write-new-then-rename discipline, so a reader never sees a torn
//! state and a failed step leaves the prior state standing.

use vstd::prelude::*;

use crate::errors::Error;
use crate::install::{plan_install, spec_plan_install, InstallAction, InstallSource};
use crate::metadata::METADATA_VERSION;
use crate::names::{has_name, sorted_names, NameSet};
use crate::overrides::{sorted_by_path, OverrideDb, OverrideEntry};
use crate::strutil::str_eq;

verus! {

/// What one install invocation reported.
#[derive(Debug, Clone, Copy, PartialEq, Eq, Structural)]
pub enum InstallOutcome {
    /// Nothing was done: the toolchain was already installed.
    AlreadyInstalled,
    /// The toolchain is installed now.
    Installed,
}

/// One channel's report from an update-all run.
#[derive(Debug, Clone)]
pub struct ChannelOutcome {
    pub channel: String,
    pub ok: bool,
}

/// The manager's persisted state, as one value.
#[derive(Debug)]
pub struct ManagerState {
    /// The names of the installed toolchains.
    pub toolchains: NameSet,
    /// The per-directory toolchain pins.
    pub override_db: OverrideDb,
    /// The fallback toolchain; absent is a valid state.
    pub default_toolchain: Option<String>,
    /// The schema version of everything above, as persisted.
    pub metadata_version: u64,
}

impl ManagerState {
    pub open spec fn wf(self) -> bool {
        sorted_names(self.toolchains@) && sorted_by_path(self.override_db@)
    }

    /// A fresh store: nothing installed, nothing pinned, no default,
    /// the schema version this binary writes.
    pub fn new() -> (s: ManagerState)
        ensures
            s.wf(),
            s.toolchains@ == Seq::<String>::empty(),
            s.override_db@ == Seq::<OverrideEntry>::empty(),
            s.default_toolchain is None,
            s.metadata_version == METADATA_VERSION,
    {
        ManagerState {
            toolchains: NameSet::new(),
            override_db: OverrideDb::new(),
            default_toolchain: None,
            metadata_version: METADATA_VERSION,
        }
    }

    /// The default toolchain pointer, untouched.
    pub fn find_default(&self) -> (r: &Option<String>)
        ensures
            *r == self.default_toolchain,
    {
        &self.default_toolchain
    }

    /// Point the default at `name`. Nothing else moves.
    pub fn set_default(&mut self, name: &str)
        requires
            old(self).wf(),
        ensures
            final(self).wf(),
            final(self).default_toolchain matches Some(d) && d@ == name@,
            final(self).toolchains@ == old(self).toolchains@,
            final(self).override_db@ == old(self).override_db@,
            final(self).metadata_version == old(self).metadata_version,
    {
        self.default_toolchain = Some(String::from_str(name));
    }

    /// Record or refresh the install of `name` according to the action
    /// planned for it. A failed fetch changes nothing: the prior state
    /// stands untouched, never a partial install.
    pub fn apply_install(&mut self, name: &str, action: InstallAction, fetch_ok: bool) -> (r:
        Result<InstallOutcome, Error>)
        requires
            old(self).wf(),
        ensures
            final(self).wf(),
            final(self).override_db@ == old(self).override_db@,
            final(self).default_toolchain == old(self).default_toolchain,
            final(self).metadata_version == old(self).metadata_version,
            action is AlreadyInstalled ==> (r matches Ok(o) && o is AlreadyInstalled) && final(self).toolchains@ == old(self).toolchains@,
            action is Install && fetch_ok ==> (r matches Ok(o) && o is Installed) && has_name(
                final(self).toolchains@,
                name@,
            ) && (forall|q: Seq<char>|
                q != name@ ==> #[trigger] has_name(final(self).toolchains@, q) == has_name(
                    old(self).toolchains@,
                    q,
                )),
            action is Install && !fetch_ok ==> (r matches Err(e)
                && e matches Error::InstallSourceFailure { name: n } && n@ == name@) && final(self).toolchains@ == old(self).toolchains@,
    {
        match action {
            InstallAction::AlreadyInstalled => Ok(InstallOutcome::AlreadyInstalled),
            InstallAction::Install => {
                if fetch_ok {
                    self.toolchains.insert(name);
                    Ok(InstallOutcome::Installed)
                } else {
                    Err(Error::InstallSourceFailure { name: String::from_str(name) })
                }
            },
        }
    }

    /// Install `name` from `source`: plan by the idempotence rule, then
    /// apply. `fetch_ok` is how the source's own fetch-and-unpack ended;
    /// the plan and the state transition are decided here.
    pub fn install_toolchain(
        &mut self,
        name: &str,
        source: &InstallSource,
        from_update: bool,
        fetch_ok: bool,
    ) -> (r: Result<InstallOutcome, Error>)
        requires
            old(self).wf(),
        ensures
            final(self).wf(),
            final(self).override_db@ == old(self).override_db@,
            final(self).default_toolchain == old(self).default_toolchain,
            final(self).metadata_version == old(self).metadata_version,
            ({
                let action = spec_plan_install(
                    has_name(old(self).toolchains@, name@),
                    *source,
                    from_update,
                );
                &&& action is AlreadyInstalled ==> (r matches Ok(o) && o is AlreadyInstalled)
                    && final(self).toolchains@ == old(self).toolchains@
                &&& action is Install && fetch_ok ==> (r matches Ok(o) && o is Installed)
                    && has_name(final(self).toolchains@, name@) && (forall|q: Seq<char>|
                    q != name@ ==> #[trigger] has_name(final(self).toolchains@, q) == has_name(
                        old(self).toolchains@,
                        q,
                    ))
                &&& action is Install && !fetch_ok ==> (r matches Err(e)
                    && e matches Error::InstallSourceFailure { name: n } && n@ == name@) && final(self).toolchains@ == old(self).toolchains@
            }),
    {
        let installed = self.toolchains.contains(name);
        let action = plan_install(installed, source, from_update);
        self.apply_install(name, action, fetch_ok)
    }

    /// Remove an installed toolchain; removing one that is not
    /// installed is a reported error, and nothing moves.
    pub fn remove_toolchain(&mut self, name: &str) -> (r: Result<(), Error>)
        requires
            old(self).wf(),
        ensures
            final(self).wf(),
            final(self).override_db@ == old(self).override_db@,
            final(self).default_toolchain == old(self).default_toolchain,
            final(self).metadata_version == old(self).metadata_version,
            has_name(old(self).toolchains@, name@) ==> r is Ok && !has_name(
                final(self).toolchains@,
                name@,
            ) && (forall|q: Seq<char>|
                q != name@ ==> #[trigger] has_name(final(self).toolchains@, q) == has_name(
                    old(self).toolchains@,
                    q,
                )),
            !has_name(old(self).toolchains@, name@) ==> (r matches Err(e)
                && e matches Error::ToolchainNotInstalled { name: n } && n@ == name@) && final(self).toolchains@ == old(self).toolchains@,
    {
        let removed = self.toolchains.remove(name);
        if removed {
            Ok(())
        } else {
            Err(Error::ToolchainNotInstalled { name: String::from_str(name) })
        }
    }

    /// Rewrite the persisted structures to the current schema.
    pub fn upgrade_data(&mut self)
        requires
            old(self).wf(),
        ensures
            final(self).wf(),
            final(self).metadata_version == METADATA_VERSION,
            final(self).toolchains@ == old(self).toolchains@,
            final(self).override_db@ == old(self).override_db@,
            final(self).default_toolchain == old(self).default_toolchain,
    {
        self.metadata_version = METADATA_VERSION;
    }

    /// Wipe everything, or nothing: declined, the whole store is left
    /// exactly as it was; confirmed, every piece of persisted state
    /// goes and the store is as freshly initialized.
    pub fn delete_data(&mut self, confirmed: bool)
        requires
            old(self).wf(),
        ensures
            final(self).wf(),
            !confirmed ==> {
                &&& final(self).toolchains@ == old(self).toolchains@
                &&& final(self).override_db@ == old(self).override_db@
                &&& final(self).default_toolchain == old(self).default_toolchain
                &&& final(self).metadata_version == old(self).metadata_version
            },
            confirmed ==> {
                &&& final(self).toolchains@ == Seq::<String>::empty()
                &&& final(self).override_db@ == Seq::<OverrideEntry>::empty()
                &&& final(self).default_toolchain is None
                &&& final(self).metadata_version == METADATA_VERSION
            },
    {
        if confirmed {
            self.toolchains.clear();
            self.override_db.clear();
            self.default_toolchain = None;
            self.metadata_version = METADATA_VERSION;
        }
    }

    /// Update every release channel in the fixed order stable, beta,
    /// nightly. The attempts are isolated: channel `i`'s fetch ended as
    /// `fetch_ok[i]` says, a failure there leaves that channel's
    /// registration alone, and the remaining channels are attempted all
    /// the same. The report holds one entry per channel, in order, and
    /// the call itself never fails.
    pub fn update_all_channels(&mut self, fetch_ok: &Vec<bool>) -> (r: Vec<ChannelOutcome>)
        requires
            old(self).wf(),
            fetch_ok@.len() == 3,
        ensures
            final(self).wf(),
            final(self).override_db@ == old(self).override_db@,
            final(self).default_toolchain == old(self).default_toolchain,
            final(self).metadata_version == old(self).metadata_version,
            r@.len() == 3,
            r@[0].channel@ == "stable"@ && r@[0].ok == fetch_ok@[0],
            r@[1].channel@ == "beta"@ && r@[1].ok == fetch_ok@[1],
            r@[2].channel@ == "nightly"@ && r@[2].ok == fetch_ok@[2],
            fetch_ok@[0] ==> has_name(final(self).toolchains@, "stable"@),
            fetch_ok@[1] ==> has_name(final(self).toolchains@, "beta"@),
            fetch_ok@[2] ==> has_name(final(self).toolchains@, "nightly"@),
            !fetch_ok@[0] ==> has_name(final(self).toolchains@, "stable"@) == has_name(
                old(self).toolchains@,
                "stable"@,
            ),
            !fetch_ok@[1] ==> has_name(final(self).toolchains@, "beta"@) == has_name(
                old(self).toolchains@,
                "beta"@,
            ),
            !fetch_ok@[2] ==> has_name(final(self).toolchains@, "nightly"@) == has_name(
                old(self).toolchains@,
                "nightly"@,
            ),
            forall|q: Seq<char>|
                q != "stable"@ && q != "beta"@ && q != "nightly"@ ==> #[trigger] has_name(
                    final(self).toolchains@,
                    q,
                ) == has_name(old(self).toolchains@, q),
    {
        let mut results: Vec<ChannelOutcome> = Vec::new();
        let installed0 = self.toolchains.contains("stable");
        let action0 = plan_install(installed0, &InstallSource::Channel, true);
        let r0 = self.apply_install("stable", action0, fetch_ok[0]);
        let ok0 = match r0 {
            Ok(_) => true,
            Err(_) => false,
        };
        results.push(ChannelOutcome { channel: String::from_str("stable"), ok: ok0 });
        let ghost ta = self.toolchains@;
        let installed1 = self.toolchains.contains("beta");
        let action1 = plan_install(installed1, &InstallSource::Channel, true);
        let r1 = self.apply_install("beta", action1, fetch_ok[1]);
        let ok1 = match r1 {
            Ok(_) => true,
            Err(_) => false,
        };
        results.push(ChannelOutcome { channel: String::from_str("beta"), ok: ok1 });
        let ghost tb = self.toolchains@;
        let installed2 = self.toolchains.contains("nightly");
        let action2 = plan_install(installed2, &InstallSource::Channel, true);
        let r2 = self.apply_install("nightly", action2, fetch_ok[2]);
        let ok2 = match r2 {
            Ok(_) => true,
            Err(_) => false,
        };
        results.push(ChannelOutcome { channel: String::from_str("nightly"), ok: ok2 });
        proof {
            let t0 = old(self).toolchains@;
            let tc = self.toolchains@;
            reveal_strlit("stable");
            reveal_strlit("beta");
            reveal_strlit("nightly");
            assert("stable"@.len() == 6 && "beta"@.len() == 4 && "nightly"@.len() == 7);
            assert("stable"@ != "beta"@ && "stable"@ != "nightly"@ && "beta"@ != "nightly"@);
            assert(has_name(tb, "stable"@) == has_name(ta, "stable"@));
            assert(has_name(tc, "stable"@) == has_name(tb, "stable"@));
            assert(has_name(ta, "beta"@) == has_name(t0, "beta"@));
            assert(has_name(tc, "beta"@) == has_name(tb, "beta"@));
            assert(has_name(ta, "nightly"@) == has_name(t0, "nightly"@));
            assert(has_name(tb, "nightly"@) == has_name(ta, "nightly"@));
            assert forall|q: Seq<char>|
                q != "stable"@ && q != "beta"@ && q != "nightly"@ implies #[trigger] has_name(
                tc,
                q,
            ) == has_name(t0, q) by {
                assert(has_name(tc, q) == has_name(tb, q));
                assert(has_name(tb, q) == has_name(ta, q));
                assert(has_name(ta, q) == has_name(t0, q));
            }
        }
        results
    }
}

/// Whether one read line of input confirms a destructive operation:
/// exactly "y" or "Y" is affirmative, anything else declines.
pub fn confirmation_accepted(input: &str) -> (r: bool)
    ensures
        r == (input@ == "y"@ || input@ == "Y"@),
{
    str_eq(input, "y") || str_eq(input, "Y")
}

/// The displayable summary of one toolchain's tool versions, from the
/// version strings its binaries reported: a missing binary is reported
/// in its line rather than failing the summary, and a toolchain with
/// no installed prefix is one line saying so.
pub fn tool_version_lines(
    installed: bool,
    rustc_version: &Option<String>,
    cargo_version: &Option<String>,
) -> (r: Vec<String>)
    ensures
        !installed ==> r@.len() == 1 && r@[0]@ == "(toolchain not installed)"@,
        installed ==> {
            &&& r@.len() == 2
            &&& r@[0]@ == (match rustc_version {
                Some(v) => v@,
                None => "(no rustc command in toolchain?)"@,
            })
            &&& r@[1]@ == (match cargo_version {
                Some(v) => v@,
                None => "(no cargo command in toolchain?)"@,
            })
        },
{
    let mut lines: Vec<String> = Vec::new();
    if !installed {
        lines.push(String::from_str("(toolchain not installed)"));
        return lines;
    }
    match rustc_version {
        Some(v) => lines.push(v.clone()),
        None => lines.push(String::from_str("(no rustc command in toolchain?)")),
    }
    match cargo_version {
        Some(v) => lines.push(v.clone()),
        None => lines.push(String::from_str("(no cargo command in toolchain?)")),
    }
    lines
}

} // verus!
