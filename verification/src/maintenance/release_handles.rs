//! The `release-handles` subcommand: makes the removal of a directory reliable
//! even when a daemon holds handles inside it. Where files can be removed while
//! they are open there is nothing to do; elsewhere there is no registry of
//! daemons to ask yet. Callers can use the subcommand on every host.

use crate::host::HostOs;
use crate::native_path::{lossy_text, NativePath};
use crate::text::{append_decimal, blank, decimal, is_blank, json_escape, json_escaped};
use vstd::prelude::*;
use vstd::string::*;

verus! {

/// Why the subcommand failed.
#[derive(Clone, Copy, Debug, PartialEq, Eq, Structural)]
pub enum ReleaseHandlesError {
    /// The path holds nothing but blanks.
    EmptyPath,
}

impl ReleaseHandlesError {
    /// Text of this error.
    pub fn message(&self) -> (s: &'static str)
        ensures
            s@ == "--path must be non-empty"@,
    {
        "--path must be non-empty"
    }
}

/// Result of one invocation.
#[derive(Clone, Debug, PartialEq, Eq)]
pub struct ReleaseHandlesOutcome {
    /// The path that is to be freed.
    pub path: NativePath,
    /// In words.
    pub message: String,
    /// Number of manifests that were looked at.
    pub manifests_scanned: u32,
    /// Number of requests to drop handles.
    pub handles_released: u32,
    /// Whether nothing more has to be done.
    pub already_clean: bool,
}

/// The text of a truth value.
pub open spec fn truth(b: bool) -> Seq<char> {
    if b {
        "true"@
    } else {
        "false"@
    }
}

impl ReleaseHandlesOutcome {
    /// The JSON object of this outcome; its keys are stable.
    pub open spec fn json(self) -> Seq<char> {
        "{\"path\":\""@ + json_escaped(lossy_text(self.path@)) + "\",\"manifests_scanned\":"@ + decimal(
            self.manifests_scanned as nat,
        ) + ",\"handles_released\":"@ + decimal(self.handles_released as nat)
            + ",\"already_clean\":"@ + truth(self.already_clean) + ",\"message\":\""@
            + json_escaped(self.message@) + "\"}"@
    }

    /// Renders this outcome as a JSON object.
    pub fn to_json(&self) -> (s: String)
        ensures
            s@ == self.json(),
    {
        let mut s: String = "{\"path\":\"".to_owned();
        let path = json_escape(self.path.shown().as_str());
        s.append(path.as_str());
        s.append("\",\"manifests_scanned\":");
        append_decimal(&mut s, self.manifests_scanned as u128);
        s.append(",\"handles_released\":");
        append_decimal(&mut s, self.handles_released as u128);
        s.append(",\"already_clean\":");
        if self.already_clean {
            s.append("true");
        } else {
            s.append("false");
        }
        s.append(",\"message\":\"");
        let message = json_escape(self.message.as_str());
        s.append(message.as_str());
        s.append("\"}");
        s
    }
}

/// What the subcommand says for a path.
pub open spec fn release_message(os: HostOs, path: Seq<char>) -> Seq<char> {
    if os == HostOs::Windows {
        "Phase 2 manifest registry not yet shipped; no daemons to query for handles under "@ + path
            + ". Proceed with rm -rf and report soldr#710 reproductions if encountered."@
    } else {
        "POSIX delete-on-close semantics make this a no-op; proceed with `rm -rf "@ + path + "`"@
    }
}

/// Runs the subcommand on the host.
pub fn run_release_handles(os: HostOs, path: &NativePath) -> (r: Result<
    ReleaseHandlesOutcome,
    ReleaseHandlesError,
>)
    ensures
        match r {
            Ok(outcome) => {
                &&& !blank(lossy_text(path@))
                &&& outcome.path@ == path@
                &&& outcome.message@ == release_message(os, lossy_text(path@))
                &&& outcome.manifests_scanned == 0
                &&& outcome.handles_released == 0
                &&& outcome.already_clean
            },
            Err(e) => e == ReleaseHandlesError::EmptyPath && blank(lossy_text(path@)),
        },
{
    let shown = path.shown();
    if is_blank(shown.as_str()) {
        return Err(ReleaseHandlesError::EmptyPath);
    }
    let message = if os == HostOs::Windows {
        let mut s: String = "Phase 2 manifest registry not yet shipped; no daemons to query for handles under ".to_owned();
        s.append(shown.as_str());
        s.append(". Proceed with rm -rf and report soldr#710 reproductions if encountered.");
        s
    } else {
        let mut s: String = "POSIX delete-on-close semantics make this a no-op; proceed with `rm -rf ".to_owned();
        s.append(shown.as_str());
        s.append("`");
        s
    };
    Ok(
        ReleaseHandlesOutcome {
            path: path.copied(),
            message,
            manifests_scanned: 0,
            handles_released: 0,
            already_clean: true,
        },
    )
}

/// What the subcommand says names the path, and tells a host on which files can be
/// removed while they are open from one on which there is nobody to ask.
pub proof fn law_messages_name_the_path(os: HostOs, path: Seq<char>)
    ensures
        os == HostOs::Windows ==> release_message(os, path)
            == "Phase 2 manifest registry not yet shipped; no daemons to query for handles under "@
            + (path
            + ". Proceed with rm -rf and report soldr#710 reproductions if encountered."@),
        os != HostOs::Windows ==> release_message(os, path)
            == "POSIX delete-on-close semantics make this a no-op; proceed with `rm -rf "@ + (path
            + "`"@),
{
    assert(os == HostOs::Windows ==> release_message(os, path)
        =~= "Phase 2 manifest registry not yet shipped; no daemons to query for handles under "@ + (
    path + ". Proceed with rm -rf and report soldr#710 reproductions if encountered."@));
    assert(os != HostOs::Windows ==> release_message(os, path)
        =~= "POSIX delete-on-close semantics make this a no-op; proceed with `rm -rf "@ + (path
        + "`"@));
}

/// An outcome is rendered under stable keys: its path, its numbers, whether nothing
/// more has to be done, and the words.
pub proof fn law_outcomes_are_rendered(outcome: ReleaseHandlesOutcome)
    ensures
        truth(true) == "true"@,
        truth(false) == "false"@,
        outcome.json() == "{\"path\":\""@ + json_escaped(lossy_text(outcome.path@))
            + "\",\"manifests_scanned\":"@ + decimal(outcome.manifests_scanned as nat)
            + ",\"handles_released\":"@ + decimal(outcome.handles_released as nat)
            + ",\"already_clean\":"@ + (if outcome.already_clean {
            "true"@
        } else {
            "false"@
        }) + ",\"message\":\""@ + json_escaped(outcome.message@) + "\"}"@,
{
}

} // verus!
