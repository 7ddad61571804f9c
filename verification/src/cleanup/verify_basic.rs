//! Verification of the central registry of manifests.

use crate::native_path::{lossy_text, NativePath};
use crate::text::{append_decimal, decimal, json_escape, json_escaped, same_text};
use vstd::prelude::*;
use vstd::string::*;

verus! {

/// How bad a finding is.
#[derive(Clone, Copy, Debug, PartialEq, Eq, Structural)]
pub enum Severity {
    /// The manifest describes something that is gone.
    Stale,
    /// The manifest cannot be read.
    Error,
}

impl Severity {
    /// Stable lower-case name.
    pub open spec fn spec_str(self) -> Seq<char> {
        match self {
            Severity::Stale => "stale"@,
            Severity::Error => "error"@,
        }
    }

    /// Stable lower-case name.
    pub fn as_str(self) -> (s: &'static str)
        ensures
            s@ == self.spec_str(),
    {
        match self {
            Severity::Stale => "stale",
            Severity::Error => "error",
        }
    }
}

/// A finding about one manifest.
#[derive(Clone, Debug, PartialEq, Eq)]
pub struct VerifyFinding {
    /// Path of the manifest.
    pub path: NativePath,
    /// How bad it is.
    pub severity: Severity,
    /// In words.
    pub message: String,
}

/// Result of a verification.
#[derive(Clone, Debug, PartialEq, Eq)]
pub struct VerifyReport {
    /// Number of manifests that were looked at.
    pub scanned: usize,
    /// What was found, in order.
    pub findings: Vec<VerifyFinding>,
}

/// Where a manifest was written.
#[derive(Clone, Debug, PartialEq, Eq)]
pub struct HostIdentity {
    /// Identifier of the machine; empty if unknown.
    pub machine_id: String,
    /// Identifier of the boot; empty if unknown.
    pub boot_id: String,
}

/// The daemon that a manifest names.
#[derive(Clone, Copy, Debug, PartialEq, Eq, Structural)]
pub struct NamedDaemon {
    /// Its process number.
    pub pid: u32,
    /// Whether that process runs.
    pub alive: bool,
}

/// What a manifest says.
#[derive(Clone, Debug, PartialEq, Eq)]
pub struct ManifestFacts {
    /// Where it was written.
    pub host: Option<HostIdentity>,
    /// The daemon that it names.
    pub daemon: Option<NamedDaemon>,
}

/// A manifest of the registry, or why it cannot be read.
#[derive(Debug, PartialEq, Eq)]
pub struct RegistryEntry {
    /// Path of the manifest.
    pub path: NativePath,
    /// What it says, or the failure in words.
    pub result: Result<ManifestFacts, String>,
}

/// What a finding says.
#[verifier::ext_equal]
pub struct FindingModel {
    /// Path of the manifest.
    pub path: Seq<u8>,
    /// How bad it is.
    pub severity: Severity,
    /// In words.
    pub message: Seq<char>,
}

/// What a finding says.
pub open spec fn finding_model(f: VerifyFinding) -> FindingModel {
    FindingModel { path: f.path@, severity: f.severity, message: f.message@ }
}

/// What some findings say.
pub open spec fn finding_models(findings: Seq<VerifyFinding>) -> Seq<FindingModel> {
    findings.map_values(|f: VerifyFinding| finding_model(f))
}

/// The list with one item, or without.
pub open spec fn optional(present: bool, finding: FindingModel) -> Seq<FindingModel> {
    if present {
        seq![finding]
    } else {
        Seq::empty()
    }
}

/// Whether an identifier is known and another one.
pub open spec fn differs(known: Seq<char>, current: Seq<char>) -> bool {
    known.len() > 0 && known != current
}

/// The findings about one manifest: another machine, another boot, a daemon that
/// is gone, or a manifest that cannot be read.
pub open spec fn findings_for(
    entry: RegistryEntry,
    machine: Seq<char>,
    boot: Seq<char>,
) -> Seq<FindingModel> {
    match entry.result {
        Ok(facts) => {
            let moved = optional(
                facts.host matches Some(host) && differs(host.machine_id@, machine),
                FindingModel {
                    path: entry.path@,
                    severity: Severity::Stale,
                    message: "manifest belongs to another machine"@,
                },
            );
            let booted = optional(
                facts.host matches Some(host) && differs(host.boot_id@, boot),
                FindingModel {
                    path: entry.path@,
                    severity: Severity::Stale,
                    message: "manifest belongs to a prior boot"@,
                },
            );
            let gone = optional(
                facts.daemon matches Some(daemon) && !daemon.alive,
                FindingModel {
                    path: entry.path@,
                    severity: Severity::Stale,
                    message: match facts.daemon {
                        Some(daemon) => "daemon pid "@ + decimal(daemon.pid as nat)
                            + " is not alive"@,
                        None => Seq::empty(),
                    },
                },
            );
            moved + booted + gone
        },
        Err(text) => seq![
            FindingModel { path: entry.path@, severity: Severity::Error, message: text@ },
        ],
    }
}

/// The findings about some manifests, in order.
pub open spec fn all_findings(
    entries: Seq<RegistryEntry>,
    machine: Seq<char>,
    boot: Seq<char>,
) -> Seq<FindingModel>
    decreases entries.len(),
{
    if entries.len() == 0 {
        Seq::empty()
    } else {
        all_findings(entries.drop_last(), machine, boot) + findings_for(
            entries.last(),
            machine,
            boot,
        )
    }
}

fn push_finding(
    findings: &mut Vec<VerifyFinding>,
    path: &NativePath,
    severity: Severity,
    message: String,
)
    ensures
        finding_models(final(findings)@) == finding_models(old(findings)@).push(
            FindingModel { path: path@, severity, message: message@ },
        ),
{
    findings.push(VerifyFinding { path: path.copied(), severity, message });
    assert(finding_models(findings@) =~= finding_models(old(findings)@).push(
        FindingModel { path: path@, severity, message: message@ },
    ));
}

fn is_other(known: &str, current: &str) -> (b: bool)
    ensures
        b == differs(known@, current@),
{
    known.unicode_len() > 0 && !same_text(known, current)
}

fn verify_entry(
    entry: &RegistryEntry,
    machine: &str,
    boot: &str,
    findings: &mut Vec<VerifyFinding>,
)
    ensures
        finding_models(final(findings)@) == finding_models(old(findings)@) + findings_for(
            *entry,
            machine@,
            boot@,
        ),
{
    let ghost before = finding_models(findings@);
    match &entry.result {
        Ok(facts) => {
            match &facts.host {
                Some(host) => {
                    if is_other(host.machine_id.as_str(), machine) {
                        push_finding(
                            findings,
                            &entry.path,
                            Severity::Stale,
                            "manifest belongs to another machine".to_owned(),
                        );
                    }
                    if is_other(host.boot_id.as_str(), boot) {
                        push_finding(
                            findings,
                            &entry.path,
                            Severity::Stale,
                            "manifest belongs to a prior boot".to_owned(),
                        );
                    }
                },
                None => {},
            }
            match facts.daemon {
                Some(daemon) => if !daemon.alive {
                    let mut message: String = "daemon pid ".to_owned();
                    append_decimal(&mut message, daemon.pid as u128);
                    message.append(" is not alive");
                    push_finding(findings, &entry.path, Severity::Stale, message);
                },
                None => {},
            }
        },
        Err(text) => {
            push_finding(
                findings,
                &entry.path,
                Severity::Error,
                text.as_str().to_owned(),
            );
        },
    }
    assert(finding_models(findings@) =~= before + findings_for(*entry, machine@, boot@));
}

/// Verifies the manifests of a registry against the identity of this host.
pub fn run(entries: &Vec<RegistryEntry>, machine: &str, boot: &str) -> (report: VerifyReport)
    ensures
        report.scanned == entries@.len(),
        finding_models(report.findings@) == all_findings(entries@, machine@, boot@),
{
    let mut findings: Vec<VerifyFinding> = Vec::new();
    let mut i: usize = 0;
    assert(finding_models(findings@) =~= all_findings(entries@.take(0), machine@, boot@));
    while i < entries.len()
        invariant
            i <= entries@.len(),
            finding_models(findings@) == all_findings(entries@.take(i as int), machine@, boot@),
        decreases entries@.len() - i,
    {
        proof {
            assert(entries@.take(i as int + 1).drop_last() =~= entries@.take(i as int));
        }
        verify_entry(&entries[i], machine, boot, &mut findings);
        i = i + 1;
    }
    assert(entries@.take(entries@.len() as int) =~= entries@);
    VerifyReport { scanned: entries.len(), findings }
}

/// The findings as JSON objects, separated by commas.
pub open spec fn finding_objects(findings: Seq<FindingModel>) -> Seq<char>
    decreases findings.len(),
{
    if findings.len() == 0 {
        Seq::empty()
    } else {
        let f = findings.last();
        let separator = if findings.len() == 1 {
            Seq::empty()
        } else {
            ","@
        };
        finding_objects(findings.drop_last()) + separator + ("{\"path\":\""@ + json_escaped(lossy_text(f.path))
            + "\",\"severity\":\""@ + f.severity.spec_str() + "\",\"message\":\""@ + json_escaped(
            f.message,
        ) + "\"}"@)
    }
}

/// Renders a report as JSON.
pub fn render_json(report: &VerifyReport) -> (s: String)
    ensures
        s@ == "{\"schema_version\":1,\"scanned\":"@ + decimal(report.scanned as nat)
            + ",\"findings\":["@ + finding_objects(finding_models(report.findings@)) + "]}"@,
{
    let mut s: String = "{\"schema_version\":1,\"scanned\":".to_owned();
    append_decimal(&mut s, report.scanned as u128);
    s.append(",\"findings\":[");
    let ghost head = s@;
    let ghost all = finding_models(report.findings@);
    let mut i: usize = 0;
    assert(s@ =~= head + finding_objects(all.take(0)));
    while i < report.findings.len()
        invariant
            i <= report.findings@.len(),
            all == finding_models(report.findings@),
            s@ == head + finding_objects(all.take(i as int)),
        decreases report.findings@.len() - i,
    {
        proof {
            assert(all.take(i as int + 1).drop_last() =~= all.take(i as int));
            assert(all.take(i as int + 1).last() == finding_model(report.findings@[i as int]));
        }
        if i > 0 {
            s.append(",");
        }
        let finding = &report.findings[i];
        s.append("{\"path\":\"");
        let path = json_escape(finding.path.shown().as_str());
        s.append(path.as_str());
        s.append("\",\"severity\":\"");
        s.append(finding.severity.as_str());
        s.append("\",\"message\":\"");
        let message = json_escape(finding.message.as_str());
        s.append(message.as_str());
        s.append("\"}");
        assert(s@ =~= head + finding_objects(all.take(i as int + 1)));
        i = i + 1;
    }
    assert(all.take(all.len() as int) =~= all);
    s.append("]}");
    s
}

/// A manifest of this machine and this boot, whose daemon runs, gives no
/// findings.
pub proof fn law_current_manifests_are_clean(
    entry: RegistryEntry,
    machine: Seq<char>,
    boot: Seq<char>,
)
    requires
        entry.result matches Ok(facts) && (facts.host matches Some(host) ==> host.machine_id@
            == machine && host.boot_id@ == boot) && (facts.daemon matches Some(daemon)
            ==> daemon.alive),
    ensures
        findings_for(entry, machine, boot).len() == 0,
{
}

/// A verification reports, in order, what it finds of each manifest, and nothing
/// else.
pub proof fn law_findings_are_collected(
    a: Seq<RegistryEntry>,
    b: Seq<RegistryEntry>,
    entry: RegistryEntry,
    machine: Seq<char>,
    boot: Seq<char>,
)
    ensures
        all_findings(a + b, machine, boot) == all_findings(a, machine, boot) + all_findings(
            b,
            machine,
            boot,
        ),
        all_findings(seq![entry], machine, boot) == findings_for(entry, machine, boot),
        all_findings(Seq::empty(), machine, boot).len() == 0,
    decreases b.len(),
{
    let one = seq![entry];
    assert(one.drop_last() =~= Seq::empty());
    assert(all_findings(one.drop_last(), machine, boot) =~= Seq::empty());
    assert(all_findings(one, machine, boot) =~= findings_for(entry, machine, boot));
    if b.len() == 0 {
        assert(a + b =~= a);
        assert(all_findings(b, machine, boot) =~= Seq::empty());
    } else {
        law_findings_are_collected(a, b.drop_last(), entry, machine, boot);
        assert((a + b).drop_last() =~= a + b.drop_last());
        assert((a + b).last() == b.last());
    }
    assert(all_findings(a + b, machine, boot) =~= all_findings(a, machine, boot) + all_findings(
        b,
        machine,
        boot,
    ));
}

/// A manifest that cannot be read is an error, with the reason. One that can be read
/// is stale once for each of these: that it was written on another machine, that it
/// was written in another boot, and that its daemon is gone. What is not known of a
/// manifest counts for it, and every finding names the manifest.
pub proof fn law_stale_manifests_are_found(
    entry: RegistryEntry,
    machine: Seq<char>,
    boot: Seq<char>,
)
    ensures
        entry.result matches Err(text) ==> {
            let f = findings_for(entry, machine, boot);
            f.len() == 1 && f[0].severity is Error && f[0].message == text@ && f[0].path
                == entry.path@
        },
        entry.result matches Ok(facts) ==> {
            let f = findings_for(entry, machine, boot);
            let moved = facts.host matches Some(host) && host.machine_id@.len() > 0
                && host.machine_id@ != machine;
            let booted = facts.host matches Some(host) && host.boot_id@.len() > 0 && host.boot_id@
                != boot;
            let gone = facts.daemon matches Some(daemon) && !daemon.alive;
            let first: int = if moved {
                1
            } else {
                0
            };
            let second: int = if booted {
                first + 1
            } else {
                first
            };
            let third: int = if gone {
                second + 1
            } else {
                second
            };
            &&& f.len() == third
            &&& moved ==> f[0].message == "manifest belongs to another machine"@
            &&& booted ==> f[first].message == "manifest belongs to a prior boot"@
            &&& facts.daemon matches Some(daemon) ==> (gone ==> f[second].message == "daemon pid "@
                + decimal(daemon.pid as nat) + " is not alive"@)
            &&& forall|i: int|
                0 <= i < f.len() ==> (#[trigger] f[i]).severity is Stale && f[i].path == entry.path@
        },
{
}

/// Findings are rendered as objects with commas between them, each with the path of
/// the manifest, how bad it is, and the words.
pub proof fn law_objects_are_separated(
    a: Seq<FindingModel>,
    b: Seq<FindingModel>,
    finding: FindingModel,
)
    ensures
        finding_objects(Seq::empty()).len() == 0,
        finding_objects(seq![finding]) == "{\"path\":\""@ + json_escaped(lossy_text(finding.path))
            + "\",\"severity\":\""@ + (if finding.severity is Error {
            "error"@
        } else {
            "stale"@
        }) + "\",\"message\":\""@ + json_escaped(finding.message) + "\"}"@,
        a.len() > 0 && b.len() > 0 ==> finding_objects(a + b) == finding_objects(a) + ","@
            + finding_objects(b),
    decreases b.len(),
{
    let one = seq![finding];
    assert(one.drop_last() =~= Seq::empty());
    assert(finding_objects(one.drop_last()) =~= Seq::empty());
    assert(finding_objects(one) =~= "{\"path\":\""@ + json_escaped(lossy_text(finding.path))
        + "\",\"severity\":\""@ + finding.severity.spec_str() + "\",\"message\":\""@ + json_escaped(
        finding.message,
    ) + "\"}"@);
    if a.len() > 0 && b.len() > 0 {
        assert((a + b).drop_last() =~= a + b.drop_last());
        assert((a + b).last() == b.last());
        if b.len() == 1 {
            assert(a + b.drop_last() =~= a);
            assert(finding_objects(b.drop_last()) =~= Seq::empty());
        } else {
            law_objects_are_separated(a, b.drop_last(), finding);
        }
        assert(finding_objects(a + b) =~= finding_objects(a) + ","@ + finding_objects(b));
    }
}

} // verus!
