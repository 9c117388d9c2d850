//! Assembly of the final document: the single run with its tool
//! descriptor, rule catalogue, provenance and results, and the document
//! envelope with its schema URI and format version.

use vstd::prelude::*;

use crate::model::Report;
use crate::model::Sarif;
use crate::model::SarifResult;
use crate::model::SarifRun;
use crate::model::ToolInfo;
use crate::model::VcsDetails;
use crate::model::report_in_bounds;
use crate::translate::catalogue_matches;
use crate::translate::result_matches;
use crate::translate::rules;
use crate::translate::violation_to_result;

verus! {

/// What the single run of the document satisfies: fixed tool metadata
/// with the report's version string, the deduplicated rule catalogue,
/// exactly the given provenance entry, and one result per violation in
/// input order.
pub open spec fn run_matches(run: SarifRun, report: Report, vcs: VcsDetails) -> bool {
    &&& run.tool.name@ == "Perl Critic"@
    &&& run.tool.full_name@ == "Perl::Critic"@
    &&& run.tool.version@ == report.perl_critic_version@
    &&& run.tool.information_uri@ == "https://metacpan.org/pod/Perl::Critic"@
    &&& catalogue_matches(run.tool.rules@, report.violations@, report.violations@.len() as int)
    &&& run.version_control_provenance@ =~= seq![vcs]
    &&& run.results@.len() == report.violations@.len()
    &&& forall|i: int|
        0 <= i < run.results@.len() ==> result_matches(
            #[trigger] run.results@[i],
            report.violations@[i],
        )
}

/// Build the single run: tool descriptor with fixed name, full name and
/// info URI and the report's own version string; the rule catalogue; the
/// one provenance entry; and one result per violation, in input order.
pub fn report_to_run(report: &Report, vcs: VcsDetails) -> (run: SarifRun)
    requires
        report_in_bounds(*report),
    ensures
        run_matches(run, *report, vcs),
{
    let catalogue = rules(report);
    let mut results: Vec<SarifResult> = Vec::new();
    let mut i: usize = 0;
    while i < report.violations.len()
        invariant
            report_in_bounds(*report),
            i <= report.violations@.len(),
            results@.len() == i,
            forall|t: int|
                0 <= t < i ==> result_matches(#[trigger] results@[t], report.violations@[t]),
        decreases report.violations@.len() - i,
    {
        let r = violation_to_result(&report.violations[i]);
        results.push(r);
        i = i + 1;
    }
    let mut provenance: Vec<VcsDetails> = Vec::new();
    provenance.push(vcs);
    SarifRun {
        tool: ToolInfo {
            name: String::from_str("Perl Critic"),
            full_name: String::from_str("Perl::Critic"),
            version: report.perl_critic_version.clone(),
            information_uri: String::from_str("https://metacpan.org/pod/Perl::Critic"),
            rules: catalogue,
        },
        version_control_provenance: provenance,
        results,
    }
}

/// What the output document satisfies: the fixed schema URI, format
/// version `2.1.0`, and exactly one run built from the report and the
/// provenance entry.
pub open spec fn sarif_matches(doc: Sarif, report: Report, vcs: VcsDetails) -> bool {
    &&& doc.schema@
        == "https://raw.githubusercontent.com/oasis-tcs/sarif-spec/master/Schemata/sarif-schema-2.1.0.json"@
    &&& doc.version@ == "2.1.0"@
    &&& doc.runs@.len() == 1
    &&& run_matches(doc.runs@[0], report, vcs)
}

/// Compose the whole document: schema URI, format version `2.1.0`, and
/// the single run.
pub fn report_to_sarif(report: &Report, vcs: VcsDetails) -> (doc: Sarif)
    requires
        report_in_bounds(*report),
    ensures
        sarif_matches(doc, *report, vcs),
{
    let run = report_to_run(report, vcs);
    let mut runs: Vec<SarifRun> = Vec::new();
    runs.push(run);
    Sarif {
        schema: String::from_str(
            "https://raw.githubusercontent.com/oasis-tcs/sarif-spec/master/Schemata/sarif-schema-2.1.0.json",
        ),
        version: String::from_str("2.1.0"),
        runs,
    }
}

} // verus!
