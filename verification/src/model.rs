//! The data model of the converter: the decoded input report and the
//! SARIF document model that the translation produces. All fields are
//! plain values; serialization of both shapes lives outside the library.

use vstd::prelude::*;

verus! {

/// One linter finding, as decoded from the input report.
#[derive(Debug)]
pub struct Violation {
    /// Path of the offending file, relative to the project root.
    pub filename: String,
    /// 1-based line of the offending token.
    pub line_number: u32,
    /// 1-based column of the offending token.
    pub column_number: u32,
    /// Linter severity, 1-5 with 5 the most severe.
    pub severity: u8,
    /// The literal source line containing the violation.
    pub source: String,
    /// Free-text diagnostic message.
    pub diagnostics: String,
    /// Free-text explanation.
    pub explanation: String,
    /// Free-text description.
    pub description: String,
    /// Dotted policy name of the violated rule.
    pub policy: String,
}

/// The machine bounds under which the region arithmetic for a violation
/// neither underflows nor overflows: the line number is at least 1 and
/// has room for the one-line context margin, and the source-line length
/// fits the column field.
pub open spec fn violation_in_bounds(v: Violation) -> bool {
    &&& 1 <= v.line_number
    &&& v.line_number < u32::MAX
    &&& v.source@.len() <= u32::MAX
}

/// The decoded input report: a linter version string and an ordered
/// sequence of violations.
#[derive(Debug)]
pub struct Report {
    pub perl_critic_version: String,
    pub violations: Vec<Violation>,
}

/// Every violation of the report lies within the machine bounds.
pub open spec fn report_in_bounds(r: Report) -> bool {
    forall|i: int|
        0 <= i < r.violations@.len() ==> violation_in_bounds(#[trigger] r.violations@[i])
}

/// A source region: 1-based line and column bounds and the source snippet.
#[derive(Debug)]
pub struct Region {
    pub start_line: u32,
    pub start_column: u32,
    pub end_line: u32,
    pub end_column: u32,
    pub snippet: String,
}

/// A symbolic, base-relative reference to a source file.
#[derive(Debug)]
pub struct ArtifactRef {
    pub uri: String,
    pub uri_base_id: String,
}

/// One location of a result: an artifact reference, a context region
/// spanning one line around the violation, and the precise region.
#[derive(Debug)]
pub struct Location {
    pub artifact: ArtifactRef,
    pub context_region: Region,
    pub region: Region,
}

/// One SARIF result, derived from exactly one violation.
#[derive(Debug)]
pub struct SarifResult {
    pub level: String,
    pub message: String,
    pub rule_id: String,
    pub location: Location,
}

/// One rule descriptor of the catalogue, deduplicated by identifier.
#[derive(Debug)]
pub struct RuleDescriptor {
    pub id: String,
    pub name: String,
    pub help_uri: String,
}

/// Version-control provenance: repository URL, branch, commit, and the
/// symbolic root it is mapped to.
#[derive(Debug)]
pub struct VcsDetails {
    pub repository_uri: String,
    pub branch: String,
    pub revision_id: String,
    pub mapped_to: ArtifactRef,
}

/// The tool descriptor of the single run.
#[derive(Debug)]
pub struct ToolInfo {
    pub name: String,
    pub full_name: String,
    pub version: String,
    pub information_uri: String,
    pub rules: Vec<RuleDescriptor>,
}

/// The single run of the document: tool descriptor, provenance, results.
#[derive(Debug)]
pub struct SarifRun {
    pub tool: ToolInfo,
    pub version_control_provenance: Vec<VcsDetails>,
    pub results: Vec<SarifResult>,
}

/// The output document: schema URI, format version, and exactly one run.
#[derive(Debug)]
pub struct Sarif {
    pub schema: String,
    pub version: String,
    pub runs: Vec<SarifRun>,
}

} // verus!
