//! Mapping from the linter's numeric severity scale to SARIF level strings.

use vstd::prelude::*;

verus! {

/// The SARIF level that a given linter severity maps to, as a character
/// sequence. The mapping is total: severities outside the named band map
/// to `"none"`.
pub open spec fn spec_level(severity: u8) -> Seq<char> {
    if severity == 5 {
        "error"@
    } else if severity == 4 {
        "warning"@
    } else if severity == 3 {
        "note"@
    } else {
        "none"@
    }
}

/// Map a linter severity (1-5, 5 most severe) to a SARIF level string.
/// Total over all integers: 5 is `error`, 4 is `warning`, 3 is `note`,
/// and anything else, in range or not, is `none`.
pub fn severity_to_level(severity: u8) -> (r: String)
    ensures
        r@ == spec_level(severity),
{
    match severity {
        5 => String::from_str("error"),
        4 => String::from_str("warning"),
        3 => String::from_str("note"),
        _ => String::from_str("none"),
    }
}

/// The level mapping is total and closed: for every severity it yields
/// one of exactly `error`, `warning`, `note` and `none`, with 5, 4 and 3
/// mapping to the first three and everything else to `none`.
pub proof fn lemma_severity_mapping_total(severity: u8)
    ensures
        spec_level(severity) == "error"@ || spec_level(severity) == "warning"@ || spec_level(
            severity,
        ) == "note"@ || spec_level(severity) == "none"@,
        severity == 5 ==> spec_level(severity) == "error"@,
        severity == 4 ==> spec_level(severity) == "warning"@,
        severity == 3 ==> spec_level(severity) == "note"@,
        severity < 3 || severity > 5 ==> spec_level(severity) == "none"@,
{
}

} // verus!
