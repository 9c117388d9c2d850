//! Translation of the decoded report into the SARIF document model: one
//! result per violation, and a rule catalogue deduplicated by derived
//! identifier with last-wins overwrite semantics.

use vstd::prelude::*;

use crate::model::Location;
use crate::model::ArtifactRef;
use crate::model::Region;
use crate::model::Report;
use crate::model::RuleDescriptor;
use crate::model::SarifResult;
use crate::model::Violation;
use crate::model::violation_in_bounds;
use crate::policy::policy_to_id;
use crate::policy::policy_to_name;
use crate::policy::spec_policy_to_id;
use crate::policy::spec_policy_to_name;
use crate::severity::severity_to_level;
use crate::severity::spec_level;

verus! {

/// The result that a violation translates to: severity-mapped level, the
/// diagnostics text as message, the derived rule identifier, and one
/// location whose context region spans one line above through one line
/// below with placeholder columns, and whose precise region runs from the
/// violation's column to the length of the source line.
pub open spec fn result_matches(r: SarifResult, v: Violation) -> bool {
    &&& r.level@ == spec_level(v.severity)
    &&& r.message@ == v.diagnostics@
    &&& r.rule_id@ == spec_policy_to_id(v.policy@)
    &&& r.location.artifact.uri@ == "project/"@ + v.filename@
    &&& r.location.artifact.uri_base_id@ == "PROJECT"@
    &&& r.location.context_region.start_line == v.line_number - 1
    &&& r.location.context_region.start_column == 1
    &&& r.location.context_region.end_line == v.line_number + 1
    &&& r.location.context_region.end_column == 1
    &&& r.location.context_region.snippet@ == v.source@
    &&& r.location.region.start_line == v.line_number
    &&& r.location.region.start_column == v.column_number
    &&& r.location.region.end_line == v.line_number
    &&& r.location.region.end_column == v.source@.len()
    &&& r.location.region.snippet@ == v.source@
}

/// Translate one violation into its SARIF result.
pub fn violation_to_result(v: &Violation) -> (r: SarifResult)
    requires
        violation_in_bounds(*v),
    ensures
        result_matches(r, *v),
{
    let source_len = v.source.as_str().unicode_len();
    let artifact = ArtifactRef {
        uri: String::from_str("project/").concat(v.filename.as_str()),
        uri_base_id: String::from_str("PROJECT"),
    };
    let context_region = Region {
        start_line: v.line_number - 1,
        start_column: 1,
        end_line: v.line_number + 1,
        end_column: 1,
        snippet: v.source.clone(),
    };
    let region = Region {
        start_line: v.line_number,
        start_column: v.column_number,
        end_line: v.line_number,
        end_column: source_len as u32,
        snippet: v.source.clone(),
    };
    SarifResult {
        level: severity_to_level(v.severity),
        message: v.diagnostics.clone(),
        rule_id: policy_to_id(v.policy.as_str()),
        location: Location { artifact, context_region, region },
    }
}

/// The descriptor a policy string gives rise to: the derived identifier,
/// the derived display name, and a help URI built from the original
/// policy string.
pub open spec fn descriptor_matches(d: RuleDescriptor, policy: Seq<char>) -> bool {
    &&& d.id@ == spec_policy_to_id(policy)
    &&& d.name@ == spec_policy_to_name(policy)
    &&& d.help_uri@ == "https://metacpan.org/pod/"@ + policy
}

/// Build the descriptor for one violation's policy.
fn descriptor_for(v: &Violation) -> (d: RuleDescriptor)
    ensures
        descriptor_matches(d, v.policy@),
{
    RuleDescriptor {
        id: policy_to_id(v.policy.as_str()),
        name: policy_to_name(v.policy.as_str()),
        help_uri: String::from_str("https://metacpan.org/pod/").concat(v.policy.as_str()),
    }
}

/// No two descriptors of the catalogue share an identifier.
pub open spec fn distinct_ids(cat: Seq<RuleDescriptor>) -> bool {
    forall|i: int, j: int| 0 <= i < j < cat.len() ==> cat[i].id@ != cat[j].id@
}

/// The descriptor `d` was built from the last violation among the first
/// `upto` whose policy derives `d`'s identifier.
pub open spec fn entry_is_last_win(d: RuleDescriptor, vs: Seq<Violation>, upto: int) -> bool {
    exists|k0: int|
        #![trigger vs[k0].policy@]
        0 <= k0 < upto && descriptor_matches(d, vs[k0].policy@) && (forall|k2: int|
            k0 < k2 < upto ==> spec_policy_to_id(#[trigger] vs[k2].policy@) != d.id@)
}

/// What the rule catalogue of the first `upto` violations satisfies:
/// identifiers are distinct; each descriptor comes from the last
/// violation whose policy derives its identifier; and every violation's
/// derived identifier has a descriptor.
pub open spec fn catalogue_matches(cat: Seq<RuleDescriptor>, vs: Seq<Violation>, upto: int) -> bool {
    &&& distinct_ids(cat)
    &&& forall|i: int| 0 <= i < cat.len() ==> entry_is_last_win(#[trigger] cat[i], vs, upto)
    &&& forall|k0: int|
        0 <= k0 < upto ==> exists|i: int|
            0 <= i < cat.len() && cat[i].id@ == spec_policy_to_id(#[trigger] vs[k0].policy@)
}

/// Adding the descriptor of violation `k` to a catalogue of the first
/// `k` violations — overwriting in place when its identifier is already
/// present, appending otherwise — yields a catalogue of the first `k + 1`.
#[verifier::rlimit(100)]
proof fn lemma_catalogue_step(
    vs: Seq<Violation>,
    k: int,
    before: Seq<RuleDescriptor>,
    cat: Seq<RuleDescriptor>,
    d: RuleDescriptor,
    found: bool,
    pos: int,
)
    requires
        0 <= k < vs.len(),
        descriptor_matches(d, vs[k].policy@),
        found ==> 0 <= pos < before.len() && before[pos].id@ == d.id@,
        !found ==> forall|t: int| 0 <= t < before.len() ==> before[t].id@ != d.id@,
        found ==> cat == before.update(pos, d),
        !found ==> cat == before.push(d),
        catalogue_matches(before, vs, k),
    ensures
        catalogue_matches(cat, vs, k + 1),
{
    assert(cat.len() >= before.len());
    assert forall|x: int| 0 <= x < before.len() && !(found && x == pos) implies cat[x]
        == before[x] by {}
    if found {
        assert(cat[pos] == d);
    } else {
        assert(cat[before.len() as int] == d);
    }
    assert forall|x: int| 0 <= x < before.len() implies cat[x].id@ == before[x].id@ by {}
    assert forall|i: int, j: int| 0 <= i < j < cat.len() implies cat[i].id@ != cat[j].id@ by {
        if j >= before.len() {
            assert(!found && cat[j] == d);
            assert(before[i].id@ != d.id@);
        }
    }
    assert forall|k0: int| 0 <= k0 < k + 1 implies exists|i: int|
        0 <= i < cat.len() && cat[i].id@ == spec_policy_to_id(#[trigger] vs[k0].policy@) by {
        if k0 == k {
            if found {
                assert(0 <= pos < cat.len() && cat[pos].id@ == spec_policy_to_id(vs[k0].policy@));
            } else {
                let last = before.len() as int;
                assert(0 <= last < cat.len() && cat[last].id@ == spec_policy_to_id(
                    vs[k0].policy@,
                ));
            }
        } else {
            let i0 = choose|i: int|
                0 <= i < before.len() && before[i].id@ == spec_policy_to_id(vs[k0].policy@);
            assert(0 <= i0 < cat.len() && cat[i0].id@ == spec_policy_to_id(vs[k0].policy@));
        }
    }
    assert forall|i: int| 0 <= i < cat.len() implies entry_is_last_win(
        #[trigger] cat[i],
        vs,
        k + 1,
    ) by {
        if (found && i == pos) || (!found && i == before.len()) {
            assert(cat[i] == d);
            assert(0 <= k < k + 1 && descriptor_matches(cat[i], vs[k].policy@) && (forall|
                k2: int,
            |
                k < k2 < k + 1 ==> spec_policy_to_id(#[trigger] vs[k2].policy@) != cat[i].id@));
        } else {
            assert(cat[i] == before[i]);
            assert(entry_is_last_win(before[i], vs, k));
            let k0 = choose|k0: int|
                #![trigger vs[k0].policy@]
                0 <= k0 < k && descriptor_matches(before[i], vs[k0].policy@) && (forall|k2: int|
                    k0 < k2 < k ==> spec_policy_to_id(#[trigger] vs[k2].policy@)
                        != before[i].id@);
            assert(spec_policy_to_id(vs[k].policy@) == d.id@);
            if found {
                assert(cat[i].id@ != before[pos].id@);
            }
            assert(cat[i].id@ != d.id@);
            assert(0 <= k0 < k + 1 && descriptor_matches(cat[i], vs[k0].policy@) && (forall|
                k2: int,
            |
                k0 < k2 < k + 1 ==> spec_policy_to_id(#[trigger] vs[k2].policy@) != cat[i].id@));
        }
    }
}

/// Rule deduplication: whenever two violations of the list carry the
/// same policy string, the catalogue built from that list holds exactly
/// one descriptor with that policy's derived identifier — at least one
/// by catalogue completeness, and at most one because identifiers are
/// pairwise distinct.
pub proof fn lemma_rule_dedup(
    cat: Seq<RuleDescriptor>,
    vs: Seq<Violation>,
    i: int,
    j: int,
)
    requires
        catalogue_matches(cat, vs, vs.len() as int),
        0 <= i < vs.len(),
        0 <= j < vs.len(),
        vs[i].policy@ == vs[j].policy@,
    ensures
        exists|x: int|
            0 <= x < cat.len() && #[trigger] cat[x].id@ == spec_policy_to_id(vs[i].policy@),
        forall|x: int, y: int|
            0 <= x < y < cat.len() && cat[x].id@ == spec_policy_to_id(vs[i].policy@)
                ==> cat[y].id@ != spec_policy_to_id(vs[j].policy@),
{
    let x0 = choose|x: int|
        0 <= x < cat.len() && cat[x].id@ == spec_policy_to_id(#[trigger] vs[i].policy@);
    assert(0 <= x0 < cat.len() && cat[x0].id@ == spec_policy_to_id(vs[i].policy@));
}

/// Build the deduplicated rule catalogue: one descriptor per distinct
/// derived identifier. When two violations derive the same identifier,
/// the descriptor of the later one survives (last-wins overwrite), at the
/// position of the identifier's first appearance.
pub fn rules(report: &Report) -> (catalogue: Vec<RuleDescriptor>)
    ensures
        catalogue_matches(catalogue@, report.violations@, report.violations@.len() as int),
{
    let ghost vs = report.violations@;
    let mut catalogue: Vec<RuleDescriptor> = Vec::new();
    let mut k: usize = 0;
    while k < report.violations.len()
        invariant
            vs == report.violations@,
            k <= vs.len(),
            catalogue_matches(catalogue@, vs, k as int),
        decreases vs.len() - k,
    {
        let d = descriptor_for(&report.violations[k]);
        let mut j: usize = 0;
        let mut found: bool = false;
        let mut pos: usize = 0;
        while j < catalogue.len()
            invariant
                j <= catalogue@.len(),
                found ==> pos < catalogue@.len() && catalogue@[pos as int].id@ == d.id@,
                !found ==> forall|t: int| 0 <= t < j ==> catalogue@[t].id@ != d.id@,
            decreases catalogue@.len() - j,
        {
            let same = catalogue[j].id == d.id;
            if same {
                found = true;
                pos = j;
            }
            j = j + 1;
        }
        let ghost before = catalogue@;
        if found {
            catalogue.remove(pos);
            catalogue.insert(pos, d);
            proof {
                assert(catalogue@ =~= before.update(pos as int, d));
            }
        } else {
            catalogue.push(d);
        }
        proof {
            lemma_catalogue_step(vs, k as int, before, catalogue@, d, found, pos as int);
        }
        k = k + 1;
    }
    catalogue
}

} // verus!
