use perlcritic_sarif::assemble::report_to_run;
use perlcritic_sarif::assemble::report_to_sarif;
use perlcritic_sarif::model::Report;
use perlcritic_sarif::model::Violation;
use perlcritic_sarif::policy::camel_to_snake;
use perlcritic_sarif::policy::policy_to_id;
use perlcritic_sarif::policy::policy_to_name;
use perlcritic_sarif::remote::normalize_remote_url;
use perlcritic_sarif::remote::version_control_details;
use perlcritic_sarif::severity::severity_to_level;
use perlcritic_sarif::translate::rules;
use perlcritic_sarif::translate::violation_to_result;
use perlcritic_sarif::ConvertError;

fn violation(
    filename: &str,
    line_number: u32,
    column_number: u32,
    severity: u8,
    source: &str,
    policy: &str,
    diagnostics: &str,
) -> Violation {
    Violation {
        filename: filename.to_string(),
        line_number,
        column_number,
        severity,
        source: source.to_string(),
        diagnostics: diagnostics.to_string(),
        explanation: "explanation".to_string(),
        description: "description".to_string(),
        policy: policy.to_string(),
    }
}

fn provenance() -> perlcritic_sarif::model::VcsDetails {
    version_control_details(
        "git@github.com:org/repo.git",
        Some("main".to_string()),
        "0123456789abcdef".to_string(),
    )
    .unwrap()
}

#[test]
fn severity_five_is_error() {
    assert_eq!(severity_to_level(5).as_str(), "error");
}

#[test]
fn severity_four_is_warning() {
    assert_eq!(severity_to_level(4).as_str(), "warning");
}

#[test]
fn severity_three_is_note() {
    assert_eq!(severity_to_level(3).as_str(), "note");
}

#[test]
fn severity_other_values_are_none() {
    assert_eq!(severity_to_level(0).as_str(), "none");
    assert_eq!(severity_to_level(1).as_str(), "none");
    assert_eq!(severity_to_level(2).as_str(), "none");
    assert_eq!(severity_to_level(6).as_str(), "none");
    assert_eq!(severity_to_level(255).as_str(), "none");
}

#[test]
fn camel_to_snake_basic() {
    assert_eq!(camel_to_snake("ProhibitLocalVars").as_str(), "prohibit_local_vars");
}

#[test]
fn camel_to_snake_empty_and_plain() {
    assert_eq!(camel_to_snake("").as_str(), "");
    assert_eq!(camel_to_snake("already_snake").as_str(), "already_snake");
}

#[test]
fn camel_to_snake_consecutive_uppercase() {
    assert_eq!(camel_to_snake("ABC").as_str(), "a_b_c");
}

#[test]
fn policy_to_id_example() {
    assert_eq!(
        policy_to_id("Perl::Critic::Policy::Variables::ProhibitLocalVars").as_str(),
        "perl/prohibit_local_vars"
    );
}

#[test]
fn policy_to_id_is_deterministic() {
    let policy = "Perl::Critic::Policy::Variables::ProhibitLocalVars";
    assert_eq!(policy_to_id(policy), policy_to_id(policy));
    assert_eq!(policy_to_name(policy), policy_to_name(policy));
}

#[test]
fn policy_to_id_multiple_tail_segments() {
    assert_eq!(policy_to_id("A::B::C::D::Extra::FooBar").as_str(), "perl/extra/foo_bar");
}

#[test]
fn policy_to_id_short_policy_degenerates() {
    assert_eq!(policy_to_id("Too::Short").as_str(), "perl/");
    assert_eq!(policy_to_name("Too::Short").as_str(), "");
}

#[test]
fn policy_to_name_example() {
    assert_eq!(
        policy_to_name("Perl::Critic::Policy::Variables::ProhibitLocalVars").as_str(),
        "ProhibitLocalVars"
    );
}

#[test]
fn policy_to_name_concatenates_tail_segments() {
    assert_eq!(policy_to_name("A::B::C::D::Extra::FooBar").as_str(), "ExtraFooBar");
}

#[test]
fn region_arithmetic() {
    let v = violation(
        "lib/Foo.pm",
        10,
        4,
        5,
        "my $x = 1;",
        "Perl::Critic::Policy::Variables::ProhibitLocalVars",
        "diag",
    );
    let r = violation_to_result(&v);
    assert_eq!(r.location.context_region.start_line, 9);
    assert_eq!(r.location.context_region.start_column, 1);
    assert_eq!(r.location.context_region.end_line, 11);
    assert_eq!(r.location.context_region.end_column, 1);
    assert_eq!(r.location.context_region.snippet.as_str(), "my $x = 1;");
    assert_eq!(r.location.region.start_line, 10);
    assert_eq!(r.location.region.start_column, 4);
    assert_eq!(r.location.region.end_line, 10);
    assert_eq!(r.location.region.end_column, 10);
    assert_eq!(r.location.region.snippet.as_str(), "my $x = 1;");
    assert_eq!(r.location.artifact.uri.as_str(), "project/lib/Foo.pm");
    assert_eq!(r.location.artifact.uri_base_id.as_str(), "PROJECT");
    assert_eq!(r.level.as_str(), "error");
    assert_eq!(r.message.as_str(), "diag");
    assert_eq!(r.rule_id.as_str(), "perl/prohibit_local_vars");
}

#[test]
fn rules_deduplicates_same_policy() {
    let policy = "Perl::Critic::Policy::Variables::ProhibitLocalVars";
    let report = Report {
        perl_critic_version: "1.2.3".to_string(),
        violations: vec![
            violation("a.pm", 1, 1, 5, "src", policy, "d1"),
            violation("b.pm", 2, 2, 4, "src", policy, "d2"),
        ],
    };
    let catalogue = rules(&report);
    assert_eq!(catalogue.len(), 1);
    assert_eq!(catalogue[0].id.as_str(), "perl/prohibit_local_vars");
    assert_eq!(catalogue[0].name.as_str(), "ProhibitLocalVars");
    assert_eq!(
        catalogue[0].help_uri.as_str(),
        "https://metacpan.org/pod/Perl::Critic::Policy::Variables::ProhibitLocalVars"
    );
}

#[test]
fn rules_keeps_distinct_policies() {
    let report = Report {
        perl_critic_version: "1.2.3".to_string(),
        violations: vec![
            violation("a.pm", 1, 1, 5, "src", "A::B::C::D::One", "d1"),
            violation("b.pm", 2, 2, 4, "src", "A::B::C::D::Two", "d2"),
        ],
    };
    let catalogue = rules(&report);
    assert_eq!(catalogue.len(), 2);
    assert_eq!(catalogue[0].id.as_str(), "perl/one");
    assert_eq!(catalogue[1].id.as_str(), "perl/two");
}

#[test]
fn rules_collision_last_wins() {
    // Two distinct policy strings that derive the same identifier: the
    // descriptor of the later violation survives.
    let report = Report {
        perl_critic_version: "1.2.3".to_string(),
        violations: vec![
            violation("a.pm", 1, 1, 5, "src", "A::B::C::D::FooBar", "d1"),
            violation("b.pm", 2, 2, 4, "src", "X::Y::Z::W::FooBar", "d2"),
        ],
    };
    let catalogue = rules(&report);
    assert_eq!(catalogue.len(), 1);
    assert_eq!(catalogue[0].id.as_str(), "perl/foo_bar");
    assert_eq!(catalogue[0].help_uri.as_str(), "https://metacpan.org/pod/X::Y::Z::W::FooBar");
}

#[test]
fn normalize_ssh_remote() {
    assert_eq!(
        normalize_remote_url("git@github.com:org/repo.git").unwrap().as_str(),
        "https://github.com/org/repo"
    );
}

#[test]
fn normalize_ssh_remote_without_user() {
    assert_eq!(
        normalize_remote_url("github.com:org/repo.git").unwrap().as_str(),
        "https://github.com/org/repo"
    );
}

#[test]
fn normalize_https_remote() {
    assert_eq!(
        normalize_remote_url("https://github.com/org/repo.git").unwrap().as_str(),
        "https://github.com/org/repo"
    );
}

#[test]
fn normalize_http_remote() {
    assert_eq!(
        normalize_remote_url("http://example.org/a/b.git").unwrap().as_str(),
        "https://example.org/a/b"
    );
}

#[test]
fn normalize_rejects_other_shapes() {
    assert_eq!(normalize_remote_url("not-a-url").unwrap_err(), ConvertError::UnparseableRemote);
    assert_eq!(
        normalize_remote_url("https://github.com/org/repo").unwrap_err(),
        ConvertError::UnparseableRemote
    );
    assert_eq!(normalize_remote_url("").unwrap_err(), ConvertError::UnparseableRemote);
    assert_eq!(
        normalize_remote_url("host:nogitsuffix").unwrap_err(),
        ConvertError::UnparseableRemote
    );
}

#[test]
fn unparseable_remote_describes_itself() {
    assert_eq!(
        ConvertError::UnparseableRemote.describe().as_str(),
        "could not parse remote url"
    );
}

#[test]
fn every_error_variant_has_a_description() {
    assert_eq!(ConvertError::Io.describe().as_str(), "could not read input or write output");
    assert_eq!(
        ConvertError::Decode.describe().as_str(),
        "input is not a well-formed violation report"
    );
    assert_eq!(
        ConvertError::Repository.describe().as_str(),
        "no repository or required metadata found"
    );
    assert_eq!(
        ConvertError::Assembly.describe().as_str(),
        "internal document construction failed"
    );
}

#[test]
fn provenance_with_branch() {
    let d = version_control_details(
        "git@github.com:org/repo.git",
        Some("main".to_string()),
        "abc123".to_string(),
    )
    .unwrap();
    assert_eq!(d.repository_uri.as_str(), "https://github.com/org/repo");
    assert_eq!(d.branch.as_str(), "main");
    assert_eq!(d.revision_id.as_str(), "abc123");
    assert_eq!(d.mapped_to.uri.as_str(), "project");
    assert_eq!(d.mapped_to.uri_base_id.as_str(), "PROJECT");
}

#[test]
fn provenance_detached_head_sentinel() {
    let d = version_control_details(
        "git@github.com:org/repo.git",
        None,
        "abc123".to_string(),
    )
    .unwrap();
    assert_eq!(d.branch.as_str(), "(detached head)");
}

#[test]
fn provenance_propagates_unparseable_remote() {
    let e = version_control_details("not-a-url", None, "abc".to_string()).unwrap_err();
    assert_eq!(e, ConvertError::UnparseableRemote);
}

#[test]
fn results_preserve_count_and_order() {
    let report = Report {
        perl_critic_version: "1.2.3".to_string(),
        violations: vec![
            violation("a.pm", 1, 1, 5, "s1", "A::B::C::D::One", "first"),
            violation("b.pm", 2, 2, 4, "s2", "A::B::C::D::Two", "second"),
            violation("c.pm", 3, 3, 3, "s3", "A::B::C::D::Three", "third"),
        ],
    };
    let run = report_to_run(&report, provenance());
    assert_eq!(run.results.len(), 3);
    assert_eq!(run.results[0].message.as_str(), "first");
    assert_eq!(run.results[1].message.as_str(), "second");
    assert_eq!(run.results[2].message.as_str(), "third");
    assert_eq!(run.results[0].rule_id.as_str(), "perl/one");
    assert_eq!(run.results[1].rule_id.as_str(), "perl/two");
    assert_eq!(run.results[2].rule_id.as_str(), "perl/three");
}

#[test]
fn end_to_end_scenario() {
    let report = Report {
        perl_critic_version: "1.2.3".to_string(),
        violations: vec![violation(
            "lib/Foo.pm",
            5,
            3,
            5,
            "use warnings;",
            "Perl::Critic::Policy::TestingAndDebugging::RequireUseStrict",
            "...",
        )],
    };
    let doc = report_to_sarif(&report, provenance());
    assert_eq!(doc.version.as_str(), "2.1.0");
    assert_eq!(
        doc.schema.as_str(),
        "https://raw.githubusercontent.com/oasis-tcs/sarif-spec/master/Schemata/sarif-schema-2.1.0.json"
    );
    assert_eq!(doc.runs.len(), 1);
    let run = &doc.runs[0];
    assert_eq!(run.tool.name.as_str(), "Perl Critic");
    assert_eq!(run.tool.full_name.as_str(), "Perl::Critic");
    assert_eq!(run.tool.version.as_str(), "1.2.3");
    assert_eq!(run.tool.information_uri.as_str(), "https://metacpan.org/pod/Perl::Critic");
    assert_eq!(run.tool.rules.len(), 1);
    assert_eq!(run.tool.rules[0].id.as_str(), "perl/require_use_strict");
    assert_eq!(run.version_control_provenance.len(), 1);
    assert_eq!(
        run.version_control_provenance[0].repository_uri.as_str(),
        "https://github.com/org/repo"
    );
    assert_eq!(run.results.len(), 1);
    assert_eq!(run.results[0].level.as_str(), "error");
    assert_eq!(run.results[0].rule_id.as_str(), "perl/require_use_strict");
    assert_eq!(run.results[0].location.artifact.uri.as_str(), "project/lib/Foo.pm");
}
