use regex::RegexSet;
use rulescan::binary;
use rulescan::config::{
    check_outputs, compile_filters, output_is_stdout, Configuration, ScanPlan,
};
use rulescan::error::{AnalysisError, ConfigError, ScanError};
use rulescan::filter::AnalysisMode;
use rulescan::source;
use weggli_ruleset::RuleSet;

const RULE: &str = "
id: unbounded-copy
severity: high
check-patterns:
- name: strcpy
  regex: func=^strcpy$
  pattern: |
    { $func(); }
";

fn rule_set() -> RuleSet {
    RuleSet::from_str(RULE).expect("the rule parses")
}

fn no_rules() -> RuleSet {
    RuleSet::from_directory("/no-such-directory-of-rules", true).expect("no rules")
}

fn configuration(
    rules: RuleSet,
    input: &str,
    multi_input: bool,
    display: bool,
    summary: bool,
    output: Option<&str>,
) -> Result<Configuration, ConfigError> {
    Configuration::new(rules, input.to_owned(), multi_input, None, display, 5, summary, output)
}

#[test]
fn dash_means_the_standard_output() {
    assert!(output_is_stdout("-"));
    assert!(!output_is_stdout(""));
    assert!(!output_is_stdout("--"));
    assert!(!output_is_stdout("out.jsonl"));
    assert!(!output_is_stdout("-o"));
    assert!(!output_is_stdout("–"));
    assert!(!output_is_stdout(" -"));
}

#[test]
fn configuration_keeps_what_it_is_given() {
    let filters = RegexSet::new([r"\.c$"]).expect("the pattern compiles");
    let config = Configuration::new(
        rule_set(),
        "src".to_owned(),
        true,
        Some(filters),
        true,
        7,
        false,
        Some("out.jsonl"),
    )
    .expect("the configuration is valid");
    assert_eq!(config.rules.len(), 1);
    assert_eq!(config.input, "src");
    assert!(config.multi_input);
    assert_eq!(config.path_filters.as_ref().map(|set| set.patterns().to_vec()), Some(vec![
        r"\.c$".to_owned()
    ]));
    assert!(config.display);
    assert_eq!(config.display_context, 7);
    assert!(!config.summary);
    assert!(config.has_writer);
    assert!(!config.output_is_stdout);
}

#[test]
fn output_argument_decides_writer_and_stream() {
    let to_file = configuration(rule_set(), "a.c", false, false, false, Some("out.jsonl")).unwrap();
    assert!(to_file.has_writer && !to_file.output_is_stdout);
    let to_stdout = configuration(rule_set(), "a.c", false, false, false, Some("-")).unwrap();
    assert!(to_stdout.has_writer && to_stdout.output_is_stdout);
    let console = configuration(rule_set(), "a.c", false, false, true, None).unwrap();
    assert!(!console.has_writer && !console.output_is_stdout);
}

#[test]
fn output_channels_are_checked_on_their_own() {
    assert_eq!(check_outputs(true, true, false, false), Err(ConfigError::ConflictingOutputs));
    assert_eq!(check_outputs(true, true, true, true), Err(ConfigError::ConflictingOutputs));
    assert_eq!(check_outputs(false, false, false, false), Err(ConfigError::NoOutput));
    assert_eq!(check_outputs(true, false, false, true), Err(ConfigError::NoOutput));
    assert_eq!(check_outputs(true, false, false, false), Ok(()));
    assert_eq!(check_outputs(false, true, false, false), Ok(()));
    assert_eq!(check_outputs(false, false, true, false), Ok(()));
    assert_eq!(check_outputs(false, false, true, true), Ok(()));
    assert_eq!(check_outputs(true, false, true, true), Ok(()));
}

#[test]
fn display_and_summary_together_are_rejected() {
    let made = configuration(rule_set(), "a.c", false, true, true, None);
    assert_eq!(made.err(), Some(ConfigError::ConflictingOutputs));
    let with_file = configuration(rule_set(), "a.c", false, true, true, Some("out.jsonl"));
    assert_eq!(with_file.err(), Some(ConfigError::ConflictingOutputs));
}

#[test]
fn display_and_summary_together_never_reach_the_reporter() {
    let config = Configuration {
        rules: rule_set(),
        input: "a.c".to_owned(),
        multi_input: false,
        path_filters: None,
        display: true,
        display_context: 5,
        summary: true,
        output_is_stdout: false,
        has_writer: true,
    };
    assert_eq!(config.check(), Err(ConfigError::ConflictingOutputs));
    assert_eq!(config.reporter().err(), Some(ConfigError::ConflictingOutputs));
    assert_eq!(source::scan(&config, false), Err(ConfigError::ConflictingOutputs));
    assert_eq!(binary::scan(&config), Err(ConfigError::ConflictingOutputs));
    assert_eq!(
        source::scan_one(&config, false, Some("int x;".to_owned())).err(),
        Some(ScanError::Config(ConfigError::ConflictingOutputs))
    );
    assert_eq!(
        binary::scan_one(&config, None).err(),
        Some(ScanError::Config(ConfigError::ConflictingOutputs))
    );
    assert_eq!(source::scan_many(&config, true).err(), Some(ConfigError::ConflictingOutputs));
    assert_eq!(binary::scan_many(&config).err(), Some(ConfigError::ConflictingOutputs));
}

#[test]
fn a_scan_without_an_output_channel_is_rejected() {
    let made = configuration(rule_set(), "a.c", false, false, false, None);
    assert_eq!(made.err(), Some(ConfigError::NoOutput));
}

#[test]
fn a_console_that_is_left_to_absent_records_is_no_channel() {
    let config = Configuration {
        rules: rule_set(),
        input: "a.c".to_owned(),
        multi_input: false,
        path_filters: None,
        display: true,
        display_context: 5,
        summary: false,
        output_is_stdout: true,
        has_writer: false,
    };
    assert_eq!(config.check(), Err(ConfigError::NoOutput));
}

#[test]
fn an_empty_rule_set_is_refused() {
    let made = configuration(no_rules(), "a.c", false, true, false, None);
    assert_eq!(made.err(), Some(ConfigError::NoRules));
    let made = configuration(no_rules(), "dir", true, false, false, Some("-"));
    assert_eq!(made.err(), Some(ConfigError::NoRules));
}

#[test]
fn no_scan_starts_without_rules() {
    let config = Configuration {
        rules: no_rules(),
        input: "a.c".to_owned(),
        multi_input: false,
        path_filters: None,
        display: true,
        display_context: 5,
        summary: false,
        output_is_stdout: false,
        has_writer: true,
    };
    assert_eq!(config.check(), Err(ConfigError::NoRules));
    assert_eq!(source::scan(&config, false), Err(ConfigError::NoRules));
    assert_eq!(source::scan(&config, true), Err(ConfigError::NoRules));
    assert_eq!(binary::scan(&config), Err(ConfigError::NoRules));
    assert_eq!(
        source::scan_one(&config, false, Some("int x;".to_owned())).err(),
        Some(ScanError::Config(ConfigError::NoRules))
    );
    assert_eq!(
        binary::scan_one(&config, None).err(),
        Some(ScanError::Config(ConfigError::NoRules))
    );
    assert_eq!(source::scan_many(&config, false).err(), Some(ConfigError::NoRules));
    assert_eq!(binary::scan_many(&config).err(), Some(ConfigError::NoRules));
}

#[test]
fn the_first_reason_to_refuse_is_given() {
    let both = configuration(no_rules(), "a.c", false, true, true, None);
    assert_eq!(both.err(), Some(ConfigError::ConflictingOutputs));
    let silent = configuration(no_rules(), "a.c", false, false, false, None);
    assert_eq!(silent.err(), Some(ConfigError::NoOutput));
}

#[test]
fn a_valid_configuration_passes_the_check() {
    for (display, summary, output) in [
        (true, false, None),
        (false, true, None),
        (false, false, Some("out.jsonl")),
        (false, false, Some("-")),
        (true, false, Some("out.jsonl")),
        (false, true, Some("-")),
    ] {
        let config = configuration(rule_set(), "a.c", false, display, summary, output)
            .expect("the configuration is valid");
        assert_eq!(config.check(), Ok(()));
        assert!(config.reporter().is_ok());
    }
}

#[test]
fn reporter_takes_its_channels_from_the_configuration() {
    let config = Configuration::new(
        rule_set(),
        "a.c".to_owned(),
        false,
        None,
        false,
        9,
        true,
        Some("-"),
    )
    .unwrap();
    let reporter = config.reporter().expect("the configuration is valid");
    assert!(!reporter.display);
    assert!(reporter.summary);
    assert_eq!(reporter.display_context, 9);
    assert!(reporter.output_is_stdout);
    assert!(reporter.has_writer);
    assert_eq!(reporter.rules.len(), 1);
    assert_eq!(reporter.rules.entries[0].id, "unbounded-copy");
}

#[test]
fn a_directory_is_scanned_target_by_target() {
    let config = configuration(rule_set(), "not-a-source-name", true, true, false, None).unwrap();
    assert_eq!(source::scan(&config, false), Ok(ScanPlan::Multi));
    assert_eq!(source::scan(&config, true), Ok(ScanPlan::Multi));
    assert_eq!(binary::scan(&config), Ok(ScanPlan::Multi));
    assert_eq!(config.plan(AnalysisMode::Binary), Ok(ScanPlan::Multi));
}

#[test]
fn a_single_source_file_is_scanned_if_its_extension_fits() {
    let c_file = configuration(rule_set(), "src/a.c", false, true, false, None).unwrap();
    assert_eq!(source::scan(&c_file, false), Ok(ScanPlan::Single));
    assert_eq!(source::scan(&c_file, true), Ok(ScanPlan::Skip));
    let cxx_file = configuration(rule_set(), "src/a.cpp", false, true, false, None).unwrap();
    assert_eq!(source::scan(&cxx_file, false), Ok(ScanPlan::Skip));
    assert_eq!(source::scan(&cxx_file, true), Ok(ScanPlan::Single));
    let header = configuration(rule_set(), "src/a.h", false, true, false, None).unwrap();
    assert_eq!(source::scan(&header, false), Ok(ScanPlan::Single));
    assert_eq!(source::scan(&header, true), Ok(ScanPlan::Single));
}

#[test]
fn a_single_binary_is_scanned_unless_a_pattern_excludes_it() {
    let any = configuration(rule_set(), "fw/image", false, false, true, None).unwrap();
    assert_eq!(binary::scan(&any), Ok(ScanPlan::Single));
    let filters = RegexSet::new([r"\.elf$"]).unwrap();
    let excluded = Configuration::new(
        rule_set(),
        "fw/image".to_owned(),
        false,
        Some(filters.clone()),
        false,
        5,
        true,
        None,
    )
    .unwrap();
    assert_eq!(binary::scan(&excluded), Ok(ScanPlan::Skip));
    let included = Configuration::new(
        rule_set(),
        "fw/image.elf".to_owned(),
        false,
        Some(filters),
        false,
        5,
        true,
        None,
    )
    .unwrap();
    assert_eq!(binary::scan(&included), Ok(ScanPlan::Single));
}

#[test]
fn a_pattern_admits_a_source_file_of_any_name() {
    let filters = RegexSet::new(["^notes"]).unwrap();
    let config = Configuration::new(
        rule_set(),
        "notes.txt".to_owned(),
        false,
        Some(filters),
        true,
        5,
        false,
        None,
    )
    .unwrap();
    assert_eq!(source::scan(&config, false), Ok(ScanPlan::Single));
    assert_eq!(config.target_filter(AnalysisMode::C).matches("main.c"), false);
}

#[test]
fn target_filter_is_made_for_the_mode() {
    let config = configuration(rule_set(), "dir", true, true, false, None).unwrap();
    let filter = config.target_filter(AnalysisMode::Cxx);
    assert_eq!(filter.mode, AnalysisMode::Cxx);
    assert!(filter.patterns.is_none());
    assert!(filter.matches("a.hpp"));
}

#[test]
fn no_filter_arguments_leave_the_choice_to_the_mode() {
    assert!(matches!(compile_filters(None), Ok(None)));
}

#[test]
fn filters_are_compiled_from_the_patterns_given() {
    let compiled = compile_filters(Some(vec![r"\.c$".to_owned(), "^src/".to_owned()]))
        .expect("the patterns compile")
        .expect("there is a set");
    assert_eq!(compiled.patterns().to_vec(), vec![r"\.c$".to_owned(), "^src/".to_owned()]);
    assert!(compiled.is_match("src/a.txt"));
    assert!(compiled.is_match("lib/a.c"));
    assert!(!compiled.is_match("lib/a.txt"));
}

#[test]
fn a_filter_flag_without_patterns_gives_an_empty_set() {
    let compiled = compile_filters(Some(Vec::new())).expect("nothing to compile");
    let set = compiled.expect("there is a set");
    assert_eq!(set.len(), 0);
    assert!(!set.is_match("anything"));
}

#[test]
fn a_filter_that_does_not_compile_is_a_configuration_error() {
    let failed = compile_filters(Some(vec![r"\.c$".to_owned(), "(".to_owned()]));
    match failed {
        Err(ConfigError::InvalidFilter(reason)) => {
            assert!(reason.contains("unclosed group"), "{reason}");
            let message = ConfigError::InvalidFilter(reason.clone()).message();
            assert_eq!(message, format!("invalid path filter(s): {reason}"));
        }
        other => panic!("expected an invalid filter, got {:?}", other.map(|_| ())),
    }
}

#[test]
fn configuration_errors_have_their_messages() {
    assert_eq!(ConfigError::NoOutput.message(), "no display or reporting options set");
    assert_eq!(
        ConfigError::NoRules.message(),
        "no viable rules available at the path specified"
    );
    assert_eq!(
        ConfigError::ConflictingOutputs.message(),
        "the match display and the summary table cannot be used together"
    );
    assert_eq!(
        ConfigError::InvalidFilter("bad".to_owned()).message(),
        "invalid path filter(s): bad"
    );
}

#[test]
fn analysis_errors_have_their_messages() {
    assert_eq!(
        AnalysisError::CannotOpen.message(AnalysisMode::Binary),
        "cannot create IDB for scan target"
    );
    assert_eq!(AnalysisError::CannotOpen.message(AnalysisMode::C), "cannot open file to scan");
    assert_eq!(AnalysisError::CannotOpen.message(AnalysisMode::Cxx), "cannot open file to scan");
    for mode in [AnalysisMode::Binary, AnalysisMode::C, AnalysisMode::Cxx] {
        assert_eq!(
            AnalysisError::DecompilerUnavailable.message(mode),
            "cannot process IDB as decompiler is not available"
        );
        assert_eq!(AnalysisError::InvalidRules.message(mode), "cannot construct rule matcher");
        assert_eq!(AnalysisError::MatchFailed.message(mode), "cannot perform rule matching");
    }
}

#[test]
fn scan_errors_show_the_message_of_their_cause() {
    assert_eq!(
        ScanError::Config(ConfigError::NoRules).message(AnalysisMode::C),
        "no viable rules available at the path specified"
    );
    assert_eq!(
        ScanError::Analysis(AnalysisError::DecompilerUnavailable).message(AnalysisMode::Binary),
        "cannot process IDB as decompiler is not available"
    );
    assert_eq!(
        ScanError::Analysis(AnalysisError::CannotOpen).message(AnalysisMode::Cxx),
        "cannot open file to scan"
    );
}
