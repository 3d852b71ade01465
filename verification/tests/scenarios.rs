use rulescan::binary::{self, Database, DecompiledFunction};
use rulescan::config::Configuration;
use rulescan::common::MatchResultGroupRecord;
use rulescan::reporter::{Emission, TaskResult};
use rulescan::source;
use weggli_ruleset::RuleSet;

const RULE: &str = "
id: unbounded-copy
severity: high
check-patterns:
- name: strcpy
  regex: func=^strcpy$
  pattern: |
    { $func(); }
";

const COPIES: &str = "char *__fastcall copy_name(char *dst, const char *src)
{
  strcpy(dst, src);
  return dst;
}";

const QUIET: &str = "int __fastcall add(int a, int b)
{
  return a + b;
}";

fn rule_set() -> RuleSet {
    RuleSet::from_str(RULE).expect("the rule parses")
}

fn function(name: &str, address: u64, pseudocode: Option<&str>) -> DecompiledFunction {
    DecompiledFunction {
        name: Some(name.to_owned()),
        address,
        pseudocode: pseudocode.map(str::to_owned),
    }
}

fn collect(emissions: Vec<Emission>) -> (String, Vec<MatchResultGroupRecord>) {
    let mut console = String::new();
    let mut records = Vec::new();
    for emission in emissions {
        console.push_str(&emission.console);
        records.extend(emission.records);
    }
    (console, records)
}

#[test]
fn one_of_three_binaries_has_no_decompiler() {
    let config = Configuration::new(
        rule_set(),
        "fw".to_owned(),
        true,
        None,
        false,
        5,
        false,
        Some("out.jsonl"),
    )
    .unwrap();
    let (filter, processor, reporter) = binary::scan_many(&config).expect("valid");
    let targets = vec![
        (
            "fw/one",
            Database {
                decompiler_available: true,
                functions: vec![
                    function("copy_name", 0x1000, Some(COPIES)),
                    function("add", 0x1040, Some(QUIET)),
                ],
            },
        ),
        ("fw/two", Database { decompiler_available: false, functions: Vec::new() }),
        (
            "fw/three",
            Database {
                decompiler_available: true,
                functions: vec![
                    function("add", 0x3000, Some(QUIET)),
                    function("copy_a", 0x3040, Some(COPIES)),
                    function("lost", 0x3080, None),
                    function("copy_b", 0x30c0, Some(COPIES)),
                ],
            },
        ),
    ];
    let mut emissions = Vec::new();
    for (path, database) in targets {
        assert!(filter.is_candidate(path, false));
        let result: TaskResult = processor.process_task(path.to_owned(), Some(database));
        emissions.push(reporter.process_task_result(&result));
    }
    let (console, records) = collect(emissions);
    assert_eq!(
        console,
        "failed to analyse fw/two: cannot process IDB as decompiler is not available\n"
    );
    assert_eq!(console.lines().count(), 1);
    let found: Vec<(&str, Option<&str>)> = records
        .iter()
        .map(|record| (record.path.as_str(), record.function_name.as_deref()))
        .collect();
    assert_eq!(
        found,
        vec![
            ("fw/one", Some("copy_name")),
            ("fw/three", Some("copy_a")),
            ("fw/three", Some("copy_b")),
        ]
    );
    assert!(records.iter().all(|record| !record.results.is_empty()));
}

#[test]
fn every_source_file_is_accounted_for_once() {
    let config = Configuration::new(
        rule_set(),
        "src".to_owned(),
        true,
        None,
        false,
        5,
        false,
        Some("out.jsonl"),
    )
    .unwrap();
    let (filter, processor, reporter) = source::scan_many(&config, false).expect("valid");
    let copies = "void f(char *d, const char *s) { strcpy(d, s); }";
    let listing: Vec<(&str, Option<&str>)> = vec![
        ("src/a.c", Some(copies)),
        ("src/notes.txt", Some(copies)),
        ("src/b.c", None),
        ("src/c.h", Some(copies)),
        ("src/d.cpp", Some(copies)),
        ("src/e.c", None),
    ];
    let mut qualifying = Vec::new();
    let mut emissions = Vec::new();
    for (path, contents) in listing {
        if !filter.is_candidate(path, false) {
            continue;
        }
        qualifying.push(path);
        let result = processor.process_task(path.to_owned(), contents.map(str::to_owned));
        emissions.push(source::process_task_result(&reporter, result));
    }
    assert_eq!(qualifying, vec!["src/a.c", "src/b.c", "src/c.h", "src/e.c"]);
    let (console, records) = collect(emissions);
    let written: Vec<&str> = records.iter().map(|record| record.path.as_str()).collect();
    assert_eq!(written, vec!["src/a.c", "src/c.h"]);
    assert_eq!(
        console,
        "failed to analyse src/b.c: cannot open file to scan\n\
         failed to analyse src/e.c: cannot open file to scan\n"
    );
    assert_eq!(console.lines().count() + records.len(), qualifying.len());
}

#[test]
fn a_scan_over_source_files_goes_on_after_a_failure() {
    let config =
        Configuration::new(rule_set(), "src".to_owned(), true, None, false, 5, true, None).unwrap();
    let (_, processor, reporter) = source::scan_many(&config, false).expect("valid");
    let copies = "void f(char *d, const char *s) { strcpy(d, s); }";
    let first =
        source::process_task_result(&reporter, processor.process_task("gone.c".to_owned(), None));
    let second = source::process_task_result(
        &reporter,
        processor.process_task("here.c".to_owned(), Some(copies.to_owned())),
    );
    assert_eq!(first.console, "failed to analyse gone.c: cannot open file to scan\n");
    assert!(second.console.contains("│ here.c │"));
    assert!(first.records.is_empty() && second.records.is_empty());
}
