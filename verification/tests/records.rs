use rulescan::binary::{self, Database, DecompiledFunction};
use rulescan::common::{MatchResultGroupRecord, MatchResultRecord};
use rulescan::config::Configuration;
use rulescan::reporter::Emission;
use rulescan::rules::Severity;
use rulescan::source;
use serde_json::Value;
use weggli_ruleset::RuleSet;
use wegglix::result::QueryResult;

const RULE: &str = "
id: unbounded-copy
severity: critical
check-patterns:
- name: st(r|p)cpy
  regex: func=^st(r|p)cpy$
  pattern: |
    { $func(); }
";

const TEXT: &str = "void f(char *d, const char *s)
{
  strcpy(d, \"a\\tb\");
  stpcpy(d, s);
}";

fn rule_set() -> RuleSet {
    RuleSet::from_str(RULE).expect("the rule parses")
}

fn payload() -> QueryResult {
    serde_json::from_str(
        "{\"captures\":[{\"range\":{\"start\":0,\"end\":4},\"query_id\":0,\"capture_idx\":0}],\
         \"vars\":{\"$x\":0},\"function\":{\"start\":0,\"end\":4}}",
    )
    .expect("the payload parses")
}

fn record_of_the_text() -> MatchResultGroupRecord {
    let config = Configuration::new(
        rule_set(),
        "src/dir with space/démo.c".to_owned(),
        false,
        None,
        false,
        5,
        false,
        Some("out.jsonl"),
    )
    .unwrap();
    let mut records =
        source::scan_one(&config, false, Some(TEXT.to_owned())).expect("scanned").records;
    assert_eq!(records.len(), 1);
    records.remove(0)
}

fn plain_record(severity: Severity) -> MatchResultRecord {
    MatchResultRecord {
        rule: "r".to_owned(),
        checker: "c".to_owned(),
        severity,
        result: payload(),
    }
}

#[test]
fn a_match_is_written_as_an_object_of_four_members() {
    let json = plain_record(Severity::High).to_json();
    let payload_json = serde_json::to_string(&payload()).unwrap();
    assert_eq!(
        json,
        format!("{{\"rule\":\"r\",\"checker\":\"c\",\"severity\":\"high\",\"result\":{payload_json}}}")
    );
}

#[test]
fn severity_is_written_as_the_rule_set_writes_it() {
    let pairs = [
        (Severity::Unrated, weggli_ruleset::rule::Severity::None, "none"),
        (Severity::Low, weggli_ruleset::rule::Severity::Low, "low"),
        (Severity::Medium, weggli_ruleset::rule::Severity::Medium, "medium"),
        (Severity::High, weggli_ruleset::rule::Severity::High, "high"),
        (Severity::Critical, weggli_ruleset::rule::Severity::Critical, "critical"),
    ];
    for (ours, theirs, word) in pairs {
        let read: Value = serde_json::from_str(&plain_record(ours).to_json()).unwrap();
        assert_eq!(read["severity"].as_str(), Some(word));
        assert_eq!(serde_json::to_string(&theirs).unwrap(), format!("\"{word}\""));
        assert_eq!(format!("{theirs:?}"), ours.name());
        assert_eq!(theirs.to_string(), ours.label());
    }
}

#[test]
fn a_record_is_written_as_one_line() {
    let record = MatchResultGroupRecord {
        path: "demo.c".to_owned(),
        source: "int x;\nint y;".to_owned(),
        function_name: None,
        function_address: None,
        results: vec![plain_record(Severity::Low)],
    };
    let payload_json = serde_json::to_string(&payload()).unwrap();
    assert_eq!(
        record.to_line(),
        format!(
            "{{\"path\":\"demo.c\",\"source\":\"int x;\\nint y;\",\"function_name\":null,\
             \"function_address\":null,\"results\":[{{\"rule\":\"r\",\"checker\":\"c\",\
             \"severity\":\"low\",\"result\":{payload_json}}}]}}\n"
        )
    );
}

#[test]
fn a_record_of_a_function_is_written_with_name_and_address() {
    let record = MatchResultGroupRecord {
        path: "a.out".to_owned(),
        source: "return;".to_owned(),
        function_name: Some("sub_\"x\"".to_owned()),
        function_address: Some(4198959),
        results: Vec::new(),
    };
    assert_eq!(
        record.to_line(),
        "{\"path\":\"a.out\",\"source\":\"return;\",\"function_name\":\"sub_\\\"x\\\"\",\
         \"function_address\":4198959,\"results\":[]}\n"
    );
}

#[test]
fn addresses_are_written_in_decimal() {
    for address in [0u64, 7, 10, 99, 100, 4096, 1 << 32, u64::MAX - 1, u64::MAX] {
        let record = MatchResultGroupRecord {
            path: String::new(),
            source: String::new(),
            function_name: None,
            function_address: Some(address),
            results: Vec::new(),
        };
        let line = record.to_line();
        assert!(
            line.contains(&format!(",\"function_address\":{address},\"results\"")),
            "{line}"
        );
        let read: Value = serde_json::from_str(&line).unwrap();
        assert_eq!(read["function_address"].as_u64(), Some(address));
    }
}

#[test]
fn matches_are_separated_by_commas() {
    let mut record = MatchResultGroupRecord {
        path: "p".to_owned(),
        source: "s".to_owned(),
        function_name: None,
        function_address: None,
        results: Vec::new(),
    };
    for count in 0..4usize {
        let line = record.to_line();
        let read: Value = serde_json::from_str(&line).expect("the line parses");
        assert_eq!(read["results"].as_array().map(Vec::len), Some(count));
        assert_eq!(line.matches("},{").count(), count.saturating_sub(1));
        record.results.push(plain_record(Severity::Medium));
    }
}

#[test]
fn a_record_written_as_a_line_reads_back_the_same() {
    let record = record_of_the_text();
    assert_eq!(record.results.len(), 2);
    let line = record.to_line();
    assert_eq!(line.matches('\n').count(), 1);
    assert!(line.ends_with("}\n"));

    let read: Value = serde_json::from_str(&line).expect("the line parses");
    let members: Vec<&str> =
        read.as_object().expect("an object").keys().map(String::as_str).collect();
    assert_eq!(members.len(), 5);
    assert_eq!(read["path"].as_str(), Some("src/dir with space/démo.c"));
    assert_eq!(read["source"].as_str(), Some(TEXT));
    assert!(read["function_name"].is_null());
    assert!(read["function_address"].is_null());
    let results = read["results"].as_array().expect("a list of matches");
    assert_eq!(results.len(), record.results.len());
    for (read, written) in results.iter().zip(&record.results) {
        assert_eq!(read["rule"].as_str(), Some("unbounded-copy"));
        assert_eq!(read["checker"].as_str(), Some("st(r|p)cpy"));
        assert_eq!(read["severity"].as_str(), Some("critical"));
        let payload: QueryResult =
            serde_json::from_value(read["result"].clone()).expect("the payload parses");
        assert_eq!(payload, written.result);
    }
}

#[test]
fn a_record_of_a_function_reads_back_the_same() {
    let database = Database {
        decompiler_available: true,
        functions: vec![DecompiledFunction {
            name: Some("copy\\name\u{1}".to_owned()),
            address: u64::MAX,
            pseudocode: Some(TEXT.to_owned()),
        }],
    };
    let config = Configuration::new(
        rule_set(),
        "fw/a.i64".to_owned(),
        false,
        None,
        false,
        5,
        false,
        Some("-"),
    )
    .unwrap();
    let emission = binary::scan_one(&config, Some(database)).expect("scanned");
    assert_eq!(emission.records.len(), 1);
    let read: Value = serde_json::from_str(&emission.records[0].to_line()).expect("parses");
    assert_eq!(read["path"].as_str(), Some("fw/a.i64"));
    assert_eq!(read["source"].as_str(), Some(TEXT));
    assert_eq!(read["function_name"].as_str(), Some("copy\\name\u{1}"));
    assert_eq!(read["function_address"].as_u64(), Some(u64::MAX));
    assert_eq!(read["results"].as_array().map(Vec::len), Some(2));
}

#[test]
fn durable_text_has_one_line_for_each_record() {
    let first = record_of_the_text();
    let mut second = record_of_the_text();
    second.path = "other.c".to_owned();
    let expected = format!("{}{}", first.to_line(), second.to_line());
    let emission = Emission { console: "ignored".to_owned(), records: vec![first, second] };
    let text = emission.durable();
    assert_eq!(text, expected);
    assert_eq!(text.lines().count(), 2);
    let paths: Vec<String> = text
        .lines()
        .map(|line| serde_json::from_str::<Value>(line).expect("parses"))
        .map(|read| read["path"].as_str().expect("a path").to_owned())
        .collect();
    assert_eq!(paths, vec!["src/dir with space/démo.c".to_owned(), "other.c".to_owned()]);
}

#[test]
fn durable_text_of_no_record_is_empty() {
    let emission = Emission { console: "text".to_owned(), records: Vec::new() };
    assert_eq!(emission.durable(), "");
}
