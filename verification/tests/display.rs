use rulescan::binary::{self, Database, DecompiledFunction};
use rulescan::common::{MatchResult, MatchResultGroup};
use rulescan::display::{address_cell, format_address, function_name_cell};
use rulescan::rules::{RuleTable, Severity};
use rulescan::source;
use weggli_ruleset::RuleSet;
use wegglix::result::QueryResult;

const RULE: &str = "
id: unbounded-copy
severity: high
check-patterns:
- name: strcpy
  regex: func=^strcpy$
  pattern: |
    { $func(); }
";

const TEXT: &str = "void f(char *d, const char *s)
{
  int a = 0;
  a = a + 1;
  a = a + 2;
  strcpy(d, s);
  a = a + 3;
  a = a + 4;
  return;
}";

const TABLE: &str = "\
┌────────┬───────────────┬──────────────────┬────────────────┬─────────┬──────────┐
│ File   │ Function name │ Function address │ Rule           │ Checker │ Severity │
├────────┼───────────────┼──────────────────┼────────────────┼─────────┼──────────┤
│ demo.c │ -             │ -                │ unbounded-copy │ strcpy  │ high     │
└────────┴───────────────┴──────────────────┴────────────────┴─────────┴──────────┘
";

const TABLE_OF_FUNCTION: &str = "\
┌───────┬───────────────┬──────────────────┬────────────────┬─────────┬──────────┐
│ File  │ Function name │ Function address │ Rule           │ Checker │ Severity │
├───────┼───────────────┼──────────────────┼────────────────┼─────────┼──────────┤
│ a.out │ copy_name     │ 0x401a2f         │ unbounded-copy │ strcpy  │ high     │
└───────┴───────────────┴──────────────────┴────────────────┴─────────┴──────────┘
";

fn rule_set() -> RuleSet {
    RuleSet::from_str(RULE).expect("the rule parses")
}

fn text_group() -> MatchResultGroup {
    source::scan_aux(Some(TEXT.to_owned()), false, rule_set()).expect("the text is scanned")
}

fn function_group(name: Option<&str>) -> MatchResultGroup {
    let database = Database {
        decompiler_available: true,
        functions: vec![DecompiledFunction {
            name: name.map(str::to_owned),
            address: 0x401a2f,
            pseudocode: Some(TEXT.to_owned()),
        }],
    };
    let mut groups = binary::scan_aux(Some(database), rule_set()).expect("the target is scanned");
    assert_eq!(groups.len(), 1);
    groups.remove(0)
}

fn payload() -> QueryResult {
    serde_json::from_str(
        "{\"captures\":[{\"range\":{\"start\":0,\"end\":4},\"query_id\":0,\"capture_idx\":0}],\
         \"vars\":{},\"function\":{\"start\":0,\"end\":4}}",
    )
    .expect("the payload parses")
}

#[test]
fn address_is_written_in_lower_case_hex() {
    assert_eq!(format_address(0), "0x0");
    assert_eq!(format_address(9), "0x9");
    assert_eq!(format_address(10), "0xa");
    assert_eq!(format_address(15), "0xf");
    assert_eq!(format_address(16), "0x10");
    assert_eq!(format_address(255), "0xff");
    assert_eq!(format_address(0x1a2b), "0x1a2b");
    assert_eq!(format_address(0x401000), "0x401000");
    assert_eq!(format_address(0xdead_beef), "0xdeadbeef");
    assert_eq!(format_address(0x0123_4567_89ab_cdef), "0x123456789abcdef");
    assert_eq!(format_address(u64::MAX), "0xffffffffffffffff");
}

#[test]
fn address_is_written_as_the_formatter_writes_it() {
    for value in [0u64, 1, 7, 8, 255, 256, 4095, 4096, 65535, 1 << 32, (1 << 63) + 5, u64::MAX - 1] {
        assert_eq!(format_address(value), format!("{value:#x}"));
    }
}

#[test]
fn cells_show_a_dash_for_what_is_absent() {
    assert_eq!(address_cell(None), "-");
    assert_eq!(address_cell(Some(0)), "0x0");
    assert_eq!(address_cell(Some(0x7fff_0000)), "0x7fff0000");
    assert_eq!(function_name_cell(&None), "-");
    assert_eq!(function_name_cell(&Some("main".to_owned())), "main");
    assert_eq!(function_name_cell(&Some(String::new())), "");
}

#[test]
fn new_group_has_no_origin() {
    let group = MatchResultGroup::new("int x;".to_owned(), Vec::new());
    assert_eq!(group.source, "int x;");
    assert_eq!(group.function_name, None);
    assert_eq!(group.function_address, None);
    assert!(group.results.is_empty());
}

#[test]
fn new_with_keeps_what_it_is_given() {
    let found = vec![
        MatchResult { rule: 3, checker: 1, result: payload() },
        MatchResult { rule: 0, checker: 2, result: payload() },
    ];
    let group = MatchResultGroup::new_with(
        Some("sub_401000".to_owned()),
        Some(0x401000),
        "body".to_owned(),
        found,
    );
    assert_eq!(group.source, "body");
    assert_eq!(group.function_name.as_deref(), Some("sub_401000"));
    assert_eq!(group.function_address, Some(0x401000));
    assert_eq!(group.results.len(), 2);
    assert_eq!((group.results[0].rule, group.results[0].checker), (3, 1));
    assert_eq!((group.results[1].rule, group.results[1].checker), (0, 2));
    assert_eq!(group.results[0].result, payload());
}

#[test]
fn new_with_takes_name_and_address_each_on_its_own() {
    let named = MatchResultGroup::new_with(Some("f".to_owned()), None, String::new(), Vec::new());
    assert_eq!((named.function_name.as_deref(), named.function_address), (Some("f"), None));
    let placed = MatchResultGroup::new_with(None, Some(16), String::new(), Vec::new());
    assert_eq!((placed.function_name.as_deref(), placed.function_address), (None, Some(16)));
}

#[test]
fn group_resolves_against_the_rules_it_was_found_with() {
    let table = RuleTable::from_rules(&rule_set());
    assert!(text_group().resolves(&table));
    assert!(MatchResultGroup::new(String::new(), Vec::new()).resolves(&table));
}

#[test]
fn group_with_a_stray_index_does_not_resolve() {
    let table = RuleTable::from_rules(&rule_set());
    let stray_rule = MatchResultGroup::new(
        "body".to_owned(),
        vec![MatchResult { rule: 1, checker: 0, result: payload() }],
    );
    assert!(!stray_rule.resolves(&table));
    let stray_checker = MatchResultGroup::new(
        "body".to_owned(),
        vec![
            MatchResult { rule: 0, checker: 0, result: payload() },
            MatchResult { rule: 0, checker: 1, result: payload() },
        ],
    );
    assert!(!stray_checker.resolves(&table));
}

#[test]
fn pretty_text_of_a_source_file() {
    let table = RuleTable::from_rules(&rule_set());
    let text = text_group().display_pretty(&table, "demo.c", 1);
    let lines: Vec<&str> = text.lines().collect();
    assert_eq!(lines[0], "[High] rule unbounded-copy, check strcpy triggered in demo.c");
    assert_eq!(lines[1], "   1: void f(char *d, const char *s)");
    assert_eq!(lines[2], "   2: {");
    assert_eq!(lines[3], "   .");
    assert_eq!(lines[4], "   5:   a = a + 2;");
    assert!(lines[5].starts_with("   6:   "));
    assert!(lines[5].contains("strcpy"));
    assert_eq!(lines[6], "   7:   a = a + 3;");
    assert_eq!(lines[7], "   .");
    assert_eq!(lines[8], "   9:   return;");
    assert_eq!(lines[9], "  10: }");
    assert_eq!(lines.len(), 10);
    assert!(text.ends_with("}\n"));
}

#[test]
fn pretty_text_names_function_and_address() {
    let table = RuleTable::from_rules(&rule_set());
    let text = function_group(Some("copy_name")).display_pretty(&table, "a.out", 0);
    assert_eq!(
        text.lines().next(),
        Some(
            "[High] rule unbounded-copy, check strcpy triggered in a.out in function copy_name \
             at address 0x401a2f"
        )
    );
}

#[test]
fn pretty_text_of_a_function_without_a_name() {
    let table = RuleTable::from_rules(&rule_set());
    let text = function_group(None).display_pretty(&table, "a.out", 0);
    assert_eq!(
        text.lines().next(),
        Some("[High] rule unbounded-copy, check strcpy triggered in a.out at address 0x401a2f")
    );
}

#[test]
fn pretty_text_of_a_group_with_a_name_only() {
    let table = RuleTable::from_rules(&rule_set());
    let mut group = function_group(Some("copy_name"));
    group.function_address = None;
    let text = group.display_pretty(&table, "a.out", 0);
    assert_eq!(
        text.lines().next(),
        Some("[High] rule unbounded-copy, check strcpy triggered in a.out in function copy_name")
    );
}

#[test]
fn pretty_text_of_no_match_is_empty() {
    let table = RuleTable::from_rules(&rule_set());
    let group = MatchResultGroup::new(TEXT.to_owned(), Vec::new());
    assert_eq!(group.display_pretty(&table, "demo.c", 5), "");
}

#[test]
fn pretty_text_widens_with_the_context() {
    let table = RuleTable::from_rules(&rule_set());
    let group = text_group();
    let narrow = group.display_pretty(&table, "demo.c", 0);
    let wide = group.display_pretty(&table, "demo.c", 5);
    assert!(narrow.lines().count() < wide.lines().count());
    assert_eq!(wide.lines().count(), 11);
}

#[test]
fn pretty_text_takes_any_context() {
    let table = RuleTable::from_rules(&rule_set());
    let group = text_group();
    let whole = group.display_pretty(&table, "demo.c", 10);
    assert_eq!(group.display_pretty(&table, "demo.c", usize::MAX), whole);
    assert_eq!(group.display_pretty(&table, "demo.c", usize::MAX / 2 + 1), whole);
}

#[test]
fn summary_table_of_a_source_file() {
    let table = RuleTable::from_rules(&rule_set());
    assert_eq!(text_group().display_table(&table, "demo.c"), TABLE);
}

#[test]
fn summary_table_of_a_function() {
    let table = RuleTable::from_rules(&rule_set());
    assert_eq!(function_group(Some("copy_name")).display_table(&table, "a.out"), TABLE_OF_FUNCTION);
}

#[test]
fn summary_table_has_one_row_for_each_match() {
    let table = RuleTable::from_rules(&rule_set());
    let mut group = text_group();
    let again = group.results[0].clone();
    group.results.push(again);
    let text = group.display_table(&table, "demo.c");
    assert_eq!(text.lines().count(), 6);
    assert_eq!(text.lines().filter(|line| line.contains("unbounded-copy")).count(), 2);
}

#[test]
fn record_resolves_indices_to_names() {
    let table = RuleTable::from_rules(&rule_set());
    let group = function_group(Some("copy_name"));
    let mut records = Vec::new();
    group.write_record(&table, "a.out", &mut records);
    assert_eq!(records.len(), 1);
    let record = &records[0];
    assert_eq!(record.path, "a.out");
    assert_eq!(record.source, TEXT);
    assert_eq!(record.function_name.as_deref(), Some("copy_name"));
    assert_eq!(record.function_address, Some(0x401a2f));
    assert_eq!(record.results.len(), 1);
    assert_eq!(record.results[0].rule, "unbounded-copy");
    assert_eq!(record.results[0].checker, "strcpy");
    assert_eq!(record.results[0].severity, Severity::High);
    assert_eq!(record.results[0].result, group.results[0].result);
}

#[test]
fn record_is_appended_behind_earlier_records() {
    let table = RuleTable::from_rules(&rule_set());
    let mut records = Vec::new();
    text_group().write_record(&table, "first.c", &mut records);
    function_group(None).write_record(&table, "second", &mut records);
    MatchResultGroup::new("void g();".to_owned(), Vec::new()).write_record(
        &table,
        "third.c",
        &mut records,
    );
    let paths: Vec<&str> = records.iter().map(|record| record.path.as_str()).collect();
    assert_eq!(paths, vec!["first.c", "second", "third.c"]);
    assert_eq!(records[0].function_address, None);
    assert_eq!(records[1].function_address, Some(0x401a2f));
    assert_eq!(records[1].function_name, None);
    assert!(records[2].results.is_empty());
    assert_eq!(records[2].source, "void g();");
}
