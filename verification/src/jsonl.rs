//! The durable channel: a record written as one line of JSON.
//!
//! A line is an object with the members `path`, `source`, `function_name`,
//! `function_address` and `results`, in this order and without white space. An absent name
//! or address is `null`. Each result is an object with the members `rule`, `checker`,
//! `severity` and `result`, the last of which is the captured ranges as the matcher's own
//! types write themselves.

use vstd::prelude::*;
use vstd::seq_lib::lemma_concat_associative;
use vstd::string::*;
use wegglix::result::QueryResult;

use crate::common::{
    record_views, GroupRecordView, MatchResultGroupRecord, MatchResultRecord, RecordView,
};
use crate::reporter::Emission;
use crate::rules::Severity;

verus! {

/// A text as a JSON string: in double quotes, with the characters escaped that JSON does
/// not take as they are.
pub uninterp spec fn json_text(text: Seq<char>) -> Seq<char>;

/// The captured ranges of a match as JSON.
pub uninterp spec fn json_payload(result: QueryResult) -> Seq<char>;

/// Whether a text holds no line end.
pub open spec fn on_one_line(text: Seq<char>) -> bool {
    forall|i: int| 0 <= i < text.len() ==> text[i] != '\n'
}

/// Whether a text is one line: it ends in a line end and holds no other.
pub open spec fn is_line(text: Seq<char>) -> bool {
    text.len() > 0 && text.last() == '\n' && on_one_line(text.drop_last())
}

/// The number of line ends in a text.
pub open spec fn line_ends(text: Seq<char>) -> nat
    decreases text.len(),
{
    if text.len() == 0 {
        0
    } else {
        line_ends(text.drop_last()) + if text.last() == '\n' {
            1nat
        } else {
            0nat
        }
    }
}

/// Calls `serde_json::to_string` on a text. It fails only where a value refuses to be
/// written or a map has a key that is no string; a text is neither. What it writes is
/// compact: a line end in the text is written as an escape, so the JSON holds none.
#[verifier::external_body]
fn write_text(text: &str) -> (json: String)
    ensures
        json@ == json_text(text@),
        on_one_line(json@),
{
    serde_json::to_string(text).unwrap_or_default()
}

/// Calls `serde_json::to_string` on the captured ranges of a match. `QueryResult` writes
/// its fields one by one, and the one map among them has texts as its keys, so this does
/// not fail either. What it writes is compact and holds no line end.
#[verifier::external_body]
fn write_payload(result: &QueryResult) -> (json: String)
    ensures
        json@ == json_payload(*result),
        on_one_line(json@),
{
    serde_json::to_string(result).unwrap_or_default()
}

/// One decimal digit. `digit` is below ten.
pub open spec fn decimal_digit(digit: int) -> Seq<char> {
    if digit == 0 {
        "0"@
    } else if digit == 1 {
        "1"@
    } else if digit == 2 {
        "2"@
    } else if digit == 3 {
        "3"@
    } else if digit == 4 {
        "4"@
    } else if digit == 5 {
        "5"@
    } else if digit == 6 {
        "6"@
    } else if digit == 7 {
        "7"@
    } else if digit == 8 {
        "8"@
    } else {
        "9"@
    }
}

/// The decimal digits of `value`, most significant first and without leading zeros.
pub open spec fn decimal_digits(value: nat) -> Seq<char>
    decreases value,
{
    if value < 10 {
        decimal_digit(value as int)
    } else {
        decimal_digits(value / 10) + decimal_digit((value % 10) as int)
    }
}

/// An optional text as JSON: the text as a string, or `null`.
pub open spec fn json_optional_text(text: Option<Seq<char>>) -> Seq<char> {
    match text {
        Some(present) => json_text(present),
        None => "null"@,
    }
}

/// An optional address as JSON: the address as a decimal number, or `null`.
pub open spec fn json_optional_address(address: Option<u64>) -> Seq<char> {
    match address {
        Some(present) => decimal_digits(present as nat),
        None => "null"@,
    }
}

/// A severity as JSON: its name in lower case, as a string.
pub open spec fn json_severity(severity: Severity) -> Seq<char> {
    match severity {
        Severity::Unrated => "\"none\""@,
        Severity::Low => "\"low\""@,
        Severity::Medium => "\"medium\""@,
        Severity::High => "\"high\""@,
        Severity::Critical => "\"critical\""@,
    }
}

/// One match of a record as a JSON object.
pub open spec fn match_json(found: RecordView) -> Seq<char> {
    "{\"rule\":"@ + json_text(found.rule) + ",\"checker\":"@ + json_text(found.checker)
        + ",\"severity\":"@ + json_severity(found.severity) + ",\"result\":"@ + json_payload(
        found.result,
    ) + "}"@
}

/// The first `count` matches of a record as JSON objects with commas between them.
pub open spec fn matches_json(results: Seq<RecordView>, count: nat) -> Seq<char>
    decreases count,
{
    if count == 0 {
        Seq::empty()
    } else if count == 1 {
        match_json(results[0])
    } else {
        matches_json(results, (count - 1) as nat) + ","@ + match_json(results[count - 1])
    }
}

/// A record as a JSON object.
pub open spec fn record_json(record: GroupRecordView) -> Seq<char> {
    "{\"path\":"@ + json_text(record.path) + ",\"source\":"@ + json_text(record.source)
        + ",\"function_name\":"@ + json_optional_text(record.function_name)
        + ",\"function_address\":"@ + json_optional_address(record.function_address)
        + ",\"results\":["@ + matches_json(record.results, record.results.len()) + "]}"@
}

/// A record as one line of the durable output: the object and a line end.
pub open spec fn record_line(record: GroupRecordView) -> Seq<char> {
    record_json(record) + "\n"@
}

/// The first `count` records as lines of the durable output, one after the other.
pub open spec fn record_lines(records: Seq<GroupRecordView>, count: nat) -> Seq<char>
    decreases count,
{
    if count == 0 {
        Seq::empty()
    } else {
        record_lines(records, (count - 1) as nat) + record_line(records[count - 1])
    }
}

fn decimal_digit_str(digit: u64) -> (text: &'static str)
    requires
        digit < 10,
    ensures
        text@ == decimal_digit(digit as int),
        on_one_line(text@),
{
    proof {
        reveal_strlit("0");
        reveal_strlit("1");
        reveal_strlit("2");
        reveal_strlit("3");
        reveal_strlit("4");
        reveal_strlit("5");
        reveal_strlit("6");
        reveal_strlit("7");
        reveal_strlit("8");
        reveal_strlit("9");
    }
    if digit == 0 {
        "0"
    } else if digit == 1 {
        "1"
    } else if digit == 2 {
        "2"
    } else if digit == 3 {
        "3"
    } else if digit == 4 {
        "4"
    } else if digit == 5 {
        "5"
    } else if digit == 6 {
        "6"
    } else if digit == 7 {
        "7"
    } else if digit == 8 {
        "8"
    } else {
        "9"
    }
}

fn push_decimal(out: &mut String, value: u64)
    ensures
        final(out)@ == old(out)@ + decimal_digits(value as nat),
        on_one_line(old(out)@) ==> on_one_line(final(out)@),
    decreases value,
{
    if value < 10 {
        out.append(decimal_digit_str(value));
    } else {
        push_decimal(out, value / 10);
        out.append(decimal_digit_str(value % 10));
        assert(out@ =~= old(out)@ + decimal_digits(value as nat));
    }
}

/// Appends a piece that holds no line end to a text that holds none.
fn push_piece(out: &mut String, piece: &str)
    requires
        on_one_line(piece@),
    ensures
        final(out)@ == old(out)@ + piece@,
        on_one_line(old(out)@) ==> on_one_line(final(out)@),
{
    out.append(piece);
}

fn severity_word(severity: Severity) -> (text: &'static str)
    ensures
        text@ == json_severity(severity),
        on_one_line(text@),
{
    proof {
        reveal_strlit("\"none\"");
        reveal_strlit("\"low\"");
        reveal_strlit("\"medium\"");
        reveal_strlit("\"high\"");
        reveal_strlit("\"critical\"");
    }
    match severity {
        Severity::Unrated => "\"none\"",
        Severity::Low => "\"low\"",
        Severity::Medium => "\"medium\"",
        Severity::High => "\"high\"",
        Severity::Critical => "\"critical\"",
    }
}

impl MatchResultRecord {
    /// The match as a JSON object, which holds no line end.
    pub fn to_json(&self) -> (json: String)
        ensures
            json@ == match_json(self@),
            on_one_line(json@),
    {
        proof {
            reveal_strlit("{\"rule\":");
            reveal_strlit(",\"checker\":");
            reveal_strlit(",\"severity\":");
            reveal_strlit(",\"result\":");
            reveal_strlit("}");
        }
        let mut json = String::from_str("{\"rule\":");
        push_piece(&mut json, write_text(self.rule.as_str()).as_str());
        push_piece(&mut json, ",\"checker\":");
        push_piece(&mut json, write_text(self.checker.as_str()).as_str());
        push_piece(&mut json, ",\"severity\":");
        push_piece(&mut json, severity_word(self.severity));
        push_piece(&mut json, ",\"result\":");
        push_piece(&mut json, write_payload(&self.result).as_str());
        push_piece(&mut json, "}");
        json
    }
}

impl MatchResultGroupRecord {
    /// The record as one line of the durable output: the object, which holds no line
    /// end, and the line end behind it.
    pub fn to_line(&self) -> (line: String)
        ensures
            line@ == record_line(self@),
            is_line(line@),
    {
        proof {
            reveal_strlit("{\"path\":");
            reveal_strlit(",\"source\":");
            reveal_strlit(",\"function_name\":");
            reveal_strlit(",\"function_address\":");
            reveal_strlit(",\"results\":[");
            reveal_strlit("null");
            reveal_strlit(",");
            reveal_strlit("]}");
            reveal_strlit("\n");
        }
        let mut line = String::from_str("{\"path\":");
        push_piece(&mut line, write_text(self.path.as_str()).as_str());
        push_piece(&mut line, ",\"source\":");
        push_piece(&mut line, write_text(self.source.as_str()).as_str());
        push_piece(&mut line, ",\"function_name\":");
        match &self.function_name {
            Some(name) => {
                push_piece(&mut line, write_text(name.as_str()).as_str());
            },
            None => {
                push_piece(&mut line, "null");
            },
        }
        push_piece(&mut line, ",\"function_address\":");
        match self.function_address {
            Some(address) => {
                push_decimal(&mut line, address);
            },
            None => {
                push_piece(&mut line, "null");
            },
        }
        push_piece(&mut line, ",\"results\":[");
        let ghost head = line@;
        let mut index: usize = 0;
        while index < self.results.len()
            invariant
                index <= self.results@.len(),
                line@ == head + matches_json(self@.results, index as nat),
                on_one_line(line@),
            decreases self.results@.len() - index,
        {
            if index > 0 {
                proof {
                    reveal_strlit(",");
                }
                push_piece(&mut line, ",");
            }
            let found = self.results[index].to_json();
            assert(self@.results[index as int] == self.results@[index as int]@);
            push_piece(&mut line, found.as_str());
            index = index + 1;
            assert(line@ =~= head + matches_json(self@.results, index as nat));
        }
        push_piece(&mut line, "]}");
        let ghost object = line@;
        line.append("\n");
        assert(line@ =~= record_line(self@));
        assert(line@.drop_last() =~= object);
        line
    }
}

impl Emission {
    /// What is appended to the durable output: each record as one line, in order. There
    /// are as many line ends as records.
    pub fn durable(&self) -> (text: String)
        ensures
            text@ == record_lines(record_views(self.records@), self.records@.len()),
            line_ends(text@) == self.records@.len(),
    {
        let mut text = String::new();
        let mut index: usize = 0;
        while index < self.records.len()
            invariant
                index <= self.records@.len(),
                text@ == record_lines(record_views(self.records@), index as nat),
                line_ends(text@) == index,
            decreases self.records@.len() - index,
        {
            let line = self.records[index].to_line();
            proof {
                lemma_line_has_one_end(line@);
                lemma_line_ends_add(text@, line@);
            }
            text.append(line.as_str());
            index = index + 1;
        }
        text
    }
}

/// The line ends of two texts put together are those of the one and those of the other.
proof fn lemma_line_ends_add(first: Seq<char>, second: Seq<char>)
    ensures
        line_ends(first + second) == line_ends(first) + line_ends(second),
    decreases second.len(),
{
    if second.len() == 0 {
        assert(first + second =~= first);
    } else {
        assert((first + second).drop_last() =~= first + second.drop_last());
        lemma_line_ends_add(first, second.drop_last());
    }
}

/// A line has exactly one line end.
proof fn lemma_line_has_one_end(text: Seq<char>)
    requires
        is_line(text),
    ensures
        line_ends(text) == 1,
{
    lemma_no_line_end(text.drop_last());
}

proof fn lemma_no_line_end(text: Seq<char>)
    requires
        on_one_line(text),
    ensures
        line_ends(text) == 0,
    decreases text.len(),
{
    if text.len() > 0 {
        lemma_no_line_end(text.drop_last());
    }
}

/// The JSON of a text followed by `rest`.
pub open spec fn text_then(text: Seq<char>, rest: Seq<char>) -> Seq<char> {
    json_text(text) + rest
}

/// The JSON of the captured ranges of a match followed by `rest`.
pub open spec fn payload_then(result: QueryResult, rest: Seq<char>) -> Seq<char> {
    json_payload(result) + rest
}

/// What a reader may rely on in the JSON of texts: it begins with a double quote, and it
/// can be told from whatever follows it, so that two texts followed by two rests read the
/// same only if the texts are the same and the rests are.
pub open spec fn texts_delimited() -> bool {
    &&& forall|text: Seq<char>|
        #![trigger json_text(text)]
        json_text(text).len() > 0 && json_text(text)[0] == '"'
    &&& forall|a: Seq<char>, b: Seq<char>, x: Seq<char>, y: Seq<char>|
        #![trigger text_then(a, x), text_then(b, y)]
        text_then(a, x) == text_then(b, y) ==> a == b && x == y
}

/// What a reader may rely on in the JSON of captured ranges: it can be told from whatever
/// follows it, so that two of them followed by two rests read the same only if the rests
/// are the same.
pub open spec fn payloads_delimited() -> bool {
    forall|a: QueryResult, b: QueryResult, x: Seq<char>, y: Seq<char>|
        #![trigger payload_then(a, x), payload_then(b, y)]
        payload_then(a, x) == payload_then(b, y) ==> x == y
}

/// Whether two records name the same path, text and origin and hold as many matches, with
/// the same rule, checker and severity in each place.
pub open spec fn same_findings(first: GroupRecordView, second: GroupRecordView) -> bool {
    &&& first.path == second.path
    &&& first.source == second.source
    &&& first.function_name == second.function_name
    &&& first.function_address == second.function_address
    &&& first.results.len() == second.results.len()
    &&& forall|i: int|
        0 <= i < first.results.len() ==> {
            &&& (#[trigger] first.results[i]).rule == second.results[i].rule
            &&& first.results[i].checker == second.results[i].checker
            &&& first.results[i].severity == second.results[i].severity
        }
}

/// A line can be read back: as long as the JSON of texts and of captured ranges can be
/// told from what follows it, two records that are written as the same line name the same
/// path, text and origin and hold the same matches by rule, checker and severity.
pub proof fn lemma_line_determines_record(first: GroupRecordView, second: GroupRecordView)
    requires
        texts_delimited(),
        payloads_delimited(),
        record_line(first) == record_line(second),
    ensures
        same_findings(first, second),
{
    reveal_strlit("\n");
    assert(record_json(first) =~= record_line(first).drop_last());
    assert(record_json(second) =~= record_line(second).drop_last());
    lemma_record_unfolds(first);
    lemma_record_unfolds(second);
    let close = "]}"@;
    let matches_a = matches_range(first.results, 0, first.results.len() as int, close);
    let matches_b = matches_range(second.results, 0, second.results.len() as int, close);
    let results_a = ",\"results\":["@ + matches_a;
    let results_b = ",\"results\":["@ + matches_b;
    let address_a = ",\"function_address\":"@ + address_then(first.function_address, results_a);
    let address_b = ",\"function_address\":"@ + address_then(second.function_address, results_b);
    let name_a = ",\"function_name\":"@ + name_then(first.function_name, address_a);
    let name_b = ",\"function_name\":"@ + name_then(second.function_name, address_b);
    let source_a = ",\"source\":"@ + text_then(first.source, name_a);
    let source_b = ",\"source\":"@ + text_then(second.source, name_b);
    lemma_cancel(
        "{\"path\":"@,
        text_then(first.path, source_a),
        text_then(second.path, source_b),
    );
    assert(first.path == second.path && source_a == source_b);
    lemma_cancel(
        ",\"source\":"@,
        text_then(first.source, name_a),
        text_then(second.source, name_b),
    );
    assert(first.source == second.source && name_a == name_b);
    lemma_cancel(
        ",\"function_name\":"@,
        name_then(first.function_name, address_a),
        name_then(second.function_name, address_b),
    );
    lemma_name_determined(first.function_name, address_a, second.function_name, address_b);
    lemma_cancel(
        ",\"function_address\":"@,
        address_then(first.function_address, results_a),
        address_then(second.function_address, results_b),
    );
    reveal_strlit(",\"results\":[");
    assert(results_a[0] == ',');
    assert(results_b[0] == ',');
    lemma_address_determined(
        first.function_address,
        results_a,
        second.function_address,
        results_b,
    );
    lemma_cancel(",\"results\":["@, matches_a, matches_b);
    lemma_matches_determined(first.results, second.results, 0);
}

/// A text that is the same behind the same beginning.
proof fn lemma_cancel(head: Seq<char>, first: Seq<char>, second: Seq<char>)
    requires
        head + first == head + second,
    ensures
        first == second,
{
    assert(first =~= (head + first).subrange(head.len() as int, (head + first).len() as int));
    assert(second =~= (head + second).subrange(head.len() as int, (head + second).len() as int));
}

/// An optional name followed by `rest`.
spec fn name_then(name: Option<Seq<char>>, rest: Seq<char>) -> Seq<char> {
    match name {
        Some(present) => text_then(present, rest),
        None => "null"@ + rest,
    }
}

/// An optional address followed by `rest`.
spec fn address_then(address: Option<u64>, rest: Seq<char>) -> Seq<char> {
    json_optional_address(address) + rest
}

/// One match followed by `rest`.
spec fn match_then(found: RecordView, rest: Seq<char>) -> Seq<char> {
    "{\"rule\":"@ + text_then(
        found.rule,
        ",\"checker\":"@ + text_then(
            found.checker,
            ",\"severity\":"@ + (json_severity(found.severity) + (",\"result\":"@ + payload_then(
                found.result,
                "}"@ + rest,
            ))),
        ),
    )
}

/// The matches from `from` up to `to`, with commas between them, followed by `rest`.
spec fn matches_range(results: Seq<RecordView>, from: int, to: int, rest: Seq<char>) -> Seq<char>
    decreases to - from,
{
    if from >= to {
        rest
    } else if from + 1 == to {
        match_then(results[from], rest)
    } else {
        match_then(results[from], ","@ + matches_range(results, from + 1, to, rest))
    }
}

proof fn lemma_match_unfolds(found: RecordView, rest: Seq<char>)
    ensures
        match_json(found) + rest == match_then(found, rest),
{
    assert(match_json(found) + rest =~= match_then(found, rest));
}

/// Taking one more match into a range puts it, behind a comma, before the rest.
proof fn lemma_range_grows(results: Seq<RecordView>, from: int, to: int, rest: Seq<char>)
    requires
        0 <= from < to < results.len(),
    ensures
        matches_range(results, from, to + 1, rest) == matches_range(
            results,
            from,
            to,
            ","@ + match_then(results[to], rest),
        ),
    decreases to - from,
{
    let tail = ","@ + match_then(results[to], rest);
    if from + 1 < to {
        lemma_range_grows(results, from + 1, to, rest);
        assert(matches_range(results, from, to + 1, rest) == match_then(
            results[from],
            ","@ + matches_range(results, from + 1, to + 1, rest),
        ));
        assert(matches_range(results, from, to, tail) == match_then(
            results[from],
            ","@ + matches_range(results, from + 1, to, tail),
        ));
    } else {
        assert(matches_range(results, from + 1, to + 1, rest) == match_then(results[to], rest));
        assert(matches_range(results, from, to + 1, rest) == match_then(
            results[from],
            ","@ + matches_range(results, from + 1, to + 1, rest),
        ));
        assert(matches_range(results, from, to, tail) == match_then(results[from], tail));
    }
}

proof fn lemma_matches_unfold(results: Seq<RecordView>, count: nat, rest: Seq<char>)
    requires
        count <= results.len(),
    ensures
        matches_json(results, count) + rest == matches_range(results, 0, count as int, rest),
    decreases count,
{
    if count == 0 {
        assert(matches_json(results, count) + rest =~= rest);
    } else if count == 1 {
        lemma_match_unfolds(results[0], rest);
    } else {
        let last = results[count - 1];
        let tail = ","@ + match_then(last, rest);
        lemma_match_unfolds(last, rest);
        assert(matches_json(results, count) + rest =~= matches_json(results, (count - 1) as nat)
            + tail);
        lemma_matches_unfold(results, (count - 1) as nat, tail);
        lemma_range_grows(results, 0, count - 1, rest);
    }
}

proof fn lemma_record_unfolds(record: GroupRecordView)
    ensures
        record_json(record) == "{\"path\":"@ + text_then(
            record.path,
            ",\"source\":"@ + text_then(
                record.source,
                ",\"function_name\":"@ + name_then(
                    record.function_name,
                    ",\"function_address\":"@ + address_then(
                        record.function_address,
                        ",\"results\":["@ + matches_range(
                            record.results,
                            0,
                            record.results.len() as int,
                            "]}"@,
                        ),
                    ),
                ),
            ),
        ),
{
    let matches = matches_json(record.results, record.results.len());
    let path = json_text(record.path);
    let source = json_text(record.source);
    let name = json_optional_text(record.function_name);
    let address = json_optional_address(record.function_address);
    lemma_matches_unfold(record.results, record.results.len(), "]}"@);
    let r8 = matches + "]}"@;
    let r7 = ",\"results\":["@ + r8;
    let r6 = address + r7;
    let r5 = ",\"function_address\":"@ + r6;
    let r4 = name + r5;
    let r3 = ",\"function_name\":"@ + r4;
    let r2 = source + r3;
    let r1 = ",\"source\":"@ + r2;
    let r0 = path + r1;
    let s0 = "{\"path\":"@;
    let s1 = s0 + path;
    let s2 = s1 + ",\"source\":"@;
    let s3 = s2 + source;
    let s4 = s3 + ",\"function_name\":"@;
    let s5 = s4 + name;
    let s6 = s5 + ",\"function_address\":"@;
    let s7 = s6 + address;
    let s8 = s7 + ",\"results\":["@;
    let s9 = s8 + matches;
    assert(record_json(record) == s9 + "]}"@);
    lemma_concat_associative(s8, matches, "]}"@);
    lemma_concat_associative(s7, ",\"results\":["@, r8);
    lemma_concat_associative(s6, address, r7);
    lemma_concat_associative(s5, ",\"function_address\":"@, r6);
    lemma_concat_associative(s4, name, r5);
    lemma_concat_associative(s3, ",\"function_name\":"@, r4);
    lemma_concat_associative(s2, source, r3);
    lemma_concat_associative(s1, ",\"source\":"@, r2);
    lemma_concat_associative(s0, path, r1);
    assert(record_json(record) == s0 + r0);
    assert(name_then(record.function_name, r5) == r4);
    assert(address_then(record.function_address, r7) == r6);
}

proof fn lemma_name_determined(
    first: Option<Seq<char>>,
    first_rest: Seq<char>,
    second: Option<Seq<char>>,
    second_rest: Seq<char>,
)
    requires
        texts_delimited(),
        name_then(first, first_rest) == name_then(second, second_rest),
    ensures
        first == second,
        first_rest == second_rest,
{
    reveal_strlit("null");
    match (first, second) {
        (Some(a), Some(b)) => {
            assert(text_then(a, first_rest) == text_then(b, second_rest));
        },
        (None, None) => {
            lemma_cancel("null"@, first_rest, second_rest);
        },
        (Some(a), None) => {
            assert(text_then(a, first_rest)[0] == json_text(a)[0]);
            assert(("null"@ + second_rest)[0] == 'n');
        },
        (None, Some(b)) => {
            assert(text_then(b, second_rest)[0] == json_text(b)[0]);
            assert(("null"@ + first_rest)[0] == 'n');
        },
    }
}

/// Whether a character is a decimal digit.
spec fn is_digit(c: char) -> bool {
    c == '0' || c == '1' || c == '2' || c == '3' || c == '4' || c == '5' || c == '6' || c == '7'
        || c == '8' || c == '9'
}

/// The character of a decimal digit.
spec fn digit_char(digit: int) -> char {
    if digit == 0 {
        '0'
    } else if digit == 1 {
        '1'
    } else if digit == 2 {
        '2'
    } else if digit == 3 {
        '3'
    } else if digit == 4 {
        '4'
    } else if digit == 5 {
        '5'
    } else if digit == 6 {
        '6'
    } else if digit == 7 {
        '7'
    } else if digit == 8 {
        '8'
    } else {
        '9'
    }
}

proof fn lemma_digit(digit: int)
    requires
        0 <= digit < 10,
    ensures
        decimal_digit(digit) == seq![digit_char(digit)],
        is_digit(digit_char(digit)),
{
    reveal_strlit("0");
    reveal_strlit("1");
    reveal_strlit("2");
    reveal_strlit("3");
    reveal_strlit("4");
    reveal_strlit("5");
    reveal_strlit("6");
    reveal_strlit("7");
    reveal_strlit("8");
    reveal_strlit("9");
    assert(decimal_digit(digit) =~= seq![digit_char(digit)]);
}

proof fn lemma_digit_determined(first: int, second: int)
    requires
        0 <= first < 10,
        0 <= second < 10,
        decimal_digit(first) == decimal_digit(second),
    ensures
        first == second,
{
    lemma_digit(first);
    lemma_digit(second);
    assert(seq![digit_char(first)][0] == seq![digit_char(second)][0]);
}

proof fn lemma_digits(value: nat)
    ensures
        decimal_digits(value).len() >= 1,
        value >= 10 ==> decimal_digits(value).len() >= 2,
        forall|i: int| 0 <= i < decimal_digits(value).len() ==> is_digit(decimal_digits(value)[i]),
    decreases value,
{
    if value < 10 {
        lemma_digit(value as int);
    } else {
        lemma_digits(value / 10);
        lemma_digit((value % 10) as int);
    }
}

proof fn lemma_digits_determine(first: nat, second: nat)
    requires
        decimal_digits(first) == decimal_digits(second),
    ensures
        first == second,
    decreases first,
{
    lemma_digits(first);
    lemma_digits(second);
    if first < 10 && second < 10 {
        lemma_digit_determined(first as int, second as int);
    } else if first < 10 {
        lemma_digit(first as int);
    } else if second < 10 {
        lemma_digit(second as int);
    } else {
        let a = decimal_digits(first / 10);
        let b = decimal_digits(second / 10);
        let x = decimal_digit((first % 10) as int);
        let y = decimal_digit((second % 10) as int);
        lemma_digit((first % 10) as int);
        lemma_digit((second % 10) as int);
        assert(a =~= (a + x).subrange(0, (a + x).len() - 1));
        assert(b =~= (b + y).subrange(0, (b + y).len() - 1));
        assert(x =~= (a + x).subrange((a + x).len() - 1, (a + x).len() as int));
        assert(y =~= (b + y).subrange((b + y).len() - 1, (b + y).len() as int));
        lemma_digits_determine(first / 10, second / 10);
        lemma_digit_determined((first % 10) as int, (second % 10) as int);
        assert(first % 10 == second % 10);
        assert(first == 10 * (first / 10) + first % 10);
        assert(second == 10 * (second / 10) + second % 10);
    }
}

proof fn lemma_address_determined(
    first: Option<u64>,
    first_rest: Seq<char>,
    second: Option<u64>,
    second_rest: Seq<char>,
)
    requires
        address_then(first, first_rest) == address_then(second, second_rest),
        first_rest.len() > 0 && first_rest[0] == ',',
        second_rest.len() > 0 && second_rest[0] == ',',
    ensures
        first == second,
        first_rest == second_rest,
{
    reveal_strlit("null");
    let a = json_optional_address(first);
    let b = json_optional_address(second);
    match (first, second) {
        (Some(x), Some(y)) => {
            lemma_digits(x as nat);
            lemma_digits(y as nat);
            if a.len() < b.len() {
                assert((a + first_rest)[a.len() as int] == ',');
                assert((b + second_rest)[a.len() as int] == b[a.len() as int]);
            } else if b.len() < a.len() {
                assert((b + second_rest)[b.len() as int] == ',');
                assert((a + first_rest)[b.len() as int] == a[b.len() as int]);
            } else {
                assert(a =~= (a + first_rest).subrange(0, a.len() as int));
                assert(b =~= (b + second_rest).subrange(0, b.len() as int));
                lemma_digits_determine(x as nat, y as nat);
                lemma_cancel(a, first_rest, second_rest);
            }
        },
        (None, None) => {
            lemma_cancel(a, first_rest, second_rest);
        },
        (Some(x), None) => {
            lemma_digits(x as nat);
            assert((a + first_rest)[0] == a[0]);
            assert((b + second_rest)[0] == 'n');
        },
        (None, Some(y)) => {
            lemma_digits(y as nat);
            assert((b + second_rest)[0] == b[0]);
            assert((a + first_rest)[0] == 'n');
        },
    }
}

proof fn lemma_severity_determined(
    first: Severity,
    first_rest: Seq<char>,
    second: Severity,
    second_rest: Seq<char>,
)
    requires
        json_severity(first) + first_rest == json_severity(second) + second_rest,
    ensures
        first == second,
        first_rest == second_rest,
{
    reveal_strlit("\"none\"");
    reveal_strlit("\"low\"");
    reveal_strlit("\"medium\"");
    reveal_strlit("\"high\"");
    reveal_strlit("\"critical\"");
    let a = json_severity(first);
    let b = json_severity(second);
    assert((a + first_rest)[1] == a[1]);
    assert((b + second_rest)[1] == b[1]);
    lemma_cancel(a, first_rest, second_rest);
}

proof fn lemma_match_determined(
    first: RecordView,
    first_rest: Seq<char>,
    second: RecordView,
    second_rest: Seq<char>,
)
    requires
        texts_delimited(),
        payloads_delimited(),
        match_then(first, first_rest) == match_then(second, second_rest),
    ensures
        first.rule == second.rule,
        first.checker == second.checker,
        first.severity == second.severity,
        first_rest == second_rest,
{
    let end_a = "}"@ + first_rest;
    let end_b = "}"@ + second_rest;
    let result_a = ",\"result\":"@ + payload_then(first.result, end_a);
    let result_b = ",\"result\":"@ + payload_then(second.result, end_b);
    let severity_a = ",\"severity\":"@ + (json_severity(first.severity) + result_a);
    let severity_b = ",\"severity\":"@ + (json_severity(second.severity) + result_b);
    let checker_a = ",\"checker\":"@ + text_then(first.checker, severity_a);
    let checker_b = ",\"checker\":"@ + text_then(second.checker, severity_b);
    lemma_cancel(
        "{\"rule\":"@,
        text_then(first.rule, checker_a),
        text_then(second.rule, checker_b),
    );
    assert(first.rule == second.rule && checker_a == checker_b);
    lemma_cancel(
        ",\"checker\":"@,
        text_then(first.checker, severity_a),
        text_then(second.checker, severity_b),
    );
    assert(first.checker == second.checker && severity_a == severity_b);
    lemma_cancel(
        ",\"severity\":"@,
        json_severity(first.severity) + result_a,
        json_severity(second.severity) + result_b,
    );
    lemma_severity_determined(first.severity, result_a, second.severity, result_b);
    lemma_cancel(
        ",\"result\":"@,
        payload_then(first.result, end_a),
        payload_then(second.result, end_b),
    );
    assert(end_a == end_b);
    lemma_cancel("}"@, first_rest, second_rest);
}

proof fn lemma_matches_determined(first: Seq<RecordView>, second: Seq<RecordView>, from: int)
    requires
        texts_delimited(),
        payloads_delimited(),
        0 <= from <= first.len(),
        from <= second.len(),
        matches_range(first, from, first.len() as int, "]}"@) == matches_range(
            second,
            from,
            second.len() as int,
            "]}"@,
        ),
    ensures
        first.len() == second.len(),
        forall|i: int|
            from <= i < first.len() ==> {
                &&& (#[trigger] first[i]).rule == second[i].rule
                &&& first[i].checker == second[i].checker
                &&& first[i].severity == second[i].severity
            },
    decreases first.len() - from,
{
    reveal_strlit("]}");
    reveal_strlit(",");
    reveal_strlit("{\"rule\":");
    let close = "]}"@;
    let a = matches_range(first, from, first.len() as int, close);
    let b = matches_range(second, from, second.len() as int, close);
    if from == first.len() {
        if from < second.len() {
            assert(b[0] == '{');
            assert(a[0] == ']');
        }
    } else if from == second.len() {
        assert(a[0] == '{');
        assert(b[0] == ']');
    } else {
        let rest_a = if from + 1 == first.len() {
            close
        } else {
            ","@ + matches_range(first, from + 1, first.len() as int, close)
        };
        let rest_b = if from + 1 == second.len() {
            close
        } else {
            ","@ + matches_range(second, from + 1, second.len() as int, close)
        };
        assert(a == match_then(first[from], rest_a));
        assert(b == match_then(second[from], rest_b));
        lemma_match_determined(first[from], rest_a, second[from], rest_b);
        if from + 1 == first.len() {
            if from + 1 < second.len() {
                assert(rest_a[0] == ']');
                assert(rest_b[0] == ',');
            }
        } else if from + 1 == second.len() {
            assert(rest_b[0] == ']');
            assert(rest_a[0] == ',');
        } else {
            lemma_cancel(
                ","@,
                matches_range(first, from + 1, first.len() as int, close),
                matches_range(second, from + 1, second.len() as int, close),
            );
            lemma_matches_determined(first, second, from + 1);
        }
    }
}

} // verus!
