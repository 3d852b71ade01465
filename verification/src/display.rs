//! The console channels: how a group of findings reads as text, match by match, and how it
//! reads as a summary table.

use vstd::prelude::*;
use vstd::string::*;
use wegglix::result::QueryResult;

use crate::common::{captured_in, GroupView, MatchResultGroup};
use crate::rules::{resolves, RuleInfo, RuleTable};

verus! {

/// One hexadecimal digit, in lower case. `digit` is below sixteen.
pub open spec fn hex_digit(digit: int) -> Seq<char> {
    if digit == 0 {
        "0"@
    } else if digit == 1 {
        "1"@
    } else if digit == 2 {
        "2"@
    } else if digit == 3 {
        "3"@
    } else if digit == 4 {
        "4"@
    } else if digit == 5 {
        "5"@
    } else if digit == 6 {
        "6"@
    } else if digit == 7 {
        "7"@
    } else if digit == 8 {
        "8"@
    } else if digit == 9 {
        "9"@
    } else if digit == 10 {
        "a"@
    } else if digit == 11 {
        "b"@
    } else if digit == 12 {
        "c"@
    } else if digit == 13 {
        "d"@
    } else if digit == 14 {
        "e"@
    } else {
        "f"@
    }
}

/// The hexadecimal digits of `value`, most significant first and without leading zeros.
pub open spec fn hex_digits(value: nat) -> Seq<char>
    decreases value,
{
    if value < 16 {
        hex_digit(value as int)
    } else {
        hex_digits(value / 16) + hex_digit((value % 16) as int)
    }
}

/// An address as the reports show it: `0x` and its hexadecimal digits.
pub open spec fn address_text(address: u64) -> Seq<char> {
    "0x"@ + hex_digits(address as nat)
}

/// What the address column of the summary table shows.
pub open spec fn address_cell_text(address: Option<u64>) -> Seq<char> {
    match address {
        Some(a) => address_text(a),
        None => "-"@,
    }
}

/// What the name column of the summary table shows.
pub open spec fn name_cell_text(name: Option<Seq<char>>) -> Seq<char> {
    match name {
        Some(n) => n,
        None => "-"@,
    }
}

fn hex_digit_str(digit: u64) -> (text: &'static str)
    requires
        digit < 16,
    ensures
        text@ == hex_digit(digit as int),
{
    if digit == 0 {
        "0"
    } else if digit == 1 {
        "1"
    } else if digit == 2 {
        "2"
    } else if digit == 3 {
        "3"
    } else if digit == 4 {
        "4"
    } else if digit == 5 {
        "5"
    } else if digit == 6 {
        "6"
    } else if digit == 7 {
        "7"
    } else if digit == 8 {
        "8"
    } else if digit == 9 {
        "9"
    } else if digit == 10 {
        "a"
    } else if digit == 11 {
        "b"
    } else if digit == 12 {
        "c"
    } else if digit == 13 {
        "d"
    } else if digit == 14 {
        "e"
    } else {
        "f"
    }
}

fn push_hex(out: &mut String, value: u64)
    ensures
        final(out)@ == old(out)@ + hex_digits(value as nat),
    decreases value,
{
    if value < 16 {
        out.append(hex_digit_str(value));
    } else {
        push_hex(out, value / 16);
        out.append(hex_digit_str(value % 16));
        assert(out@ =~= old(out)@ + hex_digits(value as nat));
    }
}

/// Writes an address as `0x` and its hexadecimal digits.
pub fn format_address(address: u64) -> (text: String)
    ensures
        text@ == address_text(address),
{
    let mut text = String::from_str("0x");
    push_hex(&mut text, address);
    text
}

/// The address column of the summary table: the address, or `-` where there is none.
pub fn address_cell(address: Option<u64>) -> (text: String)
    ensures
        text@ == address_cell_text(address),
{
    match address {
        Some(a) => format_address(a),
        None => String::from_str("-"),
    }
}

/// The name column of the summary table: the name, or `-` where there is none.
pub fn function_name_cell(name: &Option<String>) -> (text: String)
    ensures
        text@ == name_cell_text(name.deep_view()),
{
    match name {
        Some(n) => n.clone(),
        None => String::from_str("-"),
    }
}

/// The line that heads a match on the console: severity, rule, checker and origin, then the
/// function's name and address as far as they are known.
pub open spec fn header_text(group: GroupView, rules: Seq<RuleInfo>, origin: Seq<char>, index: int)
    -> Seq<char> {
    let found = group.results[index];
    let rule = rules[found.rule as int];
    let base = "["@ + rule.severity.name_text() + "] rule "@ + rule.id + ", check "@
        + rule.checkers[found.checker as int] + " triggered in "@ + origin;
    let named = match group.function_name {
        Some(name) => base + " in function "@ + name,
        None => base,
    };
    let placed = match group.function_address {
        Some(address) => named + " at address "@ + address_text(address),
        None => named,
    };
    placed + "\n"@
}

/// What the console shows of one match: its header line, then the match as `rendered` in
/// its context, which ends the line.
pub open spec fn pretty_entry(
    group: GroupView,
    rules: Seq<RuleInfo>,
    origin: Seq<char>,
    index: int,
    rendered: Seq<char>,
) -> Seq<char> {
    header_text(group, rules, origin, index) + rendered + "\n"@
}

/// What the console shows of the first `count` matches of a group, `rendered[i]` being the
/// rendering of match `i`.
pub open spec fn pretty_text(
    group: GroupView,
    rules: Seq<RuleInfo>,
    origin: Seq<char>,
    rendered: Seq<Seq<char>>,
    count: nat,
) -> Seq<char>
    decreases count,
{
    if count == 0 {
        Seq::empty()
    } else {
        pretty_text(group, rules, origin, rendered, (count - 1) as nat) + pretty_entry(
            group,
            rules,
            origin,
            count - 1,
            rendered[count - 1],
        )
    }
}

/// The largest context that is handed to the renderer. No text has more lines than this, so
/// a larger context would show nothing more.
pub open spec fn context_limit() -> usize {
    isize::MAX as usize
}

/// Calls `QueryResult::display` with the same number of context lines before and after
/// the match, and with line numbers. It slices `source` by the ranges that `result`
/// holds, so it is called only with what was captured in `source`, and it adds the
/// context to line numbers, so the context is kept below [`context_limit`]. Nothing is
/// said of the text: it is coloured or plain as the terminal settings have it.
#[verifier::external_body]
fn render_match(result: &QueryResult, source: &str, context: usize) -> (rendered: String)
    requires
        captured_in(*result, source@),
        context <= context_limit(),
{
    result.display(source, context, context, true)
}

impl MatchResultGroup {
    fn header(&self, rules: &RuleTable, origin: &str, index: usize) -> (text: String)
        requires
            index < self@.results.len(),
            self@.resolves_in(rules@),
        ensures
            text@ == header_text(self@, rules@, origin@, index as int),
    {
        let found = &self.results[index];
        assert(resolves(rules@, found.rule as int, found.checker as int)) by {
            assert(self@.results[index as int] == *found);
        }
        let rule = &rules.entries[found.rule];
        proof {
            assert(rules@[found.rule as int] == rule@);
            assert(rule.checkers.deep_view()[found.checker as int]
                == rule.checkers@[found.checker as int]@);
        }
        let mut text = String::from_str("[");
        text.append(rule.severity.name());
        text.append("] rule ");
        text.append(rule.id.as_str());
        text.append(", check ");
        text.append(rule.checkers[found.checker].as_str());
        text.append(" triggered in ");
        text.append(origin);
        match &self.function_name {
            Some(name) => {
                text.append(" in function ");
                text.append(name.as_str());
            },
            None => {},
        }
        match self.function_address {
            Some(address) => {
                text.append(" at address ");
                let shown = format_address(address);
                text.append(shown.as_str());
            },
            None => {},
        }
        text.append("\n");
        text
    }

    /// The console text of the group: for each match, in order, its header line and then
    /// the match in `display_context` lines of context on either side. A context above
    /// [`context_limit`] is handed to the renderer as that limit, which shows the same.
    pub fn display_pretty(&self, rules: &RuleTable, origin: &str, display_context: usize) -> (text:
        String)
        requires
            self@.resolves_in(rules@),
            self@.captured(),
        ensures
            exists|rendered: Seq<Seq<char>>|
                rendered.len() == self@.results.len() && text@ == #[trigger] pretty_text(
                    self@,
                    rules@,
                    origin@,
                    rendered,
                    self@.results.len(),
                ),
    {
        let context: usize = if display_context > isize::MAX as usize {
            isize::MAX as usize
        } else {
            display_context
        };
        let mut text = String::new();
        let ghost mut rendered: Seq<Seq<char>> = Seq::empty();
        let mut index: usize = 0;
        while index < self.results.len()
            invariant
                index <= self.results@.len(),
                self@.resolves_in(rules@),
                self@.captured(),
                context <= context_limit(),
                rendered.len() == index,
                text@ == pretty_text(self@, rules@, origin@, rendered, index as nat),
            decreases self.results@.len() - index,
        {
            let header = self.header(rules, origin, index);
            assert(captured_in(self.results@[index as int].result, self.source@)) by {
                assert(self@.results[index as int] == self.results@[index as int]);
            }
            let shown = render_match(&self.results[index].result, self.source.as_str(), context);
            let ghost before = rendered;
            proof {
                rendered = rendered.push(shown@);
                lemma_pretty_text_extends(self@, rules@, origin@, before, rendered, index as nat);
            }
            text.append(header.as_str());
            text.append(shown.as_str());
            text.append("\n");
            index = index + 1;
            assert(text@ =~= pretty_text(self@, rules@, origin@, rendered, index as nat));
        }
        text
    }
}

/// The column headings of the summary table.
pub open spec fn heading_row() -> Seq<Seq<char>> {
    seq!["File"@, "Function name"@, "Function address"@, "Rule"@, "Checker"@, "Severity"@]
}

/// The row of the summary table for match `index` of a group.
pub open spec fn finding_row(group: GroupView, rules: Seq<RuleInfo>, origin: Seq<char>, index: int)
    -> Seq<Seq<char>> {
    let found = group.results[index];
    let rule = rules[found.rule as int];
    seq![
        origin,
        name_cell_text(group.function_name),
        address_cell_text(group.function_address),
        rule.id,
        rule.checkers[found.checker as int],
        rule.severity.label_text(),
    ]
}

/// The cells of the summary table of a group: the headings, then one row for each match.
pub open spec fn table_rows(group: GroupView, rules: Seq<RuleInfo>, origin: Seq<char>) -> Seq<
    Seq<Seq<char>>,
> {
    Seq::new(
        group.results.len() + 1,
        |row: int|
            if row == 0 {
                heading_row()
            } else {
                finding_row(group, rules, origin, row - 1)
            },
    )
}

/// The text of a table with the given rows of cells, drawn in the `sharp` style.
pub uninterp spec fn sharp_table(rows: Seq<Seq<Seq<char>>>) -> Seq<char>;

/// Builds a `tabled` table from rows of cells (`Builder::from`, `Builder::build`), gives
/// it the style `Style::sharp` and writes it out. The text is that of the table alone,
/// without a line end after its last line, and depends on the cells only.
#[verifier::external_body]
fn render_table(rows: Vec<Vec<String>>) -> (text: String)
    ensures
        text@ == sharp_table(rows.deep_view()),
{
    tabled::builder::Builder::from(rows).build().with(tabled::settings::Style::sharp()).to_string()
}

fn heading_cells() -> (row: Vec<String>)
    ensures
        row.deep_view() == heading_row(),
{
    let mut row: Vec<String> = Vec::new();
    row.push(String::from_str("File"));
    row.push(String::from_str("Function name"));
    row.push(String::from_str("Function address"));
    row.push(String::from_str("Rule"));
    row.push(String::from_str("Checker"));
    row.push(String::from_str("Severity"));
    assert(row.deep_view() =~= heading_row());
    row
}

impl MatchResultGroup {
    fn finding_cells(&self, rules: &RuleTable, origin: &str, index: usize) -> (row: Vec<String>)
        requires
            index < self@.results.len(),
            self@.resolves_in(rules@),
        ensures
            row.deep_view() == finding_row(self@, rules@, origin@, index as int),
    {
        let found = &self.results[index];
        assert(resolves(rules@, found.rule as int, found.checker as int)) by {
            assert(self@.results[index as int] == *found);
        }
        let rule = &rules.entries[found.rule];
        proof {
            assert(rules@[found.rule as int] == rule@);
            assert(rule.checkers.deep_view()[found.checker as int]
                == rule.checkers@[found.checker as int]@);
        }
        let mut row: Vec<String> = Vec::new();
        row.push(origin.to_owned());
        row.push(function_name_cell(&self.function_name));
        row.push(address_cell(self.function_address));
        row.push(rule.id.clone());
        row.push(rule.checkers[found.checker].clone());
        row.push(String::from_str(rule.severity.label()));
        assert(row.deep_view() =~= finding_row(self@, rules@, origin@, index as int));
        row
    }

    /// The summary table of the group: one row for each match, under the column headings,
    /// and a line end after the table.
    pub fn display_table(&self, rules: &RuleTable, origin: &str) -> (text: String)
        requires
            self@.resolves_in(rules@),
        ensures
            text@ == sharp_table(table_rows(self@, rules@, origin@)) + "\n"@,
    {
        let mut rows: Vec<Vec<String>> = Vec::new();
        rows.push(heading_cells());
        let mut index: usize = 0;
        while index < self.results.len()
            invariant
                index <= self.results@.len(),
                self@.resolves_in(rules@),
                rows@.len() == index + 1,
                rows@[0].deep_view() == heading_row(),
                forall|i: int|
                    0 <= i < index ==> (#[trigger] rows@[i + 1]).deep_view() == finding_row(
                        self@,
                        rules@,
                        origin@,
                        i,
                    ),
            decreases self.results@.len() - index,
        {
            let row = self.finding_cells(rules, origin, index);
            rows.push(row);
            index = index + 1;
        }
        assert(rows.deep_view() =~= table_rows(self@, rules@, origin@)) by {
            assert forall|r: int| 0 <= r < rows@.len() implies rows.deep_view()[r] == table_rows(
                self@,
                rules@,
                origin@,
            )[r] by {
                if r > 0 {
                    assert(rows@[(r - 1) + 1].deep_view() == finding_row(
                        self@,
                        rules@,
                        origin@,
                        r - 1,
                    ));
                }
            }
        }
        let mut text = render_table(rows);
        text.append("\n");
        text
    }
}

/// The text of the first `count` matches does not depend on renderings past them.
proof fn lemma_pretty_text_extends(
    group: GroupView,
    rules: Seq<RuleInfo>,
    origin: Seq<char>,
    rendered: Seq<Seq<char>>,
    longer: Seq<Seq<char>>,
    count: nat,
)
    requires
        count <= rendered.len() <= longer.len(),
        forall|i: int| 0 <= i < count ==> rendered[i] == longer[i],
    ensures
        pretty_text(group, rules, origin, rendered, count) == pretty_text(
            group,
            rules,
            origin,
            longer,
            count,
        ),
    decreases count,
{
    if count > 0 {
        lemma_pretty_text_extends(group, rules, origin, rendered, longer, (count - 1) as nat);
    }
}

} // verus!
