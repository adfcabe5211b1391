//! The report on a table: the rows that break a rule, and the text that shows them.

use crate::check::row_violations;
use crate::codec::{debug_of, debug_text};
use crate::number::{Number, NumberView};
use crate::rules::{Rules, RulesView};
use crate::schema::{Schema, SchemaView};
use crate::text::{copy_fields, decimal, decimal_text};
use crate::violation::{message_of, Violation, ViolationView};
use vstd::prelude::*;

verus! {

/// A data row together with the number read from its size field.
#[derive(Debug)]
pub struct SizedRow {
    /// The fields of the row.
    pub fields: Vec<String>,
    /// The number that stands before the unit in the size field; `None` where the field
    /// does not end with the unit or what stands before it is no number.
    pub size: Option<Number>,
}

/// What a `SizedRow` stands for.
pub struct SizedRowView {
    pub fields: Seq<Seq<char>>,
    pub size: Option<NumberView>,
}

impl View for SizedRow {
    type V = SizedRowView;

    open spec fn view(&self) -> SizedRowView {
        SizedRowView { fields: self.fields.deep_view(), size: self.size.deep_view() }
    }
}

impl DeepView for SizedRow {
    type V = SizedRowView;

    open spec fn deep_view(&self) -> SizedRowView {
        self@
    }
}

/// A row that breaks at least one rule.
#[derive(Debug)]
pub struct RowReport {
    /// The line of the row in the table, where the header is line 1. The type is wide
    /// enough for the line of any row that a vector can hold.
    pub line: u128,
    /// What the row breaks, in the order of the rules.
    pub violations: Vec<Violation>,
    /// The fields of the row.
    pub row: Vec<String>,
}

/// What a `RowReport` stands for.
pub struct RowReportView {
    pub line: nat,
    pub violations: Seq<ViolationView>,
    pub row: Seq<Seq<char>>,
}

impl View for RowReport {
    type V = RowReportView;

    open spec fn view(&self) -> RowReportView {
        RowReportView {
            line: self.line as nat,
            violations: self.violations.deep_view(),
            row: self.row.deep_view(),
        }
    }
}

impl DeepView for RowReport {
    type V = RowReportView;

    open spec fn deep_view(&self) -> RowReportView {
        self@
    }
}

/// The line of the data row at `index`: the header is line 1, the first data row line 2.
pub open spec fn line_of(index: nat) -> nat {
    index + 2
}

/// The report on the row at `index`.
pub open spec fn report_on(
    schema: SchemaView,
    rules: RulesView,
    rows: Seq<SizedRowView>,
    index: int,
) -> RowReportView {
    RowReportView {
        line: line_of(index as nat),
        violations: row_violations(schema, rules, rows[index].fields, rows[index].size),
        row: rows[index].fields,
    }
}

/// The reports on the first `n` rows: one for each row that breaks a rule, in the order
/// of the rows.
pub open spec fn reports_on(
    schema: SchemaView,
    rules: RulesView,
    rows: Seq<SizedRowView>,
    n: nat,
) -> Seq<RowReportView>
    decreases n,
{
    if n == 0 {
        Seq::empty()
    } else {
        let before = reports_on(schema, rules, rows, (n - 1) as nat);
        if report_on(schema, rules, rows, n - 1).violations.len() == 0 {
            before
        } else {
            before.push(report_on(schema, rules, rows, n - 1))
        }
    }
}

/// One line for each of the first `n` violations, with its wording.
pub open spec fn bullets(violations: Seq<ViolationView>, n: nat) -> Seq<char>
    decreases n,
{
    if n == 0 {
        Seq::empty()
    } else {
        bullets(violations, (n - 1) as nat) + ("\t* "@ + message_of(violations[n - 1]) + "\n"@)
    }
}

/// The text that shows one report: the line, the violations, the row, an empty line.
pub open spec fn block_of(report: RowReportView) -> Seq<char> {
    "Line "@ + decimal(report.line) + "\n"@ + bullets(report.violations, report.violations.len())
        + debug_of(report.row) + "\n\n"@
}

/// The text that shows the first `n` reports, one block after the other.
pub open spec fn text_of(reports: Seq<RowReportView>, n: nat) -> Seq<char>
    decreases n,
{
    if n == 0 {
        Seq::empty()
    } else {
        text_of(reports, (n - 1) as nat) + block_of(reports[n - 1])
    }
}

/// Holds every row against the rules. A row that breaks none of them leaves no trace in
/// the result.
pub fn validate_rows(schema: &Schema, rules: &Rules, rows: &Vec<SizedRow>) -> (reports: Vec<
    RowReport,
>)
    ensures
        reports.deep_view() == reports_on(schema@, rules@, rows.deep_view(), rows.len() as nat),
{
    let mut reports: Vec<RowReport> = Vec::new();
    let mut i: usize = 0;
    while i < rows.len()
        invariant
            i <= rows.len(),
            reports.deep_view() == reports_on(schema@, rules@, rows.deep_view(), i as nat),
        decreases rows.len() - i,
    {
        let violations = schema.check_row(rules, &rows[i].fields, &rows[i].size);
        if violations.len() > 0 {
            reports.push(
                RowReport { line: i as u128 + 2, violations, row: copy_fields(&rows[i].fields) },
            );
        }
        i += 1;
    }
    reports
}

/// The lines that word the violations of one row.
fn bullets_text(violations: &Vec<Violation>) -> (out: String)
    ensures
        out@ == bullets(violations.deep_view(), violations.len() as nat),
{
    let mut out = String::new();
    let mut i: usize = 0;
    while i < violations.len()
        invariant
            i <= violations.len(),
            out@ == bullets(violations.deep_view(), i as nat),
        decreases violations.len() - i,
    {
        let mut line = String::from_str("\t* ");
        let message = violations[i].message();
        line.append(message.as_str());
        line.append("\n");
        out.append(line.as_str());
        i += 1;
    }
    out
}

impl RowReport {
    /// The text that shows the report.
    pub fn block(&self) -> (out: String)
        ensures
            out@ == block_of(self@),
    {
        let line = decimal_text(self.line);
        let bullets = bullets_text(&self.violations);
        let row = debug_text(&self.row);
        let mut out = String::from_str("Line ");
        out.append(line.as_str());
        out.append("\n");
        out.append(bullets.as_str());
        out.append(row.as_str());
        out.append("\n\n");
        out
    }
}

/// The text that shows the reports, one block after the other. No report, no text.
pub fn render(reports: &Vec<RowReport>) -> (out: String)
    ensures
        out@ == text_of(reports.deep_view(), reports.len() as nat),
{
    let mut out = String::new();
    let mut i: usize = 0;
    while i < reports.len()
        invariant
            i <= reports.len(),
            out@ == text_of(reports.deep_view(), i as nat),
        decreases reports.len() - i,
    {
        let block = reports[i].block();
        out.append(block.as_str());
        i += 1;
    }
    out
}

/// Every report on the first `n` rows is for one of them that breaks a rule, and stands
/// for it with its line, its violations and its fields.
pub proof fn lemma_reports_are_for_broken_rows(
    schema: SchemaView,
    rules: RulesView,
    rows: Seq<SizedRowView>,
    n: nat,
)
    ensures
        forall|k: int|
            0 <= k < reports_on(schema, rules, rows, n).len() ==> exists|i: int|
                {
                    &&& 0 <= i < n
                    &&& row_violations(schema, rules, rows[i].fields, rows[i].size).len() > 0
                    &&& #[trigger] reports_on(schema, rules, rows, n)[k] == #[trigger] report_on(
                        schema,
                        rules,
                        rows,
                        i,
                    )
                },
    decreases n,
{
    if n > 0 {
        let m = (n - 1) as nat;
        let now = reports_on(schema, rules, rows, n);
        let before = reports_on(schema, rules, rows, m);
        lemma_reports_are_for_broken_rows(schema, rules, rows, m);
        assert forall|k: int| 0 <= k < now.len() implies exists|i: int|
            {
                &&& 0 <= i < n
                &&& row_violations(schema, rules, rows[i].fields, rows[i].size).len() > 0
                &&& #[trigger] now[k] == #[trigger] report_on(schema, rules, rows, i)
            } by {
            if k < before.len() {
                assert(now[k] == before[k]);
            } else {
                assert(now[k] == report_on(schema, rules, rows, m as int));
            }
        }
    }
}

/// A row that breaks no rule has no report: none of the reports carries its line, so
/// the text that shows the reports has no block for it.
pub proof fn lemma_clean_row_has_no_report(
    schema: SchemaView,
    rules: RulesView,
    rows: Seq<SizedRowView>,
    clean: int,
)
    requires
        0 <= clean < rows.len(),
        row_violations(schema, rules, rows[clean].fields, rows[clean].size).len() == 0,
    ensures
        forall|k: int|
            0 <= k < reports_on(schema, rules, rows, rows.len()).len() ==> (#[trigger] reports_on(
                schema,
                rules,
                rows,
                rows.len(),
            )[k]).line != line_of(clean as nat),
{
    let reports = reports_on(schema, rules, rows, rows.len());
    lemma_reports_are_for_broken_rows(schema, rules, rows, rows.len());
    assert forall|k: int| 0 <= k < reports.len() implies (#[trigger] reports[k]).line != line_of(
        clean as nat,
    ) by {
        let i = choose|i: int|
            {
                &&& 0 <= i < rows.len()
                &&& row_violations(schema, rules, rows[i].fields, rows[i].size).len() > 0
                &&& #[trigger] reports[k] == #[trigger] report_on(schema, rules, rows, i)
            };
        assert(i != clean);
    }
}

/// Where no row breaks a rule there is no report, and the text that shows the reports
/// is empty.
pub proof fn lemma_clean_rows_leave_no_text(
    schema: SchemaView,
    rules: RulesView,
    rows: Seq<SizedRowView>,
    n: nat,
)
    requires
        n <= rows.len(),
        forall|i: int|
            0 <= i < n ==> (#[trigger] row_violations(
                schema,
                rules,
                rows[i].fields,
                rows[i].size,
            )).len() == 0,
    ensures
        reports_on(schema, rules, rows, n) == Seq::<RowReportView>::empty(),
        text_of(
            reports_on(schema, rules, rows, n),
            reports_on(schema, rules, rows, n).len(),
        ) == Seq::<char>::empty(),
    decreases n,
{
    if n > 0 {
        lemma_clean_rows_leave_no_text(schema, rules, rows, (n - 1) as nat);
    }
}

} // verus!
