//! The checks on a row of the merged table.
//!
//! A row is held against the rules one rule after the other, and every failure is kept:
//! no rule is skipped because an earlier one failed.

use crate::number::{below, is_below, lemma_size_increases, Number, NumberView};
use crate::rules::{
    is_optional, standard_rules, Rules, RulesView, COL_CAPTION, NAME_SEPARATOR, SIZE_UNIT,
};
use crate::schema::{Schema, SchemaView};
use crate::text::{
    before_first, ends_with, first_segment, is_blank, same_text, strip_suffix, trim, trimmed,
    without_suffix,
};
use crate::violation::{Violation, ViolationView};
use vstd::prelude::*;

verus! {

/// The violations for the first `n` fields of `row` that are blank though their column
/// must be filled, in the order of the fields.
pub open spec fn empty_fields(header: Seq<Seq<char>>, row: Seq<Seq<char>>, n: nat) -> Seq<
    ViolationView,
>
    decreases n,
{
    if n == 0 {
        Seq::empty()
    } else {
        let before = empty_fields(header, row, (n - 1) as nat);
        if is_blank(row[n - 1]) && !is_optional(header[n - 1]) {
            before.push(ViolationView::EmptyField { column: header[n - 1] })
        } else {
            before
        }
    }
}

/// What stands before the unit in a size field; `None` where the field does not end with
/// the unit.
pub open spec fn size_text_of(field: Seq<char>) -> Option<Seq<char>> {
    without_suffix(trimmed(field), SIZE_UNIT@)
}

/// The rule on the size. A field that does not end with the unit passes. Otherwise
/// `size` is the number that stands before the unit, `None` where that is no number, and
/// the number must lie between the two bounds, which are both allowed.
pub open spec fn size_violation(rules: RulesView, field: Seq<char>, size: Option<NumberView>) -> Option<
    ViolationView,
> {
    match size_text_of(field) {
        None => None,
        Some(text) => match size {
            None => Some(ViolationView::InvalidSize { text }),
            Some(number) => if is_below(number.bits, rules.min_size.bits) {
                Some(
                    ViolationView::SizeBelowMinimum {
                        size: number.text,
                        minimum: rules.min_size.text,
                    },
                )
            } else if is_below(rules.max_size.bits, number.bits) {
                Some(
                    ViolationView::SizeAboveMaximum {
                        size: number.text,
                        maximum: rules.max_size.text,
                    },
                )
            } else {
                None
            },
        },
    }
}

/// The rule on the width: without the white space around it, the field is the width
/// that the rules ask for.
pub open spec fn width_violation(rules: RulesView, field: Seq<char>) -> Option<ViolationView> {
    if trimmed(field) == rules.width {
        None
    } else {
        Some(ViolationView::WrongWidth { found: trimmed(field), expected: rules.width })
    }
}

/// The rule on the object name: it is what stands in the file name before the first
/// separator, or the whole file name where that holds no separator. Both fields are
/// taken without the white space around them.
pub open spec fn name_violation(object_name: Seq<char>, filename: Seq<char>) -> Option<
    ViolationView,
> {
    if before_first(trimmed(filename), NAME_SEPARATOR) == trimmed(object_name) {
        None
    } else {
        Some(
            ViolationView::NameMismatch {
                object_name: trimmed(object_name),
                filename: trimmed(filename),
            },
        )
    }
}

/// The rule on the category: without the white space around it, the field is the
/// category that the rules ask for.
pub open spec fn category_violation(rules: RulesView, field: Seq<char>) -> Option<ViolationView> {
    if trimmed(field) == rules.category {
        None
    } else {
        Some(ViolationView::WrongCategory { found: trimmed(field), expected: rules.category })
    }
}

/// The rule on the source: without the white space around it, the field is the source
/// that the rules ask for.
pub open spec fn source_violation(rules: RulesView, field: Seq<char>) -> Option<ViolationView> {
    if trimmed(field) == rules.source {
        None
    } else {
        Some(ViolationView::WrongSource { found: trimmed(field), expected: rules.source })
    }
}

/// The violation of a rule as a sequence: of one where there is one, of none otherwise.
pub open spec fn listed(violation: Option<ViolationView>) -> Seq<ViolationView> {
    match violation {
        Some(v) => seq![v],
        None => Seq::empty(),
    }
}

/// Every violation of a row, in the order of the rules. A row that does not have as
/// many fields as the header is held against no other rule.
pub open spec fn row_violations(
    schema: SchemaView,
    rules: RulesView,
    row: Seq<Seq<char>>,
    size: Option<NumberView>,
) -> Seq<ViolationView> {
    if row.len() != schema.header.len() {
        seq![ViolationView::FieldCount { fields: row.len(), columns: schema.header.len() }]
    } else {
        empty_fields(schema.header, row, row.len()) + listed(
            size_violation(rules, row[schema.size], size),
        ) + listed(width_violation(rules, row[schema.width])) + listed(
            name_violation(row[schema.object_name], row[schema.filename]),
        ) + listed(category_violation(rules, row[schema.sup_category])) + listed(
            source_violation(rules, row[schema.source]),
        )
    }
}

/// What must be read as a number to check the size of `row`: what stands before the
/// unit in its size field. `None` where the field does not end with the unit, or the row
/// does not have as many fields as the header.
pub open spec fn size_text_in(schema: SchemaView, row: Seq<Seq<char>>) -> Option<Seq<char>> {
    if row.len() != schema.header.len() {
        None
    } else {
        size_text_of(row[schema.size])
    }
}

/// Adds the violation of a rule to those found so far, where there is one.
fn keep(found: &mut Vec<Violation>, violation: Option<Violation>)
    ensures
        final(found).deep_view() == old(found).deep_view() + listed(violation.deep_view()),
{
    if let Some(v) = violation {
        found.push(v);
    }
}

/// The violations for the fields of `row` that are blank though their column must be
/// filled.
fn check_presence(header: &Vec<String>, row: &Vec<String>) -> (found: Vec<Violation>)
    requires
        header.len() == row.len(),
    ensures
        found.deep_view() == empty_fields(header.deep_view(), row.deep_view(), row.len() as nat),
{
    let mut found: Vec<Violation> = Vec::new();
    let mut i: usize = 0;
    while i < row.len()
        invariant
            i <= row.len(),
            header.len() == row.len(),
            found.deep_view() == empty_fields(header.deep_view(), row.deep_view(), i as nat),
        decreases row.len() - i,
    {
        let value = trim(row[i].as_str());
        if value.is_empty() && !same_text(header[i].as_str(), COL_CAPTION) {
            let ghost before = found.deep_view();
            found.push(Violation::EmptyField { column: header[i].clone() });
            assert(found.deep_view() =~= before.push(
                ViolationView::EmptyField { column: header.deep_view()[i as int] },
            ));
        }
        i += 1;
    }
    found
}

/// The rule on the size, on the field and the number read from it.
fn check_size(rules: &Rules, field: &str, size: &Option<Number>) -> (out: Option<Violation>)
    ensures
        out.deep_view() == size_violation(rules@, field@, size.deep_view()),
{
    match strip_suffix(trim(field), SIZE_UNIT) {
        None => None,
        Some(text) => match size {
            None => Some(Violation::InvalidSize { text: String::from_str(text) }),
            Some(number) => if below(number.bits, rules.min_size.bits) {
                Some(
                    Violation::SizeBelowMinimum {
                        size: number.text.clone(),
                        minimum: rules.min_size.text.clone(),
                    },
                )
            } else if below(rules.max_size.bits, number.bits) {
                Some(
                    Violation::SizeAboveMaximum {
                        size: number.text.clone(),
                        maximum: rules.max_size.text.clone(),
                    },
                )
            } else {
                None
            },
        },
    }
}

/// The rule on the width.
fn check_width(rules: &Rules, field: &str) -> (out: Option<Violation>)
    ensures
        out.deep_view() == width_violation(rules@, field@),
{
    let found = trim(field);
    if same_text(found, rules.width.as_str()) {
        None
    } else {
        Some(Violation::WrongWidth { found: String::from_str(found), expected: rules.width.clone() })
    }
}

/// The rule on the object name.
fn check_name(object_name: &str, filename: &str) -> (out: Option<Violation>)
    ensures
        out.deep_view() == name_violation(object_name@, filename@),
{
    let object_name = trim(object_name);
    let filename = trim(filename);
    if same_text(first_segment(filename, NAME_SEPARATOR), object_name) {
        None
    } else {
        Some(
            Violation::NameMismatch {
                object_name: String::from_str(object_name),
                filename: String::from_str(filename),
            },
        )
    }
}

/// The rule on the category.
fn check_category(rules: &Rules, field: &str) -> (out: Option<Violation>)
    ensures
        out.deep_view() == category_violation(rules@, field@),
{
    let found = trim(field);
    if same_text(found, rules.category.as_str()) {
        None
    } else {
        Some(
            Violation::WrongCategory {
                found: String::from_str(found),
                expected: rules.category.clone(),
            },
        )
    }
}

/// The rule on the source.
fn check_source(rules: &Rules, field: &str) -> (out: Option<Violation>)
    ensures
        out.deep_view() == source_violation(rules@, field@),
{
    let found = trim(field);
    if same_text(found, rules.source.as_str()) {
        None
    } else {
        Some(Violation::WrongSource { found: String::from_str(found), expected: rules.source.clone() })
    }
}

impl Schema {
    /// What must be read as a number to check the size of `row`.
    pub fn size_text(&self, row: &Vec<String>) -> (out: Option<String>)
        ensures
            out.deep_view() == size_text_in(self@, row.deep_view()),
    {
        let header = self.header();
        if row.len() != header.len() {
            return None;
        }
        match strip_suffix(trim(row[self.size()].as_str()), SIZE_UNIT) {
            Some(text) => Some(String::from_str(text)),
            None => None,
        }
    }

    /// Every violation of `row`, in the order of the rules. `size` is the number read
    /// from what `size_text` gives for the row, `None` where that is no number.
    pub fn check_row(&self, rules: &Rules, row: &Vec<String>, size: &Option<Number>) -> (found: Vec<
        Violation,
    >)
        ensures
            found.deep_view() == row_violations(self@, rules@, row.deep_view(), size.deep_view()),
    {
        let header = self.header();
        if row.len() != header.len() {
            let mut found: Vec<Violation> = Vec::new();
            found.push(Violation::FieldCount { fields: row.len(), columns: header.len() });
            assert(found.deep_view() =~= seq![
                ViolationView::FieldCount {
                    fields: row.len() as nat,
                    columns: header.len() as nat,
                },
            ]);
            return found;
        }
        let mut found = check_presence(header, row);
        keep(&mut found, check_size(rules, row[self.size()].as_str(), size));
        keep(&mut found, check_width(rules, row[self.width()].as_str()));
        keep(
            &mut found,
            check_name(row[self.object_name()].as_str(), row[self.filename()].as_str()),
        );
        keep(&mut found, check_category(rules, row[self.sup_category()].as_str()));
        keep(&mut found, check_source(rules, row[self.source()].as_str()));
        found
    }
}

/// A field among the first `n` that is blank though its column must be filled has its
/// violation among those of the first `n` fields.
pub proof fn lemma_empty_field_is_found(
    header: Seq<Seq<char>>,
    row: Seq<Seq<char>>,
    n: nat,
    i: int,
)
    requires
        0 <= i < n,
        is_blank(row[i]),
        !is_optional(header[i]),
    ensures
        empty_fields(header, row, n).contains(ViolationView::EmptyField { column: header[i] }),
    decreases n,
{
    let found = empty_fields(header, row, n);
    let wanted = ViolationView::EmptyField { column: header[i] };
    if i == n - 1 {
        assert(found[found.len() - 1] == wanted);
    } else {
        let before = empty_fields(header, row, (n - 1) as nat);
        lemma_empty_field_is_found(header, row, (n - 1) as nat, i);
        let k = choose|k: int| 0 <= k < before.len() && before[k] == wanted;
        assert(found[k] == wanted);
    }
}

/// Where none of the first `n` fields is blank in a column that must be filled, there
/// is no violation for them; and where there is none, no such field is blank.
pub proof fn lemma_no_empty_field(header: Seq<Seq<char>>, row: Seq<Seq<char>>, n: nat)
    ensures
        empty_fields(header, row, n).len() == 0 <==> forall|i: int|
            0 <= i < n ==> !is_blank(#[trigger] row[i]) || is_optional(header[i]),
    decreases n,
{
    if n > 0 {
        lemma_no_empty_field(header, row, (n - 1) as nat);
    }
}

/// On a row that has as many fields as the header, every rule that fails is reported,
/// whatever else fails: each blank field whose column must be filled has its violation
/// in the result, each of the five other rules that fails has its own, and the result
/// holds nothing else.
pub proof fn lemma_every_failure_is_reported(
    schema: SchemaView,
    rules: RulesView,
    row: Seq<Seq<char>>,
    size: Option<NumberView>,
)
    requires
        row.len() == schema.header.len(),
    ensures
        forall|i: int|
            0 <= i < row.len() && is_blank(#[trigger] row[i]) && !is_optional(schema.header[i])
                ==> row_violations(schema, rules, row, size).contains(
                ViolationView::EmptyField { column: schema.header[i] },
            ),
        size_violation(rules, row[schema.size], size) matches Some(v) ==> row_violations(
            schema,
            rules,
            row,
            size,
        ).contains(v),
        width_violation(rules, row[schema.width]) matches Some(v) ==> row_violations(
            schema,
            rules,
            row,
            size,
        ).contains(v),
        name_violation(row[schema.object_name], row[schema.filename]) matches Some(v)
            ==> row_violations(schema, rules, row, size).contains(v),
        category_violation(rules, row[schema.sup_category]) matches Some(v) ==> row_violations(
            schema,
            rules,
            row,
            size,
        ).contains(v),
        source_violation(rules, row[schema.source]) matches Some(v) ==> row_violations(
            schema,
            rules,
            row,
            size,
        ).contains(v),
        row_violations(schema, rules, row, size).len() == empty_fields(
            schema.header,
            row,
            row.len(),
        ).len() + listed(size_violation(rules, row[schema.size], size)).len() + listed(
            width_violation(rules, row[schema.width]),
        ).len() + listed(name_violation(row[schema.object_name], row[schema.filename])).len()
            + listed(category_violation(rules, row[schema.sup_category])).len() + listed(
            source_violation(rules, row[schema.source]),
        ).len(),
{
    let all = row_violations(schema, rules, row, size);
    let a = empty_fields(schema.header, row, row.len());
    let b = listed(size_violation(rules, row[schema.size], size));
    let c = listed(width_violation(rules, row[schema.width]));
    let d = listed(name_violation(row[schema.object_name], row[schema.filename]));
    let e = listed(category_violation(rules, row[schema.sup_category]));
    let f = listed(source_violation(rules, row[schema.source]));
    assert forall|i: int|
        0 <= i < row.len() && is_blank(#[trigger] row[i]) && !is_optional(
            schema.header[i],
        ) implies all.contains(ViolationView::EmptyField { column: schema.header[i] }) by {
        let wanted = ViolationView::EmptyField { column: schema.header[i] };
        lemma_empty_field_is_found(schema.header, row, row.len(), i);
        let k = choose|k: int| 0 <= k < a.len() && a[k] == wanted;
        assert(all[k] == wanted);
    }
    if b.len() > 0 {
        assert(all[a.len() as int] == b[0]);
    }
    if c.len() > 0 {
        assert(all[(a.len() + b.len()) as int] == c[0]);
    }
    if d.len() > 0 {
        assert(all[(a.len() + b.len() + c.len()) as int] == d[0]);
    }
    if e.len() > 0 {
        assert(all[(a.len() + b.len() + c.len() + d.len()) as int] == e[0]);
    }
    if f.len() > 0 {
        assert(all[(a.len() + b.len() + c.len() + d.len() + e.len()) as int] == f[0]);
    }
}

/// A row breaks no rule just when it has as many fields as the header, none of its
/// fields is blank in a column that must be filled, and each of the five other rules
/// holds.
pub proof fn lemma_clean_row(
    schema: SchemaView,
    rules: RulesView,
    row: Seq<Seq<char>>,
    size: Option<NumberView>,
)
    ensures
        row_violations(schema, rules, row, size).len() == 0 <==> {
            &&& row.len() == schema.header.len()
            &&& forall|i: int|
                0 <= i < row.len() ==> !is_blank(#[trigger] row[i]) || is_optional(
                    schema.header[i],
                )
            &&& size_violation(rules, row[schema.size], size) is None
            &&& width_violation(rules, row[schema.width]) is None
            &&& name_violation(row[schema.object_name], row[schema.filename]) is None
            &&& category_violation(rules, row[schema.sup_category]) is None
            &&& source_violation(rules, row[schema.source]) is None
        },
{
    if row.len() == schema.header.len() {
        lemma_no_empty_field(schema.header, row, row.len());
        lemma_every_failure_is_reported(schema, rules, row, size);
    }
}

/// A row whose blank fields all stand in columns that may be left empty, and which
/// passes the five other rules, has no violation.
pub proof fn lemma_optional_column_may_be_blank(
    schema: SchemaView,
    rules: RulesView,
    row: Seq<Seq<char>>,
    size: Option<NumberView>,
)
    requires
        row.len() == schema.header.len(),
        forall|i: int|
            0 <= i < row.len() && is_blank(#[trigger] row[i]) ==> is_optional(schema.header[i]),
        size_violation(rules, row[schema.size], size) is None,
        width_violation(rules, row[schema.width]) is None,
        name_violation(row[schema.object_name], row[schema.filename]) is None,
        category_violation(rules, row[schema.sup_category]) is None,
        source_violation(rules, row[schema.source]) is None,
    ensures
        row_violations(schema, rules, row, size) == Seq::<ViolationView>::empty(),
{
    lemma_clean_row(schema, rules, row, size);
}

/// Where the bounds are in order, a size that is one of the bounds is allowed.
pub proof fn lemma_bounds_are_allowed(rules: RulesView, field: Seq<char>, number: NumberView)
    requires
        !is_below(rules.max_size.bits, rules.min_size.bits),
        number.bits == rules.min_size.bits || number.bits == rules.max_size.bits,
    ensures
        size_violation(rules, field, Some(number)) is None,
{
}

/// A size field that does not end with the unit is not checked, whatever number was
/// read.
pub proof fn lemma_size_without_unit_is_allowed(
    rules: RulesView,
    field: Seq<char>,
    size: Option<NumberView>,
)
    requires
        !ends_with(trimmed(field), SIZE_UNIT@),
    ensures
        size_violation(rules, field, size) is None,
{
}

/// The bounds of the standard rules are numbers, and in order.
pub proof fn lemma_standard_bounds_in_order()
    ensures
        is_below(standard_rules().min_size.bits, standard_rules().max_size.bits),
        !is_below(standard_rules().max_size.bits, standard_rules().min_size.bits),
{
    lemma_size_increases(0x4000_0000_0000_0000, 0x4010_0000_0000_0000);
}


} // verus!
