//! The failures that a row can show, and how each is worded.

use crate::text::{decimal, decimal_text};
use vstd::prelude::*;

verus! {

/// One rule that a row breaks.
#[derive(Debug)]
pub enum Violation {
    /// The row does not have as many fields as the header.
    FieldCount { fields: usize, columns: usize },
    /// A field that must be filled holds nothing but white space.
    EmptyField { column: String },
    /// The size is a number below the smallest that is allowed.
    SizeBelowMinimum { size: String, minimum: String },
    /// The size is a number above the largest that is allowed.
    SizeAboveMaximum { size: String, maximum: String },
    /// What stands before the unit of the size is no number.
    InvalidSize { text: String },
    /// The width is not the one that is asked for.
    WrongWidth { found: String, expected: String },
    /// The object name is not what the file name begins with.
    NameMismatch { object_name: String, filename: String },
    /// The category is not the one that is asked for.
    WrongCategory { found: String, expected: String },
    /// The source is not the one that is asked for.
    WrongSource { found: String, expected: String },
}

/// What a `Violation` stands for.
pub enum ViolationView {
    FieldCount { fields: nat, columns: nat },
    EmptyField { column: Seq<char> },
    SizeBelowMinimum { size: Seq<char>, minimum: Seq<char> },
    SizeAboveMaximum { size: Seq<char>, maximum: Seq<char> },
    InvalidSize { text: Seq<char> },
    WrongWidth { found: Seq<char>, expected: Seq<char> },
    NameMismatch { object_name: Seq<char>, filename: Seq<char> },
    WrongCategory { found: Seq<char>, expected: Seq<char> },
    WrongSource { found: Seq<char>, expected: Seq<char> },
}

impl View for Violation {
    type V = ViolationView;

    open spec fn view(&self) -> ViolationView {
        match *self {
            Violation::FieldCount { fields, columns } => ViolationView::FieldCount {
                fields: fields as nat,
                columns: columns as nat,
            },
            Violation::EmptyField { column } => ViolationView::EmptyField { column: column@ },
            Violation::SizeBelowMinimum { size, minimum } => ViolationView::SizeBelowMinimum {
                size: size@,
                minimum: minimum@,
            },
            Violation::SizeAboveMaximum { size, maximum } => ViolationView::SizeAboveMaximum {
                size: size@,
                maximum: maximum@,
            },
            Violation::InvalidSize { text } => ViolationView::InvalidSize { text: text@ },
            Violation::WrongWidth { found, expected } => ViolationView::WrongWidth {
                found: found@,
                expected: expected@,
            },
            Violation::NameMismatch { object_name, filename } => ViolationView::NameMismatch {
                object_name: object_name@,
                filename: filename@,
            },
            Violation::WrongCategory { found, expected } => ViolationView::WrongCategory {
                found: found@,
                expected: expected@,
            },
            Violation::WrongSource { found, expected } => ViolationView::WrongSource {
                found: found@,
                expected: expected@,
            },
        }
    }
}

impl DeepView for Violation {
    type V = ViolationView;

    open spec fn deep_view(&self) -> ViolationView {
        self@
    }
}

/// The wording of a violation.
pub open spec fn message_of(violation: ViolationView) -> Seq<char> {
    match violation {
        ViolationView::FieldCount { fields, columns } => "Row has "@ + decimal(fields)
            + " fields, it should have "@ + decimal(columns),
        ViolationView::EmptyField { column } => "Field '"@ + column + "' is empty"@,
        ViolationView::SizeBelowMinimum { size, minimum } => "Size '"@ + size
            + " Mio' is below the minimum '"@ + minimum + " Mio'"@,
        ViolationView::SizeAboveMaximum { size, maximum } => "Size '"@ + size
            + " Mio' is above the maximum '"@ + maximum + " Mio'"@,
        ViolationView::InvalidSize { text } => "Invalid size format: "@ + text,
        ViolationView::WrongWidth { found, expected } => "Width is '"@ + found
            + "', it should be '"@ + expected + "'"@,
        ViolationView::NameMismatch { object_name, filename } => "Object name '"@ + object_name
            + "' does not match filename '"@ + filename + "'"@,
        ViolationView::WrongCategory { found, expected } => "Sup category is '"@ + found
            + "', it should be '"@ + expected + "'"@,
        ViolationView::WrongSource { found, expected } => "Source is '"@ + found
            + "', it should be '"@ + expected + "'"@,
    }
}

/// `head`, `first`, `middle`, `second` and `tail`, one after the other.
fn frame(head: &str, first: &str, middle: &str, second: &str, tail: &str) -> (out: String)
    ensures
        out@ == head@ + first@ + middle@ + second@ + tail@,
{
    let mut out = String::from_str(head);
    out.append(first);
    out.append(middle);
    out.append(second);
    out.append(tail);
    out
}

impl Violation {
    /// The wording of the violation.
    pub fn message(&self) -> (out: String)
        ensures
            out@ == message_of(self@),
    {
        match self {
            Violation::FieldCount { fields, columns } => {
                let fields_text = decimal_text(*fields as u128);
                let columns_text = decimal_text(*columns as u128);
                let mut out = String::from_str("Row has ");
                out.append(fields_text.as_str());
                out.append(" fields, it should have ");
                out.append(columns_text.as_str());
                out
            },
            Violation::EmptyField { column } => {
                let mut out = String::from_str("Field '");
                out.append(column.as_str());
                out.append("' is empty");
                out
            },
            Violation::SizeBelowMinimum { size, minimum } => frame(
                "Size '",
                size.as_str(),
                " Mio' is below the minimum '",
                minimum.as_str(),
                " Mio'",
            ),
            Violation::SizeAboveMaximum { size, maximum } => frame(
                "Size '",
                size.as_str(),
                " Mio' is above the maximum '",
                maximum.as_str(),
                " Mio'",
            ),
            Violation::InvalidSize { text } => {
                let mut out = String::from_str("Invalid size format: ");
                out.append(text.as_str());
                out
            },
            Violation::WrongWidth { found, expected } => frame(
                "Width is '",
                found.as_str(),
                "', it should be '",
                expected.as_str(),
                "'",
            ),
            Violation::NameMismatch { object_name, filename } => frame(
                "Object name '",
                object_name.as_str(),
                "' does not match filename '",
                filename.as_str(),
                "'",
            ),
            Violation::WrongCategory { found, expected } => frame(
                "Sup category is '",
                found.as_str(),
                "', it should be '",
                expected.as_str(),
                "'",
            ),
            Violation::WrongSource { found, expected } => frame(
                "Source is '",
                found.as_str(),
                "', it should be '",
                expected.as_str(),
                "'",
            ),
        }
    }
}

} // verus!
