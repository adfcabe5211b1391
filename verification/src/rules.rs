//! The names of the columns that are checked, and the values that the checks ask for.

use crate::number::{Number, NumberView};
use vstd::prelude::*;

verus! {

/// The column that holds the name of the image file.
pub const COL_FILENAME: &'static str = "Filename";

/// The column that holds the size of the image file.
pub const COL_SIZE: &'static str = "Size";

/// The column that holds the width of the image.
pub const COL_WIDTH: &'static str = "Width";

/// The column that holds the name of the object shown.
pub const COL_OBJECT_NAME: &'static str = "IPTC:Object Name";

/// The column that holds the category.
pub const COL_SUP_CATEGORY: &'static str = "IPTC:Sup. Category";

/// The column that holds the source.
pub const COL_SOURCE: &'static str = "IPTC:Source";

/// The column that may be left empty.
pub const COL_CAPTION: &'static str = "IPTC:Caption";

/// The unit that follows the number in a size, with the space before it.
pub const SIZE_UNIT: &'static str = " Mio";

/// The character that ends the object name in a file name.
pub const NAME_SEPARATOR: char = '_';

/// The names of the columns that a header must hold, in the order in which they are
/// looked for.
pub open spec fn required_columns() -> Seq<Seq<char>> {
    seq![
        COL_FILENAME@,
        COL_SIZE@,
        COL_WIDTH@,
        COL_OBJECT_NAME@,
        COL_SUP_CATEGORY@,
        COL_SOURCE@,
    ]
}

/// Whether a column of this name may be left empty.
pub open spec fn is_optional(column: Seq<char>) -> bool {
    column == COL_CAPTION@
}

/// The values that the checks hold a row against.
#[derive(Debug)]
pub struct Rules {
    /// The category that every row must have.
    pub category: String,
    /// The source that every row must have.
    pub source: String,
    /// The width that every row must have.
    pub width: String,
    /// The smallest size that is allowed, in Mio.
    pub min_size: Number,
    /// The largest size that is allowed, in Mio.
    pub max_size: Number,
}

/// What a `Rules` stands for.
pub struct RulesView {
    pub category: Seq<char>,
    pub source: Seq<char>,
    pub width: Seq<char>,
    pub min_size: NumberView,
    pub max_size: NumberView,
}

impl View for Rules {
    type V = RulesView;

    open spec fn view(&self) -> RulesView {
        RulesView {
            category: self.category@,
            source: self.source@,
            width: self.width@,
            min_size: self.min_size@,
            max_size: self.max_size@,
        }
    }
}

/// The rules of the archive: sizes from 2 to 4 Mio, a width of 3200.
pub open spec fn standard_rules() -> RulesView {
    RulesView {
        category: "MQB - Iconotheque"@,
        source: "Fichier produit par Arkhenum"@,
        width: "3200"@,
        min_size: NumberView { bits: 0x4000_0000_0000_0000, text: "2"@ },
        max_size: NumberView { bits: 0x4010_0000_0000_0000, text: "4"@ },
    }
}

impl Rules {
    /// The rules of the archive.
    pub fn standard() -> (rules: Rules)
        ensures
            rules@ == standard_rules(),
    {
        Rules {
            category: String::from_str("MQB - Iconotheque"),
            source: String::from_str("Fichier produit par Arkhenum"),
            width: String::from_str("3200"),
            min_size: Number { bits: 0x4000_0000_0000_0000, text: String::from_str("2") },
            max_size: Number { bits: 0x4010_0000_0000_0000, text: String::from_str("4") },
        }
    }
}

} // verus!
