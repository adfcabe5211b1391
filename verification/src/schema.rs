//! The header of a table, and where in it the checked columns stand.

use crate::rules::{
    COL_FILENAME, COL_OBJECT_NAME, COL_SIZE, COL_SOURCE, COL_SUP_CATEGORY, COL_WIDTH,
};
use crate::text::same_text;
use vstd::prelude::*;

verus! {

/// Whether `index` is the first place in `header` at which `name` stands.
pub open spec fn is_position(header: Seq<Seq<char>>, name: Seq<char>, index: int) -> bool {
    &&& 0 <= index < header.len()
    &&& header[index] == name
    &&& forall|j: int| 0 <= j < index ==> header[j] != name
}

/// `name` alone where `header` does not hold it, nothing where it does.
pub open spec fn missing_if_absent(header: Seq<Seq<char>>, name: Seq<char>) -> Seq<Seq<char>> {
    if header.contains(name) {
        Seq::empty()
    } else {
        seq![name]
    }
}

/// The names of the checked columns that `header` does not hold, in the order in which
/// they are looked for.
pub open spec fn absent_columns(header: Seq<Seq<char>>) -> Seq<Seq<char>> {
    missing_if_absent(header, COL_FILENAME@) + missing_if_absent(header, COL_SIZE@)
        + missing_if_absent(header, COL_WIDTH@) + missing_if_absent(header, COL_OBJECT_NAME@)
        + missing_if_absent(header, COL_SUP_CATEGORY@) + missing_if_absent(header, COL_SOURCE@)
}

/// What a `Schema` stands for: a header and the index of each checked column in it.
pub struct SchemaView {
    pub header: Seq<Seq<char>>,
    pub filename: int,
    pub size: int,
    pub width: int,
    pub object_name: int,
    pub sup_category: int,
    pub source: int,
}

impl SchemaView {
    /// Whether each index is the first place at which the header holds the column's name.
    pub open spec fn wf(self) -> bool {
        &&& is_position(self.header, COL_FILENAME@, self.filename)
        &&& is_position(self.header, COL_SIZE@, self.size)
        &&& is_position(self.header, COL_WIDTH@, self.width)
        &&& is_position(self.header, COL_OBJECT_NAME@, self.object_name)
        &&& is_position(self.header, COL_SUP_CATEGORY@, self.sup_category)
        &&& is_position(self.header, COL_SOURCE@, self.source)
    }
}

/// A header in which every checked column was found.
#[derive(Debug)]
pub struct Schema {
    header: Vec<String>,
    filename: usize,
    size: usize,
    width: usize,
    object_name: usize,
    sup_category: usize,
    source: usize,
}

impl View for Schema {
    type V = SchemaView;

    closed spec fn view(&self) -> SchemaView {
        SchemaView {
            header: self.header.deep_view(),
            filename: self.filename as int,
            size: self.size as int,
            width: self.width as int,
            object_name: self.object_name as int,
            sup_category: self.sup_category as int,
            source: self.source as int,
        }
    }
}

/// The first place in `header` at which `name` stands.
pub fn find_column(header: &Vec<String>, name: &str) -> (out: Option<usize>)
    ensures
        match out {
            Some(index) => is_position(header.deep_view(), name@, index as int),
            None => !header.deep_view().contains(name@),
        },
{
    let mut i: usize = 0;
    while i < header.len()
        invariant
            i <= header.len(),
            forall|j: int| 0 <= j < i ==> #[trigger] header.deep_view()[j] != name@,
        decreases header.len() - i,
    {
        if same_text(header[i].as_str(), name) {
            return Some(i);
        }
        i += 1;
    }
    None
}

impl Schema {
    #[verifier::type_invariant]
    spec fn well_formed(self) -> bool {
        self@.wf()
    }

    /// Looks up every checked column in `header`. Where one or more are not there, their
    /// names come back instead, in the order in which they are looked for.
    pub fn resolve(header: Vec<String>) -> (out: Result<Schema, Vec<String>>)
        ensures
            match out {
                Ok(schema) => schema@.header == header.deep_view() && schema@.wf()
                    && absent_columns(header.deep_view()).len() == 0,
                Err(missing) => missing.deep_view() == absent_columns(header.deep_view())
                    && missing.len() > 0,
            },
    {
        let filename = find_column(&header, COL_FILENAME);
        let size = find_column(&header, COL_SIZE);
        let width = find_column(&header, COL_WIDTH);
        let object_name = find_column(&header, COL_OBJECT_NAME);
        let sup_category = find_column(&header, COL_SUP_CATEGORY);
        let source = find_column(&header, COL_SOURCE);
        match (filename, size, width, object_name, sup_category, source) {
            (
                Some(filename),
                Some(size),
                Some(width),
                Some(object_name),
                Some(sup_category),
                Some(source),
            ) => {
                Ok(Schema { header, filename, size, width, object_name, sup_category, source })
            },
            _ => {
                let mut missing: Vec<String> = Vec::new();
                note_absent(&mut missing, &filename, COL_FILENAME, Ghost(header.deep_view()));
                note_absent(&mut missing, &size, COL_SIZE, Ghost(header.deep_view()));
                note_absent(&mut missing, &width, COL_WIDTH, Ghost(header.deep_view()));
                note_absent(&mut missing, &object_name, COL_OBJECT_NAME, Ghost(header.deep_view()));
                note_absent(&mut missing, &sup_category, COL_SUP_CATEGORY, Ghost(header.deep_view()));
                note_absent(&mut missing, &source, COL_SOURCE, Ghost(header.deep_view()));
                assert(missing.deep_view() =~= absent_columns(header.deep_view()));
                Err(missing)
            },
        }
    }

    /// The header.
    pub fn header(&self) -> (out: &Vec<String>)
        ensures
            out.deep_view() == self@.header,
            self@.wf(),
    {
        proof {
            use_type_invariant(self);
        }
        &self.header
    }

    /// The index of the column that holds the file name.
    pub fn filename(&self) -> (out: usize)
        ensures
            out == self@.filename,
    {
        self.filename
    }

    /// The index of the column that holds the size.
    pub fn size(&self) -> (out: usize)
        ensures
            out == self@.size,
    {
        self.size
    }

    /// The index of the column that holds the width.
    pub fn width(&self) -> (out: usize)
        ensures
            out == self@.width,
    {
        self.width
    }

    /// The index of the column that holds the object name.
    pub fn object_name(&self) -> (out: usize)
        ensures
            out == self@.object_name,
    {
        self.object_name
    }

    /// The index of the column that holds the category.
    pub fn sup_category(&self) -> (out: usize)
        ensures
            out == self@.sup_category,
    {
        self.sup_category
    }

    /// The index of the column that holds the source.
    pub fn source(&self) -> (out: usize)
        ensures
            out == self@.source,
    {
        self.source
    }
}

/// Adds `name` to `missing` where the search for it found nothing.
fn note_absent(
    missing: &mut Vec<String>,
    found: &Option<usize>,
    name: &str,
    Ghost(header): Ghost<Seq<Seq<char>>>,
)
    requires
        match *found {
            Some(index) => is_position(header, name@, index as int),
            None => !header.contains(name@),
        },
    ensures
        final(missing).deep_view() == old(missing).deep_view() + missing_if_absent(header, name@),
{
    if found.is_none() {
        missing.push(String::from_str(name));
    }
}

} // verus!
