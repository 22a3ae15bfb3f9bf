//! One record of the translation table: its cells, keyed by column name.

use vstd::hash_map::StringHashMap;
use vstd::prelude::*;

verus! {

/// One record of the tabular source. Each cell is found under the name of its column;
/// a column name occurs at most once.
pub struct Row {
    fields: StringHashMap<String>,
}

impl View for Row {
    type V = Map<Seq<char>, Seq<char>>;

    closed spec fn view(&self) -> Map<Seq<char>, Seq<char>> {
        self.fields@.map_values(|value: String| value@)
    }
}

impl DeepView for Row {
    type V = Map<Seq<char>, Seq<char>>;

    open spec fn deep_view(&self) -> Map<Seq<char>, Seq<char>> {
        self@
    }
}

impl Row {
    /// A row without cells.
    pub fn new() -> (row: Row)
        ensures
            row@ == Map::<Seq<char>, Seq<char>>::empty(),
    {
        Row { fields: StringHashMap::new() }
    }

    /// Sets the cell of `column` to `value`, replacing the cell that the column had.
    pub fn insert(&mut self, column: String, value: String)
        ensures
            final(self)@ == old(self)@.insert(column@, value@),
    {
        self.fields.insert(column, value);
    }

    /// The cell of `column`, if the row has that column.
    pub fn get(&self, column: &str) -> (cell: Option<&String>)
        ensures
            match cell {
                Some(value) => self@.contains_key(column@) && value@ == self@[column@],
                None => !self@.contains_key(column@),
            },
    {
        self.fields.get(column)
    }
}

} // verus!
