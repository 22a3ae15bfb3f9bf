//! The base name of a row's output files: the row's own name, or its number.

use crate::row::Row;
use vstd::prelude::*;
use vstd::string::*;

verus! {

/// The name of the column that holds the name of a row.
pub const NAME_COLUMN: &'static str = "Description";

/// The character that stands for a digit from 0 to 9.
pub open spec fn digit(d: nat) -> char
    recommends
        d < 10,
{
    "0123456789"@[d as int]
}

/// A number in decimal notation, without leading zeros; `0` is written `0`.
pub open spec fn decimal(n: nat) -> Seq<char>
    decreases n,
{
    if n < 10 {
        seq![digit(n)]
    } else {
        decimal(n / 10).push(digit(n % 10))
    }
}

/// Whether the row names itself: it has the name column, and the cell is not empty.
pub open spec fn has_name(row: Map<Seq<char>, Seq<char>>) -> bool {
    row.contains_key(NAME_COLUMN@) && row[NAME_COLUMN@].len() > 0
}

/// The base name of the files of a row: the row's own name where it has one, else the
/// number of the row, counted from 0, in decimal notation.
pub open spec fn row_name(row: Map<Seq<char>, Seq<char>>, record_num: nat) -> Seq<char> {
    if has_name(row) {
        row[NAME_COLUMN@]
    } else {
        decimal(record_num)
    }
}

/// Writes a number in decimal notation.
pub fn decimal_string(n: u64) -> (text: String)
    ensures
        text@ == decimal(n as nat),
    decreases n,
{
    proof {
        reveal_strlit("0123456789");
    }
    let d = (n % 10) as usize;
    let last = "0123456789".substring_char(d, d + 1);
    if n < 10 {
        last.to_owned()
    } else {
        let mut text = decimal_string(n / 10);
        text.append(last);
        text
    }
}

/// The base name that was chosen for a row.
#[derive(Debug)]
pub struct RowName {
    /// The name.
    pub text: String,
    /// Whether the name is the row's number, for want of a name of its own.
    pub numbered: bool,
}

/// Chooses the base name of the files of `row`, which is row number `record_num`,
/// counted from 0.
pub fn name_of_row(row: &Row, record_num: u64) -> (name: RowName)
    ensures
        name.text@ == row_name(row@, record_num as nat),
        name.numbered == !has_name(row@),
{
    match row.get(NAME_COLUMN) {
        Some(text) if !text.as_str().is_empty() => RowName { text: text.clone(), numbered: false },
        _ => RowName { text: decimal_string(record_num), numbered: true },
    }
}

} // verus!
