//! The todo record, the request schemas, and the canonical text of a
//! record identifier.
use crate::text::hex_char;
use vstd::prelude::*;

verus! {

/// One record of the todos table. Identifiers are held as the 128-bit
/// value of the UUID; timestamps as seconds since the Unix epoch.
pub struct Todo {
    pub id: u128,
    pub title: String,
    pub content: String,
    pub category: String,
    pub completed: bool,
    pub created_at: i64,
    pub updated_at: i64,
}

impl Todo {
    /// A field-for-field copy of the record.
    pub fn duplicate(&self) -> (r: Todo)
        ensures
            r == *self,
    {
        Todo {
            id: self.id,
            title: self.title.clone(),
            content: self.content.clone(),
            category: self.category.clone(),
            completed: self.completed,
            created_at: self.created_at,
            updated_at: self.updated_at,
        }
    }
}

/// Query parameters of the list request: both are optional, `page`
/// defaulting to 1 and `limit` to 10.
pub struct FilterOptions {
    pub page: Option<usize>,
    pub limit: Option<usize>,
}

/// Body of the create request: `category` is optional and defaults to
/// the empty string.
pub struct CreateTodoSchema {
    pub title: String,
    pub content: String,
    pub category: Option<String>,
}

/// The nibble of `x` at position `i` (for 0 <= i <= 31), counting from
/// the most significant.
pub open spec fn nibble(x: u128, i: int) -> int {
    ((x >> (((31 - i) * 4) as u128)) % 16) as int
}

/// The hex digits of `x` from nibble position `lo` up to `hi`.
pub open spec fn hex_run(x: u128, lo: int, hi: int) -> Seq<char> {
    Seq::new((hi - lo) as nat, |j: int| hex_char(nibble(x, lo + j)))
}

/// The canonical text of an identifier: its 32 hex digits, lower case
/// and most significant first, with hyphens after the 8th, 12th, 16th
/// and 20th digits.
pub open spec fn uuid_hyphenated(x: u128) -> Seq<char> {
    hex_run(x, 0, 8) + seq!['-'] + hex_run(x, 8, 12) + seq!['-'] + hex_run(x, 12, 16) + seq!['-']
        + hex_run(x, 16, 20) + seq!['-'] + hex_run(x, 20, 32)
}

/// Relies on uuid::Uuid::from_u128, which takes the big-endian bytes of
/// the value, and on the Display of its hyphenated form: lower-case hex
/// in five groups of 8, 4, 4, 4 and 12 digits separated by hyphens.
#[verifier::external_body]
pub(crate) fn uuid_to_string(x: u128) -> (r: String)
    ensures
        r@ == uuid_hyphenated(x),
{
    uuid::Uuid::from_u128(x).hyphenated().to_string()
}

} // verus!
