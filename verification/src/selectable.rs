//! Records that know their own table: the query that selects all their
//! fields, and the count of their rows.

use vstd::prelude::*;

use crate::error::Error;
use crate::numstr;
use crate::query;
use crate::query::QueryBuilder;
use crate::row::FromRow;
use crate::row::RawRow;

verus! {

/// A record bound to one table: its name, the columns its fields select,
/// and the column its rows are ordered by.
pub trait Selectable: FromRow + Sized {
    /// The table name.
    spec fn table_name_spec() -> Seq<char>;

    /// The selected columns, as one comma-separated text.
    spec fn select_spec() -> Seq<char>;

    /// The ordering column.
    spec fn order_by_spec() -> Seq<char>;

    fn table_name() -> (r: &'static str)
        ensures
            r@ == Self::table_name_spec(),
    ;

    fn select_cols() -> (r: &'static str)
        ensures
            r@ == Self::select_spec(),
    ;

    fn order_by_col() -> (r: &'static str)
        ensures
            r@ == Self::order_by_spec(),
    ;

    /// Starts a query selecting all fields of the record from its table,
    /// ordered by its ordering column.
    fn select_all() -> (q: QueryBuilder<Self>)
        ensures
            q.statement@ == "SELECT "@ + Self::select_spec() + " FROM "@
                + Self::table_name_spec(),
            q.order_by matches Some(f) && f@ == Self::order_by_spec(),
            q.timeout is None,
            q.role is None,
            q.bindings@.len() == 0,
            q.offset is None,
            q.limit is None,
            q.parameters is None,
    {
        let mut s = String::new();
        s.append("SELECT ");
        s.append(Self::select_cols());
        s.append(" FROM ");
        s.append(Self::table_name());
        proof {
            assert(s@ =~= "SELECT "@ + Self::select_spec() + " FROM "@
                + Self::table_name_spec());
        }
        let q: QueryBuilder<Self> = query::sql(s.as_str());
        q.order_by(Self::order_by_col())
    }
}

/// The statement that counts a table's rows.
pub fn count_statement(table_name: &str) -> (r: String)
    ensures
        r@ == "SELECT count(*) FROM "@ + table_name@,
{
    let mut s = String::new();
    s.append("SELECT count(*) FROM ");
    s.append(table_name);
    proof {
        assert(s@ =~= "SELECT count(*) FROM "@ + table_name@);
    }
    s
}

/// The one cell an aggregate count query is expected to return: the first
/// cell of the first row, when it is there and not absent.
pub open spec fn count_cell(data: Seq<RawRow>) -> Option<Seq<char>> {
    if data.len() > 0 && data[0].0@.len() > 0 {
        match data[0].0@[0] {
            None => None,
            Some(s) => Some(s@),
        }
    } else {
        None
    }
}

/// Reads the single cell that an aggregate count query returns: the first
/// cell of the first row, as a decimal count. A response with no row, no
/// column or an absent cell, or one whose cell is no `u64` count, is an
/// `Other` error.
pub fn parse_count(data: &Vec<RawRow>) -> (r: Result<u64, Error>)
    ensures
        (match count_cell(data@) {
            None => (r matches Err(e) && e is Other),
            Some(cell) => (match numstr::uint_of_str(cell) {
                Some(n) => if n <= u64::MAX {
                    r == Ok::<u64, Error>(n as u64)
                } else {
                    r matches Err(e) && e is Other
                },
                None => (r matches Err(e) && e is Other),
            }),
        }),
{
    if data.len() == 0 {
        return Err(Error::other("expected a single row and column back from count(*) query"));
    }
    let row = &data[0];
    if row.0.len() == 0 {
        return Err(Error::other("expected a single row and column back from count(*) query"));
    }
    match &row.0[0] {
        None => Err(Error::other("expected a single row and column back from count(*) query")),
        Some(cell) => {
            match numstr::parse_u64_str(cell.as_str()) {
                Some(n) => Ok(n),
                None => Err(Error::other("could not parse col count as u64")),
            }
        },
    }
}

} // verus!
