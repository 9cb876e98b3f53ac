//! The query builder: a SQL statement with ordering, paging, bindings and
//! statement parameters, assembled into the exact statement text that is
//! sent.

use vstd::prelude::*;

use core::marker::PhantomData;

use crate::numstr;
use crate::row::FromRow;

verus! {

/// Relies on `core::marker::PhantomData`'s `Clone`: the type has a single
/// value, so a clone is that value again. vstd leaves this impl
/// unspecified.
pub assume_specification<T: core::marker::PointeeSized>[ <PhantomData<T> as Clone>::clone ](
    m: &PhantomData<T>,
) -> (r: PhantomData<T>)
    ensures
        r == *m,
;

/// The kind tag a binding carries on the wire.
#[derive(Clone, Copy, Debug, PartialEq, Eq, Structural)]
pub enum BindingKind {
    Bool,
    Fixed,
    Real,
    Text,
    DateTime,
    Date,
    Time,
}

/// One statement binding: its kind tag and its textual value.
#[derive(Clone, Debug)]
pub struct Binding {
    pub kind: BindingKind,
    pub value: String,
}

/// Optional statement parameters of a query.
#[derive(Clone, Copy, Debug, PartialEq, Eq, Structural)]
pub struct StatementParameters {
    pub chunk_size: Option<usize>,
    pub rows_per_set: Option<usize>,
}

impl Default for StatementParameters {
    fn default() -> (r: Self)
        ensures
            r.chunk_size is None,
            r.rows_per_set is None,
    {
        StatementParameters { chunk_size: None, rows_per_set: None }
    }
}

/// A built query, ready to send: the final statement text and everything
/// that goes with it.
#[derive(Clone, Debug)]
pub struct SnowflakeQuery {
    pub statement: String,
    pub timeout: Option<u32>,
    pub role: Option<String>,
    pub bindings: Vec<Binding>,
    pub parameters: Option<StatementParameters>,
}

/// A query under construction, typed by the record its rows decode to.
#[derive(Debug)]
pub struct QueryBuilder<R> {
    pub statement: String,
    pub timeout: Option<u32>,
    pub role: Option<String>,
    pub bindings: Vec<Binding>,
    pub order_by: Option<String>,
    pub offset: Option<usize>,
    pub limit: Option<usize>,
    pub parameters: Option<StatementParameters>,
    pub marker: PhantomData<R>,
}

impl<R> Clone for QueryBuilder<R> {
    /// An equal builder, whatever the record type.
    fn clone(&self) -> (r: Self)
        ensures
            r.statement@ == self.statement@,
            r.timeout == self.timeout,
            opt_text(r.role) == opt_text(self.role),
            r.bindings@ == self.bindings@,
            opt_text(r.order_by) == opt_text(self.order_by),
            r.offset == self.offset,
            r.limit == self.limit,
            r.parameters == self.parameters,
    {
        QueryBuilder {
            statement: self.statement.clone(),
            timeout: self.timeout,
            role: clone_text(&self.role),
            bindings: clone_bindings(&self.bindings),
            order_by: clone_text(&self.order_by),
            offset: self.offset,
            limit: self.limit,
            parameters: self.parameters,
            marker: PhantomData,
        }
    }
}

/// An equal optional text.
fn clone_text(o: &Option<String>) -> (r: Option<String>)
    ensures
        opt_text(r) == opt_text(*o),
{
    match o {
        None => None,
        Some(s) => Some(s.clone()),
    }
}

/// An equal binding list.
fn clone_bindings(v: &Vec<Binding>) -> (r: Vec<Binding>)
    ensures
        r@ == v@,
{
    let mut r: Vec<Binding> = Vec::new();
    let mut i: usize = 0;
    while i < v.len()
        invariant
            0 <= i <= v@.len(),
            r@ == v@.take(i as int),
        decreases v@.len() - i,
    {
        let b = &v[i];
        r.push(Binding { kind: b.kind, value: b.value.clone() });
        proof {
            assert(r@ =~= v@.take(i + 1));
        }
        i = i + 1;
    }
    proof {
        assert(v@.take(v@.len() as int) =~= v@);
    }
    r
}

/// Starts a query from a statement text.
pub fn sql<R: FromRow>(statement: &str) -> (q: QueryBuilder<R>)
    ensures
        fresh_query(q, statement@),
{
    QueryBuilder::new(statement)
}

/// A builder holding just its statement, everything else unset.
pub open spec fn fresh_query<R>(q: QueryBuilder<R>, statement: Seq<char>) -> bool {
    &&& q.statement@ == statement
    &&& q.timeout is None
    &&& q.role is None
    &&& q.bindings@.len() == 0
    &&& q.order_by is None
    &&& q.offset is None
    &&& q.limit is None
    &&& q.parameters is None
}

/// The statement text a builder sends: the statement, then the ORDER BY
/// clause, then LIMIT, then OFFSET, each only when set.
pub open spec fn built_statement(
    statement: Seq<char>,
    order_by: Option<Seq<char>>,
    limit: Option<usize>,
    offset: Option<usize>,
) -> Seq<char> {
    let s1 = match order_by {
        None => statement,
        Some(f) => statement + " ORDER BY '"@ + f + "'"@,
    };
    let s2 = match limit {
        None => s1,
        Some(l) => s1 + " LIMIT "@ + numstr::dec_digits(l as nat),
    };
    match offset {
        None => s2,
        Some(o) => s2 + " OFFSET "@ + numstr::dec_digits(o as nat),
    }
}

/// The view of an optional text.
pub open spec fn opt_text(o: Option<String>) -> Option<Seq<char>> {
    match o {
        None => None,
        Some(s) => Some(s@),
    }
}

impl<R: FromRow> QueryBuilder<R> {
    /// A builder holding just the statement.
    pub fn new(query: &str) -> (q: Self)
        ensures
            fresh_query(q, query@),
    {
        QueryBuilder {
            statement: query.to_owned(),
            timeout: None,
            role: None,
            bindings: Vec::new(),
            order_by: None,
            offset: None,
            limit: None,
            parameters: None,
            marker: PhantomData,
        }
    }

    /// Assembles the query to send: the statement with its ORDER BY, LIMIT
    /// and OFFSET clauses appended, and the rest carried over.
    pub fn build_query(self) -> (q: SnowflakeQuery)
        ensures
            q.statement@ == built_statement(
                self.statement@,
                opt_text(self.order_by),
                self.limit,
                self.offset,
            ),
            q.timeout == self.timeout,
            q.role == self.role,
            q.bindings == self.bindings,
            q.parameters == self.parameters,
    {
        let mut statement = self.statement;
        match &self.order_by {
            None => {},
            Some(order_by) => {
                statement.append(" ORDER BY '");
                statement.append(order_by.as_str());
                statement.append("'");
                proof {
                    reveal_strlit(" ORDER BY '");
                    reveal_strlit("'");
                }
            },
        }
        match self.limit {
            None => {},
            Some(limit) => {
                statement.append(" LIMIT ");
                let digits = numstr::u64_to_string(limit as u64);
                statement.append(digits.as_str());
                proof {
                    reveal_strlit(" LIMIT ");
                }
            },
        }
        match self.offset {
            None => {},
            Some(offset) => {
                statement.append(" OFFSET ");
                let digits = numstr::u64_to_string(offset as u64);
                statement.append(digits.as_str());
                proof {
                    reveal_strlit(" OFFSET ");
                }
            },
        }
        SnowflakeQuery {
            statement,
            timeout: self.timeout,
            role: self.role,
            bindings: self.bindings,
            parameters: self.parameters,
        }
    }

    /// Appends more statement text, after a space.
    pub fn sql(self, s: &str) -> (q: Self)
        ensures
            q.statement@ == self.statement@ + " "@ + s@,
            q.timeout == self.timeout,
            q.role == self.role,
            q.bindings == self.bindings,
            q.order_by == self.order_by,
            q.offset == self.offset,
            q.limit == self.limit,
            q.parameters == self.parameters,
    {
        let mut statement = self.statement;
        statement.append(" ");
        statement.append(s);
        proof {
            reveal_strlit(" ");
        }
        QueryBuilder { statement, ..self }
    }

    /// Orders the result by one field.
    pub fn order_by(self, field: &str) -> (q: Self)
        ensures
            q.order_by matches Some(f) && f@ == field@,
            q.statement == self.statement,
            q.timeout == self.timeout,
            q.role == self.role,
            q.bindings == self.bindings,
            q.offset == self.offset,
            q.limit == self.limit,
            q.parameters == self.parameters,
    {
        QueryBuilder { order_by: Some(field.to_owned()), ..self }
    }

    /// Skips the first `offset` rows.
    pub fn offset(self, offset: usize) -> (q: Self)
        ensures
            q.offset == Some(offset),
            q.statement == self.statement,
            q.timeout == self.timeout,
            q.role == self.role,
            q.bindings == self.bindings,
            q.order_by == self.order_by,
            q.limit == self.limit,
            q.parameters == self.parameters,
    {
        QueryBuilder { offset: Some(offset), ..self }
    }

    /// Caps the number of rows returned.
    pub fn limit(self, limit: usize) -> (q: Self)
        ensures
            q.limit == Some(limit),
            q.statement == self.statement,
            q.timeout == self.timeout,
            q.role == self.role,
            q.bindings == self.bindings,
            q.order_by == self.order_by,
            q.offset == self.offset,
            q.parameters == self.parameters,
    {
        QueryBuilder { limit: Some(limit), ..self }
    }

    /// Sets the statement timeout, in seconds.
    pub fn with_timeout(self, timeout: u32) -> (q: Self)
        ensures
            q.timeout == Some(timeout),
            q.statement == self.statement,
            q.role == self.role,
            q.bindings == self.bindings,
            q.order_by == self.order_by,
            q.offset == self.offset,
            q.limit == self.limit,
            q.parameters == self.parameters,
    {
        QueryBuilder { timeout: Some(timeout), ..self }
    }

    /// Runs the query under a role.
    pub fn with_role(self, role: &str) -> (q: Self)
        ensures
            q.role matches Some(x) && x@ == role@,
            q.statement == self.statement,
            q.timeout == self.timeout,
            q.bindings == self.bindings,
            q.order_by == self.order_by,
            q.offset == self.offset,
            q.limit == self.limit,
            q.parameters == self.parameters,
    {
        QueryBuilder { role: Some(role.to_owned()), ..self }
    }

    /// Caps the size of each downloaded chunk of results, in megabytes.
    pub fn with_result_chunk_size(self, chunk_size: usize) -> (q: Self)
        ensures
            q.parameters matches Some(p) && p.chunk_size == Some(chunk_size)
                && p.rows_per_set == (match self.parameters {
                Some(old_p) => old_p.rows_per_set,
                None => None,
            }),
            q.statement == self.statement,
            q.timeout == self.timeout,
            q.role == self.role,
            q.bindings == self.bindings,
            q.order_by == self.order_by,
            q.offset == self.offset,
            q.limit == self.limit,
    {
        let parameters = match self.parameters {
            None => StatementParameters { chunk_size: Some(chunk_size), rows_per_set: None },
            Some(p) => StatementParameters { chunk_size: Some(chunk_size), rows_per_set: p.rows_per_set },
        };
        QueryBuilder { parameters: Some(parameters), ..self }
    }

    /// Caps the number of rows in a result set, zero meaning no cap.
    pub fn with_result_row_count(self, rows_per_result_set: usize) -> (q: Self)
        ensures
            q.parameters matches Some(p) && p.rows_per_set == Some(rows_per_result_set)
                && p.chunk_size == (match self.parameters {
                Some(old_p) => old_p.chunk_size,
                None => None,
            }),
            q.statement == self.statement,
            q.timeout == self.timeout,
            q.role == self.role,
            q.bindings == self.bindings,
            q.order_by == self.order_by,
            q.offset == self.offset,
            q.limit == self.limit,
    {
        let parameters = match self.parameters {
            None => StatementParameters { chunk_size: None, rows_per_set: Some(rows_per_result_set) },
            Some(p) => StatementParameters {
                chunk_size: p.chunk_size,
                rows_per_set: Some(rows_per_result_set),
            },
        };
        QueryBuilder { parameters: Some(parameters), ..self }
    }

    /// Adds a positional binding.
    pub fn add_binding(self, binding: Binding) -> (q: Self)
        ensures
            q.bindings@ == self.bindings@.push(binding),
            q.statement == self.statement,
            q.timeout == self.timeout,
            q.role == self.role,
            q.order_by == self.order_by,
            q.offset == self.offset,
            q.limit == self.limit,
            q.parameters == self.parameters,
    {
        let mut bindings = self.bindings;
        bindings.push(binding);
        QueryBuilder { bindings, ..self }
    }
}

} // verus!
