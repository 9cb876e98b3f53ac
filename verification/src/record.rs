//! The record builder: an explicit per-type registry in place of
//! compile-time code generation. A record is decoded from a row by applying
//! one typed decoder per declared field, in declared order, fail-fast: the
//! first field error aborts the whole record.

use vstd::prelude::*;

use crate::datetime::Date;
use crate::datetime::Timestamp;
use crate::error::Error;
use crate::error::FromRowError;
use crate::numstr;
use crate::row::cells_view;
use crate::uuid_val;
use crate::uuid_val::UuidVal;
use crate::value::FromValue;

verus! {

broadcast use vstd::seq::group_seq_axioms;

/// The target type of one declared field.
#[derive(Clone, Copy, Debug, PartialEq, Eq, Structural)]
pub enum ColumnType {
    Bool,
    Int,
    Text,
    Date,
    Timestamp,
    Uuid,
}

/// One declared field of a record: its name, target type, and whether an
/// absent cell is allowed.
#[derive(Clone, Copy, Debug)]
pub struct FieldSpec {
    pub name: &'static str,
    pub ty: ColumnType,
    pub nullable: bool,
}

/// One decoded cell value.
#[derive(Clone, Debug)]
pub enum Value {
    Null,
    Bool(bool),
    Int(i64),
    Text(String),
    Date(Date),
    Timestamp(Timestamp),
    Uuid(UuidVal),
}

/// When `v` is the decode of the cell text `s` at column type `ty`.
pub open spec fn typed_value_spec(s: Seq<char>, ty: ColumnType, v: Value) -> bool {
    match ty {
        ColumnType::Bool => v matches Value::Bool(b) && <bool as FromValue>::value_spec(s, b),
        ColumnType::Int => v matches Value::Int(x) && numstr::int_of_str(s) == Some(x as int),
        ColumnType::Text => v matches Value::Text(t) && t@ == s,
        ColumnType::Date => v matches Value::Date(d) && <Date as FromValue>::value_spec(s, d),
        ColumnType::Timestamp => v matches Value::Timestamp(t) && <Timestamp as FromValue>::value_spec(
            s,
            t,
        ),
        ColumnType::Uuid => v matches Value::Uuid(u) && uuid_val::uuid_value(s) == Some(u.bits),
    }
}

/// Whether the cell text `s` decodes at column type `ty`.
pub open spec fn typed_decodable(s: Seq<char>, ty: ColumnType) -> bool {
    match ty {
        ColumnType::Bool => <bool as FromValue>::decodable(s),
        ColumnType::Int => <i64 as FromValue>::decodable(s),
        ColumnType::Text => true,
        ColumnType::Date => <Date as FromValue>::decodable(s),
        ColumnType::Timestamp => <Timestamp as FromValue>::decodable(s),
        ColumnType::Uuid => uuid_val::uuid_value(s) is Some,
    }
}

/// When `v` is the decode of the whole cell (absent or text) at a field.
pub open spec fn cell_value_spec(
    cell: Option<Seq<char>>,
    ty: ColumnType,
    nullable: bool,
    v: Value,
) -> bool {
    match cell {
        None => nullable && v is Null,
        Some(s) => typed_value_spec(s, ty, v),
    }
}

/// Whether the whole cell decodes at a field.
pub open spec fn cell_decodable(cell: Option<Seq<char>>, ty: ColumnType, nullable: bool) -> bool {
    match cell {
        None => nullable,
        Some(s) => typed_decodable(s, ty),
    }
}

/// Decodes one cell at one declared field. An absent cell into a
/// non-nullable field fails with `UnexpectedNull`; into a nullable field it
/// succeeds with the empty state.
pub fn decode_cell(cell: &Option<String>, ty: ColumnType, nullable: bool) -> (r: Result<
    Value,
    Error,
>)
    ensures
        r matches Ok(v) ==> cell_value_spec(opt_view(*cell), ty, nullable, v),
        cell_decodable(opt_view(*cell), ty, nullable) <==> r is Ok,
        (cell is None && !nullable) ==> r == Err::<Value, Error>(Error::UnexpectedNull),
{
    match cell {
        None => {
            if nullable {
                Ok(Value::Null)
            } else {
                Err(Error::UnexpectedNull)
            }
        },
        Some(s) => {
            match ty {
                ColumnType::Bool => {
                    match <bool as FromValue>::from_value(s.as_str()) {
                        Ok(b) => Ok(Value::Bool(b)),
                        Err(e) => Err(e),
                    }
                },
                ColumnType::Int => {
                    match <i64 as FromValue>::from_value(s.as_str()) {
                        Ok(x) => Ok(Value::Int(x)),
                        Err(e) => Err(e),
                    }
                },
                ColumnType::Text => {
                    match <String as FromValue>::from_value(s.as_str()) {
                        Ok(t) => Ok(Value::Text(t)),
                        Err(e) => Err(e),
                    }
                },
                ColumnType::Date => {
                    match <Date as FromValue>::from_value(s.as_str()) {
                        Ok(d) => Ok(Value::Date(d)),
                        Err(e) => Err(e),
                    }
                },
                ColumnType::Timestamp => {
                    match <Timestamp as FromValue>::from_value(s.as_str()) {
                        Ok(t) => Ok(Value::Timestamp(t)),
                        Err(e) => Err(e),
                    }
                },
                ColumnType::Uuid => {
                    match <UuidVal as FromValue>::from_value(s.as_str()) {
                        Ok(u) => Ok(Value::Uuid(u)),
                        Err(e) => Err(e),
                    }
                },
            }
        },
    }
}

/// The text of one optional cell.
pub open spec fn opt_view(cell: Option<String>) -> Option<Seq<char>> {
    match cell {
        None => None,
        Some(s) => Some(s@),
    }
}

/// The first field index at which decoding goes wrong, scanning from `i`:
/// the cursor is exhausted there, or the cell does not decode. When every
/// field decodes, the field count.
pub open spec fn first_bad_from(
    cells: Seq<Option<Seq<char>>>,
    fields: Seq<FieldSpec>,
    i: int,
) -> int
    decreases fields.len() - i,
{
    if i < 0 || i >= fields.len() {
        fields.len() as int
    } else if i >= cells.len() || !cell_decodable(cells[i], fields[i].ty, fields[i].nullable) {
        i
    } else {
        first_bad_from(cells, fields, i + 1)
    }
}

/// Decodes a whole row against its declared fields, fail-fast and in
/// declared order.
///
/// When the row has fewer cells than the declared field count and every
/// earlier field decodes, this fails with `MissingField` at the first
/// missing index; it never returns a partially populated record. A longer
/// row than declared is an error too, never silently truncated.
pub fn decode_record(cells: &Vec<Option<String>>, fields: &Vec<FieldSpec>) -> (r: Result<
    Vec<Value>,
    FromRowError,
>)
    ensures
        ({
            let cv = cells_view(cells@);
            let b = first_bad_from(cv, fields@, 0);
            &&& (r is Ok <==> (b == fields@.len() && cells@.len() == fields@.len()))
            &&& (r matches Ok(vals) ==> {
                &&& vals@.len() == fields@.len()
                &&& forall|i: int|
                    0 <= i < fields@.len() ==> cell_value_spec(
                        cv[i],
                        fields@[i].ty,
                        fields@[i].nullable,
                        #[trigger] vals@[i],
                    )
            })
            &&& (b < fields@.len() && b >= cells@.len() ==> r == Err::<Vec<Value>, FromRowError>(
                FromRowError::MissingField { idx: cells@.len() as usize, field: fields@[b].name },
            ))
            &&& (b < fields@.len() && b < cells@.len() ==> (r matches Err(e) && e matches
                FromRowError::DeserializingField { field, err: _ } && field == fields@[b].name))
            &&& (b == fields@.len() && cells@.len() > fields@.len() ==> (r matches Err(e)
                && e is Custom))
        }),
{
    let ghost cv = cells_view(cells@);
    let mut vals: Vec<Value> = Vec::new();
    let mut i: usize = 0;
    while i < fields.len()
        invariant
            0 <= i <= fields@.len(),
            vals@.len() == i,
            cv == cells_view(cells@),
            first_bad_from(cv, fields@, 0) == first_bad_from(cv, fields@, i as int),
            i <= cells@.len(),
            forall|j: int|
                0 <= j < i ==> cell_value_spec(
                    cv[j],
                    fields@[j].ty,
                    fields@[j].nullable,
                    #[trigger] vals@[j],
                ),
        decreases fields@.len() - i,
    {
        if i >= cells.len() {
            proof {
                assert(first_bad_from(cv, fields@, i as int) == i);
            }
            return Err(
                FromRowError::MissingField { idx: i, field: fields[i].name },
            );
        }
        let f = &fields[i];
        match decode_cell(&cells[i], f.ty, f.nullable) {
            Ok(v) => {
                vals.push(v);
                proof {
                    assert(cv[i as int] == opt_view(cells@[i as int]));
                }
            },
            Err(e) => {
                proof {
                    assert(cv[i as int] == opt_view(cells@[i as int]));
                    assert(first_bad_from(cv, fields@, i as int) == i);
                }
                return Err(FromRowError::DeserializingField { field: fields[i].name, err: e });
            },
        }
        i = i + 1;
    }
    if cells.len() > fields.len() {
        return Err(
            FromRowError::Custom(
                "row longer than the declared field count".to_owned(),
            ),
        );
    }
    Ok(vals)
}

} // verus!
