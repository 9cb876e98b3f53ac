//! The row decoder: a one-pass cursor over a row's cells, and records
//! decoded from it field by field, in declaration order, fail-fast.

use vstd::prelude::*;

use crate::error::FromRowError;
use crate::value::FromValue;

verus! {

broadcast use vstd::seq::group_seq_axioms;

/// A decoded row, wrapping its record.
#[derive(Debug)]
pub struct Row<T>(pub T);

/// The texts of a cell sequence: each cell as its character sequence, so
/// that contracts need not distinguish equal strings.
pub open spec fn cells_view(c: Seq<Option<String>>) -> Seq<Option<Seq<char>>> {
    c.map(
        |i: int, o: Option<String>|
            match o {
                None => None::<Seq<char>>,
                Some(s) => Some(s@),
            },
    )
}

/// The sequence cursor over one row's cells: ordered, one pass, each step
/// yields the next cell or reports exhaustion.
pub struct RowAccess {
    pub idx: usize,
    pub cells: Vec<Option<String>>,
}

/// A record decodable from a row: one call of the cursor per declared
/// field, in declaration order.
pub trait FromRow: Sized {
    fn from_row(seq: RowAccess) -> Result<Self, FromRowError>;
}

impl RowAccess {
    /// A cursor at the start of the given cells.
    pub fn new(cells: Vec<Option<String>>) -> (r: Self)
        ensures
            r.idx == 0,
            r.cells == cells,
    {
        RowAccess { idx: 0, cells }
    }

    /// Yields the next cell decoded as `T`. Exhaustion fails with
    /// `MissingField` at the current index and leaves the cursor unmoved; a
    /// value failure is wrapped as `DeserializingField` under the field's
    /// name; otherwise the cursor advances by one.
    pub fn next<T: FromValue>(&mut self, field: &'static str) -> (r: Result<T, FromRowError>)
        ensures
            old(self).idx >= old(self).cells@.len() ==> {
                &&& r == Err::<T, FromRowError>(
                    FromRowError::MissingField { idx: old(self).idx, field },
                )
                &&& *final(self) == *old(self)
            },
            old(self).idx < old(self).cells@.len() ==> {
                &&& final(self).idx == old(self).idx + 1
                &&& final(self).cells == old(self).cells
                &&& (match old(self).cells@[old(self).idx as int] {
                    None => {
                        &&& (r matches Ok(v) ==> T::absent_spec(Ok(v)))
                        &&& (r matches Err(e) ==> (e matches FromRowError::DeserializingField {
                            field: f,
                            err,
                        } && f == field && T::absent_spec(Err(err))))
                    },
                    Some(cell) => {
                        &&& (r matches Ok(v) ==> T::value_spec(cell@, v))
                        &&& (T::decodable(cell@) <==> r is Ok)
                        &&& (r matches Err(e) ==> (e matches FromRowError::DeserializingField {
                            field: f,
                            err,
                        } && f == field && T::error_spec(cell@, err)))
                    },
                })
            },
    {
        if self.idx >= self.cells.len() {
            return Err(FromRowError::MissingField { idx: self.idx, field });
        }
        let cell: Option<String> = match &self.cells[self.idx] {
            None => None,
            Some(s) => Some(s.clone()),
        };
        self.idx = self.idx + 1;
        let inner = T::from_optional_value(
            match &cell {
                None => None,
                Some(s) => Some(s.as_str()),
            },
        );
        match inner {
            Ok(v) => Ok(v),
            Err(e) => Err(FromRowError::DeserializingField { field, err: e }),
        }
    }

    /// How many cells remain in front of the cursor.
    pub fn size_hint(&self) -> (r: Option<usize>)
        ensures
            self.idx <= self.cells@.len() ==> r == Some((self.cells@.len() - self.idx) as usize),
            self.idx > self.cells@.len() ==> r is None,
    {
        if self.idx <= self.cells.len() {
            Some(self.cells.len() - self.idx)
        } else {
            None
        }
    }
}

/// The fallback row shape: every remaining cell as an optional string,
/// without type conversion.
#[derive(Debug, Clone)]
pub struct RawRow(pub Vec<Option<String>>);

impl RawRow {
    /// Decodes every remaining cell of the cursor, stopping cleanly (not as
    /// an error) at exhaustion. This never fails.
    pub fn from_cells(seq: RowAccess) -> (r: Result<RawRow, FromRowError>)
        ensures
            r is Ok,
            seq.idx <= seq.cells@.len() ==> (r matches Ok(raw) && cells_view(raw.0@)
                == cells_view(seq.cells@.skip(seq.idx as int))),
            seq.idx > seq.cells@.len() ==> (r matches Ok(raw) && raw.0@.len() == 0),
    {
        let mut seq = seq;
        let ghost cells0 = seq.cells@;
        let ghost idx0 = seq.idx as int;
        let mut v: Vec<Option<String>> = Vec::new();
        if seq.idx >= seq.cells.len() {
            proof {
                if idx0 <= cells0.len() {
                    assert(cells0.skip(idx0) =~= Seq::<Option<String>>::empty());
                    assert(cells_view(v@) =~= cells_view(cells0.skip(idx0)));
                }
            }
            return Ok(RawRow(v));
        }
        while seq.idx < seq.cells.len()
            invariant
                seq.cells@ == cells0,
                0 <= idx0 <= seq.idx <= cells0.len(),
                cells_view(v@) == cells_view(cells0.subrange(idx0, seq.idx as int)),
            decreases cells0.len() - seq.idx,
        {
            let ghost i = seq.idx as int;
            let cell = match seq.next::<Option<String>>("") {
                Ok(c) => c,
                Err(e) => {
                    // every cell decodes as an optional string
                    proof {
                        assert(false);
                    }
                    return Err(e);
                },
            };
            let ghost vold = v@;
            v.push(cell);
            proof {
                let sub1 = cells0.subrange(idx0, i + 1);
                assert(v@ == vold.push(cell));
                assert(vold.len() == i - idx0) by {
                    assert(cells_view(vold).len() == vold.len());
                    assert(cells_view(cells0.subrange(idx0, i)).len() == i - idx0);
                }
                assert forall|j: int|
                    0 <= j < sub1.len() implies cells_view(v@)[j] == cells_view(sub1)[j] by {
                    assert(sub1[j] == cells0[idx0 + j]);
                    if j < vold.len() {
                        assert(v@[j] == vold[j]);
                        assert(cells_view(vold)[j] == cells_view(cells0.subrange(idx0, i))[j]);
                        assert(cells0.subrange(idx0, i)[j] == cells0[idx0 + j]);
                    } else {
                        assert(j == i - idx0);
                        assert(v@[j] == cell);
                        match cells0[i] {
                            None => {
                                assert(cell is None);
                            },
                            Some(s) => {
                                assert(cell matches Some(x) && x@ == s@);
                            },
                        }
                    }
                }
                assert(cells_view(v@).len() == cells_view(sub1).len());
                assert(cells_view(v@) =~= cells_view(sub1));
            }
        }
        proof {
            assert(cells0.subrange(idx0, cells0.len() as int) =~= cells0.skip(idx0));
        }
        Ok(RawRow(v))
    }
}

impl FromRow for RawRow {
    fn from_row(seq: RowAccess) -> Result<Self, FromRowError> {
        RawRow::from_cells(seq)
    }
}

} // verus!
