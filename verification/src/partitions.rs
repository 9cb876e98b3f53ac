//! The partition stream: the first page of rows is already in hand; every
//! later partition is fetched on demand, in strictly increasing index
//! order, one fetch per pull, and a failed fetch never advances the
//! position, so the caller may retry the same partition.
//!
//! The stream itself decides; the caller performs the fetch it asks for and
//! hands the decoded rows back.

use vstd::prelude::*;

use crate::response::Response;
use crate::response::ResponseInfo;
use crate::row::FromRow;
use crate::row::Row;

verus! {

/// The records of a sequence of decoded rows.
pub open spec fn records_of<R>(rows: Seq<Row<R>>) -> Seq<R> {
    rows.map(|i: int, row: Row<R>| row.0)
}

/// The partition stream state: the remaining first page (consumed exactly
/// once), the next partition index to fetch, and the partition count.
pub struct Partitions<R> {
    pub info: ResponseInfo,
    pub first_res: Option<Vec<Row<R>>>,
    pub next_index: usize,
    pub partition_count: usize,
}

/// One yielded partition: its rows, its index, and the total count.
#[derive(Debug)]
pub struct Partition<R> {
    pub data: Vec<R>,
    pub index: usize,
    pub total_count: usize,
}

/// What one pull on the stream comes to: a partition already in hand, a
/// fetch the caller must perform, or exhaustion.
pub enum PartitionStep<R> {
    Ready(Partition<R>),
    Fetch(usize),
    Done,
}

impl<R: FromRow> Partitions<R> {
    /// Builds the stream from an already-decoded first response: its rows
    /// are the pending first page, and the next index to fetch starts at
    /// zero.
    pub fn from_response(r: Response<Row<R>>) -> (p: Self)
        ensures
            p.info == r.info,
            p.first_res == Some(r.data),
            p.next_index == 0,
            p.partition_count == r.info.meta.partition_info@.len(),
    {
        let Response { data, info } = r;
        let partition_count = info.meta.partition_info.len();
        Partitions { info, first_res: Some(data), next_index: 0, partition_count }
    }

    /// One pull on the stream. The pending first page, if any, is consumed
    /// and yielded as partition 0 without any fetch. Otherwise the stream
    /// is exhausted exactly when the next index has reached the partition
    /// count — idempotently, with nothing changed — or else asks for a
    /// fetch of exactly the next index, changing nothing until the fetched
    /// rows come back through `accept_fetched`.
    pub fn next_step(&mut self) -> (step: PartitionStep<R>)
        ensures
            old(self).first_res matches Some(rows) ==> {
                &&& (step matches PartitionStep::Ready(p) && p.index == 0 && p.total_count
                    == old(self).partition_count && p.data@ == records_of(rows@))
                &&& final(self).next_index == 1
                &&& final(self).first_res is None
                &&& final(self).partition_count == old(self).partition_count
                &&& final(self).info == old(self).info
            },
            old(self).first_res is None ==> {
                &&& *final(self) == *old(self)
                &&& (old(self).next_index >= old(self).partition_count <==> step is Done)
                &&& (old(self).next_index < old(self).partition_count ==> (
                step matches PartitionStep::Fetch(i) && i == old(self).next_index))
            },
    {
        let first = self.first_res.take();
        match first {
            Some(rows) => {
                self.next_index = 1;
                let data = unwrap_rows(rows);
                PartitionStep::Ready(
                    Partition { data, index: 0, total_count: self.partition_count },
                )
            },
            None => {
                if self.next_index >= self.partition_count {
                    PartitionStep::Done
                } else {
                    PartitionStep::Fetch(self.next_index)
                }
            },
        }
    }

    /// Accepts the decoded rows of the partition whose fetch the last pull
    /// asked for, yields it tagged with its index and the total count, and
    /// only now advances the position.
    pub fn accept_fetched(&mut self, rows: Vec<Row<R>>) -> (p: Partition<R>)
        requires
            old(self).first_res is None,
            old(self).next_index < old(self).partition_count,
        ensures
            p.index == old(self).next_index,
            p.total_count == old(self).partition_count,
            p.data@ == records_of(rows@),
            final(self).next_index == old(self).next_index + 1,
            final(self).first_res is None,
            final(self).partition_count == old(self).partition_count,
            final(self).info == old(self).info,
    {
        let data = unwrap_rows(rows);
        let p = Partition { data, index: self.next_index, total_count: self.partition_count };
        self.next_index = self.next_index + 1;
        p
    }
}

impl<R: FromRow> Response<Row<R>> {
    /// Turns the response into its partition stream.
    pub fn partitions(self) -> (p: Partitions<R>)
        ensures
            p.info == self.info,
            p.first_res == Some(self.data),
            p.next_index == 0,
            p.partition_count == self.info.meta.partition_info@.len(),
    {
        Partitions::from_response(self)
    }
}

/// Unwraps each decoded row to its record, keeping the order.
fn unwrap_rows<R>(rows: Vec<Row<R>>) -> (out: Vec<R>)
    ensures
        out@ == records_of(rows@),
{
    let mut stack = rows;
    let ghost orig = stack@;
    let mut rev: Vec<R> = Vec::new();
    while stack.len() > 0
        invariant
            stack@ == orig.take(stack@.len() as int),
            rev@.len() + stack@.len() == orig.len(),
            forall|j: int| 0 <= j < rev@.len() ==> rev@[j] == orig[orig.len() - 1 - j].0,
        decreases stack.len(),
    {
        let ghost k = stack@.len() as int;
        let row = match stack.pop() {
            Some(row) => row,
            None => {
                proof {
                    assert(false);
                }
                return Vec::new();
            },
        };
        proof {
            assert(orig.take(k).drop_last() =~= orig.take(k - 1));
            assert(orig.take(k).last() == orig[k - 1]);
        }
        rev.push(row.0);
    }
    let ghost revg = rev@;
    let mut out: Vec<R> = Vec::new();
    while rev.len() > 0
        invariant
            rev@ == revg.take(rev@.len() as int),
            out@.len() + rev@.len() == revg.len(),
            forall|j: int| 0 <= j < out@.len() ==> out@[j] == revg[revg.len() - 1 - j],
        decreases rev.len(),
    {
        let ghost k = rev@.len() as int;
        let x = match rev.pop() {
            Some(x) => x,
            None => {
                proof {
                    assert(false);
                }
                return Vec::new();
            },
        };
        proof {
            assert(revg.take(k).drop_last() =~= revg.take(k - 1));
            assert(revg.take(k).last() == revg[k - 1]);
        }
        out.push(x);
    }
    proof {
        assert forall|j: int| 0 <= j < out@.len() implies out@[j] == records_of(orig)[j] by {
            assert(out@[j] == revg[revg.len() - 1 - j]);
            assert(revg[revg.len() - 1 - j] == orig[j].0);
        }
        assert(out@ =~= records_of(orig));
    }
    out
}

} // verus!
