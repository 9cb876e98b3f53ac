//! The shape of a query response: decoded rows plus result-set metadata,
//! and the excerpt of a malformed response body that an error report keeps.

use vstd::prelude::*;

verus! {

broadcast use vstd::seq::group_seq_axioms;

/// One partition of the result set, as the metadata announces it.
#[derive(Clone, Copy, Debug, PartialEq, Eq, Structural)]
pub struct PartitionInfo {
    pub row_count: usize,
    pub uncompressed_size: usize,
}

/// One column of the result set: name and type information.
#[derive(Clone, Debug)]
pub struct RowType {
    pub name: String,
    pub database: String,
    pub schema: String,
    pub table: String,
    pub precision: Option<u32>,
    pub byte_length: Option<usize>,
    pub data_type: String,
    pub scale: Option<i32>,
    pub nullable: bool,
}

/// The result-set metadata of a response.
#[derive(Clone, Debug)]
pub struct MetaData {
    pub num_rows: usize,
    pub format: String,
    pub row_type: Vec<RowType>,
    pub partition_info: Vec<PartitionInfo>,
}

/// Everything a response carries besides its rows.
#[derive(Clone, Debug)]
pub struct ResponseInfo {
    pub meta: MetaData,
    pub code: String,
    pub statement_status_url: String,
    pub request_id: String,
    pub sql_state: String,
    pub message: String,
    pub statement_handle: String,
}

/// A decoded query response: the first page of rows, and the metadata.
#[derive(Debug)]
pub struct Response<R> {
    pub data: Vec<R>,
    pub info: ResponseInfo,
}

/// Index of the `k`-th newline of `bs` at or after `i`, or the length when
/// there are fewer.
pub open spec fn nth_newline_from(bs: Seq<u8>, i: int, k: int) -> int
    decreases bs.len() - i,
{
    if i < 0 || i >= bs.len() {
        bs.len() as int
    } else if bs[i] == 10 {
        if k <= 1 {
            i
        } else {
            nth_newline_from(bs, i + 1, k - 1)
        }
    } else {
        nth_newline_from(bs, i + 1, k)
    }
}

/// Where the excerpt of a malformed body starts: after the lines before the
/// failing one, then after the columns more than a hundred before the
/// failing one.
pub open spec fn excerpt_start(bs: Seq<u8>, err_line: int, err_column: int) -> int {
    let lines_to_skip = if err_line >= 1 {
        err_line - 1
    } else {
        0
    };
    let chars_to_skip = if err_column >= 100 {
        err_column - 100
    } else {
        0
    };
    let s1 = if lines_to_skip == 0 {
        0
    } else {
        nth_newline_from(bs, 0, lines_to_skip)
    };
    let s2 = s1 + (if chars_to_skip >= 1 {
        chars_to_skip - 1
    } else {
        0
    });
    if s2 > bs.len() {
        bs.len() as int
    } else {
        s2
    }
}

/// The excerpt itself: at most two hundred bytes from the start position.
pub open spec fn excerpt_spec(bs: Seq<u8>, err_line: int, err_column: int) -> Seq<u8> {
    let s2 = excerpt_start(bs, err_line, err_column);
    let e = if s2 + 200 > bs.len() {
        bs.len() as int
    } else {
        s2 + 200
    };
    bs.subrange(s2, e)
}

/// Index of the `k`-th newline of `bs`, or the length when there are fewer.
fn nth_newline_exec(bs: &Vec<u8>, k0: usize) -> (r: usize)
    requires
        k0 >= 1,
    ensures
        r == nth_newline_from(bs@, 0, k0 as int),
        r <= bs@.len(),
{
    let n = bs.len();
    let mut i: usize = 0;
    let mut k: usize = k0;
    while i < n
        invariant
            0 <= i <= n,
            n == bs@.len(),
            1 <= k <= k0,
            nth_newline_from(bs@, 0, k0 as int) == nth_newline_from(bs@, i as int, k as int),
        decreases n - i,
    {
        if bs[i] == 10 {
            if k == 1 {
                return i;
            }
            k = k - 1;
        }
        i = i + 1;
    }
    n
}

/// Extracts the context excerpt that an error report keeps when a response
/// body cannot be parsed: skip to the failing line, back off a hundred
/// columns, and keep at most two hundred bytes.
pub fn error_excerpt(bs: &Vec<u8>, err_line: usize, err_column: usize) -> (r: Vec<u8>)
    ensures
        r@ == excerpt_spec(bs@, err_line as int, err_column as int),
{
    let n = bs.len();
    let lines_to_skip: usize = if err_line >= 1 {
        err_line - 1
    } else {
        0
    };
    let chars_to_skip: usize = if err_column >= 100 {
        err_column - 100
    } else {
        0
    };
    let s1: usize = if lines_to_skip == 0 {
        0
    } else {
        nth_newline_exec(bs, lines_to_skip)
    };
    let back: usize = if chars_to_skip >= 1 {
        chars_to_skip - 1
    } else {
        0
    };
    let s2: usize = if back > n || s1 > n - back {
        n
    } else {
        s1 + back
    };
    let e: usize = if n - s2 > 200 {
        s2 + 200
    } else {
        n
    };
    let mut r: Vec<u8> = Vec::new();
    let mut i: usize = s2;
    while i < e
        invariant
            s2 <= i <= e <= n,
            n == bs@.len(),
            r@ == bs@.subrange(s2 as int, i as int),
        decreases e - i,
    {
        r.push(bs[i]);
        proof {
            assert(bs@.subrange(s2 as int, i + 1) =~= bs@.subrange(s2 as int, i as int).push(
                bs@[i as int],
            ));
        }
        i = i + 1;
    }
    r
}

} // verus!
