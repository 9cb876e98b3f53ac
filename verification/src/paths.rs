//! The host URL and request paths that the HTTP client sends to.

use vstd::prelude::*;

use crate::numstr;

verus! {

/// The base URL of an account's API host.
pub fn host_url(host: &str) -> (r: String)
    ensures
        r@ == "https://"@ + host@ + ".snowflakecomputing.com/api/v2/"@,
{
    let mut s = String::new();
    s.append("https://");
    s.append(host);
    s.append(".snowflakecomputing.com/api/v2/");
    proof {
        assert(s@ =~= "https://"@ + host@ + ".snowflakecomputing.com/api/v2/"@);
    }
    s
}

/// The path that submits a statement, tagged with a request id.
pub fn statements_path(request_id: &str) -> (r: String)
    ensures
        r@ == "/statements?requestId="@ + request_id@,
{
    let mut s = String::new();
    s.append("/statements?requestId=");
    s.append(request_id);
    proof {
        assert(s@ =~= "/statements?requestId="@ + request_id@);
    }
    s
}

/// The path that fetches one partition of a statement's result.
pub fn partition_path(statement_handle: &str, index: usize) -> (r: String)
    ensures
        r@ == "/statements/"@ + statement_handle@ + "?partition="@ + numstr::dec_digits(
            index as nat,
        ),
{
    let mut s = String::new();
    s.append("/statements/");
    s.append(statement_handle);
    s.append("?partition=");
    let digits = numstr::u64_to_string(index as u64);
    s.append(digits.as_str());
    proof {
        assert(s@ =~= "/statements/"@ + statement_handle@ + "?partition="@
            + numstr::dec_digits(index as nat));
    }
    s
}

} // verus!
