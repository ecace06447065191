//! The process listing.
use vstd::prelude::*;

use crate::collectors::system::SortBy;

verus! {

broadcast use vstd::string::group_string_axioms;

/// The query string of the process listing.
pub struct ProcQuery {
    pub sort: Option<String>,
    pub limit: Option<usize>,
}

/// The order and length of the process listing: the sort key as
/// `SortBy::parse` reads it (`cpu` by default), and the requested number of
/// rows (20 by default) kept between 1 and 200.
pub fn process_query(q: &ProcQuery) -> (r: (SortBy, usize))
    ensures
        r.0 == (match q.sort {
            Some(s) => if s@ == "mem"@ || s@ == "memory"@ || s@ == "ram"@ {
                SortBy::Mem
            } else {
                SortBy::Cpu
            },
            None => SortBy::Cpu,
        }),
        r.1 == (match q.limit {
            Some(l) => if l < 1 {
                1
            } else if l > 200 {
                200
            } else {
                l
            },
            None => 20,
        }),
        1 <= r.1 <= 200,
{
    proof {
        reveal_strlit("cpu");
        reveal_strlit("mem");
        reveal_strlit("memory");
        reveal_strlit("ram");
    }
    let sort = match &q.sort {
        Some(s) => SortBy::parse(s.as_str()),
        None => {
            let r = SortBy::parse("cpu");
            assert("cpu"@[0] != "mem"@[0] && "cpu"@[0] != "ram"@[0]);
            assert("cpu"@.len() != "memory"@.len());
            r
        },
    };
    let l = match q.limit {
        Some(l) => l,
        None => 20,
    };
    let limit = if l < 1 {
        1
    } else if l > 200 {
        200
    } else {
        l
    };
    (sort, limit)
}

} // verus!
