//! PM2 processes: what is computed from `pm2 jlist`.
use vstd::prelude::*;

use crate::text::{str_eq, trim, trimmed};

verus! {

/// Whether `pm2 jlist` printed no process: nothing but whitespace, or `[]`.
pub fn jlist_is_empty(output: &str) -> (r: bool)
    ensures
        r == (trim(output@).len() == 0 || trim(output@) == "[]"@),
{
    let t = trimmed(output);
    t.as_str().is_empty() || str_eq(t.as_str(), "[]")
}

/// Milliseconds a process has been up at `now_ms`, given when it started;
/// never negative, and 0 when the start is unknown.
pub fn uptime_ms(now_ms: i64, started_ms: Option<i64>) -> (r: i64)
    requires
        started_ms matches Some(u) ==> i64::MIN <= now_ms - u <= i64::MAX,
    ensures
        r == (match started_ms {
            Some(u) => if now_ms - u > 0 {
                now_ms - u
            } else {
                0
            },
            None => 0,
        }),
{
    match started_ms {
        Some(u) => {
            let d = now_ms - u;
            if d > 0 {
                d
            } else {
                0
            }
        },
        None => 0,
    }
}

/// The position of the first process named `name`, if any.
pub fn find_by_name(names: &Vec<String>, name: &str) -> (r: Option<usize>)
    ensures
        match r {
            Some(i) => i < names.len() && names@[i as int]@ == name@ && forall|j: int|
                0 <= j < i ==> (#[trigger] names@[j])@ != name@,
            None => forall|j: int| 0 <= j < names.len() ==> (#[trigger] names@[j])@ != name@,
        },
{
    for i in 0..names.len()
        invariant
            forall|j: int| 0 <= j < i ==> (#[trigger] names@[j])@ != name@,
    {
        if str_eq(names[i].as_str(), name) {
            return Some(i);
        }
    }
    None
}

} // verus!
