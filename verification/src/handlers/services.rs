//! The services listing and its state filter.
use vstd::prelude::*;

use crate::collectors::systemd::{clone_service, rows_view, ServiceRow, SystemdService};
use crate::text::{ascii_lower, eq_ignore_ascii_case, eq_ignore_ascii_case_exec};
use vstd::utf8::is_ascii_chars;

verus! {

/// The query string of the services listing.
pub struct ServicesQuery {
    pub state: Option<String>,
}

/// What `str::to_lowercase` returns for a text: its Unicode lower-case
/// mapping, character by character (which can change the length).
pub uninterp spec fn spec_to_lowercase(s: Seq<char>) -> Seq<char>;

/// `str::to_lowercase`: the result is `spec_to_lowercase` of the text, a
/// function of the text alone. On ASCII text the Unicode lower-case mapping is
/// the ASCII one (`A` to `Z` become `a` to `z`, the rest stays), and the
/// contract says so; beyond ASCII it states no more than the name.
#[verifier::external_body]
fn to_lowercase(s: &str) -> (r: String)
    ensures
        r@ == spec_to_lowercase(s@),
        is_ascii_chars(s@) ==> r@ == s@.map_values(|c: char| ascii_lower(c)),
{
    s.to_lowercase()
}

/// Whether a row is in state `f`: its active or its sub state equals `f`
/// up to ASCII case.
pub open spec fn in_state(r: ServiceRow, f: Seq<char>) -> bool {
    eq_ignore_ascii_case(r.active, f) || eq_ignore_ascii_case(r.sub, f)
}

/// The rows in state `f`, in their order.
pub open spec fn rows_in_state(rows: Seq<ServiceRow>, f: Seq<char>) -> Seq<ServiceRow>
    decreases rows.len(),
{
    if rows.len() == 0 {
        Seq::empty()
    } else {
        rows_in_state(rows.drop_last(), f) + (if in_state(rows.last(), f) {
            seq![rows.last()]
        } else {
            Seq::empty()
        })
    }
}

/// The services in state `f` (already lower-cased), in their order.
pub fn retain_state(svcs: &Vec<SystemdService>, f: &str) -> (r: Vec<SystemdService>)
    ensures
        rows_view(r@) == rows_in_state(rows_view(svcs@), f@),
{
    let mut out: Vec<SystemdService> = Vec::new();
    for i in 0..svcs.len()
        invariant
            rows_view(out@) == rows_in_state(rows_view(svcs@).take(i as int), f@),
    {
        let ghost before = rows_view(out@);
        let s = &svcs[i];
        proof {
            let t = rows_view(svcs@).take(i + 1);
            assert(t.drop_last() =~= rows_view(svcs@).take(i as int));
            assert(t.last() == s@);
        }
        if eq_ignore_ascii_case_exec(s.active.as_str(), f) || eq_ignore_ascii_case_exec(
            s.sub.as_str(),
            f,
        ) {
            let c = clone_service(s);
            out.push(c);
            assert(rows_view(out@) =~= before + seq![c@]);
        } else {
            assert(before + Seq::<ServiceRow>::empty() =~= before);
        }
    }
    assert(rows_view(svcs@).take(svcs.len() as int) =~= rows_view(svcs@));
    out
}

/// Lower-casing the ASCII letters of a filter does not change which rows it
/// selects: the match is already blind to ASCII case.
pub proof fn lemma_state_filter_ignores_ascii_case(rows: Seq<ServiceRow>, f: Seq<char>)
    ensures
        rows_in_state(rows, f.map_values(|c: char| ascii_lower(c))) == rows_in_state(rows, f),
    decreases rows.len(),
{
    let g = f.map_values(|c: char| ascii_lower(c));
    if rows.len() > 0 {
        lemma_state_filter_ignores_ascii_case(rows.drop_last(), f);
        assert forall|a: Seq<char>| eq_ignore_ascii_case(a, g) == eq_ignore_ascii_case(a, f) by {
            assert forall|i: int| 0 <= i < f.len() implies ascii_lower(#[trigger] g[i]) == ascii_lower(
                f[i],
            ) by {
                let c = f[i];
                if 'A' <= c <= 'Z' {
                    assert((((c as u32) + 32) as char) >= 'a');
                }
            }
        }
        assert(in_state(rows.last(), g) == in_state(rows.last(), f));
    }
}

/// The services the listing returns: all of them without a filter, else those
/// whose active or sub state matches the lower-cased filter up to ASCII case.
pub fn filter_services(svcs: Vec<SystemdService>, state: Option<&str>) -> (r: Vec<SystemdService>)
    ensures
        match state {
            None => r@ == svcs@,
            Some(f) => {
                &&& rows_view(r@) == rows_in_state(rows_view(svcs@), spec_to_lowercase(f@))
                &&& is_ascii_chars(f@) ==> rows_view(r@) == rows_in_state(rows_view(svcs@), f@)
            },
        },
{
    match state {
        None => svcs,
        Some(f) => {
            let lower = to_lowercase(f);
            proof {
                if is_ascii_chars(f@) {
                    lemma_state_filter_ignores_ascii_case(rows_view(svcs@), f@);
                }
            }
            retain_state(&svcs, lower.as_str())
        },
    }
}

} // verus!
