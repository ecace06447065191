//! Docker containers.
use vstd::prelude::*;
use vstd::utf8::is_ascii_chars;

use crate::text::{
    chars_of, decimal, decimal_string, is_ascii_alnum, is_ascii_alnum_exec, lemma_ascii_byte_len, lemma_first_where_bounds,
    ne_char, push_str, trim_leading, trim_leading_exec,
};

verus! {

/// A container as the API lists it.
pub struct DockerContainer {
    pub id: String,
    pub names: Vec<String>,
    pub image: String,
    pub state: String,
    pub status: String,
    pub created: i64,
    pub ports: Vec<String>,
}

/// The characters a container id or name may hold.
pub open spec fn container_id_char(c: char) -> bool {
    is_ascii_alnum(c) || c == '_' || c == '-' || c == '.'
}

/// A safe container id or name: 1 to 256 characters, each an ASCII letter or
/// digit, `_`, `-` or `.`.
pub open spec fn container_id_ok(s: Seq<char>) -> bool {
    &&& 1 <= s.len() <= 256
    &&& forall|i: int| 0 <= i < s.len() ==> container_id_char(#[trigger] s[i])
}

/// Whether `id` is safe to hand to Docker as a container id or name.
pub fn validate_id(id: &str) -> (r: bool)
    ensures
        r == container_id_ok(id@),
{
    if id.is_empty() || id.len() > 256 {
        proof {
            if id@.len() > 0 && container_id_ok(id@) {
                lemma_ascii_byte_len(id);
            }
        }
        return false;
    }
    let cs = chars_of(id);
    for i in 0..cs.len()
        invariant
            cs@ == id@,
            forall|j: int| 0 <= j < i ==> container_id_char(#[trigger] cs@[j]),
    {
        let c = cs[i];
        if !(is_ascii_alnum_exec(c) || c == '_' || c == '-' || c == '.') {
            return false;
        }
    }
    proof {
        assert(is_ascii_chars(id@));
        lemma_ascii_byte_len(id);
    }
    true
}


/// The protocol of a published port.
#[derive(Clone, Copy, Debug, PartialEq, Eq, Structural)]
pub enum PortKind {
    Empty,
    Tcp,
    Udp,
    Sctp,
}

/// A port of a container, as the Docker API reports it.
#[derive(Clone, Copy, Debug, PartialEq, Eq, Structural)]
pub struct PortSummary {
    pub private_port: u16,
    pub public_port: Option<u16>,
    pub typ: Option<PortKind>,
}

/// A container, as the Docker API lists it.
pub struct ContainerSummary {
    pub id: Option<String>,
    pub names: Option<Vec<String>>,
    pub image: Option<String>,
    pub state: Option<String>,
    pub status: Option<String>,
    pub created: Option<i64>,
    pub ports: Option<Vec<PortSummary>>,
}

/// The protocol name, lower case (the variant name of the API's enum,
/// lower-cased); empty when absent.
pub open spec fn kind_name(k: Option<PortKind>) -> Seq<char> {
    match k {
        None => Seq::empty(),
        Some(PortKind::Empty) => "empty"@,
        Some(PortKind::Tcp) => "tcp"@,
        Some(PortKind::Udp) => "udp"@,
        Some(PortKind::Sctp) => "sctp"@,
    }
}

/// The label of a published port, `public->private/protocol`; unpublished
/// ports have none.
pub open spec fn port_label(p: PortSummary) -> Option<Seq<char>> {
    match p.public_port {
        None => None,
        Some(pp) => Some(
            decimal(pp as nat) + "->"@ + decimal(p.private_port as nat) + "/"@ + kind_name(p.typ),
        ),
    }
}

/// The labels of the published ports, in order.
pub open spec fn port_labels(ps: Seq<PortSummary>) -> Seq<Seq<char>>
    decreases ps.len(),
{
    if ps.len() == 0 {
        Seq::empty()
    } else {
        port_labels(ps.drop_last()) + match port_label(ps.last()) {
            Some(l) => seq![l],
            None => Seq::empty(),
        }
    }
}

/// The text of an optional string, empty when absent.
pub open spec fn text_or_empty(s: Option<String>) -> Seq<char> {
    match s {
        Some(t) => t@,
        None => Seq::empty(),
    }
}

/// The views of a list of strings.
pub open spec fn strings_view(v: Seq<String>) -> Seq<Seq<char>> {
    v.map_values(|s: String| s@)
}

/// The container that the API listing `c` describes: absent texts are empty,
/// an absent creation time is 0, names lose their leading `/`, and only
/// published ports are listed.
pub open spec fn container_matches(r: DockerContainer, c: ContainerSummary) -> bool {
    &&& r.id@ == text_or_empty(c.id)
    &&& r.image@ == text_or_empty(c.image)
    &&& r.state@ == text_or_empty(c.state)
    &&& r.status@ == text_or_empty(c.status)
    &&& r.created == match c.created {
        Some(t) => t,
        None => 0,
    }
    &&& match c.names {
        Some(ns) => {
            &&& r.names@.len() == ns@.len()
            &&& forall|i: int|
                0 <= i < ns@.len() ==> (#[trigger] r.names@[i])@ == trim_leading(ns@[i]@, '/')
        },
        None => r.names@.len() == 0,
    }
    &&& strings_view(r.ports@) == match c.ports {
        Some(ps) => port_labels(ps@),
        None => Seq::empty(),
    }
}

/// The label of a port, `public->private/protocol`, where it is published.
pub fn port_label_exec(p: &PortSummary) -> (r: Option<String>)
    ensures
        match port_label(*p) {
            Some(l) => r matches Some(s) && s@ == l,
            None => r is None,
        },
{
    match p.public_port {
        None => None,
        Some(pp) => {
            let mut s = decimal_string(pp as u64);
            push_str(&mut s, "->");
            let private = decimal_string(p.private_port as u64);
            push_str(&mut s, private.as_str());
            push_str(&mut s, "/");
            match p.typ {
                None => {},
                Some(PortKind::Empty) => push_str(&mut s, "empty"),
                Some(PortKind::Tcp) => push_str(&mut s, "tcp"),
                Some(PortKind::Udp) => push_str(&mut s, "udp"),
                Some(PortKind::Sctp) => push_str(&mut s, "sctp"),
            }
            proof {
                if p.typ is None {
                    assert(s@ =~= s@ + kind_name(p.typ));
                }
            }
            Some(s)
        },
    }
}

/// A copy of an optional string, empty when absent.
fn string_or_empty(s: &Option<String>) -> (r: String)
    ensures
        r@ == text_or_empty(*s),
{
    match s {
        Some(t) => t.clone(),
        None => String::new(),
    }
}

/// The API-facing record of one listed container.
pub fn container_from_summary(c: &ContainerSummary) -> (r: DockerContainer)
    ensures
        container_matches(r, *c),
{
    let mut names: Vec<String> = Vec::new();
    match &c.names {
        Some(ns) => {
            for i in 0..ns.len()
                invariant
                    names@.len() == i,
                    forall|j: int|
                        0 <= j < i ==> (#[trigger] names@[j])@ == trim_leading(ns@[j]@, '/'),
            {
                names.push(trim_leading_exec(ns[i].as_str(), '/'));
            }
        },
        None => {},
    }
    let mut ports: Vec<String> = Vec::new();
    match &c.ports {
        Some(ps) => {
            for i in 0..ps.len()
                invariant
                    strings_view(ports@) == port_labels(ps@.take(i as int)),
            {
                let ghost before = strings_view(ports@);
                proof {
                    let t = ps@.take(i + 1);
                    assert(t.drop_last() =~= ps@.take(i as int));
                    assert(t.last() == ps@[i as int]);
                }
                match port_label_exec(&ps[i]) {
                    Some(l) => {
                        ports.push(l);
                        assert(strings_view(ports@) =~= before + seq![l@]);
                    },
                    None => {
                        assert(before + Seq::<Seq<char>>::empty() =~= before);
                    },
                }
            }
            assert(ps@.take(ps.len() as int) =~= ps@);
        },
        None => {
            assert(strings_view(ports@) =~= Seq::<Seq<char>>::empty());
        },
    }
    DockerContainer {
        id: string_or_empty(&c.id),
        names,
        image: string_or_empty(&c.image),
        state: string_or_empty(&c.state),
        status: string_or_empty(&c.status),
        created: match c.created {
            Some(t) => t,
            None => 0,
        },
        ports,
    }
}

/// The API-facing records of a container listing, one per listed container, in order.
pub fn containers_from_summaries(cs: &Vec<ContainerSummary>) -> (r: Vec<DockerContainer>)
    ensures
        r@.len() == cs@.len(),
        forall|i: int| 0 <= i < cs@.len() ==> container_matches(#[trigger] r@[i], cs@[i]),
{
    let mut out: Vec<DockerContainer> = Vec::new();
    for i in 0..cs.len()
        invariant
            out@.len() == i,
            forall|j: int| 0 <= j < i ==> container_matches(#[trigger] out@[j], cs@[j]),
    {
        out.push(container_from_summary(&cs[i]));
    }
    out
}


/// The predicate "the port is published on the host".
pub open spec fn published_pred() -> spec_fn(PortSummary) -> bool {
    |p: PortSummary| p.public_port is Some
}

/// The labels of two port lists one after the other are the labels of the
/// first, then those of the second: each port is labelled on its own, in order.
pub proof fn lemma_port_labels_of_joined(a: Seq<PortSummary>, b: Seq<PortSummary>)
    ensures
        port_labels(a + b) == port_labels(a) + port_labels(b),
    decreases b.len(),
{
    if b.len() == 0 {
        assert(a + b =~= a);
        assert(port_labels(a) + port_labels(b) =~= port_labels(a));
    } else {
        lemma_port_labels_of_joined(a, b.drop_last());
        assert((a + b).drop_last() =~= a + b.drop_last());
        assert((a + b).last() == b.last());
        let tail: Seq<Seq<char>> = match port_label(b.last()) {
            Some(l) => seq![l],
            None => Seq::empty(),
        };
        assert(port_labels(a + b) == port_labels(a + b.drop_last()) + tail);
        assert(port_labels(b) == port_labels(b.drop_last()) + tail);
        assert((port_labels(a) + port_labels(b.drop_last())) + tail =~= port_labels(a) + (port_labels(
            b.drop_last(),
        ) + tail));
    }
}

/// A single port gets one label when it is published and none otherwise.
pub proof fn lemma_port_label_of_one(p: PortSummary)
    ensures
        port_labels(seq![p]).len() == (if p.public_port is Some {
            1int
        } else {
            0int
        }),
        p.public_port is Some ==> port_labels(seq![p]) == seq![port_label(p)->0],
{
    let ps = seq![p];
    assert(ps.drop_last() =~= Seq::<PortSummary>::empty());
    assert(port_labels(Seq::<PortSummary>::empty()) =~= Seq::<Seq<char>>::empty());
    assert(ps.last() == p);
    assert(Seq::<Seq<char>>::empty() + seq![port_label(p)->0] =~= seq![port_label(p)->0]);
}

/// Every published port gets exactly one label, and no other port gets one:
/// there are as many labels as published ports.
pub proof fn lemma_one_label_per_published_port(ps: Seq<PortSummary>)
    ensures
        port_labels(ps).len() == ps.filter(published_pred()).len(),
    decreases ps.len(),
{
    reveal_with_fuel(Seq::filter, 2);
    if ps.len() == 0 {
        assert(port_labels(ps) =~= Seq::<Seq<char>>::empty());
    } else {
        let init = ps.drop_last();
        let last = seq![ps.last()];
        assert(ps =~= init + last);
        lemma_one_label_per_published_port(init);
        lemma_port_labels_of_joined(init, last);
        lemma_port_label_of_one(ps.last());
        Seq::filter_distributes_over_add(init, last, published_pred());
        assert(last.drop_last() =~= Seq::<PortSummary>::empty());
        assert(last.last() == ps.last());
    }
}


/// `k` copies of the character `c`.
pub open spec fn repeat_char(c: char, k: nat) -> Seq<char> {
    Seq::new(k, |i: int| c)
}

/// A listed name is the API's name with all its leading `/` removed and
/// nothing else: it does not begin with `/`, and the API's name is some
/// number of `/` followed by it.
pub proof fn lemma_name_loses_leading_slashes(n: Seq<char>)
    ensures
        trim_leading(n, '/').len() == 0 || trim_leading(n, '/')[0] != '/',
        exists|k: int|
            0 <= k <= n.len() && n == #[trigger] repeat_char('/', k as nat) + trim_leading(n, '/'),
{
    lemma_first_where_bounds(n, ne_char('/'));
    let k = crate::text::first_where(n, ne_char('/'));
    let slashes = repeat_char('/', k as nat);
    assert forall|i: int| 0 <= i < k implies slashes[i] == n[i] by {
        assert(!ne_char('/')(n[i]));
    }
    assert(n =~= slashes + n.skip(k));
}

} // verus!
