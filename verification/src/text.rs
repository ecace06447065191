//! Character-level helpers shared by the parsers and validators.
use vstd::prelude::*;
use vstd::string::StringSliceAdditionalSpecFns;
use vstd::utf8::{is_ascii_chars, is_ascii_chars_encode_utf8};

verus! {

broadcast use vstd::string::group_string_axioms;

/// The characters of `s`, in order.
pub fn chars_of(s: &str) -> (v: Vec<char>)
    ensures
        v@ == s@,
{
    let mut v: Vec<char> = Vec::new();
    for c in iter: s.chars()
        invariant
            v@ == iter.seq().take(iter.index()),
    {
        v.push(c);
    }
    v
}


/// Appends `c` to `s` through `String::push`, which std documents as
/// appending the given char to the end of the string.
#[verifier::external_body]
pub fn push_char(s: &mut String, c: char)
    ensures
        final(s)@ == old(s)@.push(c),
{
    s.push(c);
}

/// A `String` holding exactly the characters of `cs`.
pub fn string_from_chars(cs: &Vec<char>) -> (s: String)
    ensures
        s@ == cs@,
{
    let mut s = String::new();
    for i in 0..cs.len()
        invariant
            s@ == cs@.take(i as int),
    {
        push_char(&mut s, cs[i]);
        assert(cs@.take(i as int).push(cs@[i as int]) =~= cs@.take(i + 1));
    }
    assert(cs@.take(cs.len() as int) =~= cs@);
    s
}

/// Appends all characters of `t` to `s`.
pub fn push_str(s: &mut String, t: &str)
    ensures
        final(s)@ == old(s)@ + t@,
{
    let cs = chars_of(t);
    let ghost start = s@;
    for i in 0..cs.len()
        invariant
            cs@ == t@,
            s@ == start + cs@.take(i as int),
    {
        push_char(s, cs[i]);
        assert(cs@.take(i as int).push(cs@[i as int]) =~= cs@.take(i + 1));
    }
    assert(cs@.take(cs.len() as int) =~= cs@);
}

/// The ASCII lower case of a character: `A` to `Z` become `a` to `z`, and
/// every other character stays as it is.
pub open spec fn ascii_lower(c: char) -> char {
    if 'A' <= c <= 'Z' {
        ((c as u32) + 32) as char
    } else {
        c
    }
}

/// `char::to_ascii_lowercase`: ASCII upper-case letters become lower case,
/// every other character is unchanged.
pub fn to_ascii_lower(c: char) -> (r: char)
    ensures
        r == ascii_lower(c),
{
    if 'A' <= c && c <= 'Z' {
        ((c as u8) + 32) as char
    } else {
        c
    }
}

/// `str::eq_ignore_ascii_case` on character sequences.
pub open spec fn eq_ignore_ascii_case(a: Seq<char>, b: Seq<char>) -> bool {
    &&& a.len() == b.len()
    &&& forall|i: int| 0 <= i < a.len() ==> ascii_lower(#[trigger] a[i]) == ascii_lower(b[i])
}

/// Executable `eq_ignore_ascii_case`.
pub fn eq_ignore_ascii_case_exec(a: &str, b: &str) -> (r: bool)
    ensures
        r == eq_ignore_ascii_case(a@, b@),
{
    let x = chars_of(a);
    let y = chars_of(b);
    if x.len() != y.len() {
        return false;
    }
    for i in 0..x.len()
        invariant
            x@ == a@,
            y@ == b@,
            x.len() == y.len(),
            forall|j: int| 0 <= j < i ==> ascii_lower(#[trigger] x@[j]) == ascii_lower(y@[j]),
    {
        if to_ascii_lower(x[i]) != to_ascii_lower(y[i]) {
            return false;
        }
    }
    true
}

/// Whether `p` is a prefix of `s`.
pub open spec fn starts_with(s: Seq<char>, p: Seq<char>) -> bool {
    p.len() <= s.len() && s.take(p.len() as int) == p
}

/// Executable prefix test on character vectors.
pub fn starts_with_exec(s: &Vec<char>, p: &str) -> (r: bool)
    ensures
        r == starts_with(s@, p@),
{
    let q = chars_of(p);
    if q.len() > s.len() {
        return false;
    }
    for i in 0..q.len()
        invariant
            q@ == p@,
            q.len() <= s.len(),
            forall|j: int| 0 <= j < i ==> s@[j] == q@[j],
    {
        if s[i] != q[i] {
            assert(s@.take(q@.len() as int)[i as int] != q@[i as int]);
            return false;
        }
    }
    assert(s@.take(q@.len() as int) =~= q@);
    true
}


/// `char::is_whitespace`: the Unicode `White_Space` characters.
pub open spec fn is_ws(c: char) -> bool {
    let v = c as u32;
    ||| 9 <= v <= 13
    ||| v == 32
    ||| v == 0x85
    ||| v == 0xa0
    ||| v == 0x1680
    ||| 0x2000 <= v <= 0x200a
    ||| v == 0x2028
    ||| v == 0x2029
    ||| v == 0x202f
    ||| v == 0x205f
    ||| v == 0x3000
}

/// Executable `char::is_whitespace`.
pub fn is_whitespace(c: char) -> (r: bool)
    ensures
        r == is_ws(c),
{
    let v = c as u32;
    (9 <= v && v <= 13) || v == 32 || v == 0x85 || v == 0xa0 || v == 0x1680 || (0x2000 <= v && v
        <= 0x200a) || v == 0x2028 || v == 0x2029 || v == 0x202f || v == 0x205f || v == 0x3000
}

/// `s` without its leading whitespace.
pub open spec fn trim_start(s: Seq<char>) -> Seq<char>
    decreases s.len(),
{
    if s.len() > 0 && is_ws(s[0]) {
        trim_start(s.drop_first())
    } else {
        s
    }
}

/// `s` without its trailing whitespace.
pub open spec fn trim_end(s: Seq<char>) -> Seq<char>
    decreases s.len(),
{
    if s.len() > 0 && is_ws(s.last()) {
        trim_end(s.drop_last())
    } else {
        s
    }
}

/// `str::trim`: `s` without leading and trailing whitespace.
pub open spec fn trim(s: Seq<char>) -> Seq<char> {
    trim_end(trim_start(s))
}

/// The bounds `(a, b)` of `trim(cs[lo..hi])` inside `cs`.
pub fn trim_bounds(cs: &Vec<char>, lo: usize, hi: usize) -> (r: (usize, usize))
    requires
        lo <= hi <= cs.len(),
    ensures
        lo <= r.0 <= r.1 <= hi,
        cs@.subrange(r.0 as int, r.1 as int) == trim(cs@.subrange(lo as int, hi as int)),
{
    let mut i = lo;
    while i < hi && is_whitespace(cs[i])
        invariant
            lo <= i <= hi <= cs.len(),
            trim_start(cs@.subrange(lo as int, hi as int)) == trim_start(
                cs@.subrange(i as int, hi as int),
            ),
        decreases hi - i,
    {
        assert(cs@.subrange(i as int, hi as int).drop_first() =~= cs@.subrange(
            i + 1,
            hi as int,
        ));
        i = i + 1;
    }
    assert(trim_start(cs@.subrange(i as int, hi as int)) == cs@.subrange(i as int, hi as int));
    let mut j = hi;
    while j > i && is_whitespace(cs[j - 1])
        invariant
            lo <= i <= j <= hi <= cs.len(),
            trim(cs@.subrange(lo as int, hi as int)) == trim_end(
                cs@.subrange(i as int, j as int),
            ),
        decreases j - i,
    {
        assert(cs@.subrange(i as int, j as int).drop_last() =~= cs@.subrange(
            i as int,
            j - 1,
        ));
        j = j - 1;
    }
    (i, j)
}

/// The characters `cs[a..b]` as a `String`.
pub fn string_from_range(cs: &Vec<char>, a: usize, b: usize) -> (s: String)
    requires
        a <= b <= cs.len(),
    ensures
        s@ == cs@.subrange(a as int, b as int),
{
    let mut s = String::new();
    for i in a..b
        invariant
            b <= cs.len(),
            s@ == cs@.subrange(a as int, i as int),
    {
        push_char(&mut s, cs[i]);
        assert(cs@.subrange(a as int, i as int).push(cs@[i as int]) =~= cs@.subrange(
            a as int,
            i + 1,
        ));
    }
    s
}

/// `str::trim`, as an owned string.
pub fn trimmed(s: &str) -> (r: String)
    ensures
        r@ == trim(s@),
{
    let cs = chars_of(s);
    let (a, b) = trim_bounds(&cs, 0, cs.len());
    assert(cs@.subrange(0, cs@.len() as int) =~= cs@);
    string_from_range(&cs, a, b)
}


/// The index of the first character of `s` that satisfies `p`, or `s.len()`
/// when none does.
pub open spec fn first_where(s: Seq<char>, p: spec_fn(char) -> bool) -> int
    decreases s.len(),
{
    if s.len() == 0 {
        0
    } else if p(s[0]) {
        0
    } else {
        1 + first_where(s.drop_first(), p)
    }
}

/// `first_where` is the least index whose character satisfies `p`.
pub proof fn lemma_first_where(s: Seq<char>, p: spec_fn(char) -> bool, k: int)
    requires
        0 <= k <= s.len(),
        forall|j: int| 0 <= j < k ==> !p(#[trigger] s[j]),
        k == s.len() || p(s[k]),
    ensures
        first_where(s, p) == k,
    decreases k,
{
    if k > 0 {
        assert(!p(s[0]));
        let t = s.drop_first();
        assert forall|j: int| 0 <= j < k - 1 implies !p(#[trigger] t[j]) by {
            assert(t[j] == s[j + 1]);
        }
        if k < s.len() {
            assert(t[k - 1] == s[k]);
        }
        lemma_first_where(t, p, k - 1);
    }
}

/// The characters of `s` before the first `c` (all of `s` when there is no `c`).
pub open spec fn before_first(s: Seq<char>, c: char) -> Seq<char> {
    s.take(first_where(s, eq_char(c)))
}

/// The predicate "is the character `c`".
pub open spec fn eq_char(c: char) -> spec_fn(char) -> bool {
    |x: char| x == c
}

/// The index of the first `c` in `cs[from..to]`, or `to` when there is none.
pub fn find_char(cs: &Vec<char>, from: usize, to: usize, c: char) -> (k: usize)
    requires
        from <= to <= cs.len(),
    ensures
        from <= k <= to,
        first_where(cs@.subrange(from as int, to as int), eq_char(c)) == k - from,
{
    let mut k = from;
    while k < to && cs[k] != c
        invariant
            from <= k <= to <= cs.len(),
            forall|j: int| from <= j < k ==> cs@[j] != c,
        decreases to - k,
    {
        k = k + 1;
    }
    let ghost sub = cs@.subrange(from as int, to as int);
    proof {
        assert forall|j: int| 0 <= j < k - from implies !(eq_char(c)(#[trigger] sub[j])) by {
            assert(sub[j] == cs@[from + j]);
        }
        lemma_first_where(sub, eq_char(c), k - from);
    }
    k
}


/// `char::is_ascii_alphanumeric`.
pub open spec fn is_ascii_alnum(c: char) -> bool {
    ('0' <= c <= '9') || ('A' <= c <= 'Z') || ('a' <= c <= 'z')
}

/// Executable `char::is_ascii_alphanumeric`.
pub fn is_ascii_alnum_exec(c: char) -> (r: bool)
    ensures
        r == is_ascii_alnum(c),
{
    ('0' <= c && c <= '9') || ('A' <= c && c <= 'Z') || ('a' <= c && c <= 'z')
}

/// A string of ASCII characters is as long in bytes as in characters.
pub proof fn lemma_ascii_byte_len(s: &str)
    requires
        is_ascii_chars(s@),
    ensures
        s.spec_bytes().len() == s@.len(),
{
    is_ascii_chars_encode_utf8(s@);
}

/// Whether `s` ends with `suffix`.
pub open spec fn ends_with(s: Seq<char>, suffix: Seq<char>) -> bool {
    suffix.len() <= s.len() && s.skip(s.len() - suffix.len()) == suffix
}

/// Executable suffix test on a character vector.
pub fn ends_with_exec(cs: &Vec<char>, suffix: &str) -> (r: bool)
    ensures
        r == ends_with(cs@, suffix@),
{
    let t = chars_of(suffix);
    if t.len() > cs.len() {
        return false;
    }
    let off = cs.len() - t.len();
    for i in 0..t.len()
        invariant
            t@ == suffix@,
            off == cs.len() - t.len(),
            forall|j: int| 0 <= j < i ==> cs@[off + j] == t@[j],
    {
        if cs[off + i] != t[i] {
            assert(cs@.skip(off as int)[i as int] != t@[i as int]);
            return false;
        }
    }
    assert(cs@.skip(off as int) =~= t@);
    true
}


/// The predicate `char::is_whitespace`.
pub open spec fn ws_pred() -> spec_fn(char) -> bool {
    |c: char| is_ws(c)
}

/// `first_where` lies within the sequence.
pub proof fn lemma_first_where_bounds(s: Seq<char>, p: spec_fn(char) -> bool)
    ensures
        0 <= first_where(s, p) <= s.len(),
        first_where(s, p) < s.len() ==> p(s[first_where(s, p)]),
        forall|j: int| 0 <= j < first_where(s, p) ==> !p(#[trigger] s[j]),
    decreases s.len(),
{
    if s.len() > 0 && !p(s[0]) {
        let t = s.drop_first();
        lemma_first_where_bounds(t, p);
        assert forall|j: int| 0 <= j < first_where(s, p) implies !p(#[trigger] s[j]) by {
            if j > 0 {
                assert(s[j] == t[j - 1]);
            }
        }
    }
}

/// The index of the first whitespace character in `cs[from..to]`, or `to`.
pub fn find_ws(cs: &Vec<char>, from: usize, to: usize) -> (k: usize)
    requires
        from <= to <= cs.len(),
    ensures
        from <= k <= to,
        first_where(cs@.subrange(from as int, to as int), ws_pred()) == k - from,
{
    let mut k = from;
    while k < to && !is_whitespace(cs[k])
        invariant
            from <= k <= to <= cs.len(),
            forall|j: int| from <= j < k ==> !is_ws(cs@[j]),
        decreases to - k,
    {
        k = k + 1;
    }
    let ghost sub = cs@.subrange(from as int, to as int);
    proof {
        assert forall|j: int| 0 <= j < k - from implies !(ws_pred()(#[trigger] sub[j])) by {
            assert(sub[j] == cs@[from + j]);
        }
        lemma_first_where(sub, ws_pred(), k - from);
    }
    k
}

/// `l` without one trailing carriage return.
pub open spec fn strip_cr(l: Seq<char>) -> Seq<char> {
    if l.len() > 0 && l.last() == '\r' {
        l.drop_last()
    } else {
        l
    }
}

/// `str::lines`: the text split at `\n` (with a `\r` before it dropped); a
/// final line ending adds no empty line.
pub open spec fn lines(s: Seq<char>) -> Seq<Seq<char>>
    decreases s.len(),
{
    if s.len() == 0 {
        Seq::empty()
    } else {
        let k = first_where(s, eq_char('\n'));
        proof {
            lemma_first_where_bounds(s, eq_char('\n'));
        }
        if k >= s.len() {
            seq![s]
        } else {
            seq![strip_cr(s.take(k))] + lines(s.skip(k + 1))
        }
    }
}

/// `trim_start` never lengthens a text.
pub proof fn lemma_trim_start_len(s: Seq<char>)
    ensures
        trim_start(s).len() <= s.len(),
        trim_start(s).len() > 0 ==> !is_ws(trim_start(s)[0]),
    decreases s.len(),
{
    if s.len() > 0 && is_ws(s[0]) {
        lemma_trim_start_len(s.drop_first());
    }
}

/// The first `n - 1` whitespace-separated words of `t` followed by the rest
/// of `t` after them (its leading whitespace removed); fewer columns when `t`
/// holds fewer words. `t` is expected to start with a word.
pub open spec fn columns(t: Seq<char>, n: nat) -> Seq<Seq<char>>
    decreases t.len(),
{
    if t.len() == 0 || n == 0 {
        Seq::empty()
    } else if n == 1 {
        seq![t]
    } else {
        let k = first_where(t, ws_pred());
        proof {
            lemma_first_where_bounds(t, ws_pred());
            lemma_trim_start_len(t.skip(k + 1));
        }
        if k >= t.len() {
            seq![t]
        } else {
            seq![t.take(k)] + columns(trim_start(t.skip(k + 1)), (n - 1) as nat)
        }
    }
}

/// The ranges of `cs` that the bounds in `bs` name.
pub open spec fn ranges_of(cs: Seq<char>, bs: Seq<(usize, usize)>) -> Seq<Seq<char>> {
    bs.map_values(|b: (usize, usize)| cs.subrange(b.0 as int, b.1 as int))
}

/// The bounds of `columns(cs[lo..hi], n)` inside `cs`.
pub fn column_bounds(cs: &Vec<char>, lo: usize, hi: usize, n: usize) -> (bs: Vec<(usize, usize)>)
    requires
        lo <= hi <= cs.len(),
    ensures
        ranges_of(cs@, bs@) == columns(cs@.subrange(lo as int, hi as int), n as nat),
        forall|i: int| 0 <= i < bs.len() ==> lo <= (#[trigger] bs@[i]).0 <= bs@[i].1 <= hi,
{
    let mut bs: Vec<(usize, usize)> = Vec::new();
    let mut cur = lo;
    let mut left = n;
    loop
        invariant_except_break
            lo <= cur <= hi <= cs.len(),
            forall|i: int| 0 <= i < bs.len() ==> lo <= (#[trigger] bs@[i]).0 <= bs@[i].1 <= hi,
            columns(cs@.subrange(lo as int, hi as int), n as nat) == ranges_of(cs@, bs@) + columns(
                cs@.subrange(cur as int, hi as int),
                left as nat,
            ),
        ensures
            ranges_of(cs@, bs@) == columns(cs@.subrange(lo as int, hi as int), n as nat),
            forall|i: int| 0 <= i < bs.len() ==> lo <= (#[trigger] bs@[i]).0 <= bs@[i].1 <= hi,
        decreases hi - cur,
    {
        let ghost sub = cs@.subrange(cur as int, hi as int);
        let ghost before = bs@;
        if cur == hi || left == 0 {
            assert(columns(sub, left as nat) =~= Seq::<Seq<char>>::empty());
            assert(ranges_of(cs@, bs@) + Seq::<Seq<char>>::empty() =~= ranges_of(cs@, bs@));
            break;
        }
        let k = if left == 1 {
            hi
        } else {
            find_ws(cs, cur, hi)
        };
        proof {
            lemma_first_where_bounds(sub, ws_pred());
        }
        if left == 1 || k == hi {
            assert(columns(sub, left as nat) =~= seq![sub]);
            bs.push((cur, hi));
            assert(ranges_of(cs@, bs@) =~= ranges_of(cs@, before) + seq![sub]);
            break;
        }
        let ghost piece = cs@.subrange(cur as int, k as int);
        let mut j = k + 1;
        while j < hi && is_whitespace(cs[j])
            invariant
                k < j <= hi <= cs.len(),
                trim_start(cs@.subrange(k + 1, hi as int)) == trim_start(
                    cs@.subrange(j as int, hi as int),
                ),
            decreases hi - j,
        {
            assert(cs@.subrange(j as int, hi as int).drop_first() =~= cs@.subrange(
                j + 1,
                hi as int,
            ));
            j = j + 1;
        }
        proof {
            assert(trim_start(cs@.subrange(j as int, hi as int)) == cs@.subrange(j as int, hi as int));
            assert(sub.take(k - cur) =~= piece);
            assert(sub.skip(k - cur + 1) =~= cs@.subrange(k + 1, hi as int));
            assert(columns(sub, left as nat) =~= seq![piece] + columns(
                cs@.subrange(j as int, hi as int),
                (left - 1) as nat,
            ));
        }
        bs.push((cur, k));
        assert(ranges_of(cs@, bs@) =~= ranges_of(cs@, before) + seq![piece]);
        cur = j;
        left = left - 1;
    }
    bs
}

/// The decimal digit for `d < 10`.
pub open spec fn digit_char(d: int) -> char {
    (('0' as int) + d) as char
}

/// The decimal representation of `n`, without leading zeros.
pub open spec fn decimal(n: nat) -> Seq<char>
    decreases n,
{
    if n < 10 {
        seq![digit_char(n as int)]
    } else {
        decimal(n / 10) + seq![digit_char((n % 10) as int)]
    }
}

/// The decimal representation of `n`, as `format!("{}", n)` writes it.
pub fn decimal_string(n: u64) -> (s: String)
    ensures
        s@ == decimal(n as nat),
{
    let mut digits: Vec<char> = Vec::new();
    let mut m = n;
    while m >= 10
        invariant
            decimal(n as nat) == decimal(m as nat) + digits@,
        decreases m,
    {
        let d = m % 10;
        let c = ((d as u8) + 48) as char;
        assert(c == digit_char(d as int));
        let ghost old_digits = digits@;
        digits.insert(0, c);
        assert(digits@ =~= seq![c] + old_digits);
        assert(decimal(m as nat) == decimal((m / 10) as nat) + seq![c]);
        assert(decimal(n as nat) =~= decimal((m / 10) as nat) + digits@);
        m = m / 10;
    }
    let c = ((m as u8) + 48) as char;
    let ghost old_digits = digits@;
    digits.insert(0, c);
    assert(digits@ =~= seq![c] + old_digits);
    assert(decimal(n as nat) =~= digits@);
    string_from_chars(&digits)
}

/// `s` without its leading `c` characters (`str::trim_start_matches(c)`).
pub open spec fn trim_leading(s: Seq<char>, c: char) -> Seq<char> {
    s.skip(first_where(s, ne_char(c)))
}

/// The predicate "is not the character `c`".
pub open spec fn ne_char(c: char) -> spec_fn(char) -> bool {
    |x: char| x != c
}

/// Executable `trim_start_matches` for a single character.
pub fn trim_leading_exec(s: &str, c: char) -> (r: String)
    ensures
        r@ == trim_leading(s@, c),
{
    let cs = chars_of(s);
    let mut k: usize = 0;
    while k < cs.len() && cs[k] == c
        invariant
            cs@ == s@,
            k <= cs.len(),
            forall|j: int| 0 <= j < k ==> cs@[j] == c,
        decreases cs.len() - k,
    {
        k = k + 1;
    }
    proof {
        assert forall|j: int| 0 <= j < k implies !(ne_char(c)(#[trigger] cs@[j])) by {}
        lemma_first_where(cs@, ne_char(c), k as int);
    }
    string_from_range(&cs, k, cs.len())
}


/// Whether two strings hold the same characters.
pub fn str_eq(a: &str, b: &str) -> (r: bool)
    ensures
        r == (a@ == b@),
{
    let x = chars_of(a);
    let y = chars_of(b);
    if x.len() != y.len() {
        return false;
    }
    for i in 0..x.len()
        invariant
            x@ == a@,
            y@ == b@,
            x.len() == y.len(),
            forall|j: int| 0 <= j < i ==> x@[j] == y@[j],
    {
        if x[i] != y[i] {
            return false;
        }
    }
    assert(x@ =~= y@);
    true
}


/// After `trim_leading`, the text does not start with `c`.
pub proof fn lemma_trim_leading_strips(s: Seq<char>, c: char)
    ensures
        trim_leading(s, c).len() > 0 ==> trim_leading(s, c)[0] != c,
        trim_leading(s, c).len() <= s.len(),
{
    lemma_first_where_bounds(s, ne_char(c));
}

} // verus!
