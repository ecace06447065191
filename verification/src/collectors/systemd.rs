//! systemd units.
use vstd::prelude::*;
use vstd::utf8::is_ascii_chars;

use crate::text::{
    chars_of, ends_with, ends_with_exec, find_char, first_where, eq_char, is_ascii_alnum, is_ascii_alnum_exec,
    lemma_ascii_byte_len, lemma_first_where, lemma_first_where_bounds, lines, ranges_of, columns, column_bounds, lemma_trim_start_len,
    string_from_range, strip_cr, trim, trim_bounds, trim_end, trim_start, is_ws, ws_pred,
};

verus! {

/// A unit as `systemctl list-units` shows it.
pub struct SystemdService {
    pub unit: String,
    pub load: String,
    pub active: String,
    pub sub: String,
    pub description: String,
}

/// The characters a unit name may hold.
pub open spec fn unit_char(c: char) -> bool {
    is_ascii_alnum(c) || c == '@' || c == ':' || c == '.' || c == '_' || c == '-'
}

/// Whether `s` is a non-empty stem followed by `.` and the unit type `kind`.
pub open spec fn has_unit_type(s: Seq<char>, kind: Seq<char>) -> bool {
    s.len() > kind.len() + 1 && ends_with(s, seq!['.'] + kind)
}

/// The unit names that may be passed to `journalctl`: at most 256
/// characters from the allowed set, ending in `.service`, `.socket`,
/// `.target`, `.timer`, `.mount` or `.path` after a non-empty stem.
pub open spec fn unit_name_ok(s: Seq<char>) -> bool {
    &&& s.len() <= 256
    &&& forall|i: int| 0 <= i < s.len() ==> unit_char(#[trigger] s[i])
    &&& {
        ||| has_unit_type(s, "service"@)
        ||| has_unit_type(s, "socket"@)
        ||| has_unit_type(s, "target"@)
        ||| has_unit_type(s, "timer"@)
        ||| has_unit_type(s, "mount"@)
        ||| has_unit_type(s, "path"@)
    }
}

/// Whether `cs` ends in `.kind` after a non-empty stem; `dotted` is `.kind`.
fn has_unit_type_exec(cs: &Vec<char>, dotted: &str) -> (r: bool)
    requires
        dotted@.len() >= 1,
        dotted@[0] == '.',
    ensures
        r == (cs@.len() > dotted@.len() && ends_with(cs@, dotted@)),
{
    let n = chars_of(dotted).len();
    cs.len() > n && ends_with_exec(cs, dotted)
}

/// Strict allow-list for unit names, so that no name can smuggle arguments
/// or paths into a command line.
pub fn validate_unit(name: &str) -> (r: bool)
    ensures
        r == unit_name_ok(name@),
{
    proof {
        reveal_strlit(".service");
        reveal_strlit(".socket");
        reveal_strlit(".target");
        reveal_strlit(".timer");
        reveal_strlit(".mount");
        reveal_strlit(".path");
        reveal_strlit("service");
        reveal_strlit("socket");
        reveal_strlit("target");
        reveal_strlit("timer");
        reveal_strlit("mount");
        reveal_strlit("path");
        assert(seq!['.'] + "service"@ =~= ".service"@);
        assert(seq!['.'] + "socket"@ =~= ".socket"@);
        assert(seq!['.'] + "target"@ =~= ".target"@);
        assert(seq!['.'] + "timer"@ =~= ".timer"@);
        assert(seq!['.'] + "mount"@ =~= ".mount"@);
        assert(seq!['.'] + "path"@ =~= ".path"@);
    }
    if name.is_empty() || name.len() > 256 {
        proof {
            if unit_name_ok(name@) {
                lemma_ascii_byte_len(name);
            }
        }
        return false;
    }
    let cs = chars_of(name);
    for i in 0..cs.len()
        invariant
            cs@ == name@,
            forall|j: int| 0 <= j < i ==> unit_char(#[trigger] cs@[j]),
    {
        let c = cs[i];
        if !(is_ascii_alnum_exec(c) || c == '@' || c == ':' || c == '.' || c == '_' || c == '-') {
            return false;
        }
    }
    proof {
        assert(is_ascii_chars(name@));
        lemma_ascii_byte_len(name);
    }
    has_unit_type_exec(&cs, ".service") || has_unit_type_exec(&cs, ".socket") || has_unit_type_exec(
        &cs,
        ".target",
    ) || has_unit_type_exec(&cs, ".timer") || has_unit_type_exec(&cs, ".mount")
        || has_unit_type_exec(&cs, ".path")
}


/// The text of a unit row.
pub struct ServiceRow {
    pub unit: Seq<char>,
    pub load: Seq<char>,
    pub active: Seq<char>,
    pub sub: Seq<char>,
    pub description: Seq<char>,
}

impl View for SystemdService {
    type V = ServiceRow;

    open spec fn view(&self) -> ServiceRow {
        ServiceRow {
            unit: self.unit@,
            load: self.load@,
            active: self.active@,
            sub: self.sub@,
            description: self.description@,
        }
    }
}

/// The `i`-th field, or the empty text when there are fewer fields.
pub open spec fn field(fs: Seq<Seq<char>>, i: int) -> Seq<char> {
    if i < fs.len() {
        fs[i]
    } else {
        Seq::empty()
    }
}

/// The fields of a trimmed row: its first four whitespace-separated words
/// (unit, load, active, sub), then the rest of the line (the description).
pub open spec fn row_fields(t: Seq<char>) -> Seq<Seq<char>> {
    columns(t, 5)
}

/// The rows that `systemctl list-units --plain --no-legend` lines describe:
/// each non-blank line, trimmed, gives its columns: unit, load, active and sub
/// are the first four words (columns are padded with runs of spaces), the
/// description is the rest of the line; missing fields are empty.
pub open spec fn unit_rows(ls: Seq<Seq<char>>) -> Seq<ServiceRow>
    decreases ls.len(),
{
    if ls.len() == 0 {
        Seq::empty()
    } else {
        let t = trim(ls[0]);
        let fs = row_fields(t);
        (if t.len() == 0 || fs.len() == 0 {
            Seq::empty()
        } else {
            seq![
                ServiceRow {
                    unit: field(fs, 0),
                    load: field(fs, 1),
                    active: field(fs, 2),
                    sub: field(fs, 3),
                    description: field(fs, 4),
                },
            ]
        }) + unit_rows(ls.drop_first())
    }
}

/// The views of a list of services.
pub open spec fn rows_view(v: Seq<SystemdService>) -> Seq<ServiceRow> {
    v.map_values(|s: SystemdService| s@)
}

/// The field `i` of a row, as a `String`.
fn field_string(cs: &Vec<char>, bs: &Vec<(usize, usize)>, i: usize) -> (s: String)
    requires
        forall|j: int| 0 <= j < bs.len() ==> (#[trigger] bs@[j]).0 <= bs@[j].1 <= cs.len(),
    ensures
        s@ == field(ranges_of(cs@, bs@), i as int),
{
    if i < bs.len() {
        let (a, b) = bs[i];
        string_from_range(cs, a, b)
    } else {
        String::new()
    }
}

/// The arguments of the `systemctl` call that lists every service unit: one
/// row per unit, with no pager, no tree drawing and no header or footer, which
/// is the form that `parse_unit_list` reads.
pub fn systemctl_list_args() -> (args: Vec<&'static str>)
    ensures
        args@.len() == 6,
        args@[0]@ == "list-units"@,
        args@[1]@ == "--type=service"@,
        args@[2]@ == "--all"@,
        args@[3]@ == "--no-pager"@,
        args@[4]@ == "--plain"@,
        args@[5]@ == "--no-legend"@,
{
    let mut args: Vec<&'static str> = Vec::new();
    args.push("list-units");
    args.push("--type=service");
    args.push("--all");
    args.push("--no-pager");
    args.push("--plain");
    args.push("--no-legend");
    args
}

/// Parses the output of `systemctl` called with `systemctl_list_args` into
/// its rows.
pub fn parse_unit_list(output: &str) -> (rows: Vec<SystemdService>)
    ensures
        rows_view(rows@) == unit_rows(lines(output@)),
{
    let cs = chars_of(output);
    let n = cs.len();
    let mut rows: Vec<SystemdService> = Vec::new();
    let mut pos: usize = 0;
    assert(cs@.skip(0) =~= cs@);
    assert(rows_view(rows@) + unit_rows(lines(cs@.skip(0))) =~= unit_rows(lines(cs@)));
    while pos < n
        invariant
            cs@ == output@,
            n == cs.len(),
            pos <= n,
            unit_rows(lines(output@)) == rows_view(rows@) + unit_rows(lines(cs@.skip(pos as int))),
        decreases n - pos,
    {
        let ghost rest = cs@.skip(pos as int);
        let ghost before = rows_view(rows@);
        let k = find_char(&cs, pos, n, '\n');
        proof {
            assert(cs@.subrange(pos as int, n as int) =~= rest);
            lemma_first_where_bounds(rest, eq_char('\n'));
        }
        let mut end = k;
        if k < n && k > pos && cs[k - 1] == '\r' {
            end = k - 1;
        }
        let ghost line = cs@.subrange(pos as int, end as int);
        proof {
            if k < n {
                assert(strip_cr(rest.take(k - pos)) =~= line);
                assert(rest.skip(k - pos + 1) =~= cs@.skip(k + 1));
                assert(lines(rest) =~= seq![line] + lines(cs@.skip(k + 1)));
            } else {
                assert(rest =~= line);
                assert(lines(rest) =~= seq![line]);
            }
        }
        let (a, b) = trim_bounds(&cs, pos, end);
        let ghost t = cs@.subrange(a as int, b as int);
        let ghost next: Seq<Seq<char>> = if k < n {
            lines(cs@.skip(k + 1))
        } else {
            Seq::empty()
        };
        proof {
            let ls = seq![line] + next;
            assert(ls.drop_first() =~= next);
            assert(ls[0] == line);
            assert(lines(rest) == ls);
        }
        if a < b {
            let bs = column_bounds(&cs, a, b, 5);
            if bs.len() > 0 {
                let svc = SystemdService {
                    unit: field_string(&cs, &bs, 0),
                    load: field_string(&cs, &bs, 1),
                    active: field_string(&cs, &bs, 2),
                    sub: field_string(&cs, &bs, 3),
                    description: field_string(&cs, &bs, 4),
                };
                rows.push(svc);
                proof {
                    assert(rows_view(rows@) =~= before + seq![svc@]);
                }
            }
        }
        pos = if k < n {
            k + 1
        } else {
            n
        };
        proof {
            if k >= n {
                assert(cs@.skip(n as int) =~= Seq::<char>::empty());
            }
            assert(unit_rows(lines(cs@.skip(pos as int))) == unit_rows(next));
        }
    }
    assert(cs@.skip(n as int) =~= Seq::<char>::empty());
    assert(rows_view(rows@) + unit_rows(lines(cs@.skip(n as int))) =~= rows_view(rows@));
    rows
}


/// A copy of a service row.
pub fn clone_service(s: &SystemdService) -> (r: SystemdService)
    ensures
        r@ == s@,
{
    SystemdService {
        unit: s.unit.clone(),
        load: s.load.clone(),
        active: s.active.clone(),
        sub: s.sub.clone(),
        description: s.description.clone(),
    }
}


/// The first field of a non-blank trimmed row is its first word: not empty,
/// and free of whitespace.
pub proof fn lemma_first_field_is_a_word(t: Seq<char>)
    requires
        t.len() > 0,
        !is_ws(t[0]),
    ensures
        row_fields(t).len() > 0,
        row_fields(t)[0].len() > 0,
        forall|j: int| 0 <= j < row_fields(t)[0].len() ==> !is_ws(#[trigger] row_fields(t)[0][j]),
{
    lemma_first_where_bounds(t, ws_pred());
    let k = first_where(t, ws_pred());
    assert(k >= 1) by {
        assert(!ws_pred()(t[0]));
    }
    let w = if k >= t.len() { t } else { t.take(k) };
    assert(row_fields(t)[0] == w);
    assert forall|j: int| 0 <= j < w.len() implies !is_ws(#[trigger] w[j]) by {
        assert(!ws_pred()(t[j]));
    }
}

/// Every parsed row names a unit: a non-empty word without whitespace.
pub proof fn lemma_rows_name_units(ls: Seq<Seq<char>>)
    ensures
        forall|i: int| 0 <= i < unit_rows(ls).len() ==> (#[trigger] unit_rows(ls)[i]).unit.len() > 0,
        forall|i: int, j: int|
            0 <= i < unit_rows(ls).len() && 0 <= j < unit_rows(ls)[i].unit.len() ==> !is_ws(
                #[trigger] unit_rows(ls)[i].unit[j],
            ),
    decreases ls.len(),
{
    if ls.len() > 0 {
        lemma_rows_name_units(ls.drop_first());
        let t = trim(ls[0]);
        let rest = unit_rows(ls.drop_first());
        if t.len() > 0 {
            lemma_trim_starts_with_word(ls[0]);
            lemma_first_field_is_a_word(t);
        }
        let head = if t.len() == 0 || row_fields(t).len() == 0 {
            Seq::<ServiceRow>::empty()
        } else {
            seq![
                ServiceRow {
                    unit: field(row_fields(t), 0),
                    load: field(row_fields(t), 1),
                    active: field(row_fields(t), 2),
                    sub: field(row_fields(t), 3),
                    description: field(row_fields(t), 4),
                },
            ]
        };
        assert(unit_rows(ls) == head + rest);
        assert forall|i: int| 0 <= i < unit_rows(ls).len() implies (#[trigger] unit_rows(
            ls,
        )[i]).unit.len() > 0 by {
            if i >= head.len() {
                assert(unit_rows(ls)[i] == rest[i - head.len()]);
            }
        }
        assert forall|i: int, j: int|
            0 <= i < unit_rows(ls).len() && 0 <= j < unit_rows(ls)[i].unit.len() implies !is_ws(
            #[trigger] unit_rows(ls)[i].unit[j],
        ) by {
            if i >= head.len() {
                assert(unit_rows(ls)[i] == rest[i - head.len()]);
            }
        }
    }
}

/// A non-empty trimmed text starts with a character that is not whitespace.
pub proof fn lemma_trim_starts_with_word(s: Seq<char>)
    ensures
        trim(s).len() > 0 ==> !is_ws(trim(s)[0]),
{
    lemma_trim_start_shape(s);
    lemma_trim_end_prefix(trim_start(s));
}

/// `trim_start` leaves a text that is empty or starts with a non-whitespace character.
proof fn lemma_trim_start_shape(s: Seq<char>)
    ensures
        trim_start(s).len() > 0 ==> !is_ws(trim_start(s)[0]),
    decreases s.len(),
{
    if s.len() > 0 && is_ws(s[0]) {
        lemma_trim_start_shape(s.drop_first());
    }
}

/// `trim_end` keeps a prefix of its input.
proof fn lemma_trim_end_prefix(s: Seq<char>)
    ensures
        trim_end(s).len() <= s.len(),
        forall|j: int| 0 <= j < trim_end(s).len() ==> #[trigger] trim_end(s)[j] == s[j],
    decreases s.len(),
{
    if s.len() > 0 && is_ws(s.last()) {
        lemma_trim_end_prefix(s.drop_last());
    }
}


/// The predicate "the line is not blank": something is left once it is trimmed.
pub open spec fn nonblank_pred() -> spec_fn(Seq<char>) -> bool {
    |l: Seq<char>| trim(l).len() > 0
}

/// A text that is not empty has at least one column.
proof fn lemma_columns_nonempty(t: Seq<char>, n: nat)
    requires
        t.len() > 0,
        n > 0,
    ensures
        columns(t, n).len() > 0,
{
    if n > 1 {
        let k = first_where(t, ws_pred());
        lemma_first_where_bounds(t, ws_pred());
    }
}

/// Every line of `systemctl` output that is not blank describes exactly one
/// unit, whatever its columns hold (a load of `not-found`, a unit that is
/// `inactive` or `dead` are rows like any other); a blank line describes none.
pub proof fn lemma_one_row_per_nonblank_line(l: Seq<char>)
    ensures
        unit_rows(seq![l]).len() == (if trim(l).len() > 0 {
            1int
        } else {
            0int
        }),
{
    let ls = seq![l];
    assert(ls.drop_first() =~= Seq::<Seq<char>>::empty());
    assert(unit_rows(Seq::<Seq<char>>::empty()) =~= Seq::<ServiceRow>::empty());
    if trim(l).len() > 0 {
        lemma_columns_nonempty(trim(l), 5);
    }
}

/// The rows of two outputs one after the other are the rows of the first,
/// then those of the second: no row depends on the lines around it.
pub proof fn lemma_rows_of_joined_lines(a: Seq<Seq<char>>, b: Seq<Seq<char>>)
    ensures
        unit_rows(a + b) == unit_rows(a) + unit_rows(b),
    decreases a.len(),
{
    if a.len() == 0 {
        assert(a + b =~= b);
        assert(unit_rows(a) + unit_rows(b) =~= unit_rows(b));
    } else {
        lemma_rows_of_joined_lines(a.drop_first(), b);
        assert((a + b).drop_first() =~= a.drop_first() + b);
        assert((a + b)[0] == a[0]);
        let t = trim(a[0]);
        let fs = row_fields(t);
        let head: Seq<ServiceRow> = if t.len() == 0 || fs.len() == 0 {
            Seq::empty()
        } else {
            seq![
                ServiceRow {
                    unit: field(fs, 0),
                    load: field(fs, 1),
                    active: field(fs, 2),
                    sub: field(fs, 3),
                    description: field(fs, 4),
                },
            ]
        };
        assert(unit_rows(a + b) == head + unit_rows(a.drop_first() + b));
        assert(unit_rows(a) == head + unit_rows(a.drop_first()));
        assert(head + (unit_rows(a.drop_first()) + unit_rows(b)) =~= (head + unit_rows(
            a.drop_first(),
        )) + unit_rows(b));
    }
}

/// There are exactly as many rows as non-blank lines: no unit is dropped and
/// none is made up, whatever the columns of its line say.
pub proof fn lemma_row_count_is_nonblank_line_count(ls: Seq<Seq<char>>)
    ensures
        unit_rows(ls).len() == ls.filter(nonblank_pred()).len(),
    decreases ls.len(),
{
    reveal_with_fuel(Seq::filter, 2);
    if ls.len() == 0 {
        assert(unit_rows(ls) =~= Seq::<ServiceRow>::empty());
    } else {
        let init = ls.drop_last();
        let last = seq![ls.last()];
        assert(ls =~= init + last);
        lemma_row_count_is_nonblank_line_count(init);
        lemma_rows_of_joined_lines(init, last);
        lemma_one_row_per_nonblank_line(ls.last());
        Seq::filter_distributes_over_add(init, last, nonblank_pred());
        assert(last.drop_last() =~= Seq::<Seq<char>>::empty());
        assert(last.last() == ls.last());
    }
}


/// The characters a unit name may hold are exactly the ASCII letters of
/// either case, the digits, and `@`, `:`, `.`, `_` and `-`.
pub proof fn lemma_unit_char_set(c: char)
    ensures
        unit_char(c) <==> (('A' <= c <= 'Z') || ('a' <= c <= 'z') || ('0' <= c <= '9') || c == '@'
            || c == ':' || c == '.' || c == '_' || c == '-'),
{
}

/// Every name made of ASCII letters (of either case), digits and `@ : . _ -`,
/// with a non-empty stem, then `.` and one of the six unit types, and at most
/// 256 characters long, is accepted: `NetworkManager.service` as much as
/// `nginx.service`.
pub proof fn lemma_unit_names_accepted(stem: Seq<char>, kind: Seq<char>)
    requires
        stem.len() > 0,
        forall|i: int|
            0 <= i < stem.len() ==> {
                let c = #[trigger] stem[i];
                ('A' <= c <= 'Z') || ('a' <= c <= 'z') || ('0' <= c <= '9') || c == '@' || c == ':'
                    || c == '.' || c == '_' || c == '-'
            },
        kind == "service"@ || kind == "socket"@ || kind == "target"@ || kind == "timer"@ || kind
            == "mount"@ || kind == "path"@,
        stem.len() + 1 + kind.len() <= 256,
    ensures
        unit_name_ok(stem + seq!['.'] + kind),
{
    reveal_strlit("service");
    reveal_strlit("socket");
    reveal_strlit("target");
    reveal_strlit("timer");
    reveal_strlit("mount");
    reveal_strlit("path");
    let s = stem + seq!['.'] + kind;
    let suffix = seq!['.'] + kind;
    assert(s =~= stem + suffix);
    assert forall|i: int| 0 <= i < s.len() implies unit_char(#[trigger] s[i]) by {
        if i < stem.len() {
            assert(s[i] == stem[i]);
        } else if i == stem.len() {
            assert(s[i] == '.');
        } else {
            assert(s[i] == kind[i - stem.len() - 1]);
        }
    }
    assert(s.skip(s.len() - suffix.len()) =~= suffix);
    assert(has_unit_type(s, kind));
}


/// Only such names are accepted: an accepted name is at most 256 characters
/// long, holds only ASCII letters, digits and `@ : . _ -`, and ends in `.`
/// and one of the six unit types after a non-empty stem; so no accepted name
/// holds a space, a slash or any other character that could carry a second
/// argument or a path.
pub proof fn lemma_accepted_unit_names(s: Seq<char>)
    requires
        unit_name_ok(s),
    ensures
        s.len() <= 256,
        forall|i: int|
            0 <= i < s.len() ==> {
                let c = #[trigger] s[i];
                ('A' <= c <= 'Z') || ('a' <= c <= 'z') || ('0' <= c <= '9') || c == '@' || c == ':'
                    || c == '.' || c == '_' || c == '-'
            },
        exists|stem: Seq<char>, kind: Seq<char>|
            stem.len() > 0 && s == stem + seq!['.'] + kind && (kind == "service"@ || kind == "socket"@
                || kind == "target"@ || kind == "timer"@ || kind == "mount"@ || kind == "path"@),
{
    assert forall|i: int| 0 <= i < s.len() implies {
        let c = #[trigger] s[i];
        ('A' <= c <= 'Z') || ('a' <= c <= 'z') || ('0' <= c <= '9') || c == '@' || c == ':' || c == '.'
            || c == '_' || c == '-'
    } by {
        assert(unit_char(s[i]));
    }
    let kind = if has_unit_type(s, "service"@) {
        "service"@
    } else if has_unit_type(s, "socket"@) {
        "socket"@
    } else if has_unit_type(s, "target"@) {
        "target"@
    } else if has_unit_type(s, "timer"@) {
        "timer"@
    } else if has_unit_type(s, "mount"@) {
        "mount"@
    } else {
        "path"@
    };
    let stem = s.take(s.len() - kind.len() - 1);
    assert(s =~= stem + s.skip(s.len() - kind.len() - 1));
    assert(s.skip(s.len() - kind.len() - 1) == seq!['.'] + kind);
    assert(s =~= stem + seq!['.'] + kind);
}


/// Whether every character of `s` is whitespace.
pub open spec fn all_ws(s: Seq<char>) -> bool {
    forall|i: int| 0 <= i < s.len() ==> is_ws(#[trigger] s[i])
}

/// Whether `w` is a word: not empty, and without whitespace.
pub open spec fn is_word(w: Seq<char>) -> bool {
    w.len() > 0 && forall|i: int| 0 <= i < w.len() ==> !is_ws(#[trigger] w[i])
}

/// Leading whitespace is what `trim_start` removes.
proof fn lemma_trim_start_past_ws(sep: Seq<char>, r: Seq<char>)
    requires
        all_ws(sep),
    ensures
        trim_start(sep + r) == trim_start(r),
    decreases sep.len(),
{
    if sep.len() == 0 {
        assert(sep + r =~= r);
    } else {
        assert((sep + r)[0] == sep[0]);
        assert((sep + r).drop_first() =~= sep.drop_first() + r);
        lemma_trim_start_past_ws(sep.drop_first(), r);
    }
}

/// Trailing whitespace is what `trim_end` removes.
proof fn lemma_trim_end_past_ws(x: Seq<char>, sep: Seq<char>)
    requires
        all_ws(sep),
    ensures
        trim_end(x + sep) == trim_end(x),
    decreases sep.len(),
{
    if sep.len() == 0 {
        assert(x + sep =~= x);
    } else {
        assert((x + sep).last() == sep.last());
        assert((x + sep).drop_last() =~= x + sep.drop_last());
        lemma_trim_end_past_ws(x, sep.drop_last());
    }
}

/// A word, a run of whitespace, then the rest: the word is the first column,
/// and the rest gives the others.
proof fn lemma_columns_of_word(w: Seq<char>, sep: Seq<char>, r: Seq<char>, n: nat)
    requires
        is_word(w),
        sep.len() > 0,
        all_ws(sep),
        n >= 2,
    ensures
        columns(w + sep + r, n) == seq![w] + columns(trim_start(r), (n - 1) as nat),
{
    let t = w + sep + r;
    assert forall|j: int| 0 <= j < w.len() implies !(#[trigger] ws_pred()(t[j])) by {
        assert(t[j] == w[j]);
    }
    assert(t[w.len() as int] == sep[0]);
    lemma_first_where(t, ws_pred(), w.len() as int);
    assert(t.take(w.len() as int) =~= w);
    assert(t.skip(w.len() as int + 1) =~= sep.drop_first() + r);
    lemma_trim_start_past_ws(sep.drop_first(), r);
}

/// The row of a line: a line made of four words (unit, load, active, sub)
/// and a description, separated by runs of whitespace and possibly
/// surrounded by whitespace, is one row holding exactly those five texts, in
/// that order; the description keeps the whitespace inside it.
pub proof fn lemma_row_of_line(
    lead: Seq<char>,
    unit: Seq<char>,
    s0: Seq<char>,
    load: Seq<char>,
    s1: Seq<char>,
    active: Seq<char>,
    s2: Seq<char>,
    sub: Seq<char>,
    s3: Seq<char>,
    description: Seq<char>,
    trail: Seq<char>,
)
    requires
        all_ws(lead),
        all_ws(trail),
        is_word(unit),
        is_word(load),
        is_word(active),
        is_word(sub),
        s0.len() > 0 && all_ws(s0),
        s1.len() > 0 && all_ws(s1),
        s2.len() > 0 && all_ws(s2),
        s3.len() > 0 && all_ws(s3),
        description.len() > 0,
        !is_ws(description[0]),
        !is_ws(description.last()),
    ensures
        unit_rows(
            seq![lead + unit + s0 + load + s1 + active + s2 + sub + s3 + description + trail],
        ) == seq![ServiceRow { unit, load, active, sub, description }],
{
    let r3 = sub + s3 + description;
    let r2 = active + s2 + r3;
    let r1 = load + s1 + r2;
    let core = unit + s0 + r1;
    let line = lead + unit + s0 + load + s1 + active + s2 + sub + s3 + description + trail;
    assert(line =~= lead + (core + trail));
    // trimming leaves the core
    lemma_trim_start_past_ws(lead, core + trail);
    assert((core + trail)[0] == unit[0]);
    assert(trim_start(core + trail) == core + trail);
    lemma_trim_end_past_ws(core, trail);
    assert(core.last() == description.last());
    assert(trim_end(core) == core);
    assert(trim(line) == core);
    // the columns
    assert(r3[0] == sub[0]);
    assert(r2[0] == active[0]);
    assert(r1[0] == load[0]);
    assert(trim_start(r1) == r1);
    assert(trim_start(r2) == r2);
    assert(trim_start(r3) == r3);
    assert(trim_start(description) == description);
    lemma_columns_of_word(unit, s0, r1, 5);
    lemma_columns_of_word(load, s1, r2, 4);
    lemma_columns_of_word(active, s2, r3, 3);
    lemma_columns_of_word(sub, s3, description, 2);
    assert(columns(description, 1) == seq![description]);
    let fs = seq![unit, load, active, sub, description];
    assert(row_fields(core) =~= fs);
    let ls = seq![line];
    assert(ls.drop_first() =~= Seq::<Seq<char>>::empty());
    assert(unit_rows(Seq::<Seq<char>>::empty()) =~= Seq::<ServiceRow>::empty());
    assert(ls[0] == line);
}

} // verus!
