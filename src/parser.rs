//! Parsing a captured environment dump into an [`EnvironmentMap`].
//!
//! The dump is split into lines as `str::lines` does: at each `\n`, with one
//! `\r` before it dropped, and with no empty line after a final `\n`. Each line
//! is split at its first `=`; a line without `=`, or with nothing before its
//! first `=`, assigns nothing. A later assignment of a name replaces an earlier
//! one.
use vstd::prelude::*;
use crate::envmap::EnvironmentMap;
use crate::text::{chars_of, string_from};

verus! {

/// The separator between a variable's name and its value.
pub const SEPARATOR: char = '=';

/// The pieces of `t` between line feeds, in order; there is always one more
/// piece than there are line feeds.
pub open spec fn pieces(t: Seq<char>) -> Seq<Seq<char>>
    decreases t.len(),
{
    if t.len() == 0 {
        seq![Seq::empty()]
    } else {
        let p = pieces(t.drop_last());
        if t.last() == '\n' {
            p.push(Seq::empty())
        } else {
            p.update(p.len() - 1, p.last().push(t.last()))
        }
    }
}

/// A line that ended in a line feed, with the carriage return before it dropped.
pub open spec fn strip_cr(l: Seq<char>) -> Seq<char> {
    if l.len() > 0 && l.last() == '\r' {
        l.drop_last()
    } else {
        l
    }
}

/// The lines of `t`, as `str::lines` gives them.
pub open spec fn lines_of(t: Seq<char>) -> Seq<Seq<char>> {
    let p = pieces(t);
    p.drop_last().map_values(|l: Seq<char>| strip_cr(l)) + if p.last().len() == 0 {
        Seq::<Seq<char>>::empty()
    } else {
        seq![p.last()]
    }
}

/// `i` is the position of the first separator in `line`.
pub open spec fn is_first_separator(line: Seq<char>, i: int) -> bool {
    &&& 0 <= i < line.len()
    &&& line[i] == SEPARATOR
    &&& forall|j: int| 0 <= j < i ==> line[j] != SEPARATOR
}

/// The name and value of `line`, split at its first separator; `None` where it
/// has none.
pub open spec fn split_assignment(line: Seq<char>) -> Option<(Seq<char>, Seq<char>)> {
    if exists|i: int| is_first_separator(line, i) {
        let i = choose|i: int| is_first_separator(line, i);
        Some((line.take(i), line.skip(i + 1)))
    } else {
        None
    }
}

/// The environment after `line` was read on top of `m`.
pub open spec fn apply_line(m: Map<Seq<char>, Seq<char>>, line: Seq<char>) -> Map<
    Seq<char>,
    Seq<char>,
> {
    match split_assignment(line) {
        Some((k, v)) => if k.len() > 0 {
            m.insert(k, v)
        } else {
            m
        },
        None => m,
    }
}

/// The environment after `ls` were read, in order, on top of `m`.
pub open spec fn apply_lines(m: Map<Seq<char>, Seq<char>>, ls: Seq<Seq<char>>) -> Map<
    Seq<char>,
    Seq<char>,
>
    decreases ls.len(),
{
    if ls.len() == 0 {
        m
    } else {
        apply_line(apply_lines(m, ls.drop_last()), ls.last())
    }
}

/// The environment that the dump `t` describes.
pub open spec fn environment_of(t: Seq<char>) -> Map<Seq<char>, Seq<char>> {
    apply_lines(Map::empty(), lines_of(t))
}

/// The name that `line` assigns, if it is an assignment.
pub open spec fn name_of(line: Seq<char>) -> Seq<char> {
    match split_assignment(line) {
        Some((k, _)) => k,
        None => Seq::empty(),
    }
}

/// The value that `line` assigns, if it is an assignment.
pub open spec fn value_of(line: Seq<char>) -> Seq<char> {
    match split_assignment(line) {
        Some((_, v)) => v,
        None => Seq::empty(),
    }
}

/// `line` assigns a value to the non-empty name `k`.
pub open spec fn assigns_name(line: Seq<char>, k: Seq<char>) -> bool {
    &&& split_assignment(line) is Some
    &&& name_of(line) == k
    &&& k.len() > 0
}

/// No two different lines of `ls` assign the same name.
pub open spec fn names_distinct(ls: Seq<Seq<char>>) -> bool {
    forall|i: int, j: int, k: Seq<char>|
        0 <= i < ls.len() && 0 <= j < ls.len() && #[trigger] assigns_name(ls[i], k)
            && #[trigger] assigns_name(ls[j], k) ==> ls[i] == ls[j]
}

/// A line without a separator leaves the environment as it was.
pub proof fn lemma_line_without_separator_ignored(m: Map<Seq<char>, Seq<char>>, line: Seq<char>)
    requires
        !line.contains(SEPARATOR),
    ensures
        split_assignment(line) is None,
        apply_line(m, line) == m,
{
    if exists|i: int| is_first_separator(line, i) {
        let i = choose|i: int| is_first_separator(line, i);
        assert(line[i] == SEPARATOR);
    }
}

/// A line is split at its first separator: the value keeps any further
/// separators.
pub proof fn lemma_first_split(k: Seq<char>, v: Seq<char>)
    requires
        !k.contains(SEPARATOR),
    ensures
        split_assignment(k + seq![SEPARATOR] + v) == Some((k, v)),
{
    let line = k + seq![SEPARATOR] + v;
    let n = k.len() as int;
    assert(line[n] == SEPARATOR);
    assert forall|j: int| 0 <= j < n implies line[j] != SEPARATOR by {
        assert(line[j] == k[j]);
    }
    assert(is_first_separator(line, n));
    let i = choose|i: int| is_first_separator(line, i);
    if i < n {
        assert(line[i] == k[i]);
    }
    if n < i {
        assert(line[n] != SEPARATOR);
    }
    assert(line.take(n) =~= k);
    assert(line.skip(n + 1) =~= v);
}

/// Of several assignments of one name, the last one read gives its value.
pub proof fn lemma_last_write_wins(
    m: Map<Seq<char>, Seq<char>>,
    ls: Seq<Seq<char>>,
    k: Seq<char>,
    v: Seq<char>,
)
    requires
        k.len() > 0,
        !k.contains(SEPARATOR),
    ensures
        apply_lines(m, ls.push(k + seq![SEPARATOR] + v)).contains_key(k),
        apply_lines(m, ls.push(k + seq![SEPARATOR] + v))[k] == v,
{
    let ls2 = ls.push(k + seq![SEPARATOR] + v);
    assert(ls2.drop_last() =~= ls);
    lemma_first_split(k, v);
}

/// Read from no environment, lines that assign distinct names give exactly
/// the names they assign, each with the value its line gives.
pub proof fn lemma_distinct_lines(ls: Seq<Seq<char>>)
    requires
        names_distinct(ls),
    ensures
        forall|k: Seq<char>|
            apply_lines(Map::empty(), ls).contains_key(k) <==> exists|i: int|
                0 <= i < ls.len() && #[trigger] assigns_name(ls[i], k),
        forall|i: int, k: Seq<char>|
            0 <= i < ls.len() && #[trigger] assigns_name(ls[i], k) ==> apply_lines(
                Map::empty(),
                ls,
            )[k] == value_of(ls[i]),
    decreases ls.len(),
{
    if ls.len() > 0 {
        let ls1 = ls.drop_last();
        let x = ls.last();
        let n = ls.len() - 1;
        assert forall|i: int, j: int, k: Seq<char>|
            0 <= i < ls1.len() && 0 <= j < ls1.len() && #[trigger] assigns_name(ls1[i], k)
                && #[trigger] assigns_name(ls1[j], k) implies ls1[i] == ls1[j] by {
            assert(ls1[i] == ls[i] && ls1[j] == ls[j]);
        }
        lemma_distinct_lines(ls1);
        let r1 = apply_lines(Map::empty(), ls1);
        let r = apply_lines(Map::empty(), ls);
        assert forall|k: Seq<char>|
            r.contains_key(k) <==> exists|i: int| 0 <= i < ls.len() && #[trigger] assigns_name(ls[i], k) by {
            if r.contains_key(k) && !assigns_name(x, k) {
                assert(r1.contains_key(k));
                let i = choose|i: int| 0 <= i < ls1.len() && #[trigger] assigns_name(ls1[i], k);
                assert(ls1[i] == ls[i]);
            }
            if assigns_name(x, k) {
                assert(assigns_name(ls[n], k));
            }
            if exists|i: int| 0 <= i < ls.len() && #[trigger] assigns_name(ls[i], k) {
                let i = choose|i: int| 0 <= i < ls.len() && #[trigger] assigns_name(ls[i], k);
                if i < n {
                    assert(ls1[i] == ls[i]);
                    assert(assigns_name(ls1[i], k));
                }
            }
        }
        assert forall|i: int, k: Seq<char>|
            0 <= i < ls.len() && #[trigger] assigns_name(ls[i], k) implies r[k]
                == value_of(ls[i]) by {
            if i < n {
                assert(ls1[i] == ls[i]);
                assert(assigns_name(ls1[i], k));
                if assigns_name(x, k) {
                    assert(assigns_name(ls[n], k));
                }
            }
        }
    }
}

/// Lines that assign distinct names give the same environment in any order.
pub proof fn lemma_order_independent(ls1: Seq<Seq<char>>, ls2: Seq<Seq<char>>)
    requires
        names_distinct(ls1),
        ls1.to_multiset() == ls2.to_multiset(),
    ensures
        apply_lines(Map::empty(), ls1) == apply_lines(Map::empty(), ls2),
{
    broadcast use vstd::seq_lib::group_to_multiset_ensures;

    assert forall|l: Seq<char>| ls1.contains(l) <==> ls2.contains(l) by {
        ls1.to_multiset_ensures();
        ls2.to_multiset_ensures();
        assert(ls1.contains(l) <==> ls1.to_multiset().count(l) > 0);
        assert(ls2.contains(l) <==> ls2.to_multiset().count(l) > 0);
    }
    assert forall|i: int, j: int, k: Seq<char>|
        0 <= i < ls2.len() && 0 <= j < ls2.len() && #[trigger] assigns_name(ls2[i], k)
            && #[trigger] assigns_name(ls2[j], k) implies ls2[i] == ls2[j] by {
        assert(ls2.contains(ls2[i]) && ls2.contains(ls2[j]));
        let a = choose|a: int| 0 <= a < ls1.len() && ls1[a] == ls2[i];
        let b = choose|b: int| 0 <= b < ls1.len() && ls1[b] == ls2[j];
        assert(assigns_name(ls1[a], k) && assigns_name(ls1[b], k));
    }
    lemma_distinct_lines(ls1);
    lemma_distinct_lines(ls2);
    let r1 = apply_lines(Map::empty(), ls1);
    let r2 = apply_lines(Map::empty(), ls2);
    assert forall|k: Seq<char>| r1.contains_key(k) <==> r2.contains_key(k) by {
        if r1.contains_key(k) {
            let i = choose|i: int| 0 <= i < ls1.len() && #[trigger] assigns_name(ls1[i], k);
            assert(ls2.contains(ls1[i]));
            let j = choose|j: int| 0 <= j < ls2.len() && ls2[j] == ls1[i];
            assert(assigns_name(ls2[j], k));
        }
        if r2.contains_key(k) {
            let i = choose|i: int| 0 <= i < ls2.len() && #[trigger] assigns_name(ls2[i], k);
            assert(ls1.contains(ls2[i]));
            let j = choose|j: int| 0 <= j < ls1.len() && ls1[j] == ls2[i];
            assert(assigns_name(ls1[j], k));
        }
    }
    assert forall|k: Seq<char>| r1.contains_key(k) implies r1[k] == r2[k] by {
        let i = choose|i: int| 0 <= i < ls1.len() && #[trigger] assigns_name(ls1[i], k);
        assert(ls2.contains(ls1[i]));
        let j = choose|j: int| 0 <= j < ls2.len() && ls2[j] == ls1[i];
        assert(assigns_name(ls2[j], k));
    }
    assert(r1 =~= r2);
}

/// The position of the first separator among `line[..end]`, if any.
fn first_separator(line: &Vec<char>, end: usize) -> (r: Option<usize>)
    requires
        end <= line@.len(),
    ensures
        r matches Some(i) ==> is_first_separator(line@.take(end as int), i as int),
        r is None ==> !exists|i: int| is_first_separator(line@.take(end as int), i),
{
    let ghost l = line@.take(end as int);
    let mut i: usize = 0;
    while i < end
        invariant
            end <= line@.len(),
            l == line@.take(end as int),
            i <= end,
            forall|j: int| 0 <= j < i ==> l[j] != SEPARATOR,
        decreases end - i,
    {
        if line[i] == SEPARATOR {
            return Some(i);
        }
        i = i + 1;
    }
    None
}

/// Reads one line into `m`; with `ended`, the line ended in a line feed and a
/// carriage return at its end is dropped.
fn read_line(m: &mut EnvironmentMap, line: &Vec<char>, ended: bool)
    requires
        old(m).wf(),
    ensures
        final(m).wf(),
        final(m)@ == apply_line(old(m)@, if ended {
            strip_cr(line@)
        } else {
            line@
        }),
{
    let n = line.len();
    let end: usize = if ended && n > 0 && line[n - 1] == '\r' {
        n - 1
    } else {
        n
    };
    let ghost l = line@.take(end as int);
    assert(l =~= if ended {
        strip_cr(line@)
    } else {
        line@
    });
    match first_separator(line, end) {
        Some(i) => {
            proof {
                assert forall|j: int| is_first_separator(l, j) implies j == i by {
                    if j < i {
                        assert(l[j] != SEPARATOR);
                    }
                    if i < j {
                        assert(l[i as int] != SEPARATOR);
                    }
                }
                assert(l.take(i as int) =~= line@.subrange(0, i as int));
                assert(l.skip(i + 1) =~= line@.subrange(i + 1, end as int));
            }
            if i > 0 {
                let name = string_from(line, 0, i);
                let value = string_from(line, i + 1, end);
                m.insert(name, value);
            }
        },
        None => {},
    }
}

/// Parses a captured environment dump. Never fails: text that is not an
/// assignment is passed over.
pub fn parse_environment(snapshot: &str) -> (m: EnvironmentMap)
    ensures
        m.wf(),
        m@ == environment_of(snapshot@),
        forall|k: Seq<char>| #[trigger] m@.contains_key(k) ==> k.len() > 0,
{
    let cs = chars_of(snapshot);
    let mut m = EnvironmentMap::new();
    let mut cur: Vec<char> = Vec::new();
    let ghost mut done: Seq<Seq<char>> = seq![];
    let mut i: usize = 0;
    assert(cs@.take(0) =~= Seq::<char>::empty());
    assert(done.push(cur@) =~= seq![Seq::<char>::empty()]);
    assert(done.map_values(|l: Seq<char>| strip_cr(l)) =~= Seq::<Seq<char>>::empty());
    while i < cs.len()
        invariant
            i <= cs@.len(),
            pieces(cs@.take(i as int)) == done.push(cur@),
            m.wf(),
            m@ == apply_lines(Map::empty(), done.map_values(|l: Seq<char>| strip_cr(l))),
        decreases cs@.len() - i,
    {
        let c = cs[i];
        let ghost prev = cs@.take(i as int);
        assert(cs@.take(i + 1).drop_last() =~= prev);
        assert(cs@.take(i + 1).last() == c);
        if c == '\n' {
            read_line(&mut m, &cur, true);
            proof {
                let f = |l: Seq<char>| strip_cr(l);
                let d2 = done.push(cur@);
                assert(d2.map_values(f).drop_last() =~= done.map_values(f));
                assert(d2.map_values(f).last() == strip_cr(cur@));
                done = d2;
            }
            cur = Vec::new();
            assert(pieces(cs@.take(i + 1)) =~= done.push(cur@));
        } else {
            let ghost old_cur = cur@;
            cur.push(c);
            assert(pieces(cs@.take(i + 1)) =~= done.push(cur@));
        }
        i = i + 1;
    }
    assert(cs@.take(cs@.len() as int) =~= snapshot@);
    let ghost f = |l: Seq<char>| strip_cr(l);
    let ghost p = done.push(cur@);
    assert(p.drop_last() =~= done);
    assert(p.last() == cur@);
    if cur.len() > 0 {
        read_line(&mut m, &cur, false);
        assert(lines_of(snapshot@) =~= done.map_values(f).push(cur@));
        assert(lines_of(snapshot@).drop_last() =~= done.map_values(f));
    } else {
        assert(lines_of(snapshot@) =~= done.map_values(f));
    }
    proof {
        m.lemma_names_nonempty();
    }
    m
}

} // verus!
