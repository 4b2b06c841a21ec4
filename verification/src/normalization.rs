//! Date detection and the slicing of date-keyed periodic tables.

use vstd::prelude::*;
use vstd::string::*;
use crate::json::{lookup, Json, JsonMap};
use crate::text::{digit_char, is_digit_char, seq_lt, str_lt};

verus! {

/// The `YYYY-MM-DD` shape: ten characters, `-` at positions 4 and 7 and
/// ASCII digits everywhere else. No calendar validation.
pub open spec fn iso_date_shape(s: Seq<char>) -> bool {
    &&& s.len() == 10
    &&& forall|i: int|
        0 <= i < 10 ==> if i == 4 || i == 7 {
            #[trigger] s[i] == '-'
        } else {
            is_digit_char(s[i])
        }
}

/// True if `s` has the ISO short-date shape `YYYY-MM-DD`.
pub fn is_iso_date(s: &str) -> (b: bool)
    ensures
        b == iso_date_shape(s@),
{
    let n = s.unicode_len();
    if n != 10 {
        return false;
    }
    let mut i: usize = 0;
    while i < 10
        invariant
            n == 10,
            s@.len() == 10,
            i <= 10,
            forall|j: int|
                0 <= j < i ==> if j == 4 || j == 7 {
                    #[trigger] s@[j] == '-'
                } else {
                    is_digit_char(s@[j])
                },
        decreases 10 - i,
    {
        let c = s.get_char(i);
        if i == 4 || i == 7 {
            if c != '-' {
                return false;
            }
        } else if !digit_char(c) {
            return false;
        }
        i = i + 1;
    }
    true
}


/// A periodic table: a non-empty object whose keys all have the date shape.
pub open spec fn periodic_entries(es: Seq<(String, Json)>) -> bool {
    &&& es.len() > 0
    &&& forall|i: int| 0 <= i < es.len() ==> iso_date_shape(#[trigger] es[i].0@)
}

/// True if `map` is non-empty and every key in it is an ISO date string:
/// the periodic tables under `Financials::*::{quarterly,yearly}`.
pub fn is_periodic_map(map: &JsonMap) -> (b: bool)
    ensures
        b == periodic_entries(map.entries@),
{
    if map.entries.len() == 0 {
        return false;
    }
    let mut i: usize = 0;
    while i < map.entries.len()
        invariant
            i <= map.entries@.len(),
            forall|j: int| 0 <= j < i ==> iso_date_shape(#[trigger] map.entries@[j].0@),
        decreases map.entries@.len() - i,
    {
        if !is_iso_date(map.entries[i].0.as_str()) {
            return false;
        }
        i = i + 1;
    }
    true
}

/// The view of an optional string bound.
pub open spec fn opt_view(o: Option<&str>) -> Option<Seq<char>> {
    match o {
        Some(s) => Some(s@),
        None => None,
    }
}

/// `k` lies in `[from, to]` (inclusive, lexical; a missing bound is open).
pub open spec fn in_range(k: Seq<char>, from: Option<Seq<char>>, to: Option<Seq<char>>) -> bool {
    &&& (from matches Some(f) ==> !seq_lt(k, f))
    &&& (to matches Some(t) ==> !seq_lt(t, k))
}

/// Number of entries of `es` whose key sorts strictly after `k`.
pub open spec fn count_newer(es: Seq<(String, Json)>, k: Seq<char>) -> nat
    decreases es.len(),
{
    if es.len() == 0 {
        0
    } else {
        count_newer(es.drop_last(), k) + if seq_lt(k, es.last().0@) {
            1nat
        } else {
            0nat
        }
    }
}

/// The entries of a periodic table that survive slicing: those whose key
/// is in `[from, to]`, and of these, when `last_n` is given, the ones with
/// fewer than `last_n` newer keys beside them (the `last_n` newest dates).
pub open spec fn trimmed_entries(
    es: Seq<(String, Json)>,
    last_n: Option<usize>,
    from: Option<Seq<char>>,
    to: Option<Seq<char>>,
) -> Seq<(String, Json)> {
    let in_rng = es.filter(|e: (String, Json)| in_range(e.0@, from, to));
    match last_n {
        Some(n) => in_rng.filter(|e: (String, Json)| count_newer(in_rng, e.0@) < n),
        None => in_rng,
    }
}

fn key_in_range(k: &str, from: Option<&str>, to: Option<&str>) -> (b: bool)
    ensures
        b == in_range(k@, opt_view(from), opt_view(to)),
{
    let lower_ok = match from {
        Some(f) => !str_lt(k, f),
        None => true,
    };
    let upper_ok = match to {
        Some(t) => !str_lt(t, k),
        None => true,
    };
    lower_ok && upper_ok
}

fn newer_count(es: &Vec<(String, Json)>, k: &str) -> (n: usize)
    ensures
        n == count_newer(es@, k@),
{
    let mut n: usize = 0;
    let mut i: usize = 0;
    while i < es.len()
        invariant
            i <= es@.len(),
            n == count_newer(es@.take(i as int), k@),
            n <= i,
        decreases es@.len() - i,
    {
        proof {
            assert(es@.take(i + 1).drop_last() =~= es@.take(i as int));
        }
        if str_lt(k, es[i].0.as_str()) {
            n = n + 1;
        }
        i = i + 1;
    }
    assert(es@.take(es@.len() as int) =~= es@);
    n
}

/// Trim a periodic table in place: keep the entries dated in `[from, to]`,
/// then, when `last_n` is given, only the `last_n` newest of those.
fn trim_periodic_map(map: &mut JsonMap, last_n: Option<usize>, from: Option<&str>, to: Option<&str>)
    ensures
        final(map).entries@ == trimmed_entries(old(map).entries@, last_n, opt_view(from), opt_view(to)),
{
    let ghost orig = map.entries@;
    let ghost fv = opt_view(from);
    let ghost tv = opt_view(to);
    let ghost p_rng = |e: (String, Json)| in_range(e.0@, fv, tv);
    // Step 1: date-range filter.
    let mut rest: Vec<(String, Json)> = Vec::new();
    std::mem::swap(&mut rest, &mut map.entries);
    let mut kept: Vec<(String, Json)> = Vec::new();
    let ghost mut i: int = 0;
    while rest.len() > 0
        invariant
            0 <= i <= orig.len(),
            fv == opt_view(from),
            tv == opt_view(to),
            p_rng == (|e: (String, Json)| in_range(e.0@, fv, tv)),
            rest@ == orig.skip(i),
            kept@ == orig.take(i).filter(p_rng),
        decreases rest@.len(),
    {
        let e = rest.remove(0);
        proof {
            assert(e == orig[i]);
            assert(p_rng(e) == in_range(e.0@, fv, tv));
            assert(orig.take(i + 1) =~= orig.take(i).push(orig[i]));
            orig.take(i).lemma_filter_push(orig[i], p_rng);
            assert(rest@ =~= orig.skip(i + 1));
        }
        if key_in_range(e.0.as_str(), from, to) {
            kept.push(e);
        }
        proof {
            i = i + 1;
        }
    }
    assert(orig.take(orig.len() as int) =~= orig);
    let ghost in_rng = kept@;
    assert(in_rng == orig.filter(p_rng));
    // Step 2: keep the newest `last_n`.
    match last_n {
        Some(n) => {
            let ghost p_new = |e: (String, Json)| count_newer(in_rng, e.0@) < n;
            let mut flags: Vec<bool> = Vec::new();
            let mut j: usize = 0;
            while j < kept.len()
                invariant
                    kept@ == in_rng,
                    p_new == (|e: (String, Json)| count_newer(in_rng, e.0@) < n),
                    j <= kept@.len(),
                    flags@.len() == j,
                    forall|q: int| 0 <= q < j ==> flags@[q] == p_new(in_rng[q]),
                decreases kept@.len() - j,
            {
                let c = newer_count(&kept, kept[j].0.as_str());
                let ghost prev = flags@;
                flags.push(c < n);
                proof {
                    assert(p_new(in_rng[j as int]) == (count_newer(in_rng, in_rng[j as int].0@) < n));
                    assert forall|q: int| 0 <= q < j + 1 implies flags@[q] == p_new(in_rng[q]) by {
                        if q < j {
                            assert(flags@[q] == prev[q]);
                        }
                    }
                }
                j = j + 1;
            }
            let mut out: Vec<(String, Json)> = Vec::new();
            let ghost mut q: int = 0;
            let mut idx: usize = 0;
            while kept.len() > 0
                invariant
                    p_new == (|e: (String, Json)| count_newer(in_rng, e.0@) < n),
                    0 <= q <= in_rng.len(),
                    idx == q,
                    flags@.len() == in_rng.len(),
                    forall|r: int| 0 <= r < in_rng.len() ==> flags@[r] == p_new(in_rng[r]),
                    kept@ == in_rng.skip(q),
                    out@ == in_rng.take(q).filter(p_new),
                decreases kept@.len(),
            {
                let e = kept.remove(0);
                proof {
                    assert(e == in_rng[q]);
                    assert(in_rng.take(q + 1) =~= in_rng.take(q).push(in_rng[q]));
                    in_rng.take(q).lemma_filter_push(in_rng[q], p_new);
                    assert(kept@ =~= in_rng.skip(q + 1));
                }
                assert(idx < flags.len());
                if flags[idx] {
                    out.push(e);
                }
                idx = idx + 1;
                proof {
                    q = q + 1;
                }
            }
            assert(in_rng.take(in_rng.len() as int) =~= in_rng);
            map.entries = out;
        },
        None => {
            map.entries = kept;
        },
    }
}

/// `after` is `before` sliced: every periodic table (an object whose keys
/// are all dates) is trimmed as [`trimmed_entries`] says and not entered;
/// every other object keeps its keys, in order, with each value sliced;
/// arrays keep their length with each element sliced; scalars are kept.
pub open spec fn slice_rel(
    before: Json,
    after: Json,
    last_n: Option<usize>,
    from: Option<Seq<char>>,
    to: Option<Seq<char>>,
) -> bool
    decreases before,
{
    match before {
        Json::Array(xs) => match after {
            Json::Array(ys) => {
                &&& ys@.len() == xs@.len()
                &&& forall|i: int|
                    0 <= i < xs@.len() ==> slice_rel(#[trigger] xs@[i], ys@[i], last_n, from, to)
            },
            _ => false,
        },
        Json::Object(m) => match after {
            Json::Object(m2) => if periodic_entries(m.entries@) {
                m2.entries@ == trimmed_entries(m.entries@, last_n, from, to)
            } else {
                &&& m2.entries@.len() == m.entries@.len()
                &&& forall|i: int|
                    0 <= i < m.entries@.len() ==> {
                        &&& (#[trigger] m.entries@[i]).0 == m2.entries@[i].0
                        &&& slice_rel(m.entries@[i].1, m2.entries@[i].1, last_n, from, to)
                    }
            },
            _ => false,
        },
        _ => after == before,
    }
}

fn slice_owned(v: Json, last_n: Option<usize>, from: Option<&str>, to: Option<&str>) -> (r: Json)
    ensures
        slice_rel(v, r, last_n, opt_view(from), opt_view(to)),
    decreases v,
{
    let ghost gv = v;
    match v {
        Json::Object(mut m) => {
            if is_periodic_map(&m) {
                trim_periodic_map(&mut m, last_n, from, to);
                Json::Object(m)
            } else {
                let ghost es = m.entries@;
                let mut rest: Vec<(String, Json)> = Vec::new();
                std::mem::swap(&mut rest, &mut m.entries);
                let mut out: Vec<(String, Json)> = Vec::new();
                let ghost mut i: int = 0;
                while rest.len() > 0
                    invariant
                        gv == v,
                        0 <= i <= es.len(),
                        rest@ == es.skip(i),
                        out@.len() == i,
                        forall|j: int| 0 <= j < es.len() ==> decreases_to!(gv => (#[trigger] es[j]).1),
                        forall|j: int|
                            0 <= j < i ==> {
                                &&& (#[trigger] es[j]).0 == out@[j].0
                                &&& slice_rel(es[j].1, out@[j].1, last_n, opt_view(from), opt_view(to))
                            },
                    decreases rest@.len(),
                {
                    let (k, x) = rest.remove(0);
                    proof {
                        assert(es[i] == (k, x));
                        assert(rest@ =~= es.skip(i + 1));
                    }
                    let y = slice_owned(x, last_n, from, to);
                    out.push((k, y));
                    proof {
                        i = i + 1;
                    }
                }
                Json::Object(JsonMap { entries: out })
            }
        },
        Json::Array(xs) => {
            let ghost gxs = xs@;
            let mut rest = xs;
            let mut out: Vec<Json> = Vec::new();
            let ghost mut i: int = 0;
            while rest.len() > 0
                invariant
                    gv == v,
                    0 <= i <= gxs.len(),
                    rest@ == gxs.skip(i),
                    out@.len() == i,
                    forall|j: int| 0 <= j < gxs.len() ==> decreases_to!(gv => #[trigger] gxs[j]),
                    forall|j: int|
                        0 <= j < i ==> slice_rel(#[trigger] gxs[j], out@[j], last_n, opt_view(from), opt_view(to)),
                decreases rest@.len(),
            {
                let x = rest.remove(0);
                proof {
                    assert(gxs[i] == x);
                    assert(rest@ =~= gxs.skip(i + 1));
                }
                let y = slice_owned(x, last_n, from, to);
                out.push(y);
                proof {
                    i = i + 1;
                }
            }
            Json::Array(out)
        },
        other => other,
    }
}

/// In-place recursive slicer. Walks `value`, and for every object whose
/// keys are all ISO dates keeps the entries dated in `[from, to]`
/// (inclusive, lexical) and, of these, the `last_n` newest. Every other
/// part of the tree is kept as it is, with its periodic tables sliced.
pub fn slice_periodic(value: &mut Json, last_n: Option<usize>, from: Option<&str>, to: Option<&str>)
    ensures
        slice_rel(*old(value), *final(value), last_n, opt_view(from), opt_view(to)),
        last_n is None && from is None && to is None ==> *final(value) == *old(value),
{
    if last_n.is_none() && from.is_none() && to.is_none() {
        proof {
            lemma_slice_rel_unbounded(*value);
        }
        return;
    }
    let mut v = Json::Null;
    std::mem::swap(&mut v, value);
    *value = slice_owned(v, last_n, from, to);
}

/// Filtering with a predicate that holds of every element keeps the sequence.
pub proof fn lemma_filter_keeps_all<A>(s: Seq<A>, p: spec_fn(A) -> bool)
    requires
        forall|i: int| 0 <= i < s.len() ==> p(#[trigger] s[i]),
    ensures
        s.filter(p) == s,
    decreases s.len(),
{
    reveal(Seq::filter);
    if s.len() > 0 {
        lemma_filter_keeps_all(s.drop_last(), p);
        assert(s.drop_last().push(s.last()) =~= s);
    }
}

/// With no bound at all, a periodic table is kept whole.
pub proof fn lemma_trim_unbounded(es: Seq<(String, Json)>)
    ensures
        trimmed_entries(es, None, None, None) == es,
{
    lemma_filter_keeps_all(es, |e: (String, Json)| in_range(e.0@, None, None));
}

/// With no bound at all, slicing relates every value to itself.
pub proof fn lemma_slice_rel_unbounded(v: Json)
    ensures
        slice_rel(v, v, None, None, None),
    decreases v,
{
    match v {
        Json::Array(xs) => {
            assert forall|i: int| 0 <= i < xs@.len() implies slice_rel(
                #[trigger] xs@[i],
                xs@[i],
                None,
                None,
                None,
            ) by {
                lemma_slice_rel_unbounded(xs@[i]);
            }
        },
        Json::Object(m) => {
            if periodic_entries(m.entries@) {
                lemma_trim_unbounded(m.entries@);
            } else {
                assert forall|i: int| 0 <= i < m.entries@.len() implies slice_rel(
                    (#[trigger] m.entries@[i]).1,
                    m.entries@[i].1,
                    None,
                    None,
                    None,
                ) by {
                    lemma_slice_rel_unbounded(m.entries@[i].1);
                }
            }
        },
        _ => {},
    }
}

/// Counting newer keys in a filtered sequence never gives more than in the
/// whole sequence.
pub proof fn lemma_count_newer_filter(s: Seq<(String, Json)>, p: spec_fn((String, Json)) -> bool, k: Seq<char>)
    ensures
        count_newer(s.filter(p), k) <= count_newer(s, k),
    decreases s.len(),
{
    reveal(Seq::filter);
    if s.len() > 0 {
        lemma_count_newer_filter(s.drop_last(), p, k);
        if p(s.last()) {
            assert(s.filter(p).drop_last() =~= s.drop_last().filter(p));
        }
    }
}

/// A later key has no more newer keys beside it than an earlier one.
pub proof fn lemma_count_newer_antitone(s: Seq<(String, Json)>, a: Seq<char>, b: Seq<char>)
    requires
        seq_lt(a, b),
    ensures
        count_newer(s, b) <= count_newer(s, a),
    decreases s.len(),
{
    if s.len() > 0 {
        lemma_count_newer_antitone(s.drop_last(), a, b);
        if seq_lt(b, s.last().0@) {
            crate::text::lemma_lex_transitive(a, b, s.last().0@, 0);
        }
    }
}

/// Trimming a table that was already trimmed changes nothing.
pub proof fn lemma_trim_idempotent(
    es: Seq<(String, Json)>,
    last_n: Option<usize>,
    from: Option<Seq<char>>,
    to: Option<Seq<char>>,
)
    ensures
        trimmed_entries(trimmed_entries(es, last_n, from, to), last_n, from, to) == trimmed_entries(
            es,
            last_n,
            from,
            to,
        ),
{
    broadcast use vstd::seq_lib::group_filter_ensures;

    let p_rng = |e: (String, Json)| in_range(e.0@, from, to);
    let r = es.filter(p_rng);
    let t = trimmed_entries(es, last_n, from, to);
    match last_n {
        Some(n) => {
            let p_new = |e: (String, Json)| count_newer(r, e.0@) < n;
            assert(t == r.filter(p_new));
            assert forall|i: int| 0 <= i < t.len() implies p_rng(#[trigger] t[i]) by {
                assert(r.filter(p_new)[i] == t[i]);
                assert(r.filter(p_new).contains(t[i]));
                r.lemma_filter_contains_rev(p_new, t[i]);
                let j = choose|j: int| 0 <= j < r.len() && r[j] == t[i];
                assert(es.filter(p_rng)[j] == t[i]);
            }
            lemma_filter_keeps_all(t, p_rng);
            let p_new2 = |e: (String, Json)| count_newer(t, e.0@) < n;
            assert forall|i: int| 0 <= i < t.len() implies p_new2(#[trigger] t[i]) by {
                lemma_count_newer_filter(r, p_new, t[i].0@);
                assert(r.filter(p_new)[i] == t[i]);
            }
            lemma_filter_keeps_all(t, p_new2);
        },
        None => {
            assert forall|i: int| 0 <= i < t.len() implies p_rng(#[trigger] t[i]) by {
                assert(es.filter(p_rng)[i] == t[i]);
            }
            lemma_filter_keeps_all(t, p_rng);
        },
    }
}

/// Slicing is idempotent: slicing the result of a slicing again gives a
/// value that is itself a slicing of the input.
pub proof fn law_slice_idempotent(
    a: Json,
    b: Json,
    c: Json,
    last_n: Option<usize>,
    from: Option<Seq<char>>,
    to: Option<Seq<char>>,
)
    requires
        slice_rel(a, b, last_n, from, to),
        slice_rel(b, c, last_n, from, to),
    ensures
        slice_rel(a, c, last_n, from, to),
    decreases a,
{
    match a {
        Json::Array(xs) => {
            let ys = b->Array_0@;
            let zs = c->Array_0@;
            assert forall|i: int| 0 <= i < xs@.len() implies slice_rel(
                #[trigger] xs@[i],
                zs[i],
                last_n,
                from,
                to,
            ) by {
                assert(slice_rel(ys[i], zs[i], last_n, from, to));
                law_slice_idempotent(xs@[i], ys[i], zs[i], last_n, from, to);
            }
        },
        Json::Object(m) => {
            let es = m.entries@;
            let bs = b->Object_0.entries@;
            let cs = c->Object_0.entries@;
            if periodic_entries(es) {
                if periodic_entries(bs) {
                    lemma_trim_idempotent(es, last_n, from, to);
                } else {
                    // A trimmed periodic table that is no longer periodic is empty.
                    if bs.len() > 0 {
                        assert forall|i: int| 0 <= i < bs.len() implies iso_date_shape(#[trigger] bs[i].0@) by {
                            lemma_trimmed_subset(es, last_n, from, to, i);
                        }
                    }
                    assert(cs =~= bs);
                }
            } else {
                assert(!periodic_entries(bs)) by {
                    if es.len() > 0 {
                        let w = choose|i: int| 0 <= i < es.len() && !iso_date_shape(#[trigger] es[i].0@);
                        assert(bs[w].0 == es[w].0);
                    }
                }
                assert forall|i: int| 0 <= i < es.len() implies {
                    &&& (#[trigger] es[i]).0 == cs[i].0
                    &&& slice_rel(es[i].1, cs[i].1, last_n, from, to)
                } by {
                    assert(bs[i].0 == cs[i].0);
                    law_slice_idempotent(es[i].1, bs[i].1, cs[i].1, last_n, from, to);
                }
            }
        },
        _ => {},
    }
}

/// Every entry that survives trimming was an entry of the table.
pub proof fn lemma_trimmed_subset(
    es: Seq<(String, Json)>,
    last_n: Option<usize>,
    from: Option<Seq<char>>,
    to: Option<Seq<char>>,
    i: int,
)
    requires
        0 <= i < trimmed_entries(es, last_n, from, to).len(),
    ensures
        es.contains(trimmed_entries(es, last_n, from, to)[i]),
        in_range(trimmed_entries(es, last_n, from, to)[i].0@, from, to),
{
    broadcast use vstd::seq_lib::group_filter_ensures;

    let p_rng = |e: (String, Json)| in_range(e.0@, from, to);
    let r = es.filter(p_rng);
    let t = trimmed_entries(es, last_n, from, to);
    match last_n {
        Some(n) => {
            let p_new = |e: (String, Json)| count_newer(r, e.0@) < n;
            assert(r.filter(p_new)[i] == t[i]);
            assert(r.filter(p_new).contains(t[i]));
            r.lemma_filter_contains_rev(p_new, t[i]);
            let j = choose|j: int| 0 <= j < r.len() && r[j] == t[i];
            assert(es.filter(p_rng)[j] == t[i]);
            assert(es.filter(p_rng).contains(t[i]));
            es.lemma_filter_contains_rev(p_rng, t[i]);
        },
        None => {
            assert(es.filter(p_rng)[i] == t[i]);
            assert(es.filter(p_rng).contains(t[i]));
            es.lemma_filter_contains_rev(p_rng, t[i]);
        },
    }
}

/// When a period is kept, every newer period in the date range is kept too.
pub proof fn law_newer_periods_survive(
    es: Seq<(String, Json)>,
    n: usize,
    from: Option<Seq<char>>,
    to: Option<Seq<char>>,
    i: int,
    j: int,
)
    requires
        0 <= i < es.len(),
        0 <= j < es.len(),
        in_range(es[j].0@, from, to),
        seq_lt(es[i].0@, es[j].0@),
        trimmed_entries(es, Some(n), from, to).contains(es[i]),
    ensures
        trimmed_entries(es, Some(n), from, to).contains(es[j]),
{
    broadcast use vstd::seq_lib::group_filter_ensures;

    let p_rng = |e: (String, Json)| in_range(e.0@, from, to);
    let r = es.filter(p_rng);
    let p_new = |e: (String, Json)| count_newer(r, e.0@) < n;
    let t = r.filter(p_new);
    let k = choose|k: int| 0 <= k < t.len() && t[k] == es[i];
    assert(p_new(t[k]));
    lemma_count_newer_antitone(r, es[i].0@, es[j].0@);
    assert(r.contains(es[j]));
    let q = choose|q: int| 0 <= q < r.len() && r[q] == es[j];
    assert(p_new(r[q]));
}

/// Filtering keeps keys distinct.
pub proof fn lemma_filter_keys_distinct(s: Seq<(String, Json)>, p: spec_fn((String, Json)) -> bool)
    requires
        crate::json::keys_distinct(s),
    ensures
        crate::json::keys_distinct(s.filter(p)),
    decreases s.len(),
{
    reveal(Seq::filter);
    if s.len() > 0 {
        let d = s.drop_last();
        assert(crate::json::keys_distinct(d));
        lemma_filter_keys_distinct(d, p);
        if p(s.last()) {
            let f = d.filter(p);
            assert forall|i: int| 0 <= i < f.len() implies (#[trigger] f[i]).0@ != s.last().0@ by {
                assert(f.contains(f[i]));
                d.lemma_filter_contains_rev(p, f[i]);
                let j = choose|j: int| 0 <= j < d.len() && d[j] == f[i];
                assert(s[j] == d[j]);
            }
        }
    }
}

/// A non-empty sequence with distinct keys has an entry whose key sorts
/// before every other key.
pub proof fn lemma_min_key(s: Seq<(String, Json)>) -> (m: int)
    requires
        s.len() > 0,
        crate::json::keys_distinct(s),
    ensures
        0 <= m < s.len(),
        forall|j: int| 0 <= j < s.len() && j != m ==> seq_lt(s[m].0@, #[trigger] s[j].0@),
    decreases s.len(),
{
    if s.len() == 1 {
        0
    } else {
        let d = s.drop_last();
        assert(crate::json::keys_distinct(d));
        let m0 = lemma_min_key(d);
        let last = s.len() - 1;
        assert(s[m0].0@ != s[last].0@);
        crate::text::lemma_seq_lt_total(s[m0].0@, s[last].0@);
        if seq_lt(s[last].0@, s[m0].0@) {
            assert forall|j: int| 0 <= j < s.len() && j != last implies seq_lt(
                s[last].0@,
                #[trigger] s[j].0@,
            ) by {
                if j != m0 {
                    assert(s[j] == d[j]);
                    crate::text::lemma_lex_transitive(s[last].0@, s[m0].0@, s[j].0@, 0);
                }
            }
            last
        } else {
            assert forall|j: int| 0 <= j < s.len() && j != m0 implies seq_lt(
                s[m0].0@,
                #[trigger] s[j].0@,
            ) by {
                if j < last {
                    assert(s[j] == d[j]);
                }
            }
            m0
        }
    }
}

/// If every entry but the one at `m` has a key after `k`, at least all but
/// one entry count as newer than `k`.
pub proof fn lemma_count_all_but_one(s: Seq<(String, Json)>, k: Seq<char>, m: int)
    requires
        0 <= m < s.len(),
        forall|j: int| 0 <= j < s.len() && j != m ==> seq_lt(k, #[trigger] s[j].0@),
    ensures
        count_newer(s, k) >= s.len() - 1,
    decreases s.len(),
{
    let d = s.drop_last();
    if m == s.len() - 1 {
        lemma_count_all_newer(d, k);
    } else {
        assert forall|j: int| 0 <= j < d.len() && j != m implies seq_lt(k, #[trigger] d[j].0@) by {
            assert(d[j] == s[j]);
        }
        lemma_count_all_but_one(d, k, m);
    }
}

/// If every entry has a key after `k`, every entry counts as newer.
pub proof fn lemma_count_all_newer(s: Seq<(String, Json)>, k: Seq<char>)
    requires
        forall|j: int| 0 <= j < s.len() ==> seq_lt(k, #[trigger] s[j].0@),
    ensures
        count_newer(s, k) == s.len(),
    decreases s.len(),
{
    if s.len() > 0 {
        let d = s.drop_last();
        assert forall|j: int| 0 <= j < d.len() implies seq_lt(k, #[trigger] d[j].0@) by {
            assert(d[j] == s[j]);
        }
        lemma_count_all_newer(d, k);
    }
}

/// A table with distinct dates keeps at most `last_n` periods.
pub proof fn law_trim_keeps_at_most_n(
    es: Seq<(String, Json)>,
    n: usize,
    from: Option<Seq<char>>,
    to: Option<Seq<char>>,
)
    requires
        crate::json::keys_distinct(es),
    ensures
        trimmed_entries(es, Some(n), from, to).len() <= n,
{
    broadcast use vstd::seq_lib::group_filter_ensures;

    let p_rng = |e: (String, Json)| in_range(e.0@, from, to);
    let r = es.filter(p_rng);
    let p_new = |e: (String, Json)| count_newer(r, e.0@) < n;
    let t = r.filter(p_new);
    if t.len() > 0 {
        lemma_filter_keys_distinct(es, p_rng);
        lemma_filter_keys_distinct(r, p_new);
        let m = lemma_min_key(t);
        lemma_count_all_but_one(t, t[m].0@, m);
        lemma_count_newer_filter(r, p_new, t[m].0@);
        assert(p_new(t[m]));
    }
}

/// The texts behind a sequence of string slices.
pub open spec fn views_of(s: Seq<&str>) -> Seq<Seq<char>> {
    s.map_values(|x: &str| x@)
}

/// `s` is sorted in descending (non-increasing) order.
pub open spec fn sorted_desc(s: Seq<Seq<char>>) -> bool {
    forall|i: int, j: int| 0 <= i < j < s.len() ==> !seq_lt(#[trigger] s[i], #[trigger] s[j])
}

/// The date keys of a periodic map, newest first: the keys of `map`,
/// each as often as it occurs, sorted in descending order.
pub fn sorted_dates_desc(map: &JsonMap) -> (r: Vec<&str>)
    ensures
        views_of(r@).to_multiset() == crate::json::keys_of(map.entries@).to_multiset(),
        sorted_desc(views_of(r@)),
{
    broadcast use vstd::seq_lib::to_multiset_build, vstd::seq_lib::to_multiset_insert;

    let ghost es = map.entries@;
    let mut out: Vec<&str> = Vec::new();
    assert(views_of(out@) =~= crate::json::keys_of(es.take(0)));
    let mut i: usize = 0;
    while i < map.entries.len()
        invariant
            es == map.entries@,
            i <= es.len(),
            views_of(out@).to_multiset() == crate::json::keys_of(es.take(i as int)).to_multiset(),
            sorted_desc(views_of(out@)),
        decreases es.len() - i,
    {
        let k = map.entries[i].0.as_str();
        let mut p: usize = 0;
        while p < out.len() && !str_lt(out[p], k)
            invariant
                p <= out@.len(),
                forall|q: int| 0 <= q < p ==> !seq_lt(#[trigger] out@[q]@, k@),
            decreases out@.len() - p,
        {
            p = p + 1;
        }
        let ghost old_v = views_of(out@);
        out.insert(p, k);
        proof {
            let new_v = views_of(out@);
            assert(new_v =~= old_v.insert(p as int, k@));
            assert(es.take(i + 1) =~= es.take(i as int).push(es[i as int]));
            assert(crate::json::keys_of(es.take(i + 1)) =~= crate::json::keys_of(es.take(i as int)).push(k@));
            vstd::seq_lib::to_multiset_insert(old_v, p as int, k@);
            vstd::seq_lib::to_multiset_build(crate::json::keys_of(es.take(i as int)), k@);
            assert forall|a: int, b: int| 0 <= a < b < new_v.len() implies !seq_lt(
                #[trigger] new_v[a],
                #[trigger] new_v[b],
            ) by {
                if b == p {
                    assert(new_v[a] == out@[a]@);
                } else if a == p {
                    assert(new_v[b] == old_v[b - 1]);
                    if seq_lt(k@, old_v[b - 1]) {
                        assert(seq_lt(old_v[p as int], k@));
                        crate::text::lemma_lex_transitive(old_v[p as int], k@, old_v[b - 1], 0);
                        if b - 1 == p {
                            crate::text::lemma_lex_irreflexive(old_v[p as int], 0);
                        }
                    }
                } else if a > p {
                    assert(new_v[a] == old_v[a - 1]);
                    assert(new_v[b] == old_v[b - 1]);
                } else if b > p {
                    assert(new_v[a] == old_v[a]);
                    assert(new_v[b] == old_v[b - 1]);
                } else {
                    assert(new_v[a] == old_v[a]);
                    assert(new_v[b] == old_v[b]);
                }
            }
        }
        i = i + 1;
    }
    assert(es.take(es.len() as int) =~= es);
    out
}

/// The entries of the `n` newest periods of a periodic table, newest
/// first; `None` when the table has fewer than `n` periods.
pub fn newest_entries<'a>(map: &'a JsonMap, n: usize) -> (r: Option<Vec<&'a Json>>)
    ensures
        r is None <==> map.entries@.len() < n,
        r matches Some(v) ==> v@.len() == n && exists|ds: Seq<Seq<char>>|
            {
                &&& ds.to_multiset() == crate::json::keys_of(map.entries@).to_multiset()
                &&& sorted_desc(ds)
                &&& forall|i: int| 0 <= i < n ==> lookup(map.entries@, #[trigger] ds[i]) == Some(*v@[i])
            },
{
    let dates = sorted_dates_desc(map);
    let ghost ds = views_of(dates@);
    proof {
        vstd::seq_lib::to_multiset_len(ds);
        vstd::seq_lib::to_multiset_len(crate::json::keys_of(map.entries@));
    }
    if dates.len() < n {
        return None;
    }
    let mut out: Vec<&Json> = Vec::new();
    let mut i: usize = 0;
    while i < n
        invariant
            n <= dates@.len(),
            ds == views_of(dates@),
            ds.to_multiset() == crate::json::keys_of(map.entries@).to_multiset(),
            i <= n,
            out@.len() == i,
            forall|j: int| 0 <= j < i ==> lookup(map.entries@, #[trigger] ds[j]) == Some(*out@[j]),
        decreases n - i,
    {
        proof {
            assert(ds[i as int] == dates@[i as int]@);
            vstd::seq_lib::to_multiset_contains(ds, ds[i as int]);
            assert(ds.contains(ds[i as int]));
            vstd::seq_lib::to_multiset_contains(crate::json::keys_of(map.entries@), ds[i as int]);
            let k = choose|k: int| 0 <= k < map.entries@.len() && crate::json::keys_of(map.entries@)[k] == ds[i as int];
            assert(map.entries@[k].0@ == ds[i as int]);
            assert(crate::json::has_key(map.entries@, ds[i as int]));
            crate::json::lemma_has_key_first(map.entries@, ds[i as int]);
        }
        match map.get(dates[i]) {
            Some(e) => {
                out.push(e);
            },
            None => {
                return None;
            },
        }
        i = i + 1;
    }
    Some(out)
}

} // verus!
