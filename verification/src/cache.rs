//! Cache policy: how long each class of answer stays fresh, which class an
//! endpoint belongs to, and when a stored entry counts as expired.

use vstd::prelude::*;
use vstd::string::*;
use crate::text::{
    decimal_string, decimal_text, eq_ascii_nocase, eq_ignore_ascii_case, lemma_lex_irreflexive, lemma_lex_transitive,
    lemma_seq_lt_total, seq_lt, str_eq, str_lt,
};

verus! {

/// What `Duration::from_secs` returns for a number of seconds.
pub uninterp spec fn duration_of_secs(secs: u64) -> std::time::Duration;

/// `Duration::from_secs` builds the duration of that many whole seconds.
pub assume_specification[ core::time::Duration::from_secs ](secs: u64) -> (d: core::time::Duration)
    ensures
        d == duration_of_secs(secs),
;

/// Freshness classes of cached answers.
#[derive(Debug, Clone, Copy, PartialEq, Eq, Structural)]
pub enum CacheClass {
    /// 60 s: real-time and delayed quotes.
    Realtime,
    /// 24 h: end-of-day prices, market cap.
    Eod,
    /// 7 days: fundamentals, dividends, splits.
    Fundamentals,
    /// 1 h: composed snapshot and financials views.
    Snapshot,
}

/// Lifetime of each class, in seconds.
pub open spec fn class_ttl_secs(c: CacheClass) -> u64 {
    match c {
        CacheClass::Realtime => 60,
        CacheClass::Eod => 86400,
        CacheClass::Fundamentals => 604800,
        CacheClass::Snapshot => 3600,
    }
}

/// The class an endpoint identifier belongs to; unknown endpoints fall
/// back to the one-hour class.
pub open spec fn class_of_endpoint(e: Seq<char>) -> CacheClass {
    if e == "realtime"@ || e == "intraday"@ {
        CacheClass::Realtime
    } else if e == "eod"@ || e == "market_cap"@ || e == "bulk_eod"@ {
        CacheClass::Eod
    } else if e == "fundamentals"@ || e == "dividends"@ || e == "splits"@ || e == "insider"@ {
        CacheClass::Fundamentals
    } else {
        CacheClass::Snapshot
    }
}

impl CacheClass {
    /// How long an answer of this class stays fresh.
    pub fn ttl(&self) -> (d: core::time::Duration)
        ensures
            d == duration_of_secs(class_ttl_secs(*self)),
    {
        match self {
            CacheClass::Realtime => core::time::Duration::from_secs(60),
            CacheClass::Eod => core::time::Duration::from_secs(24 * 3600),
            CacheClass::Fundamentals => core::time::Duration::from_secs(7 * 24 * 3600),
            CacheClass::Snapshot => core::time::Duration::from_secs(3600),
        }
    }

    /// Best-fit class for a known endpoint identifier; anything not
    /// recognised gets the one-hour class.
    pub fn for_endpoint(endpoint: &str) -> (c: CacheClass)
        ensures
            c == class_of_endpoint(endpoint@),
    {
        if str_eq(endpoint, "realtime") || str_eq(endpoint, "intraday") {
            CacheClass::Realtime
        } else if str_eq(endpoint, "eod") || str_eq(endpoint, "market_cap") || str_eq(endpoint, "bulk_eod") {
            CacheClass::Eod
        } else if str_eq(endpoint, "fundamentals") || str_eq(endpoint, "dividends") || str_eq(endpoint, "splits")
            || str_eq(endpoint, "insider") {
            CacheClass::Fundamentals
        } else {
            CacheClass::Snapshot
        }
    }
}

/// A stored entry is expired once more than its lifetime has passed since
/// it was written (a lifetime of 0 expires after the first second).
pub fn entry_expired(now: i64, inserted_at: i64, ttl_seconds: i64) -> (b: bool)
    requires
        i64::MIN <= now - inserted_at <= i64::MAX,
    ensures
        b == (now - inserted_at > ttl_seconds),
{
    now - inserted_at > ttl_seconds
}

/// A named argument as texts.
pub open spec fn arg_view(a: (&str, &str)) -> (Seq<char>, Seq<char>) {
    (a.0@, a.1@)
}

/// Named arguments as texts.
pub open spec fn args_view(s: Seq<(&str, &str)>) -> Seq<(Seq<char>, Seq<char>)> {
    s.map_values(|a: (&str, &str)| arg_view(a))
}

/// The test "this argument is named `k`".
pub open spec fn name_is(k: Seq<char>) -> spec_fn((Seq<char>, Seq<char>)) -> bool {
    |a: (Seq<char>, Seq<char>)| a.0 == k
}

/// The arguments named `k`, in their order.
pub open spec fn with_name(s: Seq<(Seq<char>, Seq<char>)>, k: Seq<char>) -> Seq<(Seq<char>, Seq<char>)> {
    s.filter(name_is(k))
}

/// The arguments are in non-decreasing order of name.
pub open spec fn sorted_by_name(s: Seq<(Seq<char>, Seq<char>)>) -> bool {
    forall|i: int, j: int| 0 <= i < j < s.len() ==> !seq_lt(#[trigger] s[j].0, #[trigger] s[i].0)
}

/// `out` is `input` stably sorted by name: sorted, and for every name the
/// arguments bearing it come in the order they had.
pub open spec fn stable_sorted(out: Seq<(Seq<char>, Seq<char>)>, input: Seq<(Seq<char>, Seq<char>)>) -> bool {
    &&& sorted_by_name(out)
    &&& forall|k: Seq<char>| #[trigger] with_name(out, k) == with_name(input, k)
}

/// `name=value&` for every argument, in order.
pub open spec fn args_text(s: Seq<(Seq<char>, Seq<char>)>) -> Seq<char>
    decreases s.len(),
{
    if s.len() == 0 {
        Seq::empty()
    } else {
        args_text(s.drop_last()) + s.last().0 + "="@ + s.last().1 + "&"@
    }
}

/// The cache key of a call: `endpoint:` followed by `name=value&` for each
/// argument, the arguments stably sorted by name.
pub open spec fn key_text(endpoint: Seq<char>, sorted: Seq<(Seq<char>, Seq<char>)>) -> Seq<char> {
    endpoint + ":"@ + args_text(sorted)
}

proof fn lemma_sorted_insert(
    out: Seq<(Seq<char>, Seq<char>)>,
    p: int,
    x: (Seq<char>, Seq<char>),
)
    requires
        0 <= p <= out.len(),
        sorted_by_name(out),
        forall|q: int| 0 <= q < p ==> !seq_lt(x.0, #[trigger] out[q].0),
        p < out.len() ==> seq_lt(x.0, out[p].0),
    ensures
        sorted_by_name(out.insert(p, x)),
        forall|q: int| p <= q < out.len() ==> seq_lt(x.0, #[trigger] out[q].0),
{
    assert forall|q: int| p <= q < out.len() implies seq_lt(x.0, #[trigger] out[q].0) by {
        if q > p {
            assert(!seq_lt(out[q].0, out[p].0));
            if out[q].0 != out[p].0 {
                lemma_seq_lt_total(out[q].0, out[p].0);
                lemma_lex_transitive(x.0, out[p].0, out[q].0, 0);
            }
        }
    }
    let n = out.insert(p, x);
    assert forall|i: int, j: int| 0 <= i < j < n.len() implies !seq_lt(#[trigger] n[j].0, #[trigger] n[i].0) by {
        if i < p && j == p {
        } else if i < p && j > p {
            assert(n[j] == out[j - 1]);
        } else if i == p {
            assert(n[j] == out[j - 1]);
            if seq_lt(out[j - 1].0, x.0) {
                lemma_lex_transitive(x.0, out[j - 1].0, x.0, 0);
                lemma_lex_irreflexive(x.0, 0);
            }
        } else if i > p {
            assert(n[i] == out[i - 1]);
            assert(n[j] == out[j - 1]);
        } else {
            assert(n[i] == out[i]);
            assert(n[j] == out[j]);
        }
    }
}

proof fn lemma_with_name_insert(
    out: Seq<(Seq<char>, Seq<char>)>,
    p: int,
    x: (Seq<char>, Seq<char>),
    k: Seq<char>,
)
    requires
        0 <= p <= out.len(),
        forall|q: int| p <= q < out.len() ==> seq_lt(x.0, #[trigger] out[q].0),
    ensures
        with_name(out.insert(p, x), k) == if x.0 == k {
            with_name(out, k).push(x)
        } else {
            with_name(out, k)
        },
{
    let pr = name_is(k);
    let a = out.take(p);
    let b = out.skip(p);
    assert(out =~= a + b);
    assert(out.insert(p, x) =~= a + seq![x] + b);
    Seq::filter_distributes_over_add(a, b, pr);
    Seq::filter_distributes_over_add(a, seq![x], pr);
    Seq::filter_distributes_over_add(a + seq![x], b, pr);
    assert(with_name(out, k) == out.filter(pr));
    assert(with_name(out.insert(p, x), k) == (a + seq![x] + b).filter(pr));
    assert(out.filter(pr) == a.filter(pr) + b.filter(pr));
    assert((a + seq![x] + b).filter(pr) == a.filter(pr) + seq![x].filter(pr) + b.filter(pr));
    let e = Seq::<(Seq<char>, Seq<char>)>::empty();
    assert(e.filter(pr) =~= e) by {
        reveal(Seq::filter);
    }
    e.lemma_filter_push(x, pr);
    assert(e.push(x) =~= seq![x]);
    if x.0 != k {
        assert(seq![x].filter(pr) =~= e);
        assert(with_name(out.insert(p, x), k) =~= with_name(out, k));
    }
    if x.0 == k {
        assert(seq![x].filter(pr) =~= seq![x]);
        assert forall|q: int| 0 <= q < b.len() implies !pr(#[trigger] b[q]) by {
            assert(b[q] == out[p + q]);
            if b[q].0 == k {
                lemma_lex_irreflexive(k, 0);
            }
        }
        b.lemma_all_neg_filter_empty(pr);
        assert(with_name(out.insert(p, x), k) =~= with_name(out, k).push(x));
    }
}

fn sorted_args<'a>(args: &[(&'a str, &'a str)]) -> (r: Vec<(&'a str, &'a str)>)
    ensures
        stable_sorted(args_view(r@), args_view(args@)),
{
    let mut out: Vec<(&str, &str)> = Vec::new();
    let mut i: usize = 0;
    proof {
        assert forall|k: Seq<char>| #[trigger] with_name(args_view(out@), k) == with_name(
            args_view(args@).take(0),
            k,
        ) by {
            assert(args_view(out@) =~= args_view(args@).take(0));
        }
    }
    while i < args.len()
        invariant
            i <= args@.len(),
            sorted_by_name(args_view(out@)),
            forall|k: Seq<char>| #[trigger] with_name(args_view(out@), k) == with_name(
                args_view(args@).take(i as int),
                k,
            ),
        decreases args@.len() - i,
    {
        let x = args[i];
        let mut p: usize = 0;
        while p < out.len() && !str_lt(x.0, out[p].0)
            invariant
                p <= out@.len(),
                forall|q: int| 0 <= q < p ==> !seq_lt(x.0@, #[trigger] out@[q].0@),
            decreases out@.len() - p,
        {
            p = p + 1;
        }
        let ghost ov = args_view(out@);
        out.insert(p, x);
        proof {
            let xv = arg_view(x);
            assert(args_view(out@) =~= ov.insert(p as int, xv));
            assert forall|q: int| 0 <= q < p implies !seq_lt(xv.0, #[trigger] ov[q].0) by {
                assert(ov[q].0 == out@[q].0@);
            }
            lemma_sorted_insert(ov, p as int, xv);
            let av = args_view(args@);
            assert(av.take(i + 1) =~= av.take(i as int).push(xv));
            assert forall|k: Seq<char>| #[trigger] with_name(args_view(out@), k) == with_name(
                av.take(i + 1),
                k,
            ) by {
                lemma_with_name_insert(ov, p as int, xv, k);
                av.take(i as int).lemma_filter_push(xv, name_is(k));
            }
        }
        i = i + 1;
    }
    assert(args_view(args@).take(args@.len() as int) =~= args_view(args@));
    out
}

/// Build a stable cache key: `endpoint:` then `name=value&` for each
/// argument, sorted by name, so that equivalent calls get the same key
/// whatever the order of their arguments.
pub fn cache_key(endpoint: &str, args: &[(&str, &str)]) -> (key: String)
    ensures
        exists|sorted: Seq<(Seq<char>, Seq<char>)>|
            stable_sorted(sorted, args_view(args@)) && key@ == key_text(endpoint@, sorted),
{
    let sorted = sorted_args(args);
    let mut s = String::from_str(endpoint);
    s.append(":");
    let ghost sv = args_view(sorted@);
    let mut i: usize = 0;
    while i < sorted.len()
        invariant
            sv == args_view(sorted@),
            i <= sorted@.len(),
            s@ == endpoint@ + ":"@ + args_text(sv.take(i as int)),
        decreases sorted@.len() - i,
    {
        proof {
            assert(sv.take(i + 1).drop_last() =~= sv.take(i as int));
        }
        s.append(sorted[i].0);
        s.append("=");
        s.append(sorted[i].1);
        s.append("&");
        proof {
            assert(s@ =~= endpoint@ + ":"@ + args_text(sv.take(i + 1)));
        }
        i = i + 1;
    }
    assert(sv.take(sorted@.len() as int) =~= sv);
    assert(stable_sorted(sv, args_view(args@)) && s@ == key_text(endpoint@, sv));
    s
}

proof fn lemma_stable_sort_unique(s: Seq<(Seq<char>, Seq<char>)>, t: Seq<(Seq<char>, Seq<char>)>)
    requires
        sorted_by_name(s),
        sorted_by_name(t),
        forall|k: Seq<char>| #[trigger] with_name(s, k) == with_name(t, k),
    ensures
        s == t,
    decreases s.len(),
{
    broadcast use vstd::seq_lib::group_filter_ensures;

    if s.len() == 0 {
        if t.len() > 0 {
            assert(with_name(t, t[0].0).contains(t[0]));
            assert(with_name(s, t[0].0) =~= Seq::<(Seq<char>, Seq<char>)>::empty()) by {
                reveal(Seq::filter);
            }
        }
        assert(s =~= t);
    } else {
        let m = s.last().0;
        assert(with_name(s, m).contains(s.last()));
        assert(with_name(t, m).contains(s.last()));
        t.lemma_filter_contains_rev(name_is(m), s.last());
        let j = choose|j: int| 0 <= j < t.len() && t[j] == s.last();
        let m2 = t.last().0;
        assert(with_name(t, m2).contains(t.last()));
        assert(with_name(s, m2).contains(t.last()));
        s.lemma_filter_contains_rev(name_is(m2), t.last());
        let i = choose|i: int| 0 <= i < s.len() && s[i] == t.last();
        if m != m2 {
            lemma_seq_lt_total(m, m2);
            if j < t.len() - 1 {
                assert(!seq_lt(t[t.len() - 1].0, t[j].0));
            }
            if i < s.len() - 1 {
                assert(!seq_lt(s[s.len() - 1].0, s[i].0));
            }
        }
        assert(m == m2);
        let s1 = s.drop_last();
        let t1 = t.drop_last();
        assert(s1.push(s.last()) =~= s);
        assert(t1.push(t.last()) =~= t);
        s1.lemma_filter_push(s.last(), name_is(m));
        t1.lemma_filter_push(t.last(), name_is(m));
        assert(with_name(s, m).last() == s.last());
        assert(s.last() == t.last());
        assert forall|k: Seq<char>| #[trigger] with_name(s1, k) == with_name(t1, k) by {
            s1.lemma_filter_push(s.last(), name_is(k));
            t1.lemma_filter_push(t.last(), name_is(k));
            if k == m {
                assert(with_name(s1, k) =~= with_name(s, k).drop_last());
                assert(with_name(t1, k) =~= with_name(t, k).drop_last());
            }
        }
        assert(sorted_by_name(s1)) by {
            assert forall|a: int, b: int| 0 <= a < b < s1.len() implies !seq_lt(#[trigger] s1[b].0, #[trigger] s1[a].0) by {
                assert(s1[a] == s[a] && s1[b] == s[b]);
            }
        }
        assert(sorted_by_name(t1)) by {
            assert forall|a: int, b: int| 0 <= a < b < t1.len() implies !seq_lt(#[trigger] t1[b].0, #[trigger] t1[a].0) by {
                assert(t1[a] == t[a] && t1[b] == t[b]);
            }
        }
        lemma_stable_sort_unique(s1, t1);
    }
}

/// The cache key does not depend on the order of the arguments: two
/// argument lists that agree, name by name, on the values given (in their
/// order) get the same key. In particular any reordering of arguments with
/// distinct names does.
pub proof fn law_key_ignores_argument_order(
    endpoint: Seq<char>,
    args1: Seq<(Seq<char>, Seq<char>)>,
    args2: Seq<(Seq<char>, Seq<char>)>,
    sorted1: Seq<(Seq<char>, Seq<char>)>,
    sorted2: Seq<(Seq<char>, Seq<char>)>,
)
    requires
        forall|k: Seq<char>| #[trigger] with_name(args1, k) == with_name(args2, k),
        stable_sorted(sorted1, args1),
        stable_sorted(sorted2, args2),
    ensures
        key_text(endpoint, sorted1) == key_text(endpoint, sorted2),
{
    assert forall|k: Seq<char>| #[trigger] with_name(sorted1, k) == with_name(sorted2, k) by {
        assert(with_name(sorted1, k) == with_name(args1, k));
        assert(with_name(sorted2, k) == with_name(args2, k));
    }
    lemma_stable_sort_unique(sorted1, sorted2);
}

/// The cache key of a symbol's fundamentals trimmed to `last_n` periods,
/// shared by every tool that reads them.
pub fn fundamentals_key(symbol: &str, last_n: usize) -> (key: String)
    ensures
        exists|sorted: Seq<(Seq<char>, Seq<char>)>|
            stable_sorted(sorted, seq![("symbol"@, symbol@), ("last_n"@, decimal_text(last_n as nat))])
                && key@ == key_text("fundamentals"@, sorted),
{
    let n = decimal_string(last_n as u64);
    let args = vec![("symbol", symbol), ("last_n", n.as_str())];
    assert(args_view(args@) =~= seq![("symbol"@, symbol@), ("last_n"@, decimal_text(last_n as nat))]);
    cache_key("fundamentals", args.as_slice())
}

/// A value of the cache switch that turns the cache off: `1`, or `true` in
/// any letter case.
pub fn cache_disabled_flag(value: &str) -> (off: bool)
    ensures
        off == (value@ == "1"@ || eq_ascii_nocase(value@, "true"@)),
{
    str_eq(value, "1") || eq_ignore_ascii_case(value, "true")
}

} // verus!
