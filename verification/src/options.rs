//! Helpers of the `options` tool (Unicornbay US options): redaction of the
//! API token in surfaced URLs, the query that a request turns into, and
//! the flattening of JSON:API records.

use vstd::prelude::*;
use vstd::string::*;
use crate::json::{
    entry_views, insert_v, jview, jviews, key_pos, lemma_insert_v_after_update, lemma_jviews, lemma_take_views,
    lemma_vfield, lemma_vlookup_insert, lemma_vlookup_views, vfield, vlookup, Json, JsonNumber, JsonV,
};
use crate::text::{decimal_string, decimal_text, str_eq, string_views};
use crate::types::OptionsParams;

verus! {

/// The marker that precedes the API token in a URL.
pub open spec fn token_marker() -> Seq<char> {
    seq!['a', 'p', 'i', '_', 't', 'o', 'k', 'e', 'n', '=']
}

/// Characters a token value runs over: ASCII letters and digits, and
/// `-`, `.`, `_`, `~`, `%`.
pub open spec fn is_token_char(c: char) -> bool {
    ||| ('0' as u32) <= (c as u32) <= ('9' as u32)
    ||| ('a' as u32) <= (c as u32) <= ('z' as u32)
    ||| ('A' as u32) <= (c as u32) <= ('Z' as u32)
    ||| c == '-'
    ||| c == '.'
    ||| c == '_'
    ||| c == '~'
    ||| c == '%'
}

/// The marker occurs in `s` at position `i`.
pub open spec fn marker_at(s: Seq<char>, i: int) -> bool {
    0 <= i && i + 10 <= s.len() && s.subrange(i, i + 10) == token_marker()
}

/// First position at or after `i` where the marker occurs, or -1.
pub open spec fn marker_from(s: Seq<char>, i: int) -> int
    decreases s.len() - i,
{
    if i < 0 || i + 10 > s.len() {
        -1
    } else if marker_at(s, i) {
        i
    } else {
        marker_from(s, i + 1)
    }
}

/// End of the run of token characters that starts at `j`.
pub open spec fn token_end(s: Seq<char>, j: int) -> int
    decreases s.len() - j,
{
    if j < 0 || j >= s.len() {
        j
    } else if is_token_char(s[j]) {
        token_end(s, j + 1)
    } else {
        j
    }
}

proof fn lemma_token_end_bounds(s: Seq<char>, j: int)
    requires
        0 <= j <= s.len(),
    ensures
        j <= token_end(s, j) <= s.len(),
    decreases s.len() - j,
{
    if j < s.len() && is_token_char(s[j]) {
        lemma_token_end_bounds(s, j + 1);
    }
}

proof fn lemma_marker_from_bounds(s: Seq<char>, i: int)
    requires
        0 <= i,
    ensures
        marker_from(s, i) == -1 || (i <= marker_from(s, i) && marker_at(s, marker_from(s, i))),
    decreases s.len() - i,
{
    if i + 10 <= s.len() && !marker_at(s, i) {
        lemma_marker_from_bounds(s, i + 1);
    }
}

/// `s` with the value after every `api_token=` replaced by `***`.
pub open spec fn scrubbed(s: Seq<char>) -> Seq<char>
    decreases s.len(),
{
    let i = marker_from(s, 0);
    if i < 0 {
        s
    } else {
        let h = i + 10;
        let r = token_end(s, h);
        if h <= r <= s.len() {
            s.take(h) + "***"@ + scrubbed(s.skip(r))
        } else {
            s
        }
    }
}

fn chars_of(s: &str) -> (v: Vec<char>)
    ensures
        v@ == s@,
{
    let n = s.unicode_len();
    let mut v: Vec<char> = Vec::new();
    let mut i: usize = 0;
    while i < n
        invariant
            n == s@.len(),
            i <= n,
            v@ == s@.take(i as int),
        decreases n - i,
    {
        v.push(s.get_char(i));
        assert(v@ =~= s@.take(i + 1));
        i = i + 1;
    }
    assert(s@.take(n as int) =~= s@);
    v
}

fn token_char(c: char) -> (b: bool)
    ensures
        b == is_token_char(c),
{
    (c >= '0' && c <= '9') || (c >= 'a' && c <= 'z') || (c >= 'A' && c <= 'Z') || c == '-' || c == '.'
        || c == '_' || c == '~' || c == '%'
}

fn marker_at_exec(v: &Vec<char>, i: usize) -> (b: bool)
    requires
        i + 10 <= v@.len(),
    ensures
        b == marker_at(v@, i as int),
{
    let pat: [char; 10] = ['a', 'p', 'i', '_', 't', 'o', 'k', 'e', 'n', '='];
    assert(pat@ =~= token_marker());
    let mut k: usize = 0;
    while k < 10
        invariant
            i + 10 <= v.len(),
            pat@ == token_marker(),
            k <= 10,
            forall|q: int| 0 <= q < k ==> v@[i + q] == pat@[q],
        decreases 10 - k,
    {
        if v[i + k] != pat[k] {
            assert(v@.subrange(i as int, i + 10)[k as int] != token_marker()[k as int]);
            return false;
        }
        k = k + 1;
    }
    assert(v@.subrange(i as int, i + 10) =~= token_marker());
    true
}

fn find_marker(v: &Vec<char>, start: usize) -> (r: Option<usize>)
    requires
        start <= v@.len(),
    ensures
        r is None ==> marker_from(v@, start as int) == -1,
        r matches Some(i) ==> marker_from(v@, start as int) == i,
{
    let mut i = start;
    while i < v.len() && v.len() - i >= 10
        invariant
            start <= i <= v@.len(),
            marker_from(v@, start as int) == marker_from(v@, i as int),
        decreases v@.len() - i,
    {
        if marker_at_exec(v, i) {
            return Some(i);
        }
        i = i + 1;
    }
    None
}

fn run_end(v: &Vec<char>, j: usize) -> (e: usize)
    requires
        j <= v@.len(),
    ensures
        e == token_end(v@, j as int),
        j <= e <= v@.len(),
{
    let mut e = j;
    while e < v.len() && token_char(v[e])
        invariant
            j <= e <= v@.len(),
            token_end(v@, j as int) == token_end(v@, e as int),
        decreases v@.len() - e,
    {
        e = e + 1;
    }
    e
}

fn append_range(out: &mut String, v: &Vec<char>, from: usize, to: usize)
    requires
        from <= to <= v@.len(),
    ensures
        final(out)@ == old(out)@ + v@.subrange(from as int, to as int),
{
    let mut k = from;
    while k < to
        invariant
            from <= k <= to,
            to <= v@.len(),
            out@ == old(out)@ + v@.subrange(from as int, k as int),
        decreases to - k,
    {
        out.push(v[k]);
        assert(out@ =~= old(out)@ + v@.subrange(from as int, k + 1));
        k = k + 1;
    }
}

proof fn lemma_marker_from_skip(s: Seq<char>, p: int, i: int)
    requires
        0 <= p <= i,
        p <= s.len(),
    ensures
        marker_from(s.skip(p), i - p) == (if marker_from(s, i) < 0 {
            -1
        } else {
            marker_from(s, i) - p
        }),
    decreases s.len() - i,
{
    let t = s.skip(p);
    if i + 10 <= s.len() {
        assert(t.subrange(i - p, i - p + 10) =~= s.subrange(i, i + 10));
        if !marker_at(s, i) {
            lemma_marker_from_skip(s, p, i + 1);
        }
    }
}

proof fn lemma_token_end_skip(s: Seq<char>, p: int, j: int)
    requires
        0 <= p <= j <= s.len(),
    ensures
        token_end(s.skip(p), j - p) == token_end(s, j) - p,
    decreases s.len() - j,
{
    if j < s.len() && is_token_char(s[j]) {
        lemma_token_end_skip(s, p, j + 1);
    }
}

/// Replace any `api_token=VALUE` occurrence with `api_token=***`, so that
/// the key never ends up in logs, error messages or surfaced pagination
/// URLs. The value runs until the first character that is not an ASCII
/// letter or digit or one of `-`, `.`, `_`, `~`, `%`.
pub fn scrub_token(s: &str) -> (out: String)
    ensures
        out@ == scrubbed(s@),
{
    let v = chars_of(s);
    let n = v.len();
    let mut out = String::new();
    let mut pos: usize = 0;
    assert(v@.skip(0) =~= v@);
    loop
        invariant
            n == v@.len(),
            v@ == s@,
            pos <= n,
            out@ + scrubbed(v@.skip(pos as int)) == scrubbed(s@),
        decreases n - pos,
    {
        let ghost t = v@.skip(pos as int);
        proof {
            lemma_marker_from_skip(v@, pos as int, pos as int);
        }
        match find_marker(&v, pos) {
            None => {
                proof {
                    assert(marker_from(t, 0) == -1);
                }
                append_range(&mut out, &v, pos, n);
                assert(v@.subrange(pos as int, n as int) =~= t);
                return out;
            },
            Some(i) => {
                proof {
                    lemma_marker_from_bounds(v@, pos as int);
                }
                let h = i + 10;
                let e = run_end(&v, h);
                proof {
                    lemma_token_end_skip(v@, pos as int, h as int);
                    assert(marker_from(t, 0) == i - pos);
                    assert(t.take(h - pos) =~= v@.subrange(pos as int, h as int));
                    assert(t.skip(e - pos) =~= v@.skip(e as int));
                }
                append_range(&mut out, &v, pos, h);
                out.append("***");
                pos = e;
            },
        }
    }
}

/// No marker occurs before the first one that `marker_from` finds.
proof fn lemma_marker_from_first(s: Seq<char>, i: int, j: int)
    requires
        0 <= i <= j,
        marker_from(s, i) == -1 || j < marker_from(s, i),
    ensures
        !marker_at(s, j),
    decreases j - i,
{
    if i < j {
        if i + 10 <= s.len() && !marker_at(s, i) {
            lemma_marker_from_first(s, i + 1, j);
        } else if i + 10 > s.len() {
        }
    } else {
        if i + 10 <= s.len() && !marker_at(s, i) {
        }
    }
}

proof fn lemma_marker_has_no_star(i: int)
    requires
        0 <= i < 10,
    ensures
        token_marker()[i] != '*',
{
}

/// Every occurrence of `api_token=` in a scrubbed text is followed by the
/// mask `***`: no token value stands directly after the marker.
pub proof fn law_scrub_masks_every_marker(s: Seq<char>, i: int)
    requires
        marker_at(scrubbed(s), i),
    ensures
        i + 13 <= scrubbed(s).len(),
        scrubbed(s).subrange(i + 10, i + 13) == "***"@,
    decreases s.len(),
{
    reveal_strlit("***");
    let out = scrubbed(s);
    let f = marker_from(s, 0);
    lemma_marker_from_bounds(s, 0);
    if f < 0 {
        assert(out == s);
        lemma_marker_from_first(s, 0, i);
    } else {
        let h = f + 10;
        let r = token_end(s, h);
        lemma_token_end_bounds(s, h);
        let rest = scrubbed(s.skip(r));
        assert(out == s.take(h) + "***"@ + rest);
        let star = "***"@;
        assert(star.len() == 3);
        if i + 10 <= h {
            if i < f {
                assert(s.subrange(i, i + 10) =~= out.subrange(i, i + 10));
                lemma_marker_from_first(s, 0, i);
            } else if i > f {
                // The occurrence would reach position h, which holds '*'.
                assert(out[h] == '*');
            }
            assert(i == f);
            assert(out.subrange(i + 10, i + 13) =~= star);
        } else if i < h + 3 {
            // The occurrence covers one of the mask's stars.
            let q = if i <= h { h - i } else { 0 };
            assert(out.subrange(i, i + 10)[q] == out[i + q]);
            assert(out[i + q] == '*');
            lemma_marker_has_no_star(q);
        } else {
            let k = i - (h + 3);
            assert(rest.subrange(k, k + 10) =~= out.subrange(i, i + 10));
            law_scrub_masks_every_marker(s.skip(r), k);
            assert(out.subrange(i + 10, i + 13) =~= rest.subrange(k + 10, k + 13));
        }
    }
}

/// A query parameter as texts.
pub open spec fn pair_view(p: (String, String)) -> (Seq<char>, Seq<char>) {
    (p.0@, p.1@)
}

/// The query parameters as texts.
pub open spec fn pairs_view(v: Seq<(String, String)>) -> Seq<(Seq<char>, Seq<char>)> {
    v.map_values(|p: (String, String)| pair_view(p))
}

/// One parameter `key=value` when the value is given, none otherwise.
pub open spec fn opt_param(key: Seq<char>, v: Option<String>) -> Seq<(Seq<char>, Seq<char>)> {
    match v {
        Some(v) => seq![(key, v@)],
        None => Seq::empty(),
    }
}

/// The query string parameters of an options request: none in
/// `underlyings` mode; otherwise, in this order, each filter that is set
/// (as `filter[...]`), the sort, the page offset, the page limit capped at
/// 1000, the sparse fieldset under the mode's `fields[...]` key (eod and
/// contracts only), and `compact=1` when asked for.
pub open spec fn options_query(p: OptionsParams) -> Seq<(Seq<char>, Seq<char>)> {
    if p.mode@ == "underlyings"@ {
        Seq::empty()
    } else {
        opt_param("filter[underlying_symbol]"@, p.underlying_symbol) + opt_param("filter[contract]"@, p.contract)
            + opt_param("filter[type]"@, p.option_type) + opt_param("filter[strike_from]"@, p.strike_from)
            + opt_param("filter[strike_to]"@, p.strike_to) + opt_param("filter[exp_date_from]"@, p.exp_date_from)
            + opt_param("filter[exp_date_to]"@, p.exp_date_to) + opt_param("filter[exp_date_eq]"@, p.exp_date_eq)
            + opt_param("filter[tradetime_from]"@, p.tradetime_from) + opt_param(
            "filter[tradetime_to]"@,
            p.tradetime_to,
        ) + opt_param("filter[expiration_type]"@, p.expiration_type) + opt_param("sort"@, p.sort) + (
        match p.page_offset {
            Some(o) => seq![("page[offset]"@, decimal_text(o as nat))],
            None => Seq::empty(),
        }) + (match p.page_limit {
            Some(l) => seq![("page[limit]"@, decimal_text(if l < 1000 { l as nat } else { 1000 }))],
            None => Seq::empty(),
        }) + (match p.fields {
            Some(f) => if p.mode@ == "eod"@ {
                seq![("fields[options-eod]"@, f@)]
            } else if p.mode@ == "contracts"@ {
                seq![("fields[options-contracts]"@, f@)]
            } else {
                Seq::empty()
            },
            None => Seq::empty(),
        }) + (if p.compact == Some(true) {
            seq![("compact"@, "1"@)]
        } else {
            Seq::empty()
        })
    }
}

fn push_opt(q: &mut Vec<(String, String)>, key: &str, v: &Option<String>)
    ensures
        pairs_view(final(q)@) == pairs_view(old(q)@) + opt_param(key@, *v),
{
    match v {
        Some(v) => {
            q.push((String::from_str(key), v.clone()));
        },
        None => {},
    }
    assert(pairs_view(q@) =~= pairs_view(old(q)@) + opt_param(key@, *v));
}

fn push_pair(q: &mut Vec<(String, String)>, key: &str, v: String)
    ensures
        pairs_view(final(q)@) == pairs_view(old(q)@) + seq![(key@, v@)],
{
    q.push((String::from_str(key), v));
    assert(pairs_view(q@) =~= pairs_view(old(q)@) + seq![(key@, v@)]);
}

/// The query string parameters of an options request (see [`options_query`]).
pub fn build_options_query(p: &OptionsParams) -> (q: Vec<(String, String)>)
    ensures
        pairs_view(q@) == options_query(*p),
{
    let mut q: Vec<(String, String)> = Vec::new();
    if str_eq(p.mode.as_str(), "underlyings") {
        assert(pairs_view(q@) =~= options_query(*p));
        return q;
    }
    let ghost q0 = pairs_view(q@);
    push_opt(&mut q, "filter[underlying_symbol]", &p.underlying_symbol);
    push_opt(&mut q, "filter[contract]", &p.contract);
    push_opt(&mut q, "filter[type]", &p.option_type);
    push_opt(&mut q, "filter[strike_from]", &p.strike_from);
    push_opt(&mut q, "filter[strike_to]", &p.strike_to);
    push_opt(&mut q, "filter[exp_date_from]", &p.exp_date_from);
    push_opt(&mut q, "filter[exp_date_to]", &p.exp_date_to);
    push_opt(&mut q, "filter[exp_date_eq]", &p.exp_date_eq);
    push_opt(&mut q, "filter[tradetime_from]", &p.tradetime_from);
    push_opt(&mut q, "filter[tradetime_to]", &p.tradetime_to);
    push_opt(&mut q, "filter[expiration_type]", &p.expiration_type);
    push_opt(&mut q, "sort", &p.sort);
    let ghost q1 = pairs_view(q@);
    if let Some(off) = p.page_offset {
        push_pair(&mut q, "page[offset]", decimal_string(off as u64));
    }
    let ghost q2 = pairs_view(q@);
    if let Some(lim) = p.page_limit {
        let capped: u32 = if lim < 1000 { lim } else { 1000 };
        push_pair(&mut q, "page[limit]", decimal_string(capped as u64));
    }
    let ghost q3 = pairs_view(q@);
    if let Some(f) = &p.fields {
        if str_eq(p.mode.as_str(), "eod") {
            push_pair(&mut q, "fields[options-eod]", f.clone());
        } else if str_eq(p.mode.as_str(), "contracts") {
            push_pair(&mut q, "fields[options-contracts]", f.clone());
        }
    }
    let ghost q4 = pairs_view(q@);
    if p.compact == Some(true) {
        push_pair(&mut q, "compact", String::from_str("1"));
    }
    assert(pairs_view(q@) =~= options_query(*p));
    q
}

/// Some filter of an options request is set.
pub open spec fn has_filter(p: OptionsParams) -> bool {
    ||| p.underlying_symbol is Some
    ||| p.contract is Some
    ||| p.option_type is Some
    ||| p.strike_from is Some
    ||| p.strike_to is Some
    ||| p.exp_date_from is Some
    ||| p.exp_date_to is Some
    ||| p.exp_date_eq is Some
    ||| p.tradetime_from is Some
    ||| p.tradetime_to is Some
    ||| p.expiration_type is Some
}

/// Some filter of an options request is set.
pub fn has_any_filter(p: &OptionsParams) -> (b: bool)
    ensures
        b == has_filter(*p),
{
    p.underlying_symbol.is_some() || p.contract.is_some() || p.option_type.is_some() || p.strike_from.is_some()
        || p.strike_to.is_some() || p.exp_date_from.is_some() || p.exp_date_to.is_some()
        || p.exp_date_eq.is_some() || p.tradetime_from.is_some() || p.tradetime_to.is_some()
        || p.expiration_type.is_some()
}

/// How an options request is answered before anything is fetched: the
/// error it is refused with, or the notes that go with its answer.
pub open spec fn options_check(p: OptionsParams) -> Result<Seq<Seq<char>>, Seq<char>> {
    let m = p.mode@;
    if !(m == "eod"@ || m == "contracts"@ || m == "underlyings"@) {
        Err("Invalid mode '"@ + m + "'. Use: eod, contracts, underlyings"@)
    } else if m == "underlyings"@ && has_filter(p) {
        Err(
            "'underlyings' mode does not accept filters. Remove all filter parameters or switch to 'eod' / 'contracts'."@,
        )
    } else {
        let n1: Seq<Seq<char>> = if (m == "eod"@ || m == "contracts"@) && p.underlying_symbol is None && p.contract is None {
            seq![
                "no underlying_symbol or contract filter set — this query will scan the entire dataset and can exhaust your daily API quota. Add a filter to narrow the result."@,
            ]
        } else {
            Seq::empty()
        };
        let n2: Seq<Seq<char>> = match p.page_limit {
            Some(l) => if l > 1000 {
                seq![
                    "page_limit "@ + decimal_text(l as nat)
                        + " exceeds the server max of 1000 — clamped to 1000."@,
                ]
            } else {
                Seq::empty()
            },
            None => Seq::empty(),
        };
        Ok(n1 + n2)
    }
}

/// Validate an options request: an unknown mode, or filters in
/// `underlyings` mode, are refused; an unfiltered eod or contracts query,
/// and a page limit above 1000, each add a note to the answer.
pub fn check_options_request(p: &OptionsParams) -> (r: Result<Vec<String>, String>)
    ensures
        match r {
            Ok(notes) => options_check(*p) == Ok::<Seq<Seq<char>>, Seq<char>>(
                crate::text::string_views(notes@),
            ),
            Err(e) => options_check(*p) == Err::<Seq<Seq<char>>, Seq<char>>(e@),
        },
{
    let m = p.mode.as_str();
    let is_eod = str_eq(m, "eod");
    let is_contracts = str_eq(m, "contracts");
    let is_underlyings = str_eq(m, "underlyings");
    if !(is_eod || is_contracts || is_underlyings) {
        let mut e = String::from_str("Invalid mode '");
        e.append(m);
        e.append("'. Use: eod, contracts, underlyings");
        return Err(e);
    }
    if is_underlyings && has_any_filter(p) {
        return Err(
            String::from_str(
                "'underlyings' mode does not accept filters. Remove all filter parameters or switch to 'eod' / 'contracts'.",
            ),
        );
    }
    let mut notes: Vec<String> = Vec::new();
    if (is_eod || is_contracts) && p.underlying_symbol.is_none() && p.contract.is_none() {
        notes.push(
            String::from_str(
                "no underlying_symbol or contract filter set — this query will scan the entire dataset and can exhaust your daily API quota. Add a filter to narrow the result.",
            ),
        );
    }
    let ghost first = crate::text::string_views(notes@);
    if let Some(lim) = p.page_limit {
        if lim > 1000 {
            let mut n = String::from_str("page_limit ");
            n.append(decimal_string(lim as u64).as_str());
            n.append(" exceeds the server max of 1000 — clamped to 1000.");
            notes.push(n);
        }
    }
    assert(crate::text::string_views(notes@) =~= match options_check(*p) {
        Ok(ns) => ns,
        Err(_) => Seq::empty(),
    });
    Ok(notes)
}

/// The attributes of a JSON:API record `{id, type, attributes: {...}}`.
pub open spec fn record_attributes(item: JsonV) -> Option<Seq<(Seq<char>, JsonV)>> {
    match vfield(item, "attributes"@) {
        Some(JsonV::Object(a)) => Some(a),
        _ => None,
    }
}

/// A JSON:API record with its attributes hoisted into a flat object, its
/// id kept under `_id`; any other value as it is.
pub open spec fn flattened(item: JsonV) -> JsonV {
    match record_attributes(item) {
        Some(a) => JsonV::Object(
            match vfield(item, "id"@) {
                Some(id) => insert_v(a, "_id"@, id),
                None => a,
            },
        ),
        None => item,
    }
}

/// Hoist the attributes of a JSON:API record into a flat object, keeping
/// its id under `_id`; any other value is returned as it is.
pub fn flatten_jsonapi(item: Json) -> (r: Json)
    ensures
        r@ == flattened(item@),
{
    proof {
        lemma_vfield(item, "attributes"@);
        lemma_vfield(item, "id"@);
        reveal_strlit("attributes");
        reveal_strlit("id");
        assert("attributes"@[0] != "id"@[0]);
    }
    let is_record = match item.get("attributes") {
        Some(a) => a.is_object(),
        None => false,
    };
    if !is_record {
        return item;
    }
    let mut item = item;
    let attrs = item.take_field("attributes");
    let id = item.take_field("id");
    match attrs {
        Some(Json::Object(mut a)) => {
            if let Some(v) = id {
                a.insert(String::from_str("_id"), v);
            }
            Json::Object(a)
        },
        _ => item,
    }
}

/// The display name of an options mode.
pub open spec fn options_label_text(mode: Seq<char>) -> Seq<char> {
    if mode == "eod"@ {
        "Options EOD"@
    } else if mode == "contracts"@ {
        "Options Contracts"@
    } else if mode == "underlyings"@ {
        "Options Underlyings"@
    } else {
        "Options"@
    }
}

/// The display name of an options mode.
pub fn options_label(mode: &str) -> (l: &'static str)
    ensures
        l@ == options_label_text(mode@),
{
    if str_eq(mode, "eod") {
        "Options EOD"
    } else if str_eq(mode, "contracts") {
        "Options Contracts"
    } else if str_eq(mode, "underlyings") {
        "Options Underlyings"
    } else {
        "Options"
    }
}

/// A non-negative integer value.
pub open spec fn as_count(v: Option<JsonV>) -> Option<u64> {
    match v {
        Some(JsonV::PosInt(n)) => Some(n),
        _ => None,
    }
}

/// The field `k` of the `meta` block of an answer.
pub open spec fn meta_field(body: JsonV, k: Seq<char>) -> Option<JsonV> {
    match vfield(body, "meta"@) {
        Some(m) => vfield(m, k),
        None => None,
    }
}

/// The heading of an options answer: the mode's name, then the total
/// number of records, the number of pages fetched and whether the page
/// limit cut the run short, as far as the `meta` block tells them.
pub open spec fn options_header_text(mode: Seq<char>, body: JsonV) -> Seq<char> {
    options_label_text(mode) + (match as_count(meta_field(body, "total"@)) {
        Some(t) => " — total "@ + decimal_text(t as nat),
        None => Seq::empty(),
    }) + (match as_count(meta_field(body, "pages_fetched"@)) {
        Some(p) => ", pages fetched "@ + decimal_text(p as nat),
        None => Seq::empty(),
    }) + (if meta_field(body, "pagination_cap_hit"@) == Some(JsonV::Bool(true)) {
        " (max_pages cap hit)"@
    } else {
        Seq::empty()
    })
}

fn count_of(v: Option<&Json>) -> (r: Option<u64>)
    ensures
        r == as_count(match v {
            Some(x) => Some(jview(*x)),
            None => None,
        }),
{
    match v {
        Some(Json::Number(JsonNumber::PosInt(n))) => Some(*n),
        _ => None,
    }
}

/// The heading of an options answer (see [`options_header_text`]).
pub fn options_header(mode: &str, body: &Json) -> (h: String)
    ensures
        h@ == options_header_text(mode@, body@),
{
    proof {
        lemma_vfield(*body, "meta"@);
    }
    let meta = body.get("meta");
    let (total, pages, cap) = match meta {
        Some(m) => {
            proof {
                lemma_vfield(*m, "total"@);
                lemma_vfield(*m, "pages_fetched"@);
                lemma_vfield(*m, "pagination_cap_hit"@);
            }
            let cap = match m.get("pagination_cap_hit") {
                Some(Json::Bool(b)) => *b,
                _ => false,
            };
            (count_of(m.get("total")), count_of(m.get("pages_fetched")), cap)
        },
        None => (None, None, false),
    };
    let mut h = String::from_str(options_label(mode));
    if let Some(t) = total {
        h.append(" — total ");
        h.append(decimal_string(t).as_str());
    }
    if let Some(p) = pages {
        h.append(", pages fetched ");
        h.append(decimal_string(p).as_str());
    }
    if cap {
        h.append(" (max_pages cap hit)");
    }
    assert(h@ =~= options_header_text(mode@, body@));
    h
}

/// The next link an answer names: `links.next` when it is a string.
pub open spec fn next_link(body: JsonV) -> Option<Seq<char>> {
    match vfield(body, "links"@) {
        Some(l) => match vfield(l, "next"@) {
            Some(JsonV::Str(u)) => Some(u),
            _ => None,
        },
        None => None,
    }
}

/// The next link an answer names (see [`next_link`]).
pub fn options_next_link(body: &Json) -> (r: Option<String>)
    ensures
        match r {
            Some(u) => next_link(body@) == Some(u@),
            None => next_link(body@) is None,
        },
{
    proof {
        lemma_vfield(*body, "links"@);
    }
    match body.get("links") {
        Some(l) => {
            proof {
                lemma_vfield(*l, "next"@);
            }
            match l.get("next") {
                Some(Json::Str(u)) => Some(u.clone()),
                _ => None,
            }
        },
        None => None,
    }
}

/// What is shown of an answer: its records flattened when it holds a
/// `data` array, the answer itself otherwise.
pub open spec fn options_shown(body: JsonV) -> JsonV {
    match vfield(body, "data"@) {
        Some(JsonV::Array(xs)) => JsonV::Array(xs.map_values(|x: JsonV| flattened(x))),
        _ => body,
    }
}

/// What is shown of an answer (see [`options_shown`]).
pub fn options_display(body: Json) -> (r: Json)
    ensures
        r@ == options_shown(body@),
{
    proof {
        lemma_vfield(body, "data"@);
    }
    let is_array = match body.get("data") {
        Some(Json::Array(_)) => true,
        _ => false,
    };
    if !is_array {
        return body;
    }
    let mut body = body;
    let data = body.take_field("data");
    match data {
        Some(Json::Array(mut xs)) => {
            let ghost orig = xs@;
            proof {
                lemma_jviews(orig);
            }
            // Move the records out back to front, then flatten them front to back.
            let mut reversed: Vec<Json> = Vec::new();
            while xs.len() > 0
                invariant
                    xs@.len() + reversed@.len() == orig.len(),
                    xs@ == orig.take(xs@.len() as int),
                    forall|i: int| 0 <= i < reversed@.len() ==> #[trigger] reversed@[i] == orig[orig.len() - 1 - i],
                decreases xs@.len(),
            {
                let x = xs.pop().unwrap();
                reversed.push(x);
                assert(xs@ =~= orig.take(xs@.len() as int));
            }
            let mut rows: Vec<Json> = Vec::new();
            while reversed.len() > 0
                invariant
                    rows@.len() + reversed@.len() == orig.len(),
                    forall|i: int| 0 <= i < reversed@.len() ==> #[trigger] reversed@[i] == orig[orig.len() - 1 - i],
                    forall|i: int| 0 <= i < rows@.len() ==> jview(#[trigger] rows@[i]) == flattened(jview(orig[i])),
                decreases reversed@.len(),
            {
                let x = reversed.pop().unwrap();
                rows.push(flatten_jsonapi(x));
            }
            proof {
                lemma_jviews(rows@);
                assert(jviews(rows@) =~= jviews(orig).map_values(|x: JsonV| flattened(x)));
            }
            let r = Json::Array(rows);
            r
        },
        _ => body,
    }
}

/// One `> **Note:** ...` paragraph per note.
pub open spec fn notes_text(ns: Seq<Seq<char>>) -> Seq<char>
    decreases ns.len(),
{
    if ns.len() == 0 {
        Seq::empty()
    } else {
        notes_text(ns.drop_last()) + "> **Note:** "@ + ns.last() + "\n\n"@
    }
}

/// An options answer: its notes, the formatted records, and the next link
/// when there is one.
pub open spec fn options_response_text(notes: Seq<Seq<char>>, formatted: Seq<char>, next: Option<Seq<char>>) -> Seq<
    char,
> {
    notes_text(notes) + formatted + (match next {
        Some(u) => "\n\n**links.next:** `"@ + u + "`\n"@,
        None => Seq::empty(),
    })
}

/// Put an options answer together (see [`options_response_text`]).
pub fn frame_options_response(notes: &Vec<String>, formatted: &str, next: Option<&str>) -> (out: String)
    ensures
        out@ == options_response_text(
            string_views(notes@),
            formatted@,
            match next {
                Some(u) => Some(u@),
                None => None,
            },
        ),
{
    let ghost nv = string_views(notes@);
    let mut out = String::new();
    let mut i: usize = 0;
    while i < notes.len()
        invariant
            nv == string_views(notes@),
            i <= notes@.len(),
            out@ == notes_text(nv.take(i as int)),
        decreases notes@.len() - i,
    {
        proof {
            assert(nv.take(i + 1).drop_last() =~= nv.take(i as int));
        }
        out.append("> **Note:** ");
        out.append(notes[i].as_str());
        out.append("\n\n");
        proof {
            assert(out@ =~= notes_text(nv.take(i + 1)));
        }
        i = i + 1;
    }
    assert(nv.take(notes@.len() as int) =~= nv);
    out.append(formatted);
    if let Some(u) = next {
        out.append("\n\n**links.next:** `");
        out.append(u);
        out.append("`\n");
    }
    assert(out@ =~= options_response_text(
        nv,
        formatted@,
        match next {
            Some(u) => Some(u@),
            None => None,
        },
    ));
    out
}

/// An answer with the token in its `links.next` URL masked; unchanged
/// when it names no next link.
pub open spec fn with_scrubbed_next(body: JsonV) -> JsonV {
    match body {
        JsonV::Object(es) => match vlookup(es, "links"@) {
            Some(JsonV::Object(ls)) => match vlookup(ls, "next"@) {
                Some(JsonV::Str(u)) => JsonV::Object(
                    insert_v(es, "links"@, JsonV::Object(insert_v(ls, "next"@, JsonV::Str(scrubbed(u))))),
                ),
                _ => body,
            },
            _ => body,
        },
        _ => body,
    }
}

/// Mask the token in the `links.next` URL of an answer (see
/// [`with_scrubbed_next`]).
pub fn scrub_next_link(body: Json) -> (r: Json)
    ensures
        r@ == with_scrubbed_next(body@),
{
    proof {
        lemma_vfield(body, "links"@);
    }
    let url = options_next_link(&body);
    let u = match url {
        Some(u) => u,
        None => {
            proof {
                let b = body;
                if let Json::Object(m) = b {
                    lemma_vlookup_views(m.entries@, "links"@);
                    if let Some(Json::Object(lm)) = crate::json::lookup(m.entries@, "links"@) {
                        lemma_vlookup_views(lm.entries@, "next"@);
                    }
                }
            }
            return body;
        },
    };
    match body {
        Json::Object(mut m) => {
            let ghost es = m.entries@;
            let links = m.take("links");
            match links {
                Some(Json::Object(mut lm)) => {
                    let ghost ls = lm.entries@;
                    proof {
                        lemma_vlookup_views(es, "links"@);
                        lemma_vlookup_views(ls, "next"@);
                        lemma_take_views(es, "links"@);
                        lemma_insert_v_after_update(
                            entry_views(es),
                            "links"@,
                            key_pos(es, "links"@),
                            JsonV::Null,
                            JsonV::Object(insert_v(entry_views(ls), "next"@, JsonV::Str(scrubbed(u@)))),
                        );
                    }
                    lm.insert(String::from_str("next"), Json::Str(scrub_token(u.as_str())));
                    m.insert(String::from_str("links"), Json::Object(lm));
                    Json::Object(m)
                },
                _ => Json::Object(m),
            }
        },
        other => other,
    }
}

/// Flattening a JSON:API record keeps every attribute, its id standing
/// under `_id`: each field other than `_id` reads as the attribute of that
/// name, and `_id` reads as the record's id when it has one.
pub proof fn law_flatten_keeps_attributes(item: JsonV, k: Seq<char>)
    requires
        record_attributes(item) is Some,
    ensures
        k != "_id"@ ==> vfield(flattened(item), k) == vlookup(record_attributes(item)->0, k),
        vfield(item, "id"@) is Some ==> vfield(flattened(item), "_id"@) == vfield(item, "id"@),
{
    let a = record_attributes(item)->0;
    if let Some(id) = vfield(item, "id"@) {
        lemma_vlookup_insert(a, "_id"@, id, k);
    }
}

} // verus!
