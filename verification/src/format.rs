//! The `<summary>/<data>/<metadata>` envelope that wraps every composed
//! tool answer, and the metadata block that goes with it.

use vstd::prelude::*;
use vstd::string::*;
use vstd::utf8::{decode_utf8, encode_utf8, is_char_boundary};
use crate::json::Json;
use crate::text::{join_seqs, join_strings, str_trim, str_trim_end, string_views, trim_end_text, trim_text};

verus! {

/// Metadata that accompanies a structured tool response: when it was
/// assembled, how fresh the data is, non-fatal warnings, provenance, and
/// whether the cache answered.
#[derive(Debug)]
pub struct Metadata {
    /// ISO date the response was assembled.
    pub as_of: String,
    /// Optional human-readable freshness hint.
    pub data_freshness: Option<String>,
    /// Non-fatal warnings; an empty list renders as `none`.
    pub warnings: Vec<String>,
    /// Provenance identifiers.
    pub sources: Vec<String>,
    /// Whether the cache answered.
    pub cache_hit: Option<bool>,
}

impl Metadata {
    /// Metadata dated `as_of`, with nothing else set.
    pub fn new(as_of: &str) -> (m: Metadata)
        ensures
            m.as_of@ == as_of@,
            m.data_freshness is None,
            m.warnings@.len() == 0,
            m.sources@.len() == 0,
            m.cache_hit is None,
    {
        Metadata {
            as_of: String::from_str(as_of),
            data_freshness: None,
            warnings: Vec::new(),
            sources: Vec::new(),
            cache_hit: None,
        }
    }

    /// Set the freshness hint.
    pub fn with_freshness(self, f: &str) -> (m: Metadata)
        ensures
            m.data_freshness matches Some(s) && s@ == f@,
            m.as_of == self.as_of,
            m.warnings == self.warnings,
            m.sources == self.sources,
            m.cache_hit == self.cache_hit,
    {
        let mut m = self;
        m.data_freshness = Some(String::from_str(f));
        m
    }

    /// Add a provenance identifier at the end of the list.
    pub fn with_source(self, s: &str) -> (m: Metadata)
        ensures
            string_views(m.sources@) == string_views(self.sources@).push(s@),
            m.as_of == self.as_of,
            m.data_freshness == self.data_freshness,
            m.warnings == self.warnings,
            m.cache_hit == self.cache_hit,
    {
        let mut m = self;
        m.sources.push(String::from_str(s));
        proof {
            assert(string_views(m.sources@) =~= string_views(self.sources@).push(s@));
        }
        m
    }

    /// Add a warning at the end of the list.
    pub fn with_warning(self, w: &str) -> (m: Metadata)
        ensures
            string_views(m.warnings@) == string_views(self.warnings@).push(w@),
            m.as_of == self.as_of,
            m.data_freshness == self.data_freshness,
            m.sources == self.sources,
            m.cache_hit == self.cache_hit,
    {
        let mut m = self;
        m.warnings.push(String::from_str(w));
        proof {
            assert(string_views(m.warnings@) =~= string_views(self.warnings@).push(w@));
        }
        m
    }

    /// Record whether the cache answered.
    pub fn with_cache_hit(self, hit: bool) -> (m: Metadata)
        ensures
            m.cache_hit == Some(hit),
            m.as_of == self.as_of,
            m.data_freshness == self.data_freshness,
            m.warnings == self.warnings,
            m.sources == self.sources,
    {
        let mut m = self;
        m.cache_hit = Some(hit);
        m
    }
}

/// One `  - item` line per warning.
pub open spec fn warning_lines(ws: Seq<Seq<char>>) -> Seq<char>
    decreases ws.len(),
{
    if ws.len() == 0 {
        Seq::empty()
    } else {
        warning_lines(ws.drop_last()) + "  - "@ + ws.last() + "\n"@
    }
}

/// The text of a boolean as Rust prints it.
pub open spec fn bool_text(b: bool) -> Seq<char> {
    if b {
        "true"@
    } else {
        "false"@
    }
}

/// The warnings part of the metadata block.
pub open spec fn warnings_text(ws: Seq<Seq<char>>) -> Seq<char> {
    if ws.len() == 0 {
        "- warnings: none\n"@
    } else {
        "- warnings:\n"@ + warning_lines(ws)
    }
}

/// The freshness line, when there is a hint.
pub open spec fn freshness_text(f: Option<String>) -> Seq<char> {
    match f {
        Some(f) => "- data_freshness: "@ + f@ + "\n"@,
        None => Seq::empty(),
    }
}

/// The sources line, when there are sources.
pub open spec fn sources_text(ss: Seq<Seq<char>>) -> Seq<char> {
    if ss.len() == 0 {
        Seq::empty()
    } else {
        "- sources: ["@ + join_seqs(ss, ", "@) + "]\n"@
    }
}

/// The cache line, when it is known whether the cache answered.
pub open spec fn cache_text(h: Option<bool>) -> Seq<char> {
    match h {
        Some(h) => "- cache_hit: "@ + bool_text(h) + "\n"@,
        None => Seq::empty(),
    }
}

/// The `<metadata>` block body.
pub open spec fn metadata_text(md: Metadata) -> Seq<char> {
    "- as_of: "@ + md.as_of@ + "\n"@ + freshness_text(md.data_freshness) + warnings_text(
        string_views(md.warnings@),
    ) + sources_text(string_views(md.sources@)) + cache_text(md.cache_hit)
}

/// The whole envelope.
pub open spec fn envelope_text(summary: Seq<char>, data: Seq<char>, md: Metadata) -> Seq<char> {
    "<summary>\n"@ + trim_text(summary) + "\n</summary>\n\n"@ + "<data>\n"@ + trim_end_text(data)
        + "\n</data>\n\n"@ + "<metadata>\n"@ + metadata_text(md) + "</metadata>\n"@
}

fn append_warnings(md: &mut String, warnings: &Vec<String>)
    ensures
        final(md)@ == old(md)@ + warnings_text(string_views(warnings@)),
{
    if warnings.len() == 0 {
        md.append("- warnings: none\n");
    } else {
        md.append("- warnings:\n");
        let ghost base = md@;
        let ghost wv = string_views(warnings@);
        let mut i: usize = 0;
        while i < warnings.len()
            invariant
                wv == string_views(warnings@),
                i <= warnings@.len(),
                md@ == base + warning_lines(wv.take(i as int)),
            decreases warnings@.len() - i,
        {
            proof {
                assert(wv.take(i + 1).drop_last() =~= wv.take(i as int));
            }
            md.append("  - ");
            md.append(warnings[i].as_str());
            md.append("\n");
            proof {
                assert(md@ =~= base + warning_lines(wv.take(i + 1)));
            }
            i = i + 1;
        }
        assert(wv.take(warnings@.len() as int) =~= wv);
        assert(md@ =~= old(md)@ + warnings_text(wv));
    }
}

fn append_sources(md: &mut String, sources: &Vec<String>)
    ensures
        final(md)@ == old(md)@ + sources_text(string_views(sources@)),
{
    if sources.len() > 0 {
        md.append("- sources: [");
        let joined = join_strings(sources, ", ");
        md.append(joined.as_str());
        md.append("]\n");
        assert(md@ =~= old(md)@ + sources_text(string_views(sources@)));
    } else {
        assert(md@ =~= old(md)@ + sources_text(string_views(sources@)));
    }
}

fn append_cache(md: &mut String, hit: Option<bool>)
    ensures
        final(md)@ == old(md)@ + cache_text(hit),
{
    if let Some(h) = hit {
        md.append("- cache_hit: ");
        if h {
            md.append("true");
        } else {
            md.append("false");
        }
        md.append("\n");
        assert(md@ =~= old(md)@ + cache_text(hit));
    } else {
        assert(md@ =~= old(md)@ + cache_text(hit));
    }
}

fn metadata_block(metadata: &Metadata) -> (md: String)
    ensures
        md@ == metadata_text(*metadata),
{
    let mut md = String::new();
    md.append("- as_of: ");
    md.append(metadata.as_of.as_str());
    md.append("\n");
    if let Some(f) = &metadata.data_freshness {
        md.append("- data_freshness: ");
        md.append(f.as_str());
        md.append("\n");
    }
    let ghost a = md@;
    assert(a =~= "- as_of: "@ + metadata.as_of@ + "\n"@ + freshness_text(metadata.data_freshness));
    append_warnings(&mut md, &metadata.warnings);
    append_sources(&mut md, &metadata.sources);
    append_cache(&mut md, metadata.cache_hit);
    assert(md@ =~= metadata_text(*metadata));
    md
}

/// Wrap a tool response in the three-block envelope. `data` is already
/// formatted; the summary is trimmed, the data loses trailing white space.
pub fn render_envelope(summary: &str, data: &str, metadata: &Metadata) -> (out: String)
    ensures
        out@ == envelope_text(summary@, data@, *metadata),
{
    let mut out = String::new();
    out.append("<summary>\n");
    out.append(str_trim(summary));
    out.append("\n</summary>\n\n");
    out.append("<data>\n");
    out.append(str_trim_end(data));
    out.append("\n</data>\n\n");
    out.append("<metadata>\n");
    let md = metadata_block(metadata);
    out.append(md.as_str());
    out.append("</metadata>\n");
    assert(out@ =~= envelope_text(summary@, data@, *metadata));
    out
}

/// The metadata of an answer built from fundamentals: dated `as_of`,
/// sourced from the fundamentals endpoint and derived analytics, with the
/// cache outcome when known, the freshness hint when there is one, and the
/// warnings in order.
pub fn fundamentals_metadata(
    as_of: &str,
    cache_hit: Option<bool>,
    freshness: Option<&str>,
    warnings: &Vec<String>,
) -> (m: Metadata)
    ensures
        m.as_of@ == as_of@,
        string_views(m.sources@) == seq!["EODHD_fundamentals"@, "derived"@],
        m.cache_hit == cache_hit,
        match freshness {
            Some(f) => m.data_freshness matches Some(g) && g@ == f@,
            None => m.data_freshness is None,
        },
        string_views(m.warnings@) == string_views(warnings@),
{
    let mut m = Metadata::new(as_of).with_source("EODHD_fundamentals").with_source("derived");
    m.cache_hit = cache_hit;
    if let Some(f) = freshness {
        m = m.with_freshness(f);
    }
    let mut i: usize = 0;
    while i < warnings.len()
        invariant
            i <= warnings@.len(),
            m.as_of@ == as_of@,
            string_views(m.sources@) == seq!["EODHD_fundamentals"@, "derived"@],
            m.cache_hit == cache_hit,
            match freshness {
                Some(f) => m.data_freshness matches Some(g) && g@ == f@,
                None => m.data_freshness is None,
            },
            string_views(m.warnings@) == string_views(warnings@.take(i as int)),
        decreases warnings@.len() - i,
    {
        m = m.with_warning(warnings[i].as_str());
        proof {
            assert(string_views(warnings@.take(i + 1)) =~= string_views(warnings@.take(i as int)).push(warnings@[i as int]@));
        }
        i = i + 1;
    }
    assert(warnings@.take(warnings@.len() as int) =~= warnings@);
    m
}

/// At most this many rows of an array are shown as a table.
pub const MAX_TABLE_ROWS: usize = 150;

/// Table cells are cut to this many bytes.
pub const MAX_COL_WIDTH: usize = 40;

/// Cutting `s` to `max` bytes falls on a character boundary (or nothing
/// needs cutting).
pub open spec fn cut_ok(s: Seq<char>, max: int) -> bool {
    encode_utf8(s).len() <= max || (max >= 3 && is_char_boundary(encode_utf8(s), max - 3))
}

/// `s` when it is at most `max` bytes long; otherwise its first `max - 3`
/// bytes followed by `...`.
pub open spec fn cut_text(s: Seq<char>, max: int) -> Seq<char> {
    if encode_utf8(s).len() <= max {
        s
    } else {
        decode_utf8(encode_utf8(s).take(max - 3)) + "..."@
    }
}

/// Whether `truncate_str(s, max)` may be called: cutting falls on a
/// character boundary.
pub fn can_truncate(s: &str, max: usize) -> (b: bool)
    ensures
        b == cut_ok(s@, max as int),
{
    s.as_bytes().len() <= max || (max >= 3 && s.is_char_boundary(max - 3))
}

/// Cut `s` to `max` bytes, marking a cut with `...`.
pub fn truncate_str(s: &str, max: usize) -> (out: String)
    requires
        cut_ok(s@, max as int),
    ensures
        out@ == cut_text(s@, max as int),
{
    if s.as_bytes().len() <= max {
        String::from_str(s)
    } else {
        let (a, _rest) = s.split_at(max - 3);
        proof {
            vstd::utf8::encode_utf8_decode_utf8(a@);
            assert(encode_utf8(s@).subrange(0, max - 3) =~= encode_utf8(s@).take(max - 3));
        }
        let mut r = String::from_str(a);
        r.append("...");
        r
    }
}

/// How a value is shown: a table for a non-empty array of objects, a
/// notice for an empty array, a field/value table for an object of at
/// most 20 scalar fields, and JSON text otherwise.
#[derive(Debug, Clone, Copy, PartialEq, Eq, Structural)]
pub enum Layout {
    ObjectTable,
    NoResults,
    FlatObject,
    JsonText,
}

/// The value is null, a boolean, a number or a string.
pub open spec fn is_scalar_json(v: Json) -> bool {
    !(v is Array) && !(v is Object)
}

/// The layout a value is shown in.
pub open spec fn layout_spec(v: Json) -> Layout {
    match v {
        Json::Array(xs) => if xs@.len() == 0 {
            Layout::NoResults
        } else if forall|i: int| 0 <= i < xs@.len() ==> (#[trigger] xs@[i]) is Object {
            Layout::ObjectTable
        } else {
            Layout::JsonText
        },
        Json::Object(m) => if m.entries@.len() <= 20 && forall|i: int|
            0 <= i < m.entries@.len() ==> is_scalar_json((#[trigger] m.entries@[i]).1) {
            Layout::FlatObject
        } else {
            Layout::JsonText
        },
        _ => Layout::JsonText,
    }
}

/// The value is a leaf of the JSON tree: null, a boolean, a number or a string.
pub open spec fn is_leaf(v: Json) -> bool {
    ||| v is Null
    ||| v is Bool
    ||| v is Number
    ||| v is Str
}

/// What each layout is chosen for: an empty array is a notice; a non-empty
/// array of objects is a table; an object is a field/value table exactly
/// when it has at most 20 entries and every value is null, a boolean, a
/// number or a string; an object holding an array or an object, or one
/// with more than 20 entries, is shown as JSON text, as is every other
/// value.
pub proof fn law_layout_choice(v: Json)
    ensures
        layout_spec(v) == Layout::NoResults <==> (v matches Json::Array(xs) && xs@.len() == 0),
        layout_spec(v) == Layout::ObjectTable <==> (v matches Json::Array(xs) && xs@.len() > 0
            && forall|i: int| 0 <= i < xs@.len() ==> (#[trigger] xs@[i]) is Object),
        layout_spec(v) == Layout::FlatObject <==> (v matches Json::Object(m) && m.entries@.len() <= 20
            && forall|i: int| 0 <= i < m.entries@.len() ==> is_leaf((#[trigger] m.entries@[i]).1)),
        (v matches Json::Object(m) && exists|i: int|
            0 <= i < m.entries@.len() && ((#[trigger] m.entries@[i]).1 is Array || m.entries@[i].1 is Object))
            ==> layout_spec(v) == Layout::JsonText,
        (v matches Json::Object(m) && m.entries@.len() > 20) ==> layout_spec(v) == Layout::JsonText,
        (v is Null || v is Bool || v is Number || v is Str) ==> layout_spec(v) == Layout::JsonText,
{
    match v {
        Json::Object(m) => {
            assert((forall|i: int| 0 <= i < m.entries@.len() ==> is_leaf((#[trigger] m.entries@[i]).1))
                <==> (forall|i: int| 0 <= i < m.entries@.len() ==> is_scalar_json((#[trigger] m.entries@[i]).1)));
        },
        _ => {},
    }
}

fn is_scalar(v: &Json) -> (b: bool)
    ensures
        b == is_scalar_json(*v),
{
    match v {
        Json::Array(_) => false,
        Json::Object(_) => false,
        _ => true,
    }
}

/// Choose how a value is shown (see [`layout_spec`]).
pub fn layout_of(data: &Json) -> (l: Layout)
    ensures
        l == layout_spec(*data),
        l == Layout::FlatObject <==> (*data matches Json::Object(m) && m.entries@.len() <= 20
            && forall|i: int| 0 <= i < m.entries@.len() ==> is_leaf((#[trigger] m.entries@[i]).1)),
{
    proof {
        law_layout_choice(*data);
    }
    match data {
        Json::Array(xs) => {
            if xs.len() == 0 {
                return Layout::NoResults;
            }
            let mut i: usize = 0;
            while i < xs.len()
                invariant
                    *data == Json::Array(*xs),
                    xs@.len() > 0,
                    i <= xs@.len(),
                    forall|j: int| 0 <= j < i ==> (#[trigger] xs@[j]) is Object,
                decreases xs@.len() - i,
            {
                if !xs[i].is_object() {
                    assert(!(xs@[i as int] is Object));
                    return Layout::JsonText;
                }
                i = i + 1;
            }
            Layout::ObjectTable
        },
        Json::Object(m) => {
            if m.entries.len() > 20 {
                return Layout::JsonText;
            }
            let mut i: usize = 0;
            while i < m.entries.len()
                invariant
                    *data == Json::Object(*m),
                    m.entries@.len() <= 20,
                    i <= m.entries@.len(),
                    forall|j: int| 0 <= j < i ==> is_scalar_json((#[trigger] m.entries@[j]).1),
                decreases m.entries@.len() - i,
            {
                if !is_scalar(&m.entries[i].1) {
                    assert(!is_scalar_json(m.entries@[i as int].1));
                    return Layout::JsonText;
                }
                i = i + 1;
            }
            Layout::FlatObject
        },
        _ => Layout::JsonText,
    }
}

/// The notice shown for an empty array.
pub fn format_no_results(label: &str) -> (out: String)
    ensures
        out@ == "**"@ + label@ + "**\n\nNo results found."@,
{
    let mut out = String::from_str("**");
    out.append(label);
    out.append("**\n\nNo results found.");
    out
}

/// A JSON text shown as a fenced block, cut after 50,000 bytes.
pub open spec fn json_block_text(label: Seq<char>, json: Seq<char>) -> Seq<char> {
    let truncated = encode_utf8(json).len() > 50000;
    "**"@ + label + "**\n\n```json\n"@ + (if truncated {
        decode_utf8(encode_utf8(json).take(50000))
    } else {
        json
    }) + (if truncated {
        "\n... (truncated, data too large)"@
    } else {
        Seq::empty()
    }) + "\n```\n"@
}

/// Show JSON text (already rendered) as a fenced block under a bold label,
/// cut after 50,000 bytes.
pub fn format_as_json(label: &str, json: &str) -> (out: String)
    requires
        encode_utf8(json@).len() <= 50000 || is_char_boundary(encode_utf8(json@), 50000),
    ensures
        out@ == json_block_text(label@, json@),
{
    let truncated = json.as_bytes().len() > 50000;
    let mut out = String::from_str("**");
    out.append(label);
    out.append("**\n\n```json\n");
    if truncated {
        let (a, _rest) = json.split_at(50000);
        proof {
            vstd::utf8::encode_utf8_decode_utf8(a@);
            assert(encode_utf8(json@).subrange(0, 50000) =~= encode_utf8(json@).take(50000));
        }
        out.append(a);
        out.append("\n... (truncated, data too large)");
    } else {
        out.append(json);
    }
    out.append("\n```\n");
    assert(out@ =~= json_block_text(label@, json@));
    out
}

} // verus!
