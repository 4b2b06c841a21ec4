//! Following the pages of a paginated options answer: whether another page
//! is fetched, how fetched pages are merged, and the merged answer.
//!
//! The caller performs the fetches; this module decides. A run starts from
//! the first page, asks [`Pagination::next_page`] for the URL of the next
//! one, hands each fetched page to [`Pagination::absorb`], and ends with
//! [`Pagination::finish`].

use vstd::prelude::*;
use vstd::string::*;
use crate::json::{
    entry_views, insert_v, json_field, json_text, jview, jviews, vkey_first, Json,
    JsonMap, JsonNumber, JsonV,
};
use crate::options::{scrub_token, scrubbed};

verus! {

/// The records of a page: its `data` array (nothing when absent).
pub open spec fn page_data(page: Json) -> Seq<Json> {
    match json_field(page, "data"@) {
        Some(Json::Array(xs)) => xs@,
        _ => Seq::empty(),
    }
}

/// The URL of the page after `page`: its `links.next` string, if any.
pub open spec fn page_next(page: Json) -> Option<Seq<char>> {
    match json_field(page, "links"@) {
        Some(l) => match json_field(l, "next"@) {
            Some(n) => json_text(n),
            None => None,
        },
        None => None,
    }
}

/// How many pages a run may fetch, first page included: the requested
/// number (at least one), five by default.
pub open spec fn page_limit(max_pages: Option<u32>) -> u32 {
    match max_pages {
        Some(n) => if n < 1 {
            1
        } else {
            n
        },
        None => 5,
    }
}

/// The page limit is the number asked for whenever it is at least one,
/// whatever its size; a request for zero pages still fetches the first one,
/// and with no request a run fetches five.
pub proof fn law_page_limit()
    ensures
        forall|n: u32| n >= 1 ==> #[trigger] page_limit(Some(n)) == n,
        page_limit(Some(0u32)) == 1,
        page_limit(None) == 5,
        forall|m: Option<u32>| #[trigger] page_limit(m) >= 1,
{
}

/// The merged `meta` block: the last one seen, with the page count and,
/// when pages were left unfetched, a cap marker; unchanged when it is not
/// an object.
pub open spec fn merged_meta(meta: JsonV, cap_hit: bool, pages: u32) -> JsonV {
    match meta {
        JsonV::Object(es) => {
            let counted = insert_v(es, "pages_fetched"@, JsonV::PosInt(pages as u64));
            JsonV::Object(
                if cap_hit {
                    insert_v(counted, "pagination_cap_hit"@, JsonV::Bool(true))
                } else {
                    counted
                },
            )
        },
        _ => meta,
    }
}

/// The merged answer: every record fetched, the next link with its token
/// masked (null when there is none), and the merged `meta` block.
pub open spec fn merged_view(data: Seq<JsonV>, meta: JsonV, next: Option<Seq<char>>, pages: u32) -> JsonV {
    JsonV::Object(
        seq![
            ("data"@, JsonV::Array(data)),
            (
                "links"@,
                JsonV::Object(
                    seq![
                        ("next"@, match next {
                            Some(u) => JsonV::Str(scrubbed(u)),
                            None => JsonV::Null,
                        }),
                    ],
                ),
            ),
            ("meta"@, merged_meta(meta, next is Some, pages)),
        ],
    )
}

/// The state of a paginated run.
pub struct Pagination {
    /// Every record fetched so far, in page order.
    pub combined: Vec<Json>,
    /// The `meta` block of the last page that had one.
    pub meta: Json,
    /// The URL of the next page, when the last page named one.
    pub next: Option<String>,
    /// Pages fetched so far.
    pub pages_fetched: u32,
    /// Pages that may be fetched in all.
    pub max_pages: u32,
}

/// The text of an optional string.
pub open spec fn opt_text(o: Option<String>) -> Option<Seq<char>> {
    match o {
        Some(s) => Some(s@),
        None => None,
    }
}

/// Split a page into the parts pagination reads.
fn page_parts(page: Json) -> (r: (Vec<Json>, Option<Json>, Option<String>))
    ensures
        r.0@ == page_data(page),
        r.1 == json_field(page, "meta"@),
        opt_text(r.2) == page_next(page),
{
    proof {
        reveal_strlit("data");
        reveal_strlit("meta");
        reveal_strlit("links");
    }
    assert("meta"@[0] != "data"@[0] && "links"@[0] != "data"@[0] && "links"@[0] != "meta"@[0]);
    let mut p = page;
    let data = p.take_field("data");
    assert(json_field(p, "meta"@) == json_field(page, "meta"@));
    assert(json_field(p, "links"@) == json_field(page, "links"@));
    let meta = p.take_field("meta");
    assert(json_field(p, "links"@) == json_field(page, "links"@));
    let links = p.take_field("links");
    let records = match data {
        Some(Json::Array(xs)) => xs,
        _ => Vec::new(),
    };
    let next = match &links {
        Some(l) => match l.get("next") {
            Some(n) => match n.as_str() {
                Some(s) => Some(String::from_str(s)),
                None => None,
            },
            None => None,
        },
        None => None,
    };
    (records, meta, next)
}

impl Pagination {
    /// Pages are counted from one and never beyond the limit.
    pub open spec fn wf(&self) -> bool {
        1 <= self.pages_fetched <= self.max_pages
    }

    /// Begin a run with its first page.
    pub fn start(first: Json, max_pages: Option<u32>) -> (p: Pagination)
        ensures
            p.wf(),
            p.combined@ == page_data(first),
            json_field(first, "meta"@) matches Some(m) ==> p.meta == m,
            json_field(first, "meta"@) is None ==> p.meta@ == JsonV::Object(Seq::empty()),
            opt_text(p.next) == page_next(first),
            p.pages_fetched == 1,
            p.max_pages == page_limit(max_pages),
            max_pages matches Some(n) ==> (n >= 1 ==> p.max_pages == n),
            max_pages == Some(0u32) ==> p.max_pages == 1,
            max_pages is None ==> p.max_pages == 5,
    {
        proof {
            law_page_limit();
        }
        let (records, meta, next) = page_parts(first);
        let meta = match meta {
            Some(m) => m,
            None => {
                let empty = Json::Object(JsonMap::new());
                assert(empty@ =~= JsonV::Object(Seq::empty()));
                empty
            },
        };
        let limit = match max_pages {
            Some(n) => if n < 1 {
                1
            } else {
                n
            },
            None => 5,
        };
        Pagination { combined: records, meta, next, pages_fetched: 1, max_pages: limit }
    }

    /// The URL to fetch next: the last page's next link, while the limit
    /// leaves room.
    pub fn next_page(&self) -> (u: Option<&str>)
        ensures
            u is Some <==> (self.next is Some && self.pages_fetched < self.max_pages),
            u matches Some(s) ==> opt_text(self.next) == Some(s@),
    {
        match &self.next {
            Some(url) => if self.pages_fetched < self.max_pages {
                Some(url.as_str())
            } else {
                None
            },
            None => None,
        }
    }

    /// Take in a fetched page: its records are appended, its `meta` block
    /// (when it has one) replaces the last one, and its next link becomes
    /// the next URL.
    pub fn absorb(&mut self, page: Json)
        requires
            old(self).wf(),
            old(self).pages_fetched < old(self).max_pages,
        ensures
            final(self).wf(),
            final(self).combined@ == old(self).combined@ + page_data(page),
            json_field(page, "meta"@) matches Some(m) ==> final(self).meta == m,
            json_field(page, "meta"@) is None ==> final(self).meta == old(self).meta,
            opt_text(final(self).next) == page_next(page),
            final(self).pages_fetched == old(self).pages_fetched + 1,
            final(self).max_pages == old(self).max_pages,
    {
        let (mut records, meta, next) = page_parts(page);
        self.combined.append(&mut records);
        if let Some(m) = meta {
            self.meta = m;
        }
        self.next = next;
        self.pages_fetched = self.pages_fetched + 1;
    }

    /// The merged answer of the run.
    pub fn finish(self) -> (r: Json)
        ensures
            r@ == merged_view(jviews(self.combined@), self.meta@, opt_text(self.next), self.pages_fetched),
    {
        proof {
            reveal_strlit("data");
            reveal_strlit("links");
            reveal_strlit("meta");
            reveal_strlit("next");
        }
        let Pagination { combined, meta, next, pages_fetched, max_pages: _ } = self;
        let cap_hit = next.is_some();
        let ghost meta_v = merged_meta(meta@, cap_hit, pages_fetched);
        let meta = match meta {
            Json::Object(mut m) => {
                m.insert(
                    String::from_str("pages_fetched"),
                    Json::Number(JsonNumber::PosInt(pages_fetched as u64)),
                );
                if cap_hit {
                    m.insert(String::from_str("pagination_cap_hit"), Json::Bool(true));
                }
                Json::Object(m)
            },
            other => other,
        };
        assert(meta@ == meta_v);
        let link = match &next {
            Some(u) => Json::Str(scrub_token(u.as_str())),
            None => Json::Null,
        };
        let ghost link_v = link@;
        assert(link_v == (match opt_text(next) {
            Some(u) => JsonV::Str(scrubbed(u)),
            None => JsonV::Null,
        }));
        let mut links = JsonMap::new();
        assert(entry_views(links.entries@) =~= Seq::empty());
        links.insert(String::from_str("next"), link);
        let ghost links_v = jview(Json::Object(links));
        assert(links_v == JsonV::Object(seq![("next"@, link_v)]));
        assert("meta"@[0] != "data"@[0] && "links"@[0] != "data"@[0] && "links"@[0] != "meta"@[0]);
        let mut out = JsonMap::new();
        assert(entry_views(out.entries@) =~= Seq::empty());
        let ghost data_v = jviews(combined@);
        out.insert(String::from_str("data"), Json::Array(combined));
        assert(entry_views(out.entries@) =~= seq![("data"@, JsonV::Array(data_v))]);
        assert(!exists|i: int| vkey_first(entry_views(out.entries@), "links"@, i));
        out.insert(String::from_str("links"), Json::Object(links));
        assert(entry_views(out.entries@) =~= seq![("data"@, JsonV::Array(data_v)), ("links"@, links_v)]);
        assert(!exists|i: int| vkey_first(entry_views(out.entries@), "meta"@, i));
        out.insert(String::from_str("meta"), meta);
        assert(entry_views(out.entries@) =~= seq![
            ("data"@, JsonV::Array(data_v)),
            ("links"@, links_v),
            ("meta"@, meta_v),
        ]);
        let r = Json::Object(out);
        assert(r@ == JsonV::Object(entry_views(out.entries@)));
        let ghost expected = merged_view(data_v, self.meta@, opt_text(self.next), self.pages_fetched);
        let ghost es = expected->Object_0;
        assert(es[1] == ("links"@, links_v));
        assert(es =~= entry_views(out.entries@));
        assert(r@ == expected);
        r
    }
}

} // verus!
