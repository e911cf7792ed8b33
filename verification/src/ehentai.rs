//! The gallery site: URL parsing, the metadata API request and response,
//! page-link and image extraction, and normalization into the unified comic.
//!
//! The flow around this module is: parse the gallery URL into an id/token
//! pair, post the JSON request body to the metadata API, decode the
//! response's single metadata record, pull the page links off the listing
//! page, pull the full-resolution image URL off each page document, and
//! fold everything into one comic. Every fetch sits outside the library;
//! everything between two fetches is here.

use vstd::prelude::*;

use crate::comic::{Comic, Page};
use crate::decode::{req_bool, req_string, req_u32};
use crate::error::Error;
use crate::html::{select_attr_all, select_first_attr, selected_attr, selected_attrs};
use crate::decode::{all_strings, req_string_vec, req_value_vec, string_items};
use crate::json::{
    arr_field, bool_field, json_as_array, json_of, json_sub, model_of, obj_field, parse_json,
    str_field, u32_field, JsonModel,
};
use crate::tags::{
    any_translated, bucket, classified_raw_tags, classify_gallery_tag, collect_buckets,
    pairs_view, UnifiedCategory,
};
use crate::text::{
    all_digits, alnum_end, dec_str, dec_val, digits_end, find_from, first_match_from,
    last_path_segment, last_segment, lemma_digits_end, lemma_first_match_from, parse_dec_u64,
    scan_alnum, scan_digits, u64_to_string,
};

verus! {

/// The JSON body posted to the metadata API.
#[derive(Debug)]
pub struct ApiRequest {
    pub method: String,
    pub gidlist: Vec<(i32, String)>,
    pub namespace: i32,
}

/// The metadata API's answer: zero or more metadata records.
#[derive(Debug)]
pub struct ApiResponse {
    pub gmetadata: Vec<GMetaData>,
}

/// One authoritative gallery metadata record, as the API exposes it.
#[derive(Debug)]
pub struct GMetaData {
    pub gid: u32,
    pub token: String,
    pub archiver_key: String,
    pub title: String,
    pub title_jpn: String,
    pub category: String,
    pub thumb: String,
    pub uploader: String,
    pub posted: String,
    pub filecount: String,
    pub filesize: u32,
    pub expunged: bool,
    pub rating: String,
    pub torrent_count: String,
    pub torrents: Vec<serde_json::Value>,
    pub tags: Vec<String>,
}

// ------------------------------------------------------------------
// Gallery URL parsing
// ------------------------------------------------------------------

/// What a gallery URL yields: after the first `https://e-hentai.org/g/`,
/// a non-empty digit run (the gallery id), a `/`, and a non-empty
/// alphanumeric run (the gallery token).
pub open spec fn gallery_url_parts(url: Seq<char>) -> Option<(Seq<char>, Seq<char>)> {
    match first_match_from(url, "https://e-hentai.org/g/"@, 0) {
        None => None,
        Some(m) => {
            let a = m + "https://e-hentai.org/g/"@.len();
            let d = digits_end(url, a);
            if a < d && d < url.len() && url[d] == '/' {
                let t = alnum_end(url, d + 1);
                if d + 1 < t {
                    Some((url.subrange(a, d), url.subrange(d + 1, t)))
                } else {
                    None
                }
            } else {
                None
            }
        },
    }
}

/// Parse a gallery URL into its id and token.
///
/// A URL without the `.../g/<digits>/<token>` shape is rejected with
/// `UrlPatternMismatch`; an id too large for the API's integer type with
/// `DecodeFailure`.
pub fn parse_gallery_url(url: &str) -> (r: Result<(i32, String), Error>)
    ensures
        match gallery_url_parts(url@) {
            None => r matches Err(Error::UrlPatternMismatch),
            Some(parts) => match r {
                Ok(p) => p.0 as nat == dec_val(parts.0) && p.1@ == parts.1 && dec_val(parts.0)
                    <= i32::MAX as nat,
                Err(e) => dec_val(parts.0) > i32::MAX as nat && e matches Error::DecodeFailure(
                    _,
                ),
            },
        },
{
    proof {
        reveal_strlit("https://e-hentai.org/g/");
    }
    let slen = url.unicode_len();
    let m = match find_from(url, "https://e-hentai.org/g/", 0) {
        None => {
            return Err(Error::UrlPatternMismatch);
        },
        Some(m) => m,
    };
    proof {
        lemma_first_match_from(url@, "https://e-hentai.org/g/"@, 0);
    }
    let a = m + "https://e-hentai.org/g/".unicode_len();
    let d = scan_digits(url, a);
    if !(a < d && d < slen) {
        return Err(Error::UrlPatternMismatch);
    }
    if url.get_char(d) != '/' {
        return Err(Error::UrlPatternMismatch);
    }
    let t = scan_alnum(url, d + 1);
    if !(d + 1 < t) {
        return Err(Error::UrlPatternMismatch);
    }
    proof {
        lemma_digits_end(url@, a as int);
    }
    let id64 = match parse_dec_u64(url, a, d) {
        Some(v) => v,
        None => {
            return Err(Error::DecodeFailure(String::from_str("gallery id")));
        },
    };
    if id64 > i32::MAX as u64 {
        return Err(Error::DecodeFailure(String::from_str("gallery id")));
    }
    let token = String::from_str(url.substring_char(d + 1, t));
    Ok((id64 as i32, token))
}

// ------------------------------------------------------------------
// The API request body
// ------------------------------------------------------------------

/// A string that can stand inside a JSON string literal without escaping.
pub open spec fn json_clean(s: Seq<char>) -> bool {
    forall|k: int| 0 <= k < s.len() ==> s[k] != '"' && s[k] != '\\' && s[k] as int >= 32
}

/// The JSON rendering of one gidlist entry: `[<id>,"<token>"]`.
pub open spec fn gid_entry_json(id: i32, token: Seq<char>) -> Seq<char> {
    "["@ + dec_str(id as nat) + ",\""@ + token + "\"]"@
}

/// The JSON rendering of a gidlist: its entries, comma-separated.
pub open spec fn gidlist_json(gl: Seq<(i32, Seq<char>)>) -> Seq<char>
    decreases gl.len(),
{
    if gl.len() == 0 {
        Seq::empty()
    } else if gl.len() == 1 {
        gid_entry_json(gl[0].0, gl[0].1)
    } else {
        gidlist_json(gl.drop_last()) + ","@ + gid_entry_json(gl.last().0, gl.last().1)
    }
}

/// The JSON rendering of a full API request.
pub open spec fn api_request_json(method: Seq<char>, gl: Seq<(i32, Seq<char>)>, ns: i32) -> Seq<
    char,
> {
    "{\"method\":\""@ + method + "\",\"gidlist\":["@ + gidlist_json(gl) + "],\"namespace\":"@
        + dec_str(ns as nat) + "}"@
}

impl ApiRequest {
    /// The standard metadata request for one gallery.
    pub fn gdata(id: i32, token: String) -> (r: ApiRequest)
        ensures
            r.method@ == "gdata"@,
            r.gidlist@.len() == 1,
            r.gidlist@[0].0 == id,
            r.gidlist@[0].1 == token,
            r.namespace == 1,
    {
        let mut gidlist: Vec<(i32, String)> = Vec::new();
        gidlist.push((id, token));
        ApiRequest { method: String::from_str("gdata"), gidlist, namespace: 1 }
    }

    /// Render the request as its JSON body text.
    pub fn body_json(&self) -> (r: String)
        requires
            json_clean(self.method@),
            self.namespace >= 0,
            forall|k: int|
                0 <= k < self.gidlist@.len() ==> (#[trigger] self.gidlist@[k]).0 >= 0
                    && json_clean(self.gidlist@[k].1@),
        ensures
            r@ == api_request_json(
                self.method@,
                self.gidlist@.map_values(|p: (i32, String)| (p.0, p.1@)),
                self.namespace,
            ),
    {
        let ghost gl = self.gidlist@.map_values(|p: (i32, String)| (p.0, p.1@));
        let mut body = String::from_str("{\"method\":\"");
        body.append(self.method.as_str());
        body.append("\",\"gidlist\":[");
        let mut i: usize = 0;
        proof {
            assert(gidlist_json(gl.subrange(0, 0)) =~= Seq::<char>::empty());
            assert(body@ + Seq::<char>::empty() =~= body@);
        }
        while i < self.gidlist.len()
            invariant
                0 <= i <= self.gidlist@.len(),
                gl == self.gidlist@.map_values(|p: (i32, String)| (p.0, p.1@)),
                gl.len() == self.gidlist@.len(),
                forall|k: int| 0 <= k < gl.len() ==> (#[trigger] gl[k]).0 >= 0,
                body@ == "{\"method\":\""@ + self.method@ + "\",\"gidlist\":["@
                    + gidlist_json(gl.subrange(0, i as int)),
            decreases self.gidlist@.len() - i,
        {
            if i > 0 {
                body.append(",");
            }
            body.append("[");
            let id = self.gidlist[i].0;
            let num = u64_to_string(id as u64);
            body.append(num.as_str());
            body.append(",\"");
            body.append(self.gidlist[i].1.as_str());
            body.append("\"]");
            proof {
                let pre = gl.subrange(0, i as int);
                let now = gl.subrange(0, i + 1);
                assert(now.drop_last() =~= pre);
                assert(now.last() == gl[i as int]);
                assert(gl[i as int] == (self.gidlist@[i as int].0, self.gidlist@[i as int].1@));
                if i == 0 {
                    assert(now.len() == 1);
                    assert(now[0] == gl[0]);
                    assert(body@ =~= "{\"method\":\""@ + self.method@ + "\",\"gidlist\":["@
                        + gidlist_json(now));
                } else {
                    assert(body@ =~= "{\"method\":\""@ + self.method@ + "\",\"gidlist\":["@
                        + gidlist_json(now));
                }
            }
            i += 1;
        }
        proof {
            assert(gl.subrange(0, gl.len() as int) =~= gl);
        }
        body.append("],\"namespace\":");
        let ns = u64_to_string(self.namespace as u64);
        body.append(ns.as_str());
        body.append("}");
        proof {
            assert(body@ =~= api_request_json(self.method@, gl, self.namespace));
        }
        body
    }
}

// ------------------------------------------------------------------
// Decoding the API response
// ------------------------------------------------------------------

/// A metadata record decodes: every field the API exposes is present with
/// its documented shape.
pub open spec fn gmeta_shape_ok(j: JsonModel) -> bool {
    &&& u32_field(j, "gid"@) is Some
    &&& str_field(j, "token"@) is Some
    &&& str_field(j, "archiver_key"@) is Some
    &&& str_field(j, "title"@) is Some
    &&& str_field(j, "title_jpn"@) is Some
    &&& str_field(j, "category"@) is Some
    &&& str_field(j, "thumb"@) is Some
    &&& str_field(j, "uploader"@) is Some
    &&& str_field(j, "posted"@) is Some
    &&& str_field(j, "filecount"@) is Some
    &&& u32_field(j, "filesize"@) is Some
    &&& bool_field(j, "expunged"@) is Some
    &&& str_field(j, "rating"@) is Some
    &&& str_field(j, "torrentcount"@) is Some
    &&& arr_field(j, "torrents"@) is Some
    &&& (arr_field(j, "tags"@) matches Some(ts) && all_strings(ts))
}

/// `m` is the decode of the metadata object `j`.
pub open spec fn gmeta_matches(m: GMetaData, j: JsonModel) -> bool {
    &&& u32_field(j, "gid"@) == Some(m.gid)
    &&& str_field(j, "token"@) == Some(m.token@)
    &&& str_field(j, "archiver_key"@) == Some(m.archiver_key@)
    &&& str_field(j, "title"@) == Some(m.title@)
    &&& str_field(j, "title_jpn"@) == Some(m.title_jpn@)
    &&& str_field(j, "category"@) == Some(m.category@)
    &&& str_field(j, "thumb"@) == Some(m.thumb@)
    &&& str_field(j, "uploader"@) == Some(m.uploader@)
    &&& str_field(j, "posted"@) == Some(m.posted@)
    &&& str_field(j, "filecount"@) == Some(m.filecount@)
    &&& u32_field(j, "filesize"@) == Some(m.filesize)
    &&& bool_field(j, "expunged"@) == Some(m.expunged)
    &&& str_field(j, "rating"@) == Some(m.rating@)
    &&& str_field(j, "torrentcount"@) == Some(m.torrent_count@)
    &&& (arr_field(j, "torrents"@) matches Some(es) && m.torrents@.len() == es.len() && (
    forall|k: int| 0 <= k < es.len() ==> #[trigger] model_of(m.torrents@[k]) == es[k]))
    &&& (arr_field(j, "tags"@) matches Some(ts) && m.tags.deep_view() == string_items(ts))
}

fn decode_gmetadata(v: &serde_json::Value) -> (r: Result<GMetaData, Error>)
    ensures
        r is Ok <==> gmeta_shape_ok(model_of(*v)),
        r matches Ok(m) ==> gmeta_matches(m, model_of(*v)),
        r matches Err(e) ==> (e matches Error::MissingFragment(_) || e matches
            Error::DecodeFailure(_)),
{
    let gid = match req_u32(v, "gid") {
        Ok(x) => x,
        Err(e) => {
            return Err(e);
        },
    };
    let token = match req_string(v, "token") {
        Ok(x) => x,
        Err(e) => {
            return Err(e);
        },
    };
    let archiver_key = match req_string(v, "archiver_key") {
        Ok(x) => x,
        Err(e) => {
            return Err(e);
        },
    };
    let title = match req_string(v, "title") {
        Ok(x) => x,
        Err(e) => {
            return Err(e);
        },
    };
    let title_jpn = match req_string(v, "title_jpn") {
        Ok(x) => x,
        Err(e) => {
            return Err(e);
        },
    };
    let category = match req_string(v, "category") {
        Ok(x) => x,
        Err(e) => {
            return Err(e);
        },
    };
    let thumb = match req_string(v, "thumb") {
        Ok(x) => x,
        Err(e) => {
            return Err(e);
        },
    };
    let uploader = match req_string(v, "uploader") {
        Ok(x) => x,
        Err(e) => {
            return Err(e);
        },
    };
    let posted = match req_string(v, "posted") {
        Ok(x) => x,
        Err(e) => {
            return Err(e);
        },
    };
    let filecount = match req_string(v, "filecount") {
        Ok(x) => x,
        Err(e) => {
            return Err(e);
        },
    };
    let filesize = match req_u32(v, "filesize") {
        Ok(x) => x,
        Err(e) => {
            return Err(e);
        },
    };
    let expunged = match req_bool(v, "expunged") {
        Ok(x) => x,
        Err(e) => {
            return Err(e);
        },
    };
    let rating = match req_string(v, "rating") {
        Ok(x) => x,
        Err(e) => {
            return Err(e);
        },
    };
    let torrent_count = match req_string(v, "torrentcount") {
        Ok(x) => x,
        Err(e) => {
            return Err(e);
        },
    };
    let torrents = match req_value_vec(v, "torrents") {
        Ok(x) => x,
        Err(e) => {
            return Err(e);
        },
    };
    let tags = match req_string_vec(v, "tags") {
        Ok(x) => x,
        Err(e) => {
            return Err(e);
        },
    };
    Ok(
        GMetaData {
            gid,
            token,
            archiver_key,
            title,
            title_jpn,
            category,
            thumb,
            uploader,
            posted,
            filecount,
            filesize,
            expunged,
            rating,
            torrent_count,
            torrents,
            tags,
        },
    )
}

/// The first record of the API's answer; `EmptyResult` when it answered
/// with zero records.
pub fn first_metadata(response: ApiResponse) -> (r: Result<GMetaData, Error>)
    ensures
        response.gmetadata@.len() == 0 ==> r matches Err(Error::EmptyResult),
        response.gmetadata@.len() > 0 ==> (r matches Ok(m) && m == response.gmetadata@[0]),
{
    let mut list = response.gmetadata;
    if list.len() == 0 {
        Err(Error::EmptyResult)
    } else {
        Ok(list.remove(0))
    }
}

/// The API answer decodes: a `gmetadata` array whose every element has the
/// metadata shape.
pub open spec fn api_shape_ok(j: JsonModel) -> bool {
    arr_field(j, "gmetadata"@) matches Some(es) && (forall|k: int|
        0 <= k < es.len() ==> gmeta_shape_ok(#[trigger] es[k]))
}

/// Decode the API's JSON answer into its record list.
///
/// Succeeds exactly when the text parses as JSON and every `gmetadata`
/// element has the metadata shape; unparsable text is a `DecodeFailure`, an
/// absent `gmetadata` member a `MissingFragment`.
pub fn decode_api_response(text: &str) -> (r: Result<ApiResponse, Error>)
    ensures
        r is Ok <==> (json_of(text@) matches Some(j) && api_shape_ok(j)),
        r matches Ok(resp) ==> (json_of(text@) matches Some(j) && arr_field(
            j,
            "gmetadata"@,
        ) matches Some(es) && resp.gmetadata@.len() == es.len() && (forall|k: int|
            0 <= k < es.len() ==> gmeta_matches(#[trigger] resp.gmetadata@[k], es[k]))),
        json_of(text@) is None ==> r matches Err(Error::DecodeFailure(_)),
        (json_of(text@) matches Some(j) && obj_field(j, "gmetadata"@) is None) ==> r matches Err(
            Error::MissingFragment(_),
        ),
        r matches Err(e) ==> (e matches Error::MissingFragment(_) || e matches
            Error::DecodeFailure(_)),
{
    let v = match parse_json(text) {
        Some(v) => v,
        None => {
            return Err(Error::DecodeFailure(String::from_str("api response")));
        },
    };
    let arr = match json_sub(&v, "gmetadata") {
        Some(x) => match json_as_array(x) {
            Some(a) => {
                proof {
                    assert(arr_field(model_of(v), "gmetadata"@) == Some(model_of(*x)->Arr_0));
                }
                a
            },
            None => {
                return Err(Error::DecodeFailure(String::from_str("gmetadata")));
            },
        },
        None => {
            return Err(Error::MissingFragment(String::from_str("gmetadata")));
        },
    };
    let ghost es = arr_field(model_of(v), "gmetadata"@)->Some_0;
    let mut gmetadata: Vec<GMetaData> = Vec::new();
    let mut i: usize = 0;
    while i < arr.len()
        invariant
            0 <= i <= arr@.len(),
            arr@.len() == es.len(),
            json_of(text@) == Some(model_of(v)),
            arr_field(model_of(v), "gmetadata"@) == Some(es),
            forall|k: int| 0 <= k < es.len() ==> #[trigger] model_of(arr@[k]) == es[k],
            gmetadata@.len() == i,
            forall|k: int| 0 <= k < i ==> gmeta_shape_ok(#[trigger] es[k]),
            forall|k: int| 0 <= k < i ==> gmeta_matches(#[trigger] gmetadata@[k], es[k]),
        decreases arr@.len() - i,
    {
        match decode_gmetadata(&arr[i]) {
            Ok(m) => gmetadata.push(m),
            Err(e) => {
                proof {
                    assert(!gmeta_shape_ok(es[i as int]));
                    assert(!api_shape_ok(model_of(v))) by {
                        if api_shape_ok(model_of(v)) {
                            let esx = arr_field(model_of(v), "gmetadata"@)->Some_0;
                            assert(esx == es);
                            assert(gmeta_shape_ok(esx[i as int]));
                        }
                    }
                }
                return Err(e);
            },
        }
        i += 1;
    }
    Ok(ApiResponse { gmetadata })
}

/// Decode the API's JSON answer and take its single metadata record.
///
/// Succeeds exactly when the answer decodes and holds at least one record;
/// a decodable answer with `gmetadata` empty is an `EmptyResult`.
pub fn metadata_from_api_json(text: &str) -> (r: Result<GMetaData, Error>)
    ensures
        r is Ok <==> (json_of(text@) matches Some(j) && api_shape_ok(j) && (arr_field(
            j,
            "gmetadata"@,
        ) matches Some(es) && es.len() > 0)),
        r matches Ok(m) ==> (json_of(text@) matches Some(j) && (arr_field(
            j,
            "gmetadata"@,
        ) matches Some(es) && es.len() > 0 && gmeta_matches(m, es[0]))),
        (json_of(text@) matches Some(j) && api_shape_ok(j) && arr_field(
            j,
            "gmetadata"@,
        ) == Some(Seq::<JsonModel>::empty())) ==> r matches Err(Error::EmptyResult),
        json_of(text@) is None ==> r matches Err(Error::DecodeFailure(_)),
{
    match decode_api_response(text) {
        Ok(resp) => first_metadata(resp),
        Err(e) => Err(e),
    }
}

// ------------------------------------------------------------------
// Listing-page and page-document extraction
// ------------------------------------------------------------------

/// The CSS selector of the page links on a gallery listing page.
pub open spec fn page_link_selector() -> Seq<char> {
    "#gdt > .gdtm > div > a"@
}

/// The page links of a listing page, in document order; an anchor without
/// an `href` is a missing fragment.
pub fn gallery_page_links(html: &str) -> (r: Result<Vec<String>, Error>)
    ensures
        ({
            let sel = selected_attrs(html@, page_link_selector(), "href"@);
            match r {
                Ok(links) => links@.len() == sel.len() && (forall|k: int|
                    0 <= k < sel.len() ==> sel[k] == Some((#[trigger] links@[k])@)),
                Err(e) => (exists|k: int| 0 <= k < sel.len() && sel[k] is None) && (
                e matches Error::MissingFragment(_)),
            }
        }),
{
    let found = select_attr_all(html, "#gdt > .gdtm > div > a", "href");
    let mut links: Vec<String> = Vec::new();
    let mut i: usize = 0;
    while i < found.len()
        invariant
            0 <= i <= found@.len(),
            found.deep_view() == selected_attrs(html@, page_link_selector(), "href"@),
            links@.len() == i,
            forall|k: int|
                0 <= k < i ==> found.deep_view()[k] == Some((#[trigger] links@[k])@),
        decreases found@.len() - i,
    {
        match &found[i] {
            Some(href) => {
                links.push(href.clone());
                proof {
                    assert(found.deep_view()[i as int] == found@[i as int].deep_view());
                }
            },
            None => {
                proof {
                    assert(found.deep_view()[i as int] is None);
                }
                return Err(Error::MissingFragment(String::from_str("page link href")));
            },
        }
        i += 1;
    }
    Ok(links)
}

/// The image selector on a single page document.
pub open spec fn page_image_selector() -> Seq<char> {
    "#img"@
}

/// The full-resolution image of one page document, as a resolved page: the
/// `#img` element's `src`, with the file name taken from the URL's final
/// path segment.
pub fn gallery_page_image(html: &str) -> (r: Result<Page, Error>)
    ensures
        match selected_attr(html@, page_image_selector(), "src"@) {
            Some(u) => r matches Ok(p) && p.url@ == u && p.file_name@ == last_segment(u)
                && p.width is None && p.heigth is None,
            None => r matches Err(Error::MissingFragment(_)),
        },
{
    match select_first_attr(html, "#img", "src") {
        Some(url) => {
            let file_name = last_path_segment(url.as_str());
            Ok(Page { file_name, heigth: None, url, width: None })
        },
        None => Err(Error::MissingFragment(String::from_str("page image src"))),
    }
}

/// Resolve every fetched page document into its page, keeping document
/// order: the k-th page comes from the k-th document. The derived file
/// names must be unique within the page set: a collision between two
/// documents' final path segments is a `DecodeFailure`.
pub fn pages_from_docs(docs: &Vec<String>) -> (r: Result<Vec<Page>, Error>)
    ensures
        r matches Ok(pages) ==> {
            &&& pages@.len() == docs@.len()
            &&& forall|k: int|
                0 <= k < docs@.len() ==> (selected_attr(
                    (#[trigger] docs@[k])@,
                    page_image_selector(),
                    "src"@,
                ) matches Some(u) && pages@[k].url@ == u && pages@[k].file_name@
                    == last_segment(u))
            &&& forall|k1: int, k2: int|
                0 <= k1 < k2 < pages@.len() ==> (#[trigger] pages@[k1]).file_name@ != (
                #[trigger] pages@[k2]).file_name@
        },
        r matches Err(e) ==> (e matches Error::MissingFragment(_) && (exists|k: int|
            0 <= k < docs@.len() && selected_attr(
                (#[trigger] docs@[k])@,
                page_image_selector(),
                "src"@,
            ) is None)) || (e matches Error::DecodeFailure(_) && (exists|k1: int, k2: int|
            0 <= k1 < k2 < docs@.len() && (selected_attr(
                (#[trigger] docs@[k1])@,
                page_image_selector(),
                "src"@,
            ) matches Some(u1) && selected_attr(
                (#[trigger] docs@[k2])@,
                page_image_selector(),
                "src"@,
            ) matches Some(u2) && last_segment(u1) == last_segment(u2)))),
{
    let mut pages: Vec<Page> = Vec::new();
    let mut i: usize = 0;
    while i < docs.len()
        invariant
            0 <= i <= docs@.len(),
            pages@.len() == i,
            forall|k: int|
                0 <= k < i ==> (selected_attr(
                    (#[trigger] docs@[k])@,
                    page_image_selector(),
                    "src"@,
                ) matches Some(u) && pages@[k].url@ == u && pages@[k].file_name@
                    == last_segment(u)),
        decreases docs@.len() - i,
    {
        match gallery_page_image(docs[i].as_str()) {
            Ok(p) => pages.push(p),
            Err(_) => {
                return Err(Error::MissingFragment(String::from_str("page image src")));
            },
        }
        i += 1;
    }
    let mut a: usize = 0;
    while a < pages.len()
        invariant
            0 <= a <= pages@.len(),
            pages@.len() == docs@.len(),
            forall|k: int|
                0 <= k < docs@.len() ==> (selected_attr(
                    (#[trigger] docs@[k])@,
                    page_image_selector(),
                    "src"@,
                ) matches Some(u) && pages@[k].url@ == u && pages@[k].file_name@
                    == last_segment(u)),
            forall|k1: int, k2: int|
                0 <= k1 < k2 < a ==> (#[trigger] pages@[k1]).file_name@ != (
                #[trigger] pages@[k2]).file_name@,
        decreases pages@.len() - a,
    {
        let mut b: usize = 0;
        while b < a
            invariant
                0 <= b <= a < pages@.len(),
                pages@.len() == docs@.len(),
                forall|k: int|
                    0 <= k < docs@.len() ==> (selected_attr(
                        (#[trigger] docs@[k])@,
                        page_image_selector(),
                        "src"@,
                    ) matches Some(u) && pages@[k].url@ == u && pages@[k].file_name@
                        == last_segment(u)),
                forall|k: int| 0 <= k < b ==> (#[trigger] pages@[k]).file_name@ != pages@[a as int].file_name@,
            decreases a - b,
        {
            if crate::text::str_eq(pages[b].file_name.as_str(), pages[a].file_name.as_str()) {
                proof {
                    assert((selected_attr(
                        (docs@[b as int])@,
                        page_image_selector(),
                        "src"@,
                    ) matches Some(u1) && selected_attr(
                        (docs@[a as int])@,
                        page_image_selector(),
                        "src"@,
                    ) matches Some(u2) && last_segment(u1) == last_segment(u2)));
                }
                return Err(Error::DecodeFailure(String::from_str("duplicate page file name")));
            }
            b += 1;
        }
        a += 1;
    }
    Ok(pages)
}

// ------------------------------------------------------------------
// Normalization
// ------------------------------------------------------------------

/// Normalize a metadata record and its resolved pages into the unified
/// comic.
///
/// The cover is the API's thumbnail URL verbatim, with its file name taken
/// from the URL's final path segment; the page list is passed through
/// unchanged; the tag buckets are the classified raw tags in input order,
/// with unrecognized namespaces dropped. Fails only when the record's
/// `posted` field is not a decimal timestamp.
pub fn comic_from_parts(meta: GMetaData, pages: Vec<Page>) -> (r: Result<Comic, Error>)
    ensures
        ({
            let posted = meta.posted@;
            let ok_posted = posted.len() > 0 && all_digits(posted) && dec_val(posted)
                <= u64::MAX;
            &&& (r is Ok <==> ok_posted)
            &&& (match r {
                Ok(c) => {
                    let cls = classified_raw_tags(meta.tags.deep_view());
                    &&& c.site@ == "e-hentai"@
                    &&& c.id@ == dec_str(meta.gid as nat)
                    &&& c.title@ == meta.title@
                    &&& c.upload_date as nat == dec_val(posted)
                    &&& c.pages == pages
                    &&& c.cover.url@ == meta.thumb@
                    &&& c.cover.file_name@ == last_segment(meta.thumb@)
                    &&& c.cover.width is None
                    &&& c.cover.heigth is None
                    &&& c.translated == any_translated(cls)
                    &&& c.authors.deep_view() == bucket(cls, UnifiedCategory::Author)
                    &&& c.categories.deep_view() == bucket(cls, UnifiedCategory::Category)
                    &&& c.characters.deep_view() == bucket(cls, UnifiedCategory::Character)
                    &&& c.groups.deep_view() == bucket(cls, UnifiedCategory::Group)
                    &&& c.languages.deep_view() == bucket(cls, UnifiedCategory::Language)
                    &&& c.tags.deep_view() == bucket(cls, UnifiedCategory::Tag)
                },
                Err(e) => e matches Error::DecodeFailure(_),
            })
        }),
{
    let plen = meta.posted.as_str().unicode_len();
    let upload_date = match parse_dec_u64(meta.posted.as_str(), 0, plen) {
        Some(v) => v,
        None => {
            proof {
                assert(meta.posted@.subrange(0, plen as int) =~= meta.posted@);
            }
            return Err(Error::DecodeFailure(String::from_str("posted")));
        },
    };
    proof {
        assert(meta.posted@.subrange(0, plen as int) =~= meta.posted@);
    }

    let cover = {
        let file_name = last_path_segment(meta.thumb.as_str());
        Page { file_name, heigth: None, url: meta.thumb.clone(), width: None }
    };

    let ghost raws = meta.tags.deep_view();
    let mut cls: Vec<(UnifiedCategory, String)> = Vec::new();
    let mut i: usize = 0;
    proof {
        assert(pairs_view(cls@) =~= classified_raw_tags(raws.subrange(0, 0)));
    }
    while i < meta.tags.len()
        invariant
            0 <= i <= meta.tags@.len(),
            raws == meta.tags.deep_view(),
            raws.len() == meta.tags@.len(),
            pairs_view(cls@) == classified_raw_tags(raws.subrange(0, i as int)),
        decreases meta.tags@.len() - i,
    {
        let ghost prev_cls = cls@;
        match classify_gallery_tag(meta.tags[i].as_str()) {
            Some(pair) => {
                cls.push(pair);
            },
            None => {
            },
        }
        proof {
            let pre = raws.subrange(0, i as int);
            let now = raws.subrange(0, i + 1);
            assert(now.drop_last() =~= pre);
            assert(now.last() == raws[i as int]);
            assert(raws[i as int] == meta.tags@[i as int]@);
            assert forall|k: int| 0 <= k < cls@.len() implies pairs_view(cls@)[k]
                == classified_raw_tags(now)[k] by {
                assert(pairs_view(prev_cls).len() == prev_cls.len());
                assert(classified_raw_tags(pre).len() == pairs_view(prev_cls).len());
                if k < prev_cls.len() {
                    assert(cls@[k] == prev_cls[k]);
                    assert(pairs_view(prev_cls)[k] == classified_raw_tags(pre)[k]);
                }
            }
            assert(pairs_view(cls@).len() == classified_raw_tags(now).len());
            assert(pairs_view(cls@) =~= classified_raw_tags(now));
        }
        i += 1;
    }
    proof {
        assert(raws.subrange(0, raws.len() as int) =~= raws);
    }
    let buckets = collect_buckets(&cls);

    Ok(
        Comic {
            authors: buckets.authors,
            categories: buckets.categories,
            characters: buckets.characters,
            cover,
            id: u64_to_string(meta.gid as u64),
            groups: buckets.groups,
            languages: buckets.languages,
            pages,
            site: String::from_str("e-hentai"),
            tags: buckets.tags,
            title: meta.title,
            translated: buckets.translated,
            upload_date,
        },
    )
}

} // verus!
