//! The illustration site: extracting and decoding the preload-data record.
//!
//! The page embeds a JSON blob as the `content` attribute of a fixed-id
//! element. It decodes into keyed mappings of illustration id to
//! illustration metadata and user id to user metadata. This site has no
//! normalizer mapping into the unified comic yet: the decoded record is
//! the output.

use vstd::prelude::*;

use crate::decode::{
    all_strings, opt_str_field, opt_string, opt_value, req_bool, req_i32, req_string,
    req_string_vec, req_u32, req_value_vec, string_items,
};
use crate::error::Error;
use crate::html::{select_first_attr, selected_attr};
use crate::json::{
    arr_field, bool_field, i32_field, json_is_null, json_obj_entries, json_of, json_sub,
    model_of, obj_field, parse_json, str_field, u32_field, JsonModel,
};

verus! {

/// The whole preload-data record.
#[derive(Debug)]
pub struct PixivConfig {
    pub timestamp: String,
    /// Illustration id to illustration metadata, in sorted key order.
    pub illust: Vec<(String, Illust)>,
    /// User id to user metadata, in sorted key order.
    pub user: Vec<(String, User)>,
}

/// One illustration's metadata.
#[derive(Debug)]
#[allow(non_snake_case)]
pub struct Illust {
    pub illust_id: String,
    pub illust_title: String,
    pub illust_comment: String,
    pub id: String,
    pub title: String,
    pub description: String,
    pub illust_type: i32,
    pub create_date: String,
    pub upload_date: String,
    pub restrict: i32,
    pub x_restrict: i32,
    pub sl: i32,
    pub urls: Urls,
    pub tags: Tags,
    pub alt: String,
    pub storable_tags: Vec<String>,
    pub user_id: String,
    pub user_name: String,
    pub user_account: String,
    pub userIllusts: Vec<(String, Option<UserIllust>)>,
    pub like_data: bool,
    pub width: u32,
    pub height: u32,
    pub page_count: u32,
    pub bookmarkCount: u32,
    pub likeCount: u32,
    pub commentCount: u32,
    pub responseCount: u32,
    pub viewCount: u32,
    pub isHowto: bool,
    pub isOriginal: bool,
    pub imageResponseOutData: Vec<serde_json::Value>,
    pub imageResponseData: Vec<serde_json::Value>,
    pub imageResponseCount: u32,
    pub pollData: Option<serde_json::Value>,
    pub seriesNavData: Option<SeriesNavData>,
    pub descriptionBoothId: Option<serde_json::Value>,
    pub descriptionYoutubeId: Option<serde_json::Value>,
    pub comicPromotion: Option<serde_json::Value>,
    pub contestBanners: Vec<serde_json::Value>,
    pub isBookmarkable: bool,
    pub bookmarkData: Option<serde_json::Value>,
    pub contestData: Option<serde_json::Value>,
    pub isUnlisted: bool,
    pub request: Option<serde_json::Value>,
}

/// The illustration's image URLs, by size.
#[derive(Debug, Clone)]
pub struct Urls {
    pub mini: String,
    pub thumb: String,
    pub small: String,
    pub regular: String,
    pub original: String,
}

/// The illustration's tag block.
#[derive(Debug, Clone)]
pub struct Tags {
    pub author_id: String,
    pub is_locked: bool,
    pub tags: Vec<Tag>,
    pub writable: bool,
}

/// One tag of the illustration.
#[derive(Debug, Clone)]
pub struct Tag {
    pub tag: String,
    pub locked: bool,
    pub deletable: bool,
    pub user_id: Option<String>,
    pub user_name: Option<String>,
}

/// One entry of the author's other illustrations.
#[derive(Debug)]
#[allow(non_snake_case)]
pub struct UserIllust {
    pub id: String,
    pub title: String,
    pub illustType: i32,
    pub xRestrict: i32,
    pub restrict: i32,
    pub sl: i32,
    pub url: String,
    pub description: String,
    pub tags: Vec<String>,
    pub userId: String,
    pub userName: String,
    pub width: u32,
    pub height: u32,
    pub pageCount: u32,
    pub isBookmarkable: bool,
    pub bookmark_data: Option<serde_json::Value>,
    pub alt: String,
    pub create_date: String,
    pub update_date: String,
    pub is_unlisted: bool,
    pub is_masked: bool,
    pub profile_image_url: Option<String>,
}

/// Navigation within a series, when the illustration belongs to one.
#[derive(Debug, Clone)]
#[allow(non_snake_case)]
pub struct SeriesNavData {
    pub seriesType: String,
    pub seriesId: String,
    pub title: String,
    pub order: u32,
    pub isWatched: bool,
    pub prev: Prev,
    pub next: Next,
}

/// One neighbouring entry of a series.
#[derive(Debug, Clone)]
pub struct Prev {
    pub id: String,
    pub title: String,
    pub order: u32,
}

pub type Next = Prev;

/// One user's metadata.
#[derive(Debug)]
pub struct User {
    pub user_id: String,
    pub name: String,
    pub image: String,
    pub image_big: String,
    pub premium: bool,
    pub is_followed: bool,
    pub is_mypixiv: bool,
    pub is_blocking: bool,
    pub background: Background,
    pub sketch_live_id: Option<serde_json::Value>,
    pub partial: i32,
    pub accept_request: bool,
    pub sketch_lives: Vec<serde_json::Value>,
}

/// A user's profile background.
#[derive(Debug)]
pub struct Background {
    pub repeat: Option<serde_json::Value>,
    pub color: Option<serde_json::Value>,
    pub url: String,
    pub is_private: bool,
}

/// The URL block decodes: all five sizes present as strings.
pub open spec fn urls_shape_ok(j: JsonModel) -> bool {
    &&& str_field(j, "mini"@) is Some
    &&& str_field(j, "thumb"@) is Some
    &&& str_field(j, "small"@) is Some
    &&& str_field(j, "regular"@) is Some
    &&& str_field(j, "original"@) is Some
}

/// `u` is the decode of the URL block `j`.
pub open spec fn urls_matches(u: Urls, j: JsonModel) -> bool {
    &&& str_field(j, "mini"@) == Some(u.mini@)
    &&& str_field(j, "thumb"@) == Some(u.thumb@)
    &&& str_field(j, "small"@) == Some(u.small@)
    &&& str_field(j, "regular"@) == Some(u.regular@)
    &&& str_field(j, "original"@) == Some(u.original@)
}

/// One tag object decodes.
pub open spec fn tag_shape_ok(j: JsonModel) -> bool {
    &&& str_field(j, "tag"@) is Some
    &&& bool_field(j, "locked"@) is Some
    &&& bool_field(j, "deletable"@) is Some
    &&& opt_str_field(j, "userId"@) is Some
    &&& opt_str_field(j, "userName"@) is Some
}

/// An optional string field against its model reading.
pub open spec fn opt_matches(o: Option<String>, f: Option<Option<Seq<char>>>) -> bool {
    match o {
        None => f == Some(Option::<Seq<char>>::None),
        Some(s) => f == Some(Some(s@)),
    }
}

/// An opaquely carried optional member against the object model.
pub open spec fn opaque_matches(o: Option<serde_json::Value>, j: JsonModel, key: Seq<char>) -> bool {
    match obj_field(j, key) {
        None => o is None,
        Some(x) => if x is Null {
            o is None
        } else {
            o matches Some(out) && model_of(out) == x
        },
    }
}

/// `t` is the decode of the tag object `j`.
pub open spec fn tag_matches(t: Tag, j: JsonModel) -> bool {
    &&& str_field(j, "tag"@) == Some(t.tag@)
    &&& bool_field(j, "locked"@) == Some(t.locked)
    &&& bool_field(j, "deletable"@) == Some(t.deletable)
    &&& opt_matches(t.user_id, opt_str_field(j, "userId"@))
    &&& opt_matches(t.user_name, opt_str_field(j, "userName"@))
}

/// The tag block decodes.
pub open spec fn tags_shape_ok(j: JsonModel) -> bool {
    &&& str_field(j, "authorId"@) is Some
    &&& bool_field(j, "isLocked"@) is Some
    &&& bool_field(j, "writable"@) is Some
    &&& (arr_field(j, "tags"@) matches Some(es) && (forall|k: int|
        0 <= k < es.len() ==> tag_shape_ok(#[trigger] es[k])))
}

/// `t` is the decode of the tag block `j`.
pub open spec fn tags_matches(t: Tags, j: JsonModel) -> bool {
    &&& str_field(j, "authorId"@) == Some(t.author_id@)
    &&& bool_field(j, "isLocked"@) == Some(t.is_locked)
    &&& bool_field(j, "writable"@) == Some(t.writable)
    &&& (arr_field(j, "tags"@) matches Some(es) && t.tags@.len() == es.len() && (forall|k: int|
        0 <= k < es.len() ==> tag_matches(#[trigger] t.tags@[k], es[k])))
}

/// One other-illustration entry decodes.
pub open spec fn user_illust_shape_ok(j: JsonModel) -> bool {
    &&& str_field(j, "id"@) is Some
    &&& str_field(j, "title"@) is Some
    &&& i32_field(j, "illustType"@) is Some
    &&& i32_field(j, "xRestrict"@) is Some
    &&& i32_field(j, "restrict"@) is Some
    &&& i32_field(j, "sl"@) is Some
    &&& str_field(j, "url"@) is Some
    &&& str_field(j, "description"@) is Some
    &&& (arr_field(j, "tags"@) matches Some(ts) && all_strings(ts))
    &&& str_field(j, "userId"@) is Some
    &&& str_field(j, "userName"@) is Some
    &&& u32_field(j, "width"@) is Some
    &&& u32_field(j, "height"@) is Some
    &&& u32_field(j, "pageCount"@) is Some
    &&& bool_field(j, "isBookmarkable"@) is Some
    &&& str_field(j, "alt"@) is Some
    &&& str_field(j, "createDate"@) is Some
    &&& str_field(j, "updateDate"@) is Some
    &&& bool_field(j, "isUnlisted"@) is Some
    &&& bool_field(j, "isMasked"@) is Some
    &&& opt_str_field(j, "profileImageUrl"@) is Some
}

/// `u` is the decode of the other-illustration entry `j`.
pub open spec fn user_illust_matches(u: UserIllust, j: JsonModel) -> bool {
    &&& str_field(j, "id"@) == Some(u.id@)
    &&& str_field(j, "title"@) == Some(u.title@)
    &&& i32_field(j, "illustType"@) == Some(u.illustType)
    &&& i32_field(j, "xRestrict"@) == Some(u.xRestrict)
    &&& i32_field(j, "restrict"@) == Some(u.restrict)
    &&& i32_field(j, "sl"@) == Some(u.sl)
    &&& str_field(j, "url"@) == Some(u.url@)
    &&& str_field(j, "description"@) == Some(u.description@)
    &&& (arr_field(j, "tags"@) matches Some(ts) && u.tags.deep_view() == string_items(ts))
    &&& str_field(j, "userId"@) == Some(u.userId@)
    &&& str_field(j, "userName"@) == Some(u.userName@)
    &&& u32_field(j, "width"@) == Some(u.width)
    &&& u32_field(j, "height"@) == Some(u.height)
    &&& u32_field(j, "pageCount"@) == Some(u.pageCount)
    &&& bool_field(j, "isBookmarkable"@) == Some(u.isBookmarkable)
    &&& opaque_matches(u.bookmark_data, j, "bookmarkData"@)
    &&& str_field(j, "alt"@) == Some(u.alt@)
    &&& str_field(j, "createDate"@) == Some(u.create_date@)
    &&& str_field(j, "updateDate"@) == Some(u.update_date@)
    &&& bool_field(j, "isUnlisted"@) == Some(u.is_unlisted)
    &&& bool_field(j, "isMasked"@) == Some(u.is_masked)
    &&& opt_matches(u.profile_image_url, opt_str_field(j, "profileImageUrl"@))
}

/// One series-neighbour entry decodes.
pub open spec fn prev_shape_ok(j: JsonModel) -> bool {
    &&& str_field(j, "id"@) is Some
    &&& str_field(j, "title"@) is Some
    &&& u32_field(j, "order"@) is Some
}

/// `p` is the decode of the series-neighbour entry `j`.
pub open spec fn prev_matches(p: Prev, j: JsonModel) -> bool {
    &&& str_field(j, "id"@) == Some(p.id@)
    &&& str_field(j, "title"@) == Some(p.title@)
    &&& u32_field(j, "order"@) == Some(p.order)
}

/// The series-navigation block decodes.
pub open spec fn series_shape_ok(j: JsonModel) -> bool {
    &&& str_field(j, "seriesType"@) is Some
    &&& str_field(j, "seriesId"@) is Some
    &&& str_field(j, "title"@) is Some
    &&& u32_field(j, "order"@) is Some
    &&& bool_field(j, "isWatched"@) is Some
    &&& (obj_field(j, "prev"@) matches Some(p) && prev_shape_ok(p))
    &&& (obj_field(j, "next"@) matches Some(n) && prev_shape_ok(n))
}

/// `s` is the decode of the series-navigation block `j`.
pub open spec fn series_matches(s: SeriesNavData, j: JsonModel) -> bool {
    &&& str_field(j, "seriesType"@) == Some(s.seriesType@)
    &&& str_field(j, "seriesId"@) == Some(s.seriesId@)
    &&& str_field(j, "title"@) == Some(s.title@)
    &&& u32_field(j, "order"@) == Some(s.order)
    &&& bool_field(j, "isWatched"@) == Some(s.isWatched)
    &&& (obj_field(j, "prev"@) matches Some(p) && prev_matches(s.prev, p))
    &&& (obj_field(j, "next"@) matches Some(n) && prev_matches(s.next, n))
}

/// The values of an object member are all null or have a shape; stated for
/// the other-illustrations map.
pub open spec fn user_illusts_map_ok(m: Map<Seq<char>, JsonModel>) -> bool {
    forall|key: Seq<char>|
        #[trigger] m.contains_key(key) ==> (m[key] is Null || user_illust_shape_ok(m[key]))
}

/// One illustration record decodes.
pub open spec fn illust_shape_ok(j: JsonModel) -> bool {
    &&& str_field(j, "illustId"@) is Some
    &&& str_field(j, "illustTitle"@) is Some
    &&& str_field(j, "illustComment"@) is Some
    &&& str_field(j, "id"@) is Some
    &&& str_field(j, "title"@) is Some
    &&& str_field(j, "description"@) is Some
    &&& i32_field(j, "illustType"@) is Some
    &&& str_field(j, "createDate"@) is Some
    &&& str_field(j, "uploadDate"@) is Some
    &&& i32_field(j, "restrict"@) is Some
    &&& i32_field(j, "xRestrict"@) is Some
    &&& i32_field(j, "sl"@) is Some
    &&& (obj_field(j, "urls"@) matches Some(u) && urls_shape_ok(u))
    &&& (obj_field(j, "tags"@) matches Some(t) && tags_shape_ok(t))
    &&& str_field(j, "alt"@) is Some
    &&& (arr_field(j, "storableTags"@) matches Some(st) && all_strings(st))
    &&& str_field(j, "userId"@) is Some
    &&& str_field(j, "userName"@) is Some
    &&& str_field(j, "userAccount"@) is Some
    &&& (obj_field(j, "userIllusts"@) matches Some(JsonModel::Obj(m)) && user_illusts_map_ok(m))
    &&& bool_field(j, "likeData"@) is Some
    &&& u32_field(j, "width"@) is Some
    &&& u32_field(j, "height"@) is Some
    &&& u32_field(j, "pageCount"@) is Some
    &&& u32_field(j, "bookmarkCount"@) is Some
    &&& u32_field(j, "likeCount"@) is Some
    &&& u32_field(j, "commentCount"@) is Some
    &&& u32_field(j, "responseCount"@) is Some
    &&& u32_field(j, "viewCount"@) is Some
    &&& bool_field(j, "isHowto"@) is Some
    &&& bool_field(j, "isOriginal"@) is Some
    &&& arr_field(j, "imageResponseOutData"@) is Some
    &&& arr_field(j, "imageResponseData"@) is Some
    &&& u32_field(j, "imageResponseCount"@) is Some
    &&& (match obj_field(j, "seriesNavData"@) {
        None => true,
        Some(x) => x is Null || series_shape_ok(x),
    })
    &&& arr_field(j, "contestBanners"@) is Some
    &&& bool_field(j, "isBookmarkable"@) is Some
    &&& bool_field(j, "isUnlisted"@) is Some
}

/// A user record decodes.
pub open spec fn user_shape_ok(j: JsonModel) -> bool {
    &&& str_field(j, "userId"@) is Some
    &&& str_field(j, "name"@) is Some
    &&& str_field(j, "image"@) is Some
    &&& str_field(j, "imageBig"@) is Some
    &&& bool_field(j, "premium"@) is Some
    &&& bool_field(j, "isFollowed"@) is Some
    &&& bool_field(j, "isMypixiv"@) is Some
    &&& bool_field(j, "isBlocking"@) is Some
    &&& (obj_field(j, "background"@) matches Some(b) && str_field(b, "url"@) is Some
        && bool_field(b, "isPrivate"@) is Some)
    &&& i32_field(j, "partial"@) is Some
    &&& bool_field(j, "acceptRequest"@) is Some
    &&& arr_field(j, "sketchLives"@) is Some
}

/// The values of the illustration map all decode.
pub open spec fn illust_map_ok(m: Map<Seq<char>, JsonModel>) -> bool {
    forall|key: Seq<char>| #[trigger] m.contains_key(key) ==> illust_shape_ok(m[key])
}

/// The values of the user map all decode.
pub open spec fn user_map_ok(m: Map<Seq<char>, JsonModel>) -> bool {
    forall|key: Seq<char>| #[trigger] m.contains_key(key) ==> user_shape_ok(m[key])
}

/// The whole preload record decodes.
pub open spec fn config_shape_ok(j: JsonModel) -> bool {
    &&& str_field(j, "timestamp"@) is Some
    &&& (obj_field(j, "illust"@) matches Some(JsonModel::Obj(m)) && illust_map_ok(m))
    &&& (obj_field(j, "user"@) matches Some(JsonModel::Obj(m)) && user_map_ok(m))
}

fn decode_urls(v: &serde_json::Value) -> (r: Result<Urls, Error>)
    ensures
        r is Ok <==> urls_shape_ok(model_of(*v)),
        r matches Ok(u) ==> urls_matches(u, model_of(*v)),
        r matches Err(e) ==> (e matches Error::MissingFragment(_) || e matches
            Error::DecodeFailure(_)),
{
    let mini = match req_string(v, "mini") { Ok(x) => x, Err(e) => return Err(e) };
    let thumb = match req_string(v, "thumb") { Ok(x) => x, Err(e) => return Err(e) };
    let small = match req_string(v, "small") { Ok(x) => x, Err(e) => return Err(e) };
    let regular = match req_string(v, "regular") { Ok(x) => x, Err(e) => return Err(e) };
    let original = match req_string(v, "original") { Ok(x) => x, Err(e) => return Err(e) };
    Ok(Urls { mini, thumb, small, regular, original })
}

fn decode_tag(v: &serde_json::Value) -> (r: Result<Tag, Error>)
    ensures
        r is Ok <==> tag_shape_ok(model_of(*v)),
        r matches Ok(t) ==> tag_matches(t, model_of(*v)),
        r matches Err(e) ==> (e matches Error::MissingFragment(_) || e matches
            Error::DecodeFailure(_)),
{
    let tag = match req_string(v, "tag") { Ok(x) => x, Err(e) => return Err(e) };
    let locked = match req_bool(v, "locked") { Ok(x) => x, Err(e) => return Err(e) };
    let deletable = match req_bool(v, "deletable") { Ok(x) => x, Err(e) => return Err(e) };
    let user_id = match opt_string(v, "userId") { Ok(x) => x, Err(e) => return Err(e) };
    let user_name = match opt_string(v, "userName") { Ok(x) => x, Err(e) => return Err(e) };
    Ok(Tag { tag, locked, deletable, user_id, user_name })
}

fn decode_tags(v: &serde_json::Value) -> (r: Result<Tags, Error>)
    ensures
        r is Ok <==> tags_shape_ok(model_of(*v)),
        r matches Ok(t) ==> tags_matches(t, model_of(*v)),
        r matches Err(e) ==> (e matches Error::MissingFragment(_) || e matches
            Error::DecodeFailure(_)),
{
    let author_id = match req_string(v, "authorId") { Ok(x) => x, Err(e) => return Err(e) };
    let is_locked = match req_bool(v, "isLocked") { Ok(x) => x, Err(e) => return Err(e) };
    let writable = match req_bool(v, "writable") { Ok(x) => x, Err(e) => return Err(e) };
    let arr = match json_sub(v, "tags") {
        Some(x) => x,
        None => return Err(Error::MissingFragment(String::from_str("tags"))),
    };
    let entries = match crate::json::json_as_array(arr) {
        Some(a) => {
            proof {
                assert(arr_field(model_of(*v), "tags"@) == Some(model_of(*arr)->Arr_0));
            }
            a
        },
        None => return Err(Error::DecodeFailure(String::from_str("tags"))),
    };
    let ghost es = arr_field(model_of(*v), "tags"@)->Some_0;
    let mut tags: Vec<Tag> = Vec::new();
    let mut i: usize = 0;
    while i < entries.len()
        invariant
            0 <= i <= entries@.len(),
            entries@.len() == es.len(),
            arr_field(model_of(*v), "tags"@) == Some(es),
            forall|k: int| 0 <= k < es.len() ==> #[trigger] model_of(entries@[k]) == es[k],
            tags@.len() == i,
            forall|k: int| 0 <= k < i ==> tag_shape_ok(#[trigger] es[k]),
            forall|k: int| 0 <= k < i ==> tag_matches(#[trigger] tags@[k], es[k]),
        decreases entries@.len() - i,
    {
        match decode_tag(&entries[i]) {
            Ok(t) => tags.push(t),
            Err(e) => {
                proof {
                    assert(!tag_shape_ok(es[i as int]));
                    assert(!tags_shape_ok(model_of(*v))) by {
                        if tags_shape_ok(model_of(*v)) {
                            let esx = arr_field(model_of(*v), "tags"@)->Some_0;
                            assert(esx == es);
                            assert(tag_shape_ok(esx[i as int]));
                        }
                    }
                }
                return Err(e);
            },
        }
        i += 1;
    }
    Ok(Tags { author_id, is_locked, tags, writable })
}

fn decode_user_illust(v: &serde_json::Value) -> (r: Result<UserIllust, Error>)
    ensures
        r is Ok <==> user_illust_shape_ok(model_of(*v)),
        r matches Ok(u) ==> user_illust_matches(u, model_of(*v)),
        r matches Err(e) ==> (e matches Error::MissingFragment(_) || e matches
            Error::DecodeFailure(_)),
{
    let id = match req_string(v, "id") { Ok(x) => x, Err(e) => return Err(e) };
    let title = match req_string(v, "title") { Ok(x) => x, Err(e) => return Err(e) };
    let illust_type = match req_i32(v, "illustType") { Ok(x) => x, Err(e) => return Err(e) };
    let x_restrict = match req_i32(v, "xRestrict") { Ok(x) => x, Err(e) => return Err(e) };
    let restrict = match req_i32(v, "restrict") { Ok(x) => x, Err(e) => return Err(e) };
    let sl = match req_i32(v, "sl") { Ok(x) => x, Err(e) => return Err(e) };
    let url = match req_string(v, "url") { Ok(x) => x, Err(e) => return Err(e) };
    let description = match req_string(v, "description") { Ok(x) => x, Err(e) => return Err(e) };
    let tags = match req_string_vec(v, "tags") { Ok(x) => x, Err(e) => return Err(e) };
    let user_id = match req_string(v, "userId") { Ok(x) => x, Err(e) => return Err(e) };
    let user_name = match req_string(v, "userName") { Ok(x) => x, Err(e) => return Err(e) };
    let width = match req_u32(v, "width") { Ok(x) => x, Err(e) => return Err(e) };
    let height = match req_u32(v, "height") { Ok(x) => x, Err(e) => return Err(e) };
    let page_count = match req_u32(v, "pageCount") { Ok(x) => x, Err(e) => return Err(e) };
    let is_bookmarkable = match req_bool(v, "isBookmarkable") {
        Ok(x) => x,
        Err(e) => return Err(e),
    };
    let alt = match req_string(v, "alt") { Ok(x) => x, Err(e) => return Err(e) };
    let create_date = match req_string(v, "createDate") { Ok(x) => x, Err(e) => return Err(e) };
    let update_date = match req_string(v, "updateDate") { Ok(x) => x, Err(e) => return Err(e) };
    let is_unlisted = match req_bool(v, "isUnlisted") { Ok(x) => x, Err(e) => return Err(e) };
    let is_masked = match req_bool(v, "isMasked") { Ok(x) => x, Err(e) => return Err(e) };
    let profile_image_url = match opt_string(v, "profileImageUrl") {
        Ok(x) => x,
        Err(e) => return Err(e),
    };
    Ok(
        UserIllust {
            id,
            title,
            illustType: illust_type,
            xRestrict: x_restrict,
            restrict,
            sl,
            url,
            description,
            tags,
            userId: user_id,
            userName: user_name,
            width,
            height,
            pageCount: page_count,
            isBookmarkable: is_bookmarkable,
            bookmark_data: opt_value(v, "bookmarkData"),
            alt,
            create_date,
            update_date,
            is_unlisted,
            is_masked,
            profile_image_url,
        },
    )
}

fn decode_prev(v: &serde_json::Value) -> (r: Result<Prev, Error>)
    ensures
        r is Ok <==> prev_shape_ok(model_of(*v)),
        r matches Ok(p) ==> prev_matches(p, model_of(*v)),
        r matches Err(e) ==> (e matches Error::MissingFragment(_) || e matches
            Error::DecodeFailure(_)),
{
    let id = match req_string(v, "id") { Ok(x) => x, Err(e) => return Err(e) };
    let title = match req_string(v, "title") { Ok(x) => x, Err(e) => return Err(e) };
    let order = match req_u32(v, "order") { Ok(x) => x, Err(e) => return Err(e) };
    Ok(Prev { id, title, order })
}

fn decode_series_nav(v: &serde_json::Value) -> (r: Result<SeriesNavData, Error>)
    ensures
        r is Ok <==> series_shape_ok(model_of(*v)),
        r matches Ok(s) ==> series_matches(s, model_of(*v)),
        r matches Err(e) ==> (e matches Error::MissingFragment(_) || e matches
            Error::DecodeFailure(_)),
{
    let series_type = match req_string(v, "seriesType") { Ok(x) => x, Err(e) => return Err(e) };
    let series_id = match req_string(v, "seriesId") { Ok(x) => x, Err(e) => return Err(e) };
    let title = match req_string(v, "title") { Ok(x) => x, Err(e) => return Err(e) };
    let order = match req_u32(v, "order") { Ok(x) => x, Err(e) => return Err(e) };
    let is_watched = match req_bool(v, "isWatched") { Ok(x) => x, Err(e) => return Err(e) };
    let prev = match json_sub(v, "prev") {
        Some(x) => match decode_prev(x) { Ok(p) => p, Err(e) => return Err(e) },
        None => return Err(Error::MissingFragment(String::from_str("prev"))),
    };
    let next = match json_sub(v, "next") {
        Some(x) => match decode_prev(x) { Ok(p) => p, Err(e) => return Err(e) },
        None => return Err(Error::MissingFragment(String::from_str("next"))),
    };
    Ok(
        SeriesNavData {
            seriesType: series_type,
            seriesId: series_id,
            title,
            order,
            isWatched: is_watched,
            prev,
            next,
        },
    )
}

fn decode_illust(v: &serde_json::Value) -> (r: Result<Illust, Error>)
    ensures
        r is Ok <==> illust_shape_ok(model_of(*v)),
        r matches Err(e) ==> (e matches Error::MissingFragment(_) || e matches
            Error::DecodeFailure(_)),
{
    let illust_id = match req_string(v, "illustId") { Ok(x) => x, Err(e) => return Err(e) };
    let illust_title = match req_string(v, "illustTitle") { Ok(x) => x, Err(e) => return Err(e) };
    let illust_comment = match req_string(v, "illustComment") {
        Ok(x) => x,
        Err(e) => return Err(e),
    };
    let id = match req_string(v, "id") { Ok(x) => x, Err(e) => return Err(e) };
    let title = match req_string(v, "title") { Ok(x) => x, Err(e) => return Err(e) };
    let description = match req_string(v, "description") { Ok(x) => x, Err(e) => return Err(e) };
    let illust_type = match req_i32(v, "illustType") { Ok(x) => x, Err(e) => return Err(e) };
    let create_date = match req_string(v, "createDate") { Ok(x) => x, Err(e) => return Err(e) };
    let upload_date = match req_string(v, "uploadDate") { Ok(x) => x, Err(e) => return Err(e) };
    let restrict = match req_i32(v, "restrict") { Ok(x) => x, Err(e) => return Err(e) };
    let x_restrict = match req_i32(v, "xRestrict") { Ok(x) => x, Err(e) => return Err(e) };
    let sl = match req_i32(v, "sl") { Ok(x) => x, Err(e) => return Err(e) };
    let urls = match json_sub(v, "urls") {
        Some(x) => match decode_urls(x) { Ok(u) => u, Err(e) => return Err(e) },
        None => return Err(Error::MissingFragment(String::from_str("urls"))),
    };
    let tags = match json_sub(v, "tags") {
        Some(x) => match decode_tags(x) { Ok(t) => t, Err(e) => return Err(e) },
        None => return Err(Error::MissingFragment(String::from_str("tags"))),
    };
    let alt = match req_string(v, "alt") { Ok(x) => x, Err(e) => return Err(e) };
    let storable_tags = match req_string_vec(v, "storableTags") {
        Ok(x) => x,
        Err(e) => return Err(e),
    };
    let user_id = match req_string(v, "userId") { Ok(x) => x, Err(e) => return Err(e) };
    let user_name = match req_string(v, "userName") { Ok(x) => x, Err(e) => return Err(e) };
    let user_account = match req_string(v, "userAccount") { Ok(x) => x, Err(e) => return Err(e) };
    let user_illusts_val = match json_sub(v, "userIllusts") {
        Some(x) => x,
        None => return Err(Error::MissingFragment(String::from_str("userIllusts"))),
    };
    let user_illust_entries = match json_obj_entries(user_illusts_val) {
        Some(m) => m,
        None => return Err(Error::DecodeFailure(String::from_str("userIllusts"))),
    };
    let ghost uim = model_of(*user_illusts_val)->Obj_0;
    let mut user_illusts: Vec<(String, Option<UserIllust>)> = Vec::new();
    let mut i: usize = 0;
    while i < user_illust_entries.len()
        invariant
            0 <= i <= user_illust_entries@.len(),
            model_of(*user_illusts_val) == JsonModel::Obj(uim),
            obj_field(model_of(*v), "userIllusts"@) == Some(model_of(*user_illusts_val)),
            forall|k: int|
                0 <= k < user_illust_entries@.len() ==> uim.contains_key(
                    (#[trigger] user_illust_entries@[k]).0@,
                ) && model_of(user_illust_entries@[k].1) == uim[user_illust_entries@[k].0@],
            forall|key: Seq<char>|
                #[trigger] uim.contains_key(key) ==> exists|k: int|
                    0 <= k < user_illust_entries@.len() && (
                    #[trigger] user_illust_entries@[k]).0@ == key,
            user_illusts@.len() == i,
            forall|k: int|
                0 <= k < i ==> (#[trigger] uim[user_illust_entries@[k].0@]) is Null
                    || user_illust_shape_ok(uim[user_illust_entries@[k].0@]),
        decreases user_illust_entries@.len() - i,
    {
        let key = user_illust_entries[i].0.clone();
        if json_is_null(&user_illust_entries[i].1) {
            user_illusts.push((key, None));
        } else {
            match decode_user_illust(&user_illust_entries[i].1) {
                Ok(u) => user_illusts.push((key, Some(u))),
                Err(e) => {
                    proof {
                        let bad = user_illust_entries@[i as int].0@;
                        assert(uim.contains_key(bad));
                        assert(!(uim[bad] is Null) && !user_illust_shape_ok(uim[bad]));
                        assert(!user_illusts_map_ok(uim));
                    }
                    return Err(e);
                },
            }
        }
        i += 1;
    }
    proof {
        assert forall|key: Seq<char>| #[trigger] uim.contains_key(key) implies (uim[key] is Null
            || user_illust_shape_ok(uim[key])) by {
            let k = choose|k: int|
                0 <= k < user_illust_entries@.len() && (
                #[trigger] user_illust_entries@[k]).0@ == key;
            assert(uim[user_illust_entries@[k].0@] is Null || user_illust_shape_ok(
                uim[user_illust_entries@[k].0@],
            ));
        }
        assert(user_illusts_map_ok(uim));
    }
    let like_data = match req_bool(v, "likeData") { Ok(x) => x, Err(e) => return Err(e) };
    let width = match req_u32(v, "width") { Ok(x) => x, Err(e) => return Err(e) };
    let height = match req_u32(v, "height") { Ok(x) => x, Err(e) => return Err(e) };
    let page_count = match req_u32(v, "pageCount") { Ok(x) => x, Err(e) => return Err(e) };
    let bookmark_count = match req_u32(v, "bookmarkCount") { Ok(x) => x, Err(e) => return Err(e) };
    let like_count = match req_u32(v, "likeCount") { Ok(x) => x, Err(e) => return Err(e) };
    let comment_count = match req_u32(v, "commentCount") { Ok(x) => x, Err(e) => return Err(e) };
    let response_count = match req_u32(v, "responseCount") { Ok(x) => x, Err(e) => return Err(e) };
    let view_count = match req_u32(v, "viewCount") { Ok(x) => x, Err(e) => return Err(e) };
    let is_howto = match req_bool(v, "isHowto") { Ok(x) => x, Err(e) => return Err(e) };
    let is_original = match req_bool(v, "isOriginal") { Ok(x) => x, Err(e) => return Err(e) };
    let image_response_out_data = match req_value_vec(v, "imageResponseOutData") {
        Ok(x) => x,
        Err(e) => return Err(e),
    };
    let image_response_data = match req_value_vec(v, "imageResponseData") {
        Ok(x) => x,
        Err(e) => return Err(e),
    };
    let image_response_count = match req_u32(v, "imageResponseCount") {
        Ok(x) => x,
        Err(e) => return Err(e),
    };
    let series_nav_data = match json_sub(v, "seriesNavData") {
        Some(x) => {
            if json_is_null(x) {
                None
            } else {
                match decode_series_nav(x) { Ok(s) => Some(s), Err(e) => return Err(e) }
            }
        },
        None => None,
    };
    let contest_banners = match req_value_vec(v, "contestBanners") {
        Ok(x) => x,
        Err(e) => return Err(e),
    };
    let is_bookmarkable = match req_bool(v, "isBookmarkable") {
        Ok(x) => x,
        Err(e) => return Err(e),
    };
    let is_unlisted = match req_bool(v, "isUnlisted") { Ok(x) => x, Err(e) => return Err(e) };
    Ok(
        Illust {
            illust_id,
            illust_title,
            illust_comment,
            id,
            title,
            description,
            illust_type,
            create_date,
            upload_date,
            restrict,
            x_restrict,
            sl,
            urls,
            tags,
            alt,
            storable_tags,
            user_id,
            user_name,
            user_account,
            userIllusts: user_illusts,
            like_data,
            width,
            height,
            page_count,
            bookmarkCount: bookmark_count,
            likeCount: like_count,
            commentCount: comment_count,
            responseCount: response_count,
            viewCount: view_count,
            isHowto: is_howto,
            isOriginal: is_original,
            imageResponseOutData: image_response_out_data,
            imageResponseData: image_response_data,
            imageResponseCount: image_response_count,
            pollData: opt_value(v, "pollData"),
            seriesNavData: series_nav_data,
            descriptionBoothId: opt_value(v, "descriptionBoothId"),
            descriptionYoutubeId: opt_value(v, "descriptionYoutubeId"),
            comicPromotion: opt_value(v, "comicPromotion"),
            contestBanners: contest_banners,
            isBookmarkable: is_bookmarkable,
            bookmarkData: opt_value(v, "bookmarkData"),
            contestData: opt_value(v, "contestData"),
            isUnlisted: is_unlisted,
            request: opt_value(v, "request"),
        },
    )
}

fn decode_background(v: &serde_json::Value) -> (r: Result<Background, Error>)
    ensures
        r is Ok <==> (str_field(model_of(*v), "url"@) is Some && bool_field(
            model_of(*v),
            "isPrivate"@,
        ) is Some),
        r matches Ok(b) ==> (str_field(model_of(*v), "url"@) == Some(b.url@) && bool_field(
            model_of(*v),
            "isPrivate"@,
        ) == Some(b.is_private)),
        r matches Err(e) ==> (e matches Error::MissingFragment(_) || e matches
            Error::DecodeFailure(_)),
{
    let url = match req_string(v, "url") { Ok(x) => x, Err(e) => return Err(e) };
    let is_private = match req_bool(v, "isPrivate") { Ok(x) => x, Err(e) => return Err(e) };
    Ok(
        Background {
            repeat: opt_value(v, "repeat"),
            color: opt_value(v, "color"),
            url,
            is_private,
        },
    )
}

fn decode_user(v: &serde_json::Value) -> (r: Result<User, Error>)
    ensures
        r is Ok <==> user_shape_ok(model_of(*v)),
        r matches Err(e) ==> (e matches Error::MissingFragment(_) || e matches
            Error::DecodeFailure(_)),
{
    let user_id = match req_string(v, "userId") { Ok(x) => x, Err(e) => return Err(e) };
    let name = match req_string(v, "name") { Ok(x) => x, Err(e) => return Err(e) };
    let image = match req_string(v, "image") { Ok(x) => x, Err(e) => return Err(e) };
    let image_big = match req_string(v, "imageBig") { Ok(x) => x, Err(e) => return Err(e) };
    let premium = match req_bool(v, "premium") { Ok(x) => x, Err(e) => return Err(e) };
    let is_followed = match req_bool(v, "isFollowed") { Ok(x) => x, Err(e) => return Err(e) };
    let is_mypixiv = match req_bool(v, "isMypixiv") { Ok(x) => x, Err(e) => return Err(e) };
    let is_blocking = match req_bool(v, "isBlocking") { Ok(x) => x, Err(e) => return Err(e) };
    let background = match json_sub(v, "background") {
        Some(x) => match decode_background(x) { Ok(b) => b, Err(e) => return Err(e) },
        None => return Err(Error::MissingFragment(String::from_str("background"))),
    };
    let partial = match req_i32(v, "partial") { Ok(x) => x, Err(e) => return Err(e) };
    let accept_request = match req_bool(v, "acceptRequest") { Ok(x) => x, Err(e) => return Err(e) };
    let sketch_lives = match req_value_vec(v, "sketchLives") { Ok(x) => x, Err(e) => return Err(e) };
    Ok(
        User {
            user_id,
            name,
            image,
            image_big,
            premium,
            is_followed,
            is_mypixiv,
            is_blocking,
            background,
            sketch_live_id: opt_value(v, "sketchLiveId"),
            partial,
            accept_request,
            sketch_lives,
        },
    )
}

fn decode_config(v: &serde_json::Value) -> (r: Result<PixivConfig, Error>)
    ensures
        r is Ok <==> config_shape_ok(model_of(*v)),
        r matches Ok(cfg) ==> str_field(model_of(*v), "timestamp"@) == Some(cfg.timestamp@),
        r matches Err(e) ==> (e matches Error::MissingFragment(_) || e matches
            Error::DecodeFailure(_)),
{
    let timestamp = match req_string(v, "timestamp") { Ok(x) => x, Err(e) => return Err(e) };
    let illust_val = match json_sub(v, "illust") {
        Some(x) => x,
        None => return Err(Error::MissingFragment(String::from_str("illust"))),
    };
    let illust_entries = match json_obj_entries(illust_val) {
        Some(m) => m,
        None => return Err(Error::DecodeFailure(String::from_str("illust"))),
    };
    let ghost im = model_of(*illust_val)->Obj_0;
    let mut illust: Vec<(String, Illust)> = Vec::new();
    let mut i: usize = 0;
    while i < illust_entries.len()
        invariant
            0 <= i <= illust_entries@.len(),
            model_of(*illust_val) == JsonModel::Obj(im),
            obj_field(model_of(*v), "illust"@) == Some(model_of(*illust_val)),
            forall|k: int|
                0 <= k < illust_entries@.len() ==> im.contains_key(
                    (#[trigger] illust_entries@[k]).0@,
                ) && model_of(illust_entries@[k].1) == im[illust_entries@[k].0@],
            forall|key: Seq<char>|
                #[trigger] im.contains_key(key) ==> exists|k: int|
                    0 <= k < illust_entries@.len() && (#[trigger] illust_entries@[k]).0@ == key,
            illust@.len() == i,
            forall|k: int|
                0 <= k < i ==> illust_shape_ok(#[trigger] im[illust_entries@[k].0@]),
        decreases illust_entries@.len() - i,
    {
        match decode_illust(&illust_entries[i].1) {
            Ok(rec) => illust.push((illust_entries[i].0.clone(), rec)),
            Err(e) => {
                proof {
                    let bad = illust_entries@[i as int].0@;
                    assert(im.contains_key(bad));
                    assert(!illust_shape_ok(im[bad]));
                    assert(!illust_map_ok(im));
                }
                return Err(e);
            },
        }
        i += 1;
    }
    proof {
        assert forall|key: Seq<char>| #[trigger] im.contains_key(key) implies illust_shape_ok(
            im[key],
        ) by {
            let k = choose|k: int|
                0 <= k < illust_entries@.len() && (#[trigger] illust_entries@[k]).0@ == key;
            assert(illust_shape_ok(im[illust_entries@[k].0@]));
        }
        assert(illust_map_ok(im));
    }
    let user_val = match json_sub(v, "user") {
        Some(x) => x,
        None => return Err(Error::MissingFragment(String::from_str("user"))),
    };
    let user_entries = match json_obj_entries(user_val) {
        Some(m) => m,
        None => return Err(Error::DecodeFailure(String::from_str("user"))),
    };
    let ghost um = model_of(*user_val)->Obj_0;
    let mut user: Vec<(String, User)> = Vec::new();
    let mut j_idx: usize = 0;
    while j_idx < user_entries.len()
        invariant
            0 <= j_idx <= user_entries@.len(),
            model_of(*user_val) == JsonModel::Obj(um),
            obj_field(model_of(*v), "user"@) == Some(model_of(*user_val)),
            forall|k: int|
                0 <= k < user_entries@.len() ==> um.contains_key(
                    (#[trigger] user_entries@[k]).0@,
                ) && model_of(user_entries@[k].1) == um[user_entries@[k].0@],
            forall|key: Seq<char>|
                #[trigger] um.contains_key(key) ==> exists|k: int|
                    0 <= k < user_entries@.len() && (#[trigger] user_entries@[k]).0@ == key,
            user@.len() == j_idx,
            forall|k: int|
                0 <= k < j_idx ==> user_shape_ok(#[trigger] um[user_entries@[k].0@]),
        decreases user_entries@.len() - j_idx,
    {
        match decode_user(&user_entries[j_idx].1) {
            Ok(rec) => user.push((user_entries[j_idx].0.clone(), rec)),
            Err(e) => {
                proof {
                    let bad = user_entries@[j_idx as int].0@;
                    assert(um.contains_key(bad));
                    assert(!user_shape_ok(um[bad]));
                    assert(!user_map_ok(um));
                }
                return Err(e);
            },
        }
        j_idx += 1;
    }
    proof {
        assert forall|key: Seq<char>| #[trigger] um.contains_key(key) implies user_shape_ok(
            um[key],
        ) by {
            let k = choose|k: int|
                0 <= k < user_entries@.len() && (#[trigger] user_entries@[k]).0@ == key;
            assert(user_shape_ok(um[user_entries@[k].0@]));
        }
        assert(user_map_ok(um));
    }
    Ok(PixivConfig { timestamp, illust, user })
}

/// The selector of the element whose `content` attribute holds the
/// preload-data blob.
pub open spec fn preload_selector() -> Seq<char> {
    "#meta-preload-data"@
}

/// Extract and decode the preload-data record from one illustration page.
///
/// Succeeds exactly when the attribute is present, parses as JSON, and has
/// the record shape. An absent attribute is a `MissingFragment`; attribute
/// text that does not parse is a `DecodeFailure`.
pub fn config_from_page(html: &str) -> (r: Result<PixivConfig, Error>)
    ensures
        r is Ok <==> (selected_attr(html@, preload_selector(), "content"@) matches Some(t)
            && (json_of(t) matches Some(j) && config_shape_ok(j))),
        r matches Ok(cfg) ==> (selected_attr(html@, preload_selector(), "content"@) matches Some(
            t,
        ) && (json_of(t) matches Some(j) && str_field(j, "timestamp"@) == Some(cfg.timestamp@))),
        selected_attr(html@, preload_selector(), "content"@) is None ==> (r matches Err(
            Error::MissingFragment(_),
        )),
        (selected_attr(html@, preload_selector(), "content"@) matches Some(t) && json_of(
            t,
        ) is None) ==> (r matches Err(Error::DecodeFailure(_))),
        r matches Err(e) ==> (e matches Error::MissingFragment(_) || e matches
            Error::DecodeFailure(_)),
{
    let data = match select_first_attr(html, "#meta-preload-data", "content") {
        Some(d) => d,
        None => {
            return Err(Error::MissingFragment(String::from_str("meta-preload-data content")));
        },
    };
    let v = match parse_json(data.as_str()) {
        Some(v) => v,
        None => {
            return Err(Error::DecodeFailure(String::from_str("preload json")));
        },
    };
    decode_config(&v)
}

} // verus!
