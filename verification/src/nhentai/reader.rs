//! The reader site's intermediate record and its extractor.
//!
//! A reader page embeds its gallery object as a JSON-encoded, quote-escaped
//! string inside a `window._gallery = JSON.parse("...")` assignment, and two
//! scalar fields (`media_url`, `start_page`) elsewhere in the same script.
//! The three capture grammars are specified exactly; JSON decoding of the
//! captured blob is delegated to the JSON boundary.

use vstd::prelude::*;

use crate::error::Error;
use crate::decode::{opt_str_field, opt_string, req_string, req_u32, req_u64};
use crate::json::{
    arr_field, json_as_array, json_of, json_sub, model_of, obj_field, parse_json, str_field,
    u32_field, u64_field, JsonModel,
};
use crate::text::{
    dec_val, digits_end, find_from, first_match_from, lemma_digits_end,
    lemma_first_match_from, match_at, parse_dec_u64, replace_all, scan_digits, skip_spaces,
    replaced, starts_with_at, str_eq, ws_end,
};

verus! {

/// The full intermediate record extracted from one reader page.
#[derive(Debug, Clone)]
pub struct Reader {
    pub media_url: String,
    pub gallery: Gallery,
    pub start_page: u32,
}

/// The gallery object embedded in the page.
#[derive(Debug, Clone)]
pub struct Gallery {
    pub id: u32,
    pub media_id: String,
    pub title: Title,
    pub images: Images,
    pub scanlator: String,
    /// Upload date, in seconds since the epoch.
    pub upload_date: u64,
    pub tags: Vec<Tag>,
    pub num_pages: u32,
    pub num_favorites: u32,
}

#[derive(Debug, Clone)]
pub struct Title {
    pub english: Option<String>,
    pub japanese: Option<String>,
    pub pretty: String,
}

#[derive(Debug, Clone)]
pub struct Images {
    /// In reading order, as the source declares them.
    pub pages: Vec<Page>,
    pub cover: Page,
    pub thumbnail: Page,
}

/// One page as the gallery object declares it: an image type and pixel
/// dimensions. The page's position in the list is its reading position.
#[derive(Debug, Clone)]
pub struct Page {
    pub image_type: ImageType,
    pub width: u32,
    pub heigth: u32,
}

/// The three image encodings the site serves, tagged `j`/`p`/`g` in the
/// gallery object.
#[derive(Debug, Clone, Copy, PartialEq, Eq, Structural)]
pub enum ImageType {
    Jpeg,
    Png,
    Gif,
}

/// The file extension each image type resolves to.
pub open spec fn ext_of(t: ImageType) -> Seq<char> {
    match t {
        ImageType::Jpeg => "jpg"@,
        ImageType::Png => "png"@,
        ImageType::Gif => "gif"@,
    }
}

impl ImageType {
    /// The file extension used in resolved URLs and file names.
    pub fn ext(&self) -> (r: &'static str)
        ensures
            r@ == ext_of(*self),
    {
        match self {
            ImageType::Jpeg => "jpg",
            ImageType::Png => "png",
            ImageType::Gif => "gif",
        }
    }
}

/// One tag of the gallery object.
#[derive(Debug, Clone)]
pub struct Tag {
    pub id: u32,
    pub tag_type: TagType,
    pub name: String,
    pub url: String,
    pub count: u32,
}

/// The site's closed tag-type vocabulary.
#[derive(Debug, Clone, Copy, PartialEq, Eq, Structural)]
pub enum TagType {
    Tag,
    Language,
    Parody,
    Character,
    Group,
    Artist,
    Category,
}

// ------------------------------------------------------------------
// JSON decoding of the gallery object
// ------------------------------------------------------------------

/// The image type a one-letter tag names.
pub open spec fn image_type_of(t: Seq<char>) -> ImageType {
    if t == "j"@ {
        ImageType::Jpeg
    } else if t == "p"@ {
        ImageType::Png
    } else {
        ImageType::Gif
    }
}

/// A page object decodes: `t` one of the three tags, `w` and `h` numbers
/// in range.
pub open spec fn page_shape_ok(j: JsonModel) -> bool {
    &&& (str_field(j, "t"@) == Some("j"@) || str_field(j, "t"@) == Some("p"@) || str_field(
        j,
        "t"@,
    ) == Some("g"@))
    &&& u32_field(j, "w"@) is Some
    &&& u32_field(j, "h"@) is Some
}

/// `p` is the decode of the page object `j`.
pub open spec fn page_matches(p: Page, j: JsonModel) -> bool {
    &&& (str_field(j, "t"@) matches Some(t) && p.image_type == image_type_of(t))
    &&& u32_field(j, "w"@) == Some(p.width)
    &&& u32_field(j, "h"@) == Some(p.heigth)
}

/// The tag type a type string names, within the closed vocabulary.
pub open spec fn tag_type_of(t: Seq<char>) -> Option<TagType> {
    if t == "tag"@ {
        Some(TagType::Tag)
    } else if t == "language"@ {
        Some(TagType::Language)
    } else if t == "parody"@ {
        Some(TagType::Parody)
    } else if t == "character"@ {
        Some(TagType::Character)
    } else if t == "group"@ {
        Some(TagType::Group)
    } else if t == "artist"@ {
        Some(TagType::Artist)
    } else if t == "category"@ {
        Some(TagType::Category)
    } else {
        None
    }
}

/// A tag object decodes: id, a type within the vocabulary, name, url,
/// count.
pub open spec fn tag_shape_ok(j: JsonModel) -> bool {
    &&& u32_field(j, "id"@) is Some
    &&& (str_field(j, "type"@) matches Some(t) && tag_type_of(t) is Some)
    &&& str_field(j, "name"@) is Some
    &&& str_field(j, "url"@) is Some
    &&& u32_field(j, "count"@) is Some
}

/// `t` is the decode of the tag object `j`.
pub open spec fn tag_matches(t: Tag, j: JsonModel) -> bool {
    &&& u32_field(j, "id"@) == Some(t.id)
    &&& (str_field(j, "type"@) matches Some(ty) && tag_type_of(ty) == Some(t.tag_type))
    &&& str_field(j, "name"@) == Some(t.name@)
    &&& str_field(j, "url"@) == Some(t.url@)
    &&& u32_field(j, "count"@) == Some(t.count)
}

/// An optional string field against its model reading.
pub open spec fn opt_matches(o: Option<String>, f: Option<Seq<char>>) -> bool {
    match o {
        None => f is None,
        Some(s) => f == Some(s@),
    }
}

/// The title object decodes: optional english and japanese, required
/// pretty.
pub open spec fn title_shape_ok(j: JsonModel) -> bool {
    &&& (obj_field(j, "title"@) matches Some(t) && opt_str_field(t, "english"@) is Some
        && opt_str_field(t, "japanese"@) is Some && str_field(t, "pretty"@) is Some)
}

/// `ti` is the decode of the title object of `j`.
pub open spec fn title_matches(ti: Title, j: JsonModel) -> bool {
    &&& (obj_field(j, "title"@) matches Some(t) && opt_str_field(t, "english"@) == Some(
        match ti.english {
            None => None,
            Some(s) => Some(s@),
        },
    ) && opt_str_field(t, "japanese"@) == Some(
        match ti.japanese {
            None => None,
            Some(s) => Some(s@),
        },
    ) && str_field(t, "pretty"@) == Some(ti.pretty@))
}

/// The images object decodes: a pages array of page objects, a cover and a
/// thumbnail page object.
pub open spec fn images_shape_ok(j: JsonModel) -> bool {
    &&& (obj_field(j, "images"@) matches Some(im) && {
        &&& (arr_field(im, "pages"@) matches Some(ps) && (forall|k: int|
            0 <= k < ps.len() ==> page_shape_ok(#[trigger] ps[k])))
        &&& (obj_field(im, "cover"@) matches Some(c) && page_shape_ok(c))
        &&& (obj_field(im, "thumbnail"@) matches Some(th) && page_shape_ok(th))
    })
}

/// `ims` is the decode of the images object of `j`.
pub open spec fn images_matches(ims: Images, j: JsonModel) -> bool {
    &&& (obj_field(j, "images"@) matches Some(im) && {
        &&& (arr_field(im, "pages"@) matches Some(ps) && ims.pages@.len() == ps.len() && (
        forall|k: int| 0 <= k < ps.len() ==> page_matches(#[trigger] ims.pages@[k], ps[k])))
        &&& (obj_field(im, "cover"@) matches Some(c) && page_matches(ims.cover, c))
        &&& (obj_field(im, "thumbnail"@) matches Some(th) && page_matches(ims.thumbnail, th))
    })
}

/// The whole gallery object decodes.
pub open spec fn gallery_shape_ok(j: JsonModel) -> bool {
    &&& u32_field(j, "id"@) is Some
    &&& str_field(j, "media_id"@) is Some
    &&& title_shape_ok(j)
    &&& images_shape_ok(j)
    &&& str_field(j, "scanlator"@) is Some
    &&& u64_field(j, "upload_date"@) is Some
    &&& (arr_field(j, "tags"@) matches Some(ts) && (forall|k: int|
        0 <= k < ts.len() ==> tag_shape_ok(#[trigger] ts[k])))
    &&& u32_field(j, "num_pages"@) is Some
    &&& u32_field(j, "num_favorites"@) is Some
}

/// `g` is the decode of the gallery object `j`.
pub open spec fn gallery_matches(g: Gallery, j: JsonModel) -> bool {
    &&& u32_field(j, "id"@) == Some(g.id)
    &&& str_field(j, "media_id"@) == Some(g.media_id@)
    &&& title_matches(g.title, j)
    &&& images_matches(g.images, j)
    &&& str_field(j, "scanlator"@) == Some(g.scanlator@)
    &&& u64_field(j, "upload_date"@) == Some(g.upload_date)
    &&& (arr_field(j, "tags"@) matches Some(ts) && g.tags@.len() == ts.len() && (forall|k: int|
        0 <= k < ts.len() ==> tag_matches(#[trigger] g.tags@[k], ts[k])))
    &&& u32_field(j, "num_pages"@) == Some(g.num_pages)
    &&& u32_field(j, "num_favorites"@) == Some(g.num_favorites)
}

fn decode_image_type(tag: &str) -> (r: Option<ImageType>)
    ensures
        r == (if tag@ == "j"@ {
            Some(ImageType::Jpeg)
        } else if tag@ == "p"@ {
            Some(ImageType::Png)
        } else if tag@ == "g"@ {
            Some(ImageType::Gif)
        } else {
            None
        }),
{
    proof {
        reveal_strlit("j");
        reveal_strlit("p");
        reveal_strlit("g");
        assert("j"@[0] == 'j' && "p"@[0] == 'p' && "g"@[0] == 'g');
        assert("j"@ != "p"@ && "j"@ != "g"@ && "p"@ != "g"@);
    }
    if str_eq(tag, "j") {
        Some(ImageType::Jpeg)
    } else if str_eq(tag, "p") {
        Some(ImageType::Png)
    } else if str_eq(tag, "g") {
        Some(ImageType::Gif)
    } else {
        None
    }
}

fn decode_page(v: &serde_json::Value) -> (r: Result<Page, Error>)
    ensures
        r is Ok <==> page_shape_ok(model_of(*v)),
        r matches Ok(p) ==> page_matches(p, model_of(*v)),
        r matches Err(e) ==> (e matches Error::MissingFragment(_) || e matches
            Error::DecodeFailure(_)),
{
    proof {
        reveal_strlit("j");
        reveal_strlit("p");
        reveal_strlit("g");
        assert("j"@[0] == 'j' && "p"@[0] == 'p' && "g"@[0] == 'g');
        assert("j"@ != "p"@ && "j"@ != "g"@ && "p"@ != "g"@);
    }
    let t = match req_string(v, "t") {
        Ok(t) => t,
        Err(e) => {
            return Err(e);
        },
    };
    let image_type = match decode_image_type(t.as_str()) {
        Some(it) => it,
        None => {
            return Err(Error::DecodeFailure(String::from_str("page image type")));
        },
    };
    let width = match req_u32(v, "w") {
        Ok(w) => w,
        Err(e) => {
            return Err(e);
        },
    };
    let heigth = match req_u32(v, "h") {
        Ok(h) => h,
        Err(e) => {
            return Err(e);
        },
    };
    Ok(Page { image_type, width, heigth })
}

fn decode_tag_type(name: &str) -> (r: Option<TagType>)
    ensures
        r == tag_type_of(name@),
{
    proof {
        reveal_strlit("tag");
        reveal_strlit("language");
        reveal_strlit("parody");
        reveal_strlit("character");
        reveal_strlit("group");
        reveal_strlit("artist");
        reveal_strlit("category");
        assert("tag"@[0] == 't' && "language"@[0] == 'l' && "parody"@[0] == 'p');
        assert("character"@[0] == 'c' && "group"@[0] == 'g' && "artist"@[0] == 'a');
        assert("category"@[0] == 'c');
        assert("tag"@.len() == 3 && "language"@.len() == 8 && "parody"@.len() == 6);
        assert("character"@.len() == 9 && "group"@.len() == 5 && "artist"@.len() == 6);
        assert("category"@.len() == 8);
        assert("tag"@ != "language"@ && "tag"@ != "parody"@ && "tag"@ != "character"@);
        assert("tag"@ != "group"@ && "tag"@ != "artist"@ && "tag"@ != "category"@);
        assert("language"@ != "parody"@ && "language"@ != "character"@);
        assert("language"@ != "group"@ && "language"@ != "artist"@);
        assert("language"@ != "category"@);
        assert("parody"@ != "character"@ && "parody"@ != "group"@);
        assert("parody"@ != "artist"@ && "parody"@ != "category"@);
        assert("character"@ != "group"@ && "character"@ != "artist"@);
        assert("character"@ != "category"@);
        assert("group"@ != "artist"@ && "group"@ != "category"@);
        assert("artist"@ != "category"@);
    }
    if str_eq(name, "tag") {
        Some(TagType::Tag)
    } else if str_eq(name, "language") {
        Some(TagType::Language)
    } else if str_eq(name, "parody") {
        Some(TagType::Parody)
    } else if str_eq(name, "character") {
        Some(TagType::Character)
    } else if str_eq(name, "group") {
        Some(TagType::Group)
    } else if str_eq(name, "artist") {
        Some(TagType::Artist)
    } else if str_eq(name, "category") {
        Some(TagType::Category)
    } else {
        None
    }
}

fn decode_tag(v: &serde_json::Value) -> (r: Result<Tag, Error>)
    ensures
        r is Ok <==> tag_shape_ok(model_of(*v)),
        r matches Ok(t) ==> tag_matches(t, model_of(*v)),
        r matches Err(e) ==> (e matches Error::MissingFragment(_) || e matches
            Error::DecodeFailure(_)),
{
    let id = match req_u32(v, "id") {
        Ok(x) => x,
        Err(e) => {
            return Err(e);
        },
    };
    let ty = match req_string(v, "type") {
        Ok(x) => x,
        Err(e) => {
            return Err(e);
        },
    };
    let tag_type = match decode_tag_type(ty.as_str()) {
        Some(t) => t,
        None => {
            return Err(Error::DecodeFailure(String::from_str("tag type")));
        },
    };
    let name = match req_string(v, "name") {
        Ok(x) => x,
        Err(e) => {
            return Err(e);
        },
    };
    let url = match req_string(v, "url") {
        Ok(x) => x,
        Err(e) => {
            return Err(e);
        },
    };
    let count = match req_u32(v, "count") {
        Ok(x) => x,
        Err(e) => {
            return Err(e);
        },
    };
    Ok(Tag { id, tag_type, name, url, count })
}

fn decode_title(v: &serde_json::Value) -> (r: Result<Title, Error>)
    ensures
        r is Ok <==> title_shape_ok(model_of(*v)),
        r matches Ok(t) ==> title_matches(t, model_of(*v)),
        r matches Err(e) ==> (e matches Error::MissingFragment(_) || e matches
            Error::DecodeFailure(_)),
{
    let title = match json_sub(v, "title") {
        Some(t) => t,
        None => {
            return Err(Error::MissingFragment(String::from_str("title")));
        },
    };
    let english = match opt_string(title, "english") {
        Ok(x) => x,
        Err(e) => {
            return Err(e);
        },
    };
    let japanese = match opt_string(title, "japanese") {
        Ok(x) => x,
        Err(e) => {
            return Err(e);
        },
    };
    let pretty = match req_string(title, "pretty") {
        Ok(x) => x,
        Err(e) => {
            return Err(e);
        },
    };
    Ok(Title { english, japanese, pretty })
}

fn decode_images(v: &serde_json::Value) -> (r: Result<Images, Error>)
    ensures
        r is Ok <==> images_shape_ok(model_of(*v)),
        r matches Ok(ims) ==> images_matches(ims, model_of(*v)),
        r matches Err(e) ==> (e matches Error::MissingFragment(_) || e matches
            Error::DecodeFailure(_)),
{
    let images = match json_sub(v, "images") {
        Some(x) => x,
        None => {
            return Err(Error::MissingFragment(String::from_str("images")));
        },
    };
    let arr = match json_sub(images, "pages") {
        Some(x) => match json_as_array(x) {
            Some(a) => {
                proof {
                    assert(arr_field(model_of(*images), "pages"@) == Some(
                        model_of(*x)->Arr_0,
                    ));
                }
                a
            },
            None => {
                return Err(Error::DecodeFailure(String::from_str("images.pages")));
            },
        },
        None => {
            return Err(Error::MissingFragment(String::from_str("images.pages")));
        },
    };
    let ghost ps = arr_field(model_of(*images), "pages"@)->Some_0;
    let mut pages: Vec<Page> = Vec::new();
    let mut i: usize = 0;
    while i < arr.len()
        invariant
            0 <= i <= arr@.len(),
            arr@.len() == ps.len(),
            obj_field(model_of(*v), "images"@) == Some(model_of(*images)),
            arr_field(model_of(*images), "pages"@) == Some(ps),
            forall|k: int| 0 <= k < ps.len() ==> #[trigger] model_of(arr@[k]) == ps[k],
            pages@.len() == i,
            forall|k: int| 0 <= k < i ==> page_shape_ok(#[trigger] ps[k]),
            forall|k: int| 0 <= k < i ==> page_matches(#[trigger] pages@[k], ps[k]),
        decreases arr@.len() - i,
    {
        match decode_page(&arr[i]) {
            Ok(p) => pages.push(p),
            Err(e) => {
                proof {
                    assert(!page_shape_ok(ps[i as int]));
                    assert(!images_shape_ok(model_of(*v))) by {
                        if images_shape_ok(model_of(*v)) {
                            let im = obj_field(model_of(*v), "images"@)->Some_0;
                            assert(im == model_of(*images));
                            let psx = arr_field(im, "pages"@)->Some_0;
                            assert(psx == ps);
                            assert(page_shape_ok(psx[i as int]));
                        }
                    }
                }
                return Err(e);
            },
        }
        i += 1;
    }
    let cover = match json_sub(images, "cover") {
        Some(x) => match decode_page(x) {
            Ok(p) => p,
            Err(e) => {
                return Err(e);
            },
        },
        None => {
            return Err(Error::MissingFragment(String::from_str("images.cover")));
        },
    };
    let thumbnail = match json_sub(images, "thumbnail") {
        Some(x) => match decode_page(x) {
            Ok(p) => p,
            Err(e) => {
                return Err(e);
            },
        },
        None => {
            return Err(Error::MissingFragment(String::from_str("images.thumbnail")));
        },
    };
    Ok(Images { pages, cover, thumbnail })
}

fn decode_gallery(v: &serde_json::Value) -> (r: Result<Gallery, Error>)
    ensures
        r is Ok <==> gallery_shape_ok(model_of(*v)),
        r matches Ok(g) ==> gallery_matches(g, model_of(*v)),
        r matches Err(e) ==> (e matches Error::MissingFragment(_) || e matches
            Error::DecodeFailure(_)),
{
    let id = match req_u32(v, "id") {
        Ok(x) => x,
        Err(e) => {
            return Err(e);
        },
    };
    let media_id = match req_string(v, "media_id") {
        Ok(x) => x,
        Err(e) => {
            return Err(e);
        },
    };
    let title = match decode_title(v) {
        Ok(x) => x,
        Err(e) => {
            return Err(e);
        },
    };
    let images = match decode_images(v) {
        Ok(x) => x,
        Err(e) => {
            return Err(e);
        },
    };
    let scanlator = match req_string(v, "scanlator") {
        Ok(x) => x,
        Err(e) => {
            return Err(e);
        },
    };
    let upload_date = match req_u64(v, "upload_date") {
        Ok(x) => x,
        Err(e) => {
            return Err(e);
        },
    };
    let arr = match json_sub(v, "tags") {
        Some(x) => match json_as_array(x) {
            Some(a) => {
                proof {
                    assert(arr_field(model_of(*v), "tags"@) == Some(model_of(*x)->Arr_0));
                }
                a
            },
            None => {
                return Err(Error::DecodeFailure(String::from_str("tags")));
            },
        },
        None => {
            return Err(Error::MissingFragment(String::from_str("tags")));
        },
    };
    let ghost ts = arr_field(model_of(*v), "tags"@)->Some_0;
    let mut tags: Vec<Tag> = Vec::new();
    let mut i: usize = 0;
    while i < arr.len()
        invariant
            0 <= i <= arr@.len(),
            arr@.len() == ts.len(),
            arr_field(model_of(*v), "tags"@) == Some(ts),
            forall|k: int| 0 <= k < ts.len() ==> #[trigger] model_of(arr@[k]) == ts[k],
            tags@.len() == i,
            forall|k: int| 0 <= k < i ==> tag_shape_ok(#[trigger] ts[k]),
            forall|k: int| 0 <= k < i ==> tag_matches(#[trigger] tags@[k], ts[k]),
        decreases arr@.len() - i,
    {
        match decode_tag(&arr[i]) {
            Ok(t) => tags.push(t),
            Err(e) => {
                proof {
                    assert(!tag_shape_ok(ts[i as int]));
                    assert(!gallery_shape_ok(model_of(*v))) by {
                        if gallery_shape_ok(model_of(*v)) {
                            let tsx = arr_field(model_of(*v), "tags"@)->Some_0;
                            assert(tsx == ts);
                            assert(tag_shape_ok(tsx[i as int]));
                        }
                    }
                }
                return Err(e);
            },
        }
        i += 1;
    }
    let num_pages = match req_u32(v, "num_pages") {
        Ok(x) => x,
        Err(e) => {
            return Err(e);
        },
    };
    let num_favorites = match req_u32(v, "num_favorites") {
        Ok(x) => x,
        Err(e) => {
            return Err(e);
        },
    };
    Ok(
        Gallery {
            id,
            media_id,
            title,
            images,
            scanlator,
            upload_date,
            tags,
            num_pages,
            num_favorites,
        },
    )
}

/// Decode a gallery object from its JSON text.
///
/// Succeeds exactly when the text parses as JSON and the document has the
/// gallery shape; unparsable text is a `DecodeFailure`.
pub fn gallery_from_json(text: &str) -> (r: Result<Gallery, Error>)
    ensures
        r is Ok <==> (json_of(text@) matches Some(j) && gallery_shape_ok(j)),
        r matches Ok(g) ==> (json_of(text@) matches Some(j) && gallery_matches(g, j)),
        json_of(text@) is None ==> r matches Err(Error::DecodeFailure(_)),
        r matches Err(e) ==> (e matches Error::MissingFragment(_) || e matches
            Error::DecodeFailure(_)),
{
    match parse_json(text) {
        Some(v) => decode_gallery(&v),
        None => Err(Error::DecodeFailure(String::from_str("gallery json"))),
    }
}

// ------------------------------------------------------------------
// The capture grammars
// ------------------------------------------------------------------

/// The gallery blob: after the first `window._gallery`, optional spaces, a
/// `=`, optional spaces, then `JSON.parse("`, the capture runs to the next
/// `")`.
pub open spec fn gallery_blob(page: Seq<char>) -> Option<Seq<char>> {
    match first_match_from(page, "window._gallery"@, 0) {
        None => None,
        Some(m) => {
            let i = ws_end(page, m + "window._gallery"@.len());
            if i < page.len() && page[i] == '=' {
                let j = ws_end(page, i + 1);
                if match_at(page, "JSON.parse(\""@, j) {
                    let a = j + "JSON.parse(\""@.len();
                    match first_match_from(page, "\")"@, a) {
                        None => None,
                        Some(b) => Some(page.subrange(a, b)),
                    }
                } else {
                    None
                }
            } else {
                None
            }
        },
    }
}

/// The media URL: after the first `media_url:`, optional spaces, a `'`, the
/// capture runs to the next `'`.
pub open spec fn media_url_capture(page: Seq<char>) -> Option<Seq<char>> {
    match first_match_from(page, "media_url:"@, 0) {
        None => None,
        Some(m) => {
            let i = ws_end(page, m + "media_url:"@.len());
            if i < page.len() && page[i] == '\'' {
                match first_match_from(page, "'"@, i + 1) {
                    None => None,
                    Some(b) => Some(page.subrange(i + 1, b)),
                }
            } else {
                None
            }
        },
    }
}

/// The start page: after the first `start_page:`, optional spaces, the
/// capture is the following non-empty digit run.
pub open spec fn start_page_capture(page: Seq<char>) -> Option<Seq<char>> {
    match first_match_from(page, "start_page:"@, 0) {
        None => None,
        Some(m) => {
            let i = ws_end(page, m + "start_page:"@.len());
            let j = digits_end(page, i);
            if j > i {
                Some(page.subrange(i, j))
            } else {
                None
            }
        },
    }
}

fn extract_gallery_blob(page: &str) -> (r: Option<String>)
    ensures
        match r {
            Some(s) => gallery_blob(page@) == Some(s@),
            None => gallery_blob(page@) is None,
        },
{
    proof {
        reveal_strlit("window._gallery");
        reveal_strlit("JSON.parse(\"");
        reveal_strlit("\")");
    }
    let slen = page.unicode_len();
    let m = match find_from(page, "window._gallery", 0) {
        None => {
            return None;
        },
        Some(m) => m,
    };
    proof {
        lemma_first_match_from(page@, "window._gallery"@, 0);
    }
    let mlen = "window._gallery".unicode_len();
    let i = skip_spaces(page, m + mlen);
    if i == slen {
        return None;
    }
    if page.get_char(i) != '=' {
        return None;
    }
    let j = skip_spaces(page, i + 1);
    if !starts_with_at(page, "JSON.parse(\"", j) {
        return None;
    }
    let plen = "JSON.parse(\"".unicode_len();
    let a = j + plen;
    let b = match find_from(page, "\")", a) {
        None => {
            return None;
        },
        Some(b) => b,
    };
    proof {
        lemma_first_match_from(page@, "\")"@, a as int);
    }
    Some(String::from_str(page.substring_char(a, b)))
}

fn extract_media_url(page: &str) -> (r: Option<String>)
    ensures
        match r {
            Some(s) => media_url_capture(page@) == Some(s@),
            None => media_url_capture(page@) is None,
        },
{
    proof {
        reveal_strlit("media_url:");
        reveal_strlit("'");
    }
    let slen = page.unicode_len();
    let m = match find_from(page, "media_url:", 0) {
        None => {
            return None;
        },
        Some(m) => m,
    };
    proof {
        lemma_first_match_from(page@, "media_url:"@, 0);
    }
    let mlen = "media_url:".unicode_len();
    let i = skip_spaces(page, m + mlen);
    if i == slen {
        return None;
    }
    if page.get_char(i) != '\'' {
        return None;
    }
    let b = match find_from(page, "'", i + 1) {
        None => {
            return None;
        },
        Some(b) => b,
    };
    proof {
        lemma_first_match_from(page@, "'"@, i + 1);
    }
    Some(String::from_str(page.substring_char(i + 1, b)))
}

fn extract_start_page(page: &str) -> (r: Result<u32, Error>)
    ensures
        r is Ok <==> (start_page_capture(page@) matches Some(d) && dec_val(d) <= u32::MAX),
        r matches Ok(v) ==> (start_page_capture(page@) matches Some(d) && dec_val(d)
            == v as nat),
        r matches Err(e) ==> match start_page_capture(page@) {
            None => e matches Error::MissingFragment(_),
            Some(d) => dec_val(d) > u32::MAX && e matches Error::DecodeFailure(_),
        },
{
    proof {
        reveal_strlit("start_page:");
    }
    let slen = page.unicode_len();
    if slen == 0 {
        return Err(Error::MissingFragment(String::from_str("start_page")));
    }
    let m = match find_from(page, "start_page:", 0) {
        None => {
            return Err(Error::MissingFragment(String::from_str("start_page")));
        },
        Some(m) => m,
    };
    proof {
        lemma_first_match_from(page@, "start_page:"@, 0);
    }
    let mlen = "start_page:".unicode_len();
    let i = skip_spaces(page, m + mlen);
    let j = scan_digits(page, i);
    if j == i {
        return Err(Error::MissingFragment(String::from_str("start_page")));
    }
    proof {
        lemma_digits_end(page@, i as int);
    }
    match parse_dec_u64(page, i, j) {
        Some(v) => {
            if v > u32::MAX as u64 {
                Err(Error::DecodeFailure(String::from_str("start_page")))
            } else {
                Ok(v as u32)
            }
        },
        None => Err(Error::DecodeFailure(String::from_str("start_page"))),
    }
}

/// The gallery JSON of a page: the blob with its quote escapes undone,
/// parsed.
pub open spec fn page_gallery_model(page: Seq<char>) -> Option<JsonModel> {
    match gallery_blob(page) {
        None => None,
        Some(b) => json_of(replaced(b, "\\u0022"@, "\""@)),
    }
}

/// The whole reader extraction succeeds: the gallery blob is present and
/// decodes with the gallery shape, the media URL capture is present, and
/// the start page capture is a digit run in `u32` range.
pub open spec fn reader_page_ok(page: Seq<char>) -> bool {
    &&& (page_gallery_model(page) matches Some(j) && gallery_shape_ok(j))
    &&& media_url_capture(page) is Some
    &&& (start_page_capture(page) matches Some(d) && dec_val(d) <= u32::MAX)
}

/// `rd` is the record the page yields: its gallery decodes the page's
/// gallery JSON, and the two scalars are the page's captures.
pub open spec fn reader_matches_page(rd: Reader, page: Seq<char>) -> bool {
    &&& (page_gallery_model(page) matches Some(j) && gallery_matches(rd.gallery, j))
    &&& media_url_capture(page) == Some(rd.media_url@)
    &&& (start_page_capture(page) matches Some(d) && dec_val(d) == rd.start_page as nat)
}

impl Gallery {
    /// Extract the gallery object from one reader page: locate the
    /// `JSON.parse` blob, undo its quote escaping, and decode it.
    ///
    /// Succeeds exactly when the blob is present, parses as JSON, and has
    /// the gallery shape. A missing blob is a `MissingFragment`; a present
    /// blob that does not parse is a `DecodeFailure`.
    pub fn from_page(page: &str) -> (r: Result<Gallery, Error>)
        ensures
            r is Ok <==> (page_gallery_model(page@) matches Some(j) && gallery_shape_ok(j)),
            r matches Ok(g) ==> (page_gallery_model(page@) matches Some(j) && gallery_matches(
                g,
                j,
            )),
            gallery_blob(page@) is None ==> r matches Err(Error::MissingFragment(_)),
            (gallery_blob(page@) is Some && page_gallery_model(page@) is None) ==> r matches Err(
                Error::DecodeFailure(_),
            ),
            r matches Err(e) ==> (e matches Error::MissingFragment(_) || e matches
                Error::DecodeFailure(_)),
    {
        let blob = match extract_gallery_blob(page) {
            Some(b) => b,
            None => {
                return Err(Error::MissingFragment(String::from_str("window._gallery")));
            },
        };
        proof {
            reveal_strlit("\\u0022");
        }
        let unescaped = replace_all(blob.as_str(), "\\u0022", "\"");
        gallery_from_json(unescaped.as_str())
    }
}

impl Reader {
    /// Extract the full intermediate record from one reader page.
    ///
    /// Succeeds exactly when all three fragments are present and the
    /// gallery blob decodes; an absent fragment is a `MissingFragment`, a
    /// blob or start page that will not decode is a `DecodeFailure`.
    pub fn from_page(page: &str) -> (r: Result<Reader, Error>)
        ensures
            r is Ok <==> reader_page_ok(page@),
            r matches Ok(rd) ==> reader_matches_page(rd, page@),
            gallery_blob(page@) is None ==> r matches Err(Error::MissingFragment(_)),
            (gallery_blob(page@) is Some && page_gallery_model(page@) is None) ==> r matches Err(
                Error::DecodeFailure(_),
            ),
            (page_gallery_model(page@) matches Some(j) && gallery_shape_ok(j)
                && media_url_capture(page@) is None) ==> r matches Err(
                Error::MissingFragment(_),
            ),
            (page_gallery_model(page@) matches Some(j) && gallery_shape_ok(j)
                && media_url_capture(page@) is Some && start_page_capture(page@) is None)
                ==> r matches Err(Error::MissingFragment(_)),
            (page_gallery_model(page@) matches Some(j) && gallery_shape_ok(j)
                && media_url_capture(page@) is Some && (start_page_capture(
                page@,
            ) matches Some(d) && dec_val(d) > u32::MAX)) ==> r matches Err(
                Error::DecodeFailure(_),
            ),
    {
        let gallery = match Gallery::from_page(page) {
            Ok(g) => g,
            Err(e) => {
                return Err(e);
            },
        };
        let media_url = match extract_media_url(page) {
            Some(u) => u,
            None => {
                return Err(Error::MissingFragment(String::from_str("media_url")));
            },
        };
        let start_page = match extract_start_page(page) {
            Ok(sp) => sp,
            Err(e) => {
                return Err(e);
            },
        };
        Ok(Reader { media_url, gallery, start_page })
    }
}

} // verus!
