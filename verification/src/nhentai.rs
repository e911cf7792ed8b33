//! The reader site: normalizing its intermediate record into the unified
//! comic, and resolving its page and cover URLs from the CDN templates.

use vstd::prelude::*;

pub mod reader;

use crate::comic::{Comic, Page};
use crate::error::Error;
use crate::tags::{
    any_translated, bucket, collect_buckets, lemma_translated_flag_not_bucketed,
    lemma_translated_flag_sets, pairs_view, UnifiedCategory,
};
use crate::text::{
    dec_str, is_digit, lemma_dec_str_injective, lemma_dec_str_props, u64_to_string,
};
use reader::{ext_of, Gallery, ImageType, Reader, Tag, TagType};

verus! {

/// How the reader site's closed tag vocabulary maps to the unified
/// categories. A `language` tag named `translated` raises the translated
/// flag instead of naming a language.
pub open spec fn classify_reader_tag_spec(t: TagType, name: Seq<char>) -> (UnifiedCategory, Seq<
    char,
>) {
    match t {
        TagType::Tag => (UnifiedCategory::Tag, name),
        TagType::Language => if name == "translated"@ {
            (UnifiedCategory::TranslatedFlag, name)
        } else {
            (UnifiedCategory::Language, name)
        },
        TagType::Parody => (UnifiedCategory::Category, name),
        TagType::Character => (UnifiedCategory::Character, name),
        TagType::Group => (UnifiedCategory::Group, name),
        TagType::Artist => (UnifiedCategory::Author, name),
        TagType::Category => (UnifiedCategory::Category, name),
    }
}

/// The classified view of a reader tag list.
pub open spec fn classified_reader_tags(tags: Seq<Tag>) -> Seq<(UnifiedCategory, Seq<char>)> {
    tags.map_values(|t: Tag| classify_reader_tag_spec(t.tag_type, t.name@))
}

/// Classify one reader tag.
pub fn classify_reader_tag(t: &Tag) -> (r: (UnifiedCategory, String))
    ensures
        (r.0, r.1@) == classify_reader_tag_spec(t.tag_type, t.name@),
{
    let name = t.name.clone();
    match t.tag_type {
        TagType::Tag => (UnifiedCategory::Tag, name),
        TagType::Language => {
            if crate::text::str_eq(t.name.as_str(), "translated") {
                (UnifiedCategory::TranslatedFlag, name)
            } else {
                (UnifiedCategory::Language, name)
            }
        },
        TagType::Parody => (UnifiedCategory::Category, name),
        TagType::Character => (UnifiedCategory::Character, name),
        TagType::Group => (UnifiedCategory::Group, name),
        TagType::Artist => (UnifiedCategory::Author, name),
        TagType::Category => (UnifiedCategory::Category, name),
    }
}

/// The CDN template for a page URL:
/// `<media_url>galleries/<media_id>/<n>.<ext>` with a 1-based `n`.
pub open spec fn page_url_spec(
    media_url: Seq<char>,
    media_id: Seq<char>,
    n: nat,
    t: ImageType,
) -> Seq<char> {
    media_url + "galleries/"@ + media_id + "/"@ + dec_str(n) + "."@ + ext_of(t)
}

/// The 1-based file name of a resolved page: `<n>.<ext>`.
pub open spec fn page_name_spec(n: nat, t: ImageType) -> Seq<char> {
    dec_str(n) + "."@ + ext_of(t)
}

/// The CDN template for the cover URL:
/// `https://t.nhentai.net/galleries/<media_id>/cover.<ext>`.
pub open spec fn cover_url_spec(media_id: Seq<char>, t: ImageType) -> Seq<char> {
    "https://t.nhentai.net/galleries/"@ + media_id + "/cover."@ + ext_of(t)
}

/// The resolved page at 0-based position `idx` carries the templated URL
/// and 1-based file name for the source page, and its declared dimensions.
pub open spec fn resolved_page(
    p: Page,
    media_url: Seq<char>,
    media_id: Seq<char>,
    idx: int,
    src: reader::Page,
) -> bool {
    &&& p.url@ == page_url_spec(media_url, media_id, (idx + 1) as nat, src.image_type)
    &&& p.file_name@ == page_name_spec((idx + 1) as nat, src.image_type)
    &&& p.width == Some(src.width)
    &&& p.heigth == Some(src.heigth)
}

/// `c` is the normalization of the reader record `rd`: site, id, title
/// and upload date carried over, tag buckets exactly the classified tags
/// in order, the cover and every page resolved from the CDN templates with
/// ordering preserved and 1-based file names.
pub open spec fn normalized_comic(c: Comic, rd: Reader) -> bool {
    let g = rd.gallery;
    let cls = classified_reader_tags(g.tags@);
    &&& c.site@ == "nhentai"@
    &&& c.id@ == dec_str(g.id as nat)
    &&& c.title@ == g.title.pretty@
    &&& c.upload_date == g.upload_date
    &&& c.translated == any_translated(cls)
    &&& c.authors.deep_view() == bucket(cls, UnifiedCategory::Author)
    &&& c.categories.deep_view() == bucket(cls, UnifiedCategory::Category)
    &&& c.characters.deep_view() == bucket(cls, UnifiedCategory::Character)
    &&& c.groups.deep_view() == bucket(cls, UnifiedCategory::Group)
    &&& c.languages.deep_view() == bucket(cls, UnifiedCategory::Language)
    &&& c.tags.deep_view() == bucket(cls, UnifiedCategory::Tag)
    &&& c.cover.url@ == cover_url_spec(g.media_id@, g.images.cover.image_type)
    &&& c.cover.file_name@ == "cover."@ + ext_of(g.images.cover.image_type)
    &&& c.cover.width == Some(g.images.cover.width)
    &&& c.cover.heigth == Some(g.images.cover.heigth)
    &&& c.pages@.len() == g.images.pages@.len()
    &&& forall|k: int|
        0 <= k < g.images.pages@.len() ==> resolved_page(
            #[trigger] c.pages@[k],
            rd.media_url@,
            g.media_id@,
            k,
            g.images.pages@[k],
        )
}

/// Normalize a reader record into the unified comic.
///
/// Page ordering is preserved from the source, file names are 1-based, the
/// tag buckets are exactly the classified tags in input order, and the
/// translated flag is set if and only if some tag raised it.
pub fn comic_from_reader(rd: &Reader) -> (c: Comic)
    ensures
        normalized_comic(c, *rd),
{
    let g = &rd.gallery;

    let cover = {
        let ext = g.images.cover.image_type.ext();
        let mut url = String::from_str("https://t.nhentai.net/galleries/");
        url.append(g.media_id.as_str());
        url.append("/cover.");
        url.append(ext);
        let mut file_name = String::from_str("cover.");
        file_name.append(ext);
        Page {
            url,
            file_name,
            width: Some(g.images.cover.width),
            heigth: Some(g.images.cover.heigth),
        }
    };

    let mut pages: Vec<Page> = Vec::new();
    let mut i: usize = 0;
    while i < g.images.pages.len()
        invariant
            0 <= i <= g.images.pages@.len(),
            pages@.len() == i,
            forall|k: int|
                0 <= k < i ==> resolved_page(
                    #[trigger] pages@[k],
                    rd.media_url@,
                    g.media_id@,
                    k,
                    g.images.pages@[k],
                ),
        decreases g.images.pages@.len() - i,
    {
        let src = &g.images.pages[i];
        let ext = src.image_type.ext();
        let num = u64_to_string((i + 1) as u64);
        let mut url = rd.media_url.clone();
        url.append("galleries/");
        url.append(g.media_id.as_str());
        url.append("/");
        url.append(num.as_str());
        url.append(".");
        url.append(ext);
        let mut file_name = num;
        file_name.append(".");
        file_name.append(ext);
        proof {
            assert((i + 1) as u64 as nat == (i as int + 1) as nat);
        }
        pages.push(
            Page { url, file_name, width: Some(src.width), heigth: Some(src.heigth) },
        );
        i += 1;
    }

    let mut cls: Vec<(UnifiedCategory, String)> = Vec::new();
    let mut j: usize = 0;
    proof {
        assert(pairs_view(cls@) =~= classified_reader_tags(g.tags@.subrange(0, 0)));
    }
    while j < g.tags.len()
        invariant
            0 <= j <= g.tags@.len(),
            pairs_view(cls@) == classified_reader_tags(g.tags@.subrange(0, j as int)),
        decreases g.tags@.len() - j,
    {
        let pair = classify_reader_tag(&g.tags[j]);
        let ghost prev_cls = cls@;
        let ghost prev = g.tags@.subrange(0, j as int);
        let ghost next = g.tags@.subrange(0, j + 1);
        cls.push(pair);
        proof {
            assert(pairs_view(prev_cls).len() == prev_cls.len());
            assert(classified_reader_tags(prev).len() == prev.len());
            assert(prev_cls.len() == j);
            assert(cls@.len() == j + 1);
            assert forall|k: int| 0 <= k < cls@.len() implies pairs_view(cls@)[k]
                == classified_reader_tags(next)[k] by {
                assert(next[k] == g.tags@[k]);
                if k < j {
                    assert(cls@[k] == prev_cls[k]);
                    assert(pairs_view(prev_cls)[k] == classified_reader_tags(prev)[k]);
                    assert(prev[k] == g.tags@[k]);
                } else {
                    assert(cls@[k] == pair);
                }
            }
            assert(pairs_view(cls@) =~= classified_reader_tags(next));
        }
        j += 1;
    }
    proof {
        assert(g.tags@.subrange(0, g.tags@.len() as int) =~= g.tags@);
    }
    let buckets = collect_buckets(&cls);

    Comic {
        authors: buckets.authors,
        categories: buckets.categories,
        characters: buckets.characters,
        cover,
        id: u64_to_string(g.id as u64),
        groups: buckets.groups,
        languages: buckets.languages,
        pages,
        site: String::from_str("nhentai"),
        tags: buckets.tags,
        title: g.title.pretty.clone(),
        translated: buckets.translated,
        upload_date: g.upload_date,
    }
}

/// Extract a reader page and normalize it into the unified comic in one
/// step.
///
/// Succeeds exactly when the extraction succeeds, and the comic is then
/// the normalization of the record the page yields.
pub fn comic_from_page(page: &str) -> (r: Result<Comic, Error>)
    ensures
        r is Ok <==> reader::reader_page_ok(page@),
        r matches Ok(c) ==> exists|rd: Reader| #[trigger] reader::reader_matches_page(rd, page@)
            && normalized_comic(c, rd),
        reader::gallery_blob(page@) is None ==> r matches Err(Error::MissingFragment(_)),
        (reader::gallery_blob(page@) is Some && reader::page_gallery_model(page@) is None)
            ==> r matches Err(Error::DecodeFailure(_)),
{
    match Reader::from_page(page) {
        Ok(rd) => {
            let c = comic_from_reader(&rd);
            proof {
                assert(reader::reader_matches_page(rd, page@) && normalized_comic(c, rd));
            }
            Ok(c)
        },
        Err(e) => Err(e),
    }
}

/// A `language: translated` tag marks the record translated and adds no
/// entry to the language bucket: the remaining languages are exactly those
/// of the list without it.
pub proof fn lemma_translated_tag(tags: Seq<Tag>, i: int)
    requires
        0 <= i < tags.len(),
        tags[i].tag_type == TagType::Language,
        tags[i].name@ == "translated"@,
    ensures
        any_translated(classified_reader_tags(tags)),
        bucket(classified_reader_tags(tags), UnifiedCategory::Language) == bucket(
            classified_reader_tags(tags.remove(i)),
            UnifiedCategory::Language,
        ),
{
    let cls = classified_reader_tags(tags);
    assert(cls[i].0 == UnifiedCategory::TranslatedFlag);
    lemma_translated_flag_sets(cls, i);
    lemma_translated_flag_not_bucketed(cls, i, UnifiedCategory::Language);
    assert(classified_reader_tags(tags.remove(i)) =~= cls.remove(i));
}

/// 1-based page file names are unique within a page set: distinct positions
/// give distinct names, whatever the image types.
pub proof fn lemma_page_names_unique(a: nat, b: nat, ta: ImageType, tb: ImageType)
    requires
        a != b,
    ensures
        page_name_spec(a, ta) != page_name_spec(b, tb),
{
    lemma_dec_str_props(a);
    lemma_dec_str_props(b);
    reveal_strlit(".");
    reveal_strlit("jpg");
    reveal_strlit("png");
    reveal_strlit("gif");
    let na = dec_str(a);
    let nb = dec_str(b);
    let sa = page_name_spec(a, ta);
    let sb = page_name_spec(b, tb);
    if sa == sb {
        assert(sa.len() == sb.len());
        if na.len() == nb.len() {
            assert forall|k: int| 0 <= k < na.len() implies na[k] == nb[k] by {
                assert(sa[k] == na[k]);
                assert(sb[k] == nb[k]);
            }
            assert(na =~= nb);
            lemma_dec_str_injective(a, b);
        } else if na.len() < nb.len() {
            assert(sa[na.len() as int] == '.');
            assert(sb[na.len() as int] == nb[na.len() as int]);
            assert(is_digit(nb[na.len() as int]));
            assert(!is_digit('.'));
        } else {
            assert(sb[nb.len() as int] == '.');
            assert(sa[nb.len() as int] == na[nb.len() as int]);
            assert(is_digit(na[nb.len() as int]));
            assert(!is_digit('.'));
        }
    }
}

/// Page ordering round-trips through normalization: a record with N pages
/// in source order yields exactly N resolved pages in the same order, the
/// k-th carrying the 1-based file name `<k+1>.<ext>`, and those file names
/// are pairwise distinct.
pub proof fn lemma_page_order_round_trip(c: Comic, rd: Reader)
    requires
        c.pages@.len() == rd.gallery.images.pages@.len(),
        forall|k: int|
            0 <= k < rd.gallery.images.pages@.len() ==> resolved_page(
                #[trigger] c.pages@[k],
                rd.media_url@,
                rd.gallery.media_id@,
                k,
                rd.gallery.images.pages@[k],
            ),
    ensures
        forall|k: int|
            0 <= k < c.pages@.len() ==> (#[trigger] c.pages@[k]).file_name@ == page_name_spec(
                (k + 1) as nat,
                rd.gallery.images.pages@[k].image_type,
            ),
        forall|k1: int, k2: int|
            0 <= k1 < k2 < c.pages@.len() ==> (#[trigger] c.pages@[k1]).file_name@ != (
            #[trigger] c.pages@[k2]).file_name@,
{
    assert forall|k1: int, k2: int| 0 <= k1 < k2 < c.pages@.len() implies (
    #[trigger] c.pages@[k1]).file_name@ != (#[trigger] c.pages@[k2]).file_name@ by {
        lemma_page_names_unique(
            (k1 + 1) as nat,
            (k2 + 1) as nat,
            rd.gallery.images.pages@[k1].image_type,
            rd.gallery.images.pages@[k2].image_type,
        );
    }
}

} // verus!
