//! The tag classifier: maps a site's raw tag into one of the unified
//! categories, and folds a stream of classified tags into the per-category
//! buckets of a comic.
//!
//! The gallery site hands its tags over as flat `namespace:value` strings;
//! a tag without a namespace is a plain tag. A `language` tag whose value is
//! the literal `translated` does not name a language: it sets the comic's
//! translated flag instead. A namespace outside the site's vocabulary is
//! silently dropped.

use vstd::prelude::*;

use crate::text::range_eq;

verus! {

/// The unified tag categories shared by every site.
#[derive(Debug, Clone, Copy, PartialEq, Eq, Structural)]
pub enum UnifiedCategory {
    Author,
    Category,
    Character,
    Group,
    Language,
    Tag,
    /// Not a bucket of its own: marks the comic as translated.
    TranslatedFlag,
}

/// The position of the first `:` in `s` at or after `i`, if any.
pub open spec fn first_colon(s: Seq<char>, i: int) -> Option<int>
    decreases s.len() - i
        when 0 <= i <= s.len()
{
    if i == s.len() {
        None
    } else if s[i] == ':' {
        Some(i)
    } else {
        first_colon(s, i + 1)
    }
}

/// How the gallery site's namespace vocabulary maps to the unified
/// categories. `None` is a namespace outside the vocabulary: the tag is
/// dropped.
pub open spec fn classify_pair(ns: Seq<char>, value: Seq<char>) -> Option<
    (UnifiedCategory, Seq<char>),
> {
    if ns == "artist"@ {
        Some((UnifiedCategory::Author, value))
    } else if ns == "character"@ {
        Some((UnifiedCategory::Character, value))
    } else if ns == "female"@ || ns == "male"@ {
        Some((UnifiedCategory::Tag, value))
    } else if ns == "group"@ {
        Some((UnifiedCategory::Group, value))
    } else if ns == "language"@ {
        if value == "translated"@ {
            Some((UnifiedCategory::TranslatedFlag, value))
        } else {
            Some((UnifiedCategory::Language, value))
        }
    } else if ns == "parody"@ || ns == "reclass"@ {
        Some((UnifiedCategory::Category, value))
    } else {
        None
    }
}

/// Classification of one raw gallery tag: split at the first `:`; no colon
/// means a plain tag.
pub open spec fn classify_raw(raw: Seq<char>) -> Option<(UnifiedCategory, Seq<char>)> {
    match first_colon(raw, 0) {
        None => Some((UnifiedCategory::Tag, raw)),
        Some(p) => classify_pair(raw.subrange(0, p), raw.skip(p + 1)),
    }
}

/// A raw tag whose namespace is outside the vocabulary classifies to
/// nothing: it is dropped, not an error.
pub proof fn lemma_unrecognized_namespace_dropped(raw: Seq<char>, p: int)
    requires
        first_colon(raw, 0) == Some(p),
        classify_pair(raw.subrange(0, p), raw.skip(p + 1)) is None,
    ensures
        classify_raw(raw) is None,
{
}

/// A raw `language:translated` tag classifies to the translated flag, not
/// to a language entry; with `lemma_translated_flag_not_bucketed`, it adds
/// nothing to the language bucket.
pub proof fn lemma_language_translated_raw(raw: Seq<char>, p: int)
    requires
        first_colon(raw, 0) == Some(p),
        raw.subrange(0, p) == "language"@,
        raw.skip(p + 1) == "translated"@,
    ensures
        classify_raw(raw) == Some((UnifiedCategory::TranslatedFlag, "translated"@)),
{
    reveal_strlit("artist");
    reveal_strlit("character");
    reveal_strlit("female");
    reveal_strlit("male");
    reveal_strlit("group");
    reveal_strlit("language");
    assert("artist"@.len() == 6 && "character"@.len() == 9 && "female"@.len() == 6);
    assert("male"@.len() == 4 && "group"@.len() == 5 && "language"@.len() == 8);
    assert("language"@[0] == 'l' && "artist"@[0] == 'a' && "female"@[0] == 'f');
    assert("language"@ != "artist"@ && "language"@ != "character"@);
    assert("language"@ != "female"@ && "language"@ != "male"@);
    assert("language"@ != "group"@);
}

fn find_colon(s: &str) -> (r: Option<usize>)
    ensures
        match r {
            Some(p) => first_colon(s@, 0) == Some(p as int) && p < s@.len(),
            None => first_colon(s@, 0) is None,
        },
{
    let slen = s.unicode_len();
    let mut i: usize = 0;
    while i < slen
        invariant
            slen == s@.len(),
            0 <= i <= slen,
            first_colon(s@, 0) == first_colon(s@, i as int),
        decreases slen - i,
    {
        if s.get_char(i) == ':' {
            return Some(i);
        }
        i += 1;
    }
    None
}

/// Classify one raw gallery tag, yielding its unified category and value,
/// or nothing when the namespace is unrecognized.
pub fn classify_gallery_tag(raw: &str) -> (r: Option<(UnifiedCategory, String)>)
    ensures
        r is Some <==> classify_raw(raw@) is Some,
        r matches Some(p) ==> classify_raw(raw@) matches Some(q) && p.0 == q.0 && p.1@ == q.1,
{
    let slen = raw.unicode_len();
    match find_colon(raw) {
        None => Some((UnifiedCategory::Tag, String::from_str(raw))),
        Some(p) => {
            let value = String::from_str(raw.substring_char(p + 1, slen));
            proof {
                assert(raw@.subrange(p + 1, slen as int) =~= raw@.skip(p + 1));
            }
            let cat = if range_eq(raw, 0, p, "artist") {
                Some(UnifiedCategory::Author)
            } else if range_eq(raw, 0, p, "character") {
                Some(UnifiedCategory::Character)
            } else if range_eq(raw, 0, p, "female") || range_eq(raw, 0, p, "male") {
                Some(UnifiedCategory::Tag)
            } else if range_eq(raw, 0, p, "group") {
                Some(UnifiedCategory::Group)
            } else if range_eq(raw, 0, p, "language") {
                if range_eq(raw, p + 1, slen, "translated") {
                    Some(UnifiedCategory::TranslatedFlag)
                } else {
                    Some(UnifiedCategory::Language)
                }
            } else if range_eq(raw, 0, p, "parody") || range_eq(raw, 0, p, "reclass") {
                Some(UnifiedCategory::Category)
            } else {
                None
            };
            match cat {
                Some(c) => Some((c, value)),
                None => None,
            }
        },
    }
}

/// The classified view of a raw gallery tag list: each tag classified in
/// order, with dropped tags contributing nothing.
pub open spec fn classified_raw_tags(raws: Seq<Seq<char>>) -> Seq<(UnifiedCategory, Seq<char>)>
    decreases raws.len(),
{
    if raws.len() == 0 {
        Seq::empty()
    } else {
        classified_raw_tags(raws.drop_last()) + (match classify_raw(raws.last()) {
            Some(p) => seq![p],
            None => Seq::empty(),
        })
    }
}

/// A raw tag that classifies to nothing contributes no classified entry:
/// the classified list is that of the input without it.
pub proof fn lemma_dropped_tag_no_entry(raws: Seq<Seq<char>>, i: int)
    requires
        0 <= i < raws.len(),
        classify_raw(raws[i]) is None,
    ensures
        classified_raw_tags(raws) == classified_raw_tags(raws.remove(i)),
    decreases raws.len(),
{
    if i == raws.len() - 1 {
        assert(raws.remove(i) =~= raws.drop_last());
        assert(classified_raw_tags(raws) =~= classified_raw_tags(raws.drop_last()));
    } else {
        lemma_dropped_tag_no_entry(raws.drop_last(), i);
        assert(raws.remove(i).drop_last() =~= raws.drop_last().remove(i));
        assert(raws.remove(i).last() == raws.last());
    }
}

/// The raw tags that classification drops, in input order.
pub open spec fn dropped_raw_tags(raws: Seq<Seq<char>>) -> Seq<Seq<char>>
    decreases raws.len(),
{
    if raws.len() == 0 {
        Seq::empty()
    } else {
        dropped_raw_tags(raws.drop_last()) + (match classify_raw(raws.last()) {
            Some(_) => Seq::empty(),
            None => seq![raws.last()],
        })
    }
}

/// Classify a list of raw gallery tags, also reporting the dropped ones:
/// the diagnostic hook for the silent-drop policy. The first list is the
/// classified tags, the second the raw tags whose namespace was
/// unrecognized, both in input order.
pub fn classify_raw_tags(raws: &Vec<String>) -> (r: (Vec<(UnifiedCategory, String)>, Vec<String>))
    ensures
        pairs_view(r.0@) == classified_raw_tags(raws.deep_view()),
        r.1.deep_view() == dropped_raw_tags(raws.deep_view()),
{
    let ghost rv = raws.deep_view();
    let mut cls: Vec<(UnifiedCategory, String)> = Vec::new();
    let mut dropped: Vec<String> = Vec::new();
    let mut i: usize = 0;
    proof {
        assert(pairs_view(cls@) =~= classified_raw_tags(rv.subrange(0, 0)));
        assert(dropped.deep_view() =~= dropped_raw_tags(rv.subrange(0, 0)));
    }
    while i < raws.len()
        invariant
            0 <= i <= raws@.len(),
            rv == raws.deep_view(),
            rv.len() == raws@.len(),
            pairs_view(cls@) == classified_raw_tags(rv.subrange(0, i as int)),
            dropped.deep_view() == dropped_raw_tags(rv.subrange(0, i as int)),
        decreases raws@.len() - i,
    {
        let ghost prev_cls = cls@;
        let ghost prev_dropped = dropped.deep_view();
        match classify_gallery_tag(raws[i].as_str()) {
            Some(pair) => {
                cls.push(pair);
            },
            None => {
                dropped.push(raws[i].clone());
            },
        }
        proof {
            let pre = rv.subrange(0, i as int);
            let now = rv.subrange(0, i + 1);
            assert(now.drop_last() =~= pre);
            assert(now.last() == rv[i as int]);
            assert(rv[i as int] == raws@[i as int]@);
            assert forall|k: int| 0 <= k < cls@.len() implies pairs_view(cls@)[k]
                == classified_raw_tags(now)[k] by {
                assert(pairs_view(prev_cls).len() == prev_cls.len());
                assert(classified_raw_tags(pre).len() == pairs_view(prev_cls).len());
                if k < prev_cls.len() {
                    assert(cls@[k] == prev_cls[k]);
                    assert(pairs_view(prev_cls)[k] == classified_raw_tags(pre)[k]);
                }
            }
            assert(pairs_view(cls@).len() == classified_raw_tags(now).len());
            assert(pairs_view(cls@) =~= classified_raw_tags(now));
            assert forall|k: int| 0 <= k < dropped.deep_view().len() implies dropped.deep_view()[k]
                == dropped_raw_tags(now)[k] by {
                if k < prev_dropped.len() {
                    assert(dropped.deep_view()[k] == prev_dropped[k]);
                    assert(prev_dropped[k] == dropped_raw_tags(pre)[k]);
                }
            }
            assert(dropped.deep_view().len() == dropped_raw_tags(now).len());
            assert(dropped.deep_view() =~= dropped_raw_tags(now));
        }
        i += 1;
    }
    proof {
        assert(rv.subrange(0, rv.len() as int) =~= rv);
    }
    (cls, dropped)
}

/// The view of a classified-tag list: each value as its character sequence.
pub open spec fn pairs_view(v: Seq<(UnifiedCategory, String)>) -> Seq<(UnifiedCategory, Seq<char>)> {
    v.map_values(|p: (UnifiedCategory, String)| (p.0, p.1@))
}

/// The values classified under `cat`, in input order.
pub open spec fn bucket(cls: Seq<(UnifiedCategory, Seq<char>)>, cat: UnifiedCategory) -> Seq<
    Seq<char>,
>
    decreases cls.len(),
{
    if cls.len() == 0 {
        Seq::empty()
    } else if cls.last().0 == cat {
        bucket(cls.drop_last(), cat).push(cls.last().1)
    } else {
        bucket(cls.drop_last(), cat)
    }
}

/// Whether any classified tag raised the translated flag.
pub open spec fn any_translated(cls: Seq<(UnifiedCategory, Seq<char>)>) -> bool
    decreases cls.len(),
{
    if cls.len() == 0 {
        false
    } else {
        any_translated(cls.drop_last()) || cls.last().0 == UnifiedCategory::TranslatedFlag
    }
}

/// One classified `TranslatedFlag` entry makes the whole list translated.
pub proof fn lemma_translated_flag_sets(cls: Seq<(UnifiedCategory, Seq<char>)>, i: int)
    requires
        0 <= i < cls.len(),
        cls[i].0 == UnifiedCategory::TranslatedFlag,
    ensures
        any_translated(cls),
    decreases cls.len(),
{
    if i < cls.len() - 1 {
        lemma_translated_flag_sets(cls.drop_last(), i);
    }
}

/// A `TranslatedFlag` entry adds nothing to any bucket: the language list in
/// particular gains no entry from it.
pub proof fn lemma_translated_flag_not_bucketed(
    cls: Seq<(UnifiedCategory, Seq<char>)>,
    i: int,
    cat: UnifiedCategory,
)
    requires
        0 <= i < cls.len(),
        cls[i].0 == UnifiedCategory::TranslatedFlag,
        cat != UnifiedCategory::TranslatedFlag,
    ensures
        bucket(cls, cat) == bucket(cls.remove(i), cat),
    decreases cls.len(),
{
    if i == cls.len() - 1 {
        assert(cls.remove(i) =~= cls.drop_last());
    } else {
        lemma_translated_flag_not_bucketed(cls.drop_last(), i, cat);
        assert(cls.remove(i).drop_last() =~= cls.drop_last().remove(i));
        assert(cls.remove(i).last() == cls.last());
    }
}

/// The per-category tag buckets of a comic, plus the translated flag.
pub struct TagBuckets {
    pub authors: Vec<String>,
    pub categories: Vec<String>,
    pub characters: Vec<String>,
    pub groups: Vec<String>,
    pub languages: Vec<String>,
    pub tags: Vec<String>,
    pub translated: bool,
}

impl TagBuckets {
    /// Every field holds exactly its bucket of `cls`, in input order.
    pub open spec fn matches(self, cls: Seq<(UnifiedCategory, Seq<char>)>) -> bool {
        &&& self.authors.deep_view() == bucket(cls, UnifiedCategory::Author)
        &&& self.categories.deep_view() == bucket(cls, UnifiedCategory::Category)
        &&& self.characters.deep_view() == bucket(cls, UnifiedCategory::Character)
        &&& self.groups.deep_view() == bucket(cls, UnifiedCategory::Group)
        &&& self.languages.deep_view() == bucket(cls, UnifiedCategory::Language)
        &&& self.tags.deep_view() == bucket(cls, UnifiedCategory::Tag)
        &&& self.translated == any_translated(cls)
    }
}

/// Fold a list of classified tags into per-category buckets, preserving
/// input order and keeping duplicates.
pub fn collect_buckets(pairs: &Vec<(UnifiedCategory, String)>) -> (r: TagBuckets)
    ensures
        r.matches(pairs_view(pairs@)),
{
    let mut r = TagBuckets {
        authors: Vec::new(),
        categories: Vec::new(),
        characters: Vec::new(),
        groups: Vec::new(),
        languages: Vec::new(),
        tags: Vec::new(),
        translated: false,
    };
    proof {
        assert(pairs_view(pairs@.subrange(0, 0)) =~= Seq::empty());
        assert(r.authors.deep_view() =~= Seq::<Seq<char>>::empty());
        assert(r.categories.deep_view() =~= Seq::<Seq<char>>::empty());
        assert(r.characters.deep_view() =~= Seq::<Seq<char>>::empty());
        assert(r.groups.deep_view() =~= Seq::<Seq<char>>::empty());
        assert(r.languages.deep_view() =~= Seq::<Seq<char>>::empty());
        assert(r.tags.deep_view() =~= Seq::<Seq<char>>::empty());
    }
    let mut i: usize = 0;
    while i < pairs.len()
        invariant
            0 <= i <= pairs.len(),
            r.matches(pairs_view(pairs@.subrange(0, i as int))),
        decreases pairs.len() - i,
    {
        let cat = pairs[i].0;
        let value = pairs[i].1.clone();
        proof {
            let prev = pairs_view(pairs@.subrange(0, i as int));
            let next = pairs_view(pairs@.subrange(0, i + 1));
            assert(next.drop_last() =~= prev);
            assert(next.last() == (pairs@[i as int].0, pairs@[i as int].1@));
        }
        match cat {
            UnifiedCategory::Author => {
                r.authors.push(value);
            },
            UnifiedCategory::Category => {
                r.categories.push(value);
            },
            UnifiedCategory::Character => {
                r.characters.push(value);
            },
            UnifiedCategory::Group => {
                r.groups.push(value);
            },
            UnifiedCategory::Language => {
                r.languages.push(value);
            },
            UnifiedCategory::Tag => {
                r.tags.push(value);
            },
            UnifiedCategory::TranslatedFlag => {
                r.translated = true;
            },
        }
        proof {
            let next = pairs_view(pairs@.subrange(0, i + 1));
            assert(r.authors.deep_view() =~= bucket(next, UnifiedCategory::Author));
            assert(r.categories.deep_view() =~= bucket(next, UnifiedCategory::Category));
            assert(r.characters.deep_view() =~= bucket(next, UnifiedCategory::Character));
            assert(r.groups.deep_view() =~= bucket(next, UnifiedCategory::Group));
            assert(r.languages.deep_view() =~= bucket(next, UnifiedCategory::Language));
            assert(r.tags.deep_view() =~= bucket(next, UnifiedCategory::Tag));
        }
        i += 1;
    }
    proof {
        assert(pairs@.subrange(0, pairs@.len() as int) =~= pairs@);
    }
    r
}

} // verus!
