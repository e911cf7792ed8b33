//! The tag classifier on concrete vocabulary.

use yuyu_core::tags::{classify_gallery_tag, classify_raw_tags, collect_buckets, UnifiedCategory};

#[test]
fn artist_namespace_maps_to_author() {
    let r = classify_gallery_tag("artist:someone").unwrap();
    assert!(matches!(r.0, UnifiedCategory::Author));
    assert_eq!(r.1, "someone");
}

#[test]
fn character_namespace_maps_to_character() {
    let r = classify_gallery_tag("character:hero").unwrap();
    assert!(matches!(r.0, UnifiedCategory::Character));
    assert_eq!(r.1, "hero");
}

#[test]
fn group_namespace_maps_to_group() {
    let r = classify_gallery_tag("group:circle").unwrap();
    assert!(matches!(r.0, UnifiedCategory::Group));
}

#[test]
fn gender_namespaces_collapse_into_tags() {
    let f = classify_gallery_tag("female:glasses").unwrap();
    assert!(matches!(f.0, UnifiedCategory::Tag));
    assert_eq!(f.1, "glasses");
    let m = classify_gallery_tag("male:hat").unwrap();
    assert!(matches!(m.0, UnifiedCategory::Tag));
}

#[test]
fn parody_and_reclass_map_to_category() {
    assert!(matches!(
        classify_gallery_tag("parody:series").unwrap().0,
        UnifiedCategory::Category
    ));
    assert!(matches!(
        classify_gallery_tag("reclass:manga").unwrap().0,
        UnifiedCategory::Category
    ));
}

#[test]
fn no_namespace_is_a_plain_tag() {
    let r = classify_gallery_tag("plain").unwrap();
    assert!(matches!(r.0, UnifiedCategory::Tag));
    assert_eq!(r.1, "plain");
}

#[test]
fn language_value_becomes_language() {
    let r = classify_gallery_tag("language:english").unwrap();
    assert!(matches!(r.0, UnifiedCategory::Language));
    assert_eq!(r.1, "english");
}

#[test]
fn language_translated_raises_the_flag() {
    let r = classify_gallery_tag("language:translated").unwrap();
    assert!(matches!(r.0, UnifiedCategory::TranslatedFlag));
}

#[test]
fn unrecognized_namespace_is_dropped_without_error() {
    assert!(classify_gallery_tag("weird:thing").is_none());
    assert!(classify_gallery_tag("other:stuff").is_none());
}

#[test]
fn buckets_preserve_order_and_duplicates() {
    let pairs = vec![
        (UnifiedCategory::Tag, String::from("b")),
        (UnifiedCategory::Author, String::from("a1")),
        (UnifiedCategory::Tag, String::from("b")),
        (UnifiedCategory::Language, String::from("english")),
        (UnifiedCategory::TranslatedFlag, String::from("translated")),
        (UnifiedCategory::Author, String::from("a2")),
    ];
    let b = collect_buckets(&pairs);
    assert_eq!(b.tags, vec!["b".to_string(), "b".to_string()]);
    assert_eq!(b.authors, vec!["a1".to_string(), "a2".to_string()]);
    assert_eq!(b.languages, vec!["english".to_string()]);
    assert!(b.translated);
    assert!(b.categories.is_empty());
}

#[test]
fn no_translated_flag_leaves_comic_untranslated() {
    let pairs = vec![(UnifiedCategory::Language, String::from("japanese"))];
    let b = collect_buckets(&pairs);
    assert!(!b.translated);
    assert_eq!(b.languages, vec!["japanese".to_string()]);
}

#[test]
fn dropped_tags_are_reported_by_the_diagnostic_hook() {
    let raws = vec![
        "artist:someone".to_string(),
        "weird:thing".to_string(),
        "plain".to_string(),
        "other:stuff".to_string(),
    ];
    let (classified, dropped) = classify_raw_tags(&raws);
    assert_eq!(classified.len(), 2);
    assert!(matches!(classified[0].0, UnifiedCategory::Author));
    assert!(matches!(classified[1].0, UnifiedCategory::Tag));
    assert_eq!(
        dropped,
        vec!["weird:thing".to_string(), "other:stuff".to_string()]
    );
}
