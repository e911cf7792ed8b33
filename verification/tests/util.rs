//! Text utilities, the single-image extractor, and storage paths.

use yuyu_core::comic::{Comic, Page};
use yuyu_core::error::Error;
use yuyu_core::foundry::foundry_image;
use yuyu_core::text::{last_path_segment, replace_all, replace_first, u64_to_string};

#[test]
fn numbers_render_in_decimal() {
    assert_eq!(u64_to_string(0), "0");
    assert_eq!(u64_to_string(7), "7");
    assert_eq!(u64_to_string(10), "10");
    assert_eq!(u64_to_string(2231376), "2231376");
    assert_eq!(u64_to_string(u64::MAX), "18446744073709551615");
}

#[test]
fn replace_all_rewrites_every_occurrence() {
    assert_eq!(replace_all("a\\u0022b\\u0022c", "\\u0022", "\""), "a\"b\"c");
    assert_eq!(replace_all("none here", "\\u0022", "\""), "none here");
    assert_eq!(replace_all("aaaa", "aa", "b"), "bb");
}

#[test]
fn replace_first_rewrites_only_the_leftmost() {
    assert_eq!(
        replace_first("//cdn.example/x//y.png", "//", "https://"),
        "https://cdn.example/x//y.png"
    );
    assert_eq!(replace_first("nothing", "//", "https://"), "nothing");
}

#[test]
fn last_path_segment_takes_the_final_component() {
    assert_eq!(last_path_segment("https://h.example/a/b/c.jpg"), "c.jpg");
    assert_eq!(last_path_segment("https://h.example/a/b/c.jpg?x=1"), "c.jpg");
    assert_eq!(last_path_segment("https://h.example/file.png#frag"), "file.png");
}

#[test]
fn foundry_image_absolutizes_the_protocol_relative_src() {
    let html = r#"<body><img class="center" src="//images.example/f/pic.png"></body>"#;
    let img = foundry_image(html).unwrap();
    assert_eq!(img.url, "https://images.example/f/pic.png");
}

#[test]
fn foundry_page_without_image_is_a_missing_fragment() {
    let r = foundry_image("<body><p>x</p></body>");
    assert!(matches!(r, Err(Error::MissingFragment(_))));
}

#[test]
fn storage_paths_derive_from_site_id_and_file_name() {
    let page = Page {
        file_name: String::from("1.jpg"),
        heigth: None,
        url: String::from("https://h/1.jpg"),
        width: None,
    };
    let comic = Comic {
        authors: vec![],
        categories: vec![],
        characters: vec![],
        cover: Page {
            file_name: String::from("cover.jpg"),
            heigth: None,
            url: String::from("https://h/c.jpg"),
            width: None,
        },
        id: String::from("123"),
        groups: vec![],
        languages: vec![],
        pages: vec![],
        site: String::from("nhentai"),
        tags: vec![],
        title: String::from("t"),
        translated: false,
        upload_date: 0,
    };
    assert_eq!(comic.storage_dir(), "nhentai/123");
    assert_eq!(comic.page_path(&page), "nhentai/123/1.jpg");
}

#[test]
fn error_descriptions_name_the_failure() {
    assert_eq!(Error::EmptyResult.describe(), "empty result");
    assert_eq!(
        Error::MissingFragment(String::from("media_url")).describe(),
        "missing fragment: media_url"
    );
    assert_eq!(Error::UrlPatternMismatch.describe(), "url pattern mismatch");
    assert_eq!(
        Error::DecodeFailure(String::from("posted")).describe(),
        "decode failure: posted"
    );
    assert_eq!(
        Error::NetworkFailure(String::from("timed out")).describe(),
        "network failure: timed out"
    );
}
