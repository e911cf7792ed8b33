//! The gallery-site extractor: URL parsing, the API exchange, page link
//! and image extraction, and normalization.

use yuyu_core::comic::Page;
use yuyu_core::ehentai::{
    comic_from_parts, gallery_page_image, gallery_page_links, metadata_from_api_json,
    pages_from_docs, parse_gallery_url, ApiRequest,
};
use yuyu_core::error::Error;

#[test]
fn gallery_url_parses_into_id_and_token() {
    let (id, token) = parse_gallery_url("https://e-hentai.org/g/2231376/abc123").unwrap();
    assert_eq!(id, 2231376);
    assert_eq!(token, "abc123");
}

#[test]
fn gallery_url_with_trailing_path_still_parses() {
    let (id, token) = parse_gallery_url("https://e-hentai.org/g/42/tok?p=1").unwrap();
    assert_eq!(id, 42);
    assert_eq!(token, "tok");
}

#[test]
fn non_matching_url_is_a_pattern_mismatch() {
    let r = parse_gallery_url("https://e-hentai.org/s/whatever/123-4");
    assert!(matches!(r, Err(Error::UrlPatternMismatch)));
}

#[test]
fn foreign_host_is_a_pattern_mismatch() {
    let r = parse_gallery_url("https://example.com/g/123/abc");
    assert!(matches!(r, Err(Error::UrlPatternMismatch)));
}

#[test]
fn url_without_token_is_a_pattern_mismatch() {
    let r = parse_gallery_url("https://e-hentai.org/g/123/");
    assert!(matches!(r, Err(Error::UrlPatternMismatch)));
}

#[test]
fn api_request_renders_its_exact_json_body() {
    let req = ApiRequest::gdata(2231376, String::from("abc123"));
    assert_eq!(
        req.body_json(),
        r#"{"method":"gdata","gidlist":[[2231376,"abc123"]],"namespace":1}"#
    );
}

fn sample_api_json() -> &'static str {
    "{\"gmetadata\":[{\"gid\":2231376,\"token\":\"abc123\",\"archiver_key\":\"k\",\"title\":\"A Gallery\",\"title_jpn\":\"\",\"category\":\"Doujinshi\",\"thumb\":\"https://ehgt.org/t/ab/cover-thumb.jpg\",\"uploader\":\"u\",\"posted\":\"1634170326\",\"filecount\":\"10\",\"filesize\":12345,\"expunged\":false,\"rating\":\"4.5\",\"torrentcount\":\"0\",\"torrents\":[],\"tags\":[\"artist:someone\",\"language:translated\",\"language:english\",\"female:glasses\",\"parody:series\",\"weird:thing\",\"plain\"]}]}"
}

#[test]
fn api_response_decodes_its_record() {
    let meta = metadata_from_api_json(sample_api_json()).unwrap();
    assert_eq!(meta.gid, 2231376);
    assert_eq!(meta.token, "abc123");
    assert_eq!(meta.title, "A Gallery");
    assert_eq!(meta.thumb, "https://ehgt.org/t/ab/cover-thumb.jpg");
    assert_eq!(meta.posted, "1634170326");
    assert_eq!(meta.tags.len(), 7);
}

#[test]
fn empty_gmetadata_is_an_empty_result() {
    let r = metadata_from_api_json(r#"{"gmetadata":[]}"#);
    assert!(matches!(r, Err(Error::EmptyResult)));
}

#[test]
fn missing_gmetadata_is_a_missing_fragment() {
    let r = metadata_from_api_json(r#"{"other":[]}"#);
    assert!(matches!(r, Err(Error::MissingFragment(_))));
}

#[test]
fn normalizer_classifies_and_resolves_the_cover() {
    let meta = metadata_from_api_json(sample_api_json()).unwrap();
    let comic = comic_from_parts(meta, Vec::new()).unwrap();
    assert_eq!(comic.site, "e-hentai");
    assert_eq!(comic.id, "2231376");
    assert_eq!(comic.title, "A Gallery");
    assert_eq!(comic.upload_date, 1634170326);
    assert_eq!(comic.cover.url, "https://ehgt.org/t/ab/cover-thumb.jpg");
    assert_eq!(comic.cover.file_name, "cover-thumb.jpg");
    assert_eq!(comic.authors, vec!["someone".to_string()]);
    assert!(comic.translated);
    assert_eq!(comic.languages, vec!["english".to_string()]);
    assert_eq!(comic.tags, vec!["glasses".to_string(), "plain".to_string()]);
    assert_eq!(comic.categories, vec!["series".to_string()]);
    assert!(comic.characters.is_empty());
}

#[test]
fn unparsable_posted_field_fails_normalization() {
    let mut meta = metadata_from_api_json(sample_api_json()).unwrap();
    meta.posted = String::from("not a number");
    let r = comic_from_parts(meta, Vec::new());
    assert!(matches!(r, Err(Error::DecodeFailure(_))));
}

fn listing_html() -> &'static str {
    "<div id=\"gdt\"><div class=\"gdtm\"><div><a href=\"https://e-hentai.org/s/a1/1\"></a></div></div><div class=\"gdtm\"><div><a href=\"https://e-hentai.org/s/a2/2\"></a></div></div><div class=\"gdtm\"><div><a href=\"https://e-hentai.org/s/a3/3\"></a></div></div></div>"
}

#[test]
fn page_links_come_out_in_document_order() {
    let links = gallery_page_links(listing_html()).unwrap();
    assert_eq!(
        links,
        vec![
            "https://e-hentai.org/s/a1/1".to_string(),
            "https://e-hentai.org/s/a2/2".to_string(),
            "https://e-hentai.org/s/a3/3".to_string(),
        ]
    );
}

#[test]
fn anchor_without_href_is_a_missing_fragment() {
    let html = r#"<div id="gdt"><div class="gdtm"><div><a></a></div></div></div>"#;
    let r = gallery_page_links(html);
    assert!(matches!(r, Err(Error::MissingFragment(_))));
}

#[test]
fn page_image_resolves_url_and_file_name() {
    let html = r#"<body><img id="img" src="https://host.example/ab/cd/012-b.jpg"></body>"#;
    let page = gallery_page_image(html).unwrap();
    assert_eq!(page.url, "https://host.example/ab/cd/012-b.jpg");
    assert_eq!(page.file_name, "012-b.jpg");
    assert_eq!(page.width, None);
    assert_eq!(page.heigth, None);
}

#[test]
fn page_without_image_is_a_missing_fragment() {
    let r = gallery_page_image("<body><p>nothing</p></body>");
    assert!(matches!(r, Err(Error::MissingFragment(_))));
}

#[test]
fn fetched_documents_resolve_in_order() {
    let docs = vec![
        r#"<img id="img" src="https://h/x/1.jpg">"#.to_string(),
        r#"<img id="img" src="https://h/x/2.jpg">"#.to_string(),
    ];
    let pages: Vec<Page> = pages_from_docs(&docs).unwrap();
    assert_eq!(pages.len(), 2);
    assert_eq!(pages[0].file_name, "1.jpg");
    assert_eq!(pages[1].file_name, "2.jpg");
}

#[test]
fn duplicate_page_file_names_are_a_decode_failure() {
    let docs = vec![
        r#"<img id="img" src="https://h/x/same.jpg">"#.to_string(),
        r#"<img id="img" src="https://h/y/same.jpg">"#.to_string(),
    ];
    let r = pages_from_docs(&docs);
    assert!(matches!(r, Err(Error::DecodeFailure(_))));
}
