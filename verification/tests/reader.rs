//! The reader-site extractor and normalizer on a full synthetic page.

use yuyu_core::error::Error;
use yuyu_core::nhentai::{comic_from_page, comic_from_reader};
use yuyu_core::nhentai::reader::{Gallery, Reader};

fn sample_page() -> String {
    let gallery = "{\"id\":123,\"media_id\":\"998877\",\"title\":{\"english\":null,\"japanese\":null,\"pretty\":\"A Title\"},\"images\":{\"pages\":[{\"t\":\"j\",\"w\":100,\"h\":150},{\"t\":\"p\",\"w\":200,\"h\":250},{\"t\":\"g\",\"w\":300,\"h\":350}],\"cover\":{\"t\":\"j\",\"w\":350,\"h\":500},\"thumbnail\":{\"t\":\"p\",\"w\":35,\"h\":50}},\"scanlator\":\"\",\"upload_date\":1634170326,\"tags\":[{\"id\":1,\"type\":\"tag\",\"name\":\"glasses\",\"url\":\"/t/\",\"count\":5},{\"id\":2,\"type\":\"language\",\"name\":\"english\",\"url\":\"/l/\",\"count\":5},{\"id\":3,\"type\":\"language\",\"name\":\"translated\",\"url\":\"/l/\",\"count\":5},{\"id\":4,\"type\":\"parody\",\"name\":\"some series\",\"url\":\"/p/\",\"count\":5},{\"id\":5,\"type\":\"character\",\"name\":\"hero\",\"url\":\"/c/\",\"count\":5},{\"id\":6,\"type\":\"group\",\"name\":\"circle\",\"url\":\"/g/\",\"count\":5},{\"id\":7,\"type\":\"artist\",\"name\":\"someone\",\"url\":\"/a/\",\"count\":5},{\"id\":8,\"type\":\"category\",\"name\":\"doujinshi\",\"url\":\"/cat/\",\"count\":5}],\"num_pages\":3,\"num_favorites\":7}";
    // The page embeds the JSON with every quote written as an escaped
    // unicode sequence, exactly as the site serves it.
    let escaped = gallery.replace('"', "\\u0022");
    format!(
        "<script>\nwindow._gallery = JSON.parse(\"{}\");\nwindow._n_app = {{\n  media_url: 'https://i.example.net/',\n  start_page: 0}}\n</script>\n",
        escaped
    )
}

#[test]
fn reader_extracts_the_three_fragments() {
    let page = sample_page();
    let reader = Reader::from_page(&page).unwrap();
    assert_eq!(reader.media_url, "https://i.example.net/");
    assert_eq!(reader.start_page, 0);
    assert_eq!(reader.gallery.id, 123);
    assert_eq!(reader.gallery.media_id, "998877");
    assert_eq!(reader.gallery.title.pretty, "A Title");
    assert_eq!(reader.gallery.num_pages, 3);
    assert_eq!(reader.gallery.upload_date, 1634170326);
    assert_eq!(reader.gallery.tags.len(), 8);
}

#[test]
fn gallery_extracts_and_unescapes_its_blob() {
    let page = sample_page();
    let gallery = Gallery::from_page(&page).unwrap();
    assert_eq!(gallery.id, 123);
    assert_eq!(gallery.images.pages.len(), 3);
    assert_eq!(gallery.images.cover.width, 350);
    assert_eq!(gallery.scanlator, "");
    assert_eq!(gallery.num_favorites, 7);
    assert!(gallery.title.english.is_none());
}

#[test]
fn page_ordering_round_trips_with_one_based_names() {
    let page = sample_page();
    let comic = comic_from_page(&page).unwrap();
    assert_eq!(comic.pages.len(), 3);
    assert_eq!(comic.pages[0].file_name, "1.jpg");
    assert_eq!(comic.pages[1].file_name, "2.png");
    assert_eq!(comic.pages[2].file_name, "3.gif");
    assert_eq!(
        comic.pages[0].url,
        "https://i.example.net/galleries/998877/1.jpg"
    );
    assert_eq!(
        comic.pages[1].url,
        "https://i.example.net/galleries/998877/2.png"
    );
    assert_eq!(
        comic.pages[2].url,
        "https://i.example.net/galleries/998877/3.gif"
    );
    assert_eq!(comic.pages[0].width, Some(100));
    assert_eq!(comic.pages[0].heigth, Some(150));
}

#[test]
fn normalizer_places_each_tag_type_in_its_bucket() {
    let page = sample_page();
    let reader = Reader::from_page(&page).unwrap();
    let comic = comic_from_reader(&reader);
    assert_eq!(comic.tags, vec!["glasses".to_string()]);
    assert_eq!(comic.languages, vec!["english".to_string()]);
    assert_eq!(
        comic.categories,
        vec!["some series".to_string(), "doujinshi".to_string()]
    );
    assert_eq!(comic.characters, vec!["hero".to_string()]);
    assert_eq!(comic.groups, vec!["circle".to_string()]);
    assert_eq!(comic.authors, vec!["someone".to_string()]);
}

#[test]
fn language_translated_sets_flag_and_adds_no_language() {
    let page = sample_page();
    let comic = comic_from_page(&page).unwrap();
    assert!(comic.translated);
    assert!(!comic.languages.contains(&"translated".to_string()));
    assert_eq!(comic.languages, vec!["english".to_string()]);
}

#[test]
fn cover_resolves_from_the_cdn_template() {
    let page = sample_page();
    let comic = comic_from_page(&page).unwrap();
    assert_eq!(
        comic.cover.url,
        "https://t.nhentai.net/galleries/998877/cover.jpg"
    );
    assert_eq!(comic.cover.file_name, "cover.jpg");
    assert_eq!(comic.cover.width, Some(350));
    assert_eq!(comic.cover.heigth, Some(500));
    assert_eq!(comic.site, "nhentai");
    assert_eq!(comic.id, "123");
    assert_eq!(comic.title, "A Title");
    assert_eq!(comic.upload_date, 1634170326);
}

#[test]
fn missing_gallery_blob_is_a_missing_fragment() {
    let page = "<script>media_url: 'https://x/'\nstart_page: 1}</script>";
    let r = Reader::from_page(page);
    assert!(matches!(r, Err(Error::MissingFragment(_))));
}

#[test]
fn missing_media_url_is_an_error() {
    let page = sample_page().replace("media_url", "media_off");
    let r = Reader::from_page(&page);
    assert!(r.is_err());
}

#[test]
fn undecodable_gallery_blob_is_a_decode_failure() {
    let page = "<script>window._gallery = JSON.parse(\"{broken\");\nmedia_url: 'https://x/'\nstart_page: 1}</script>";
    let r = Reader::from_page(page);
    assert!(matches!(r, Err(Error::DecodeFailure(_))));
}

#[test]
fn oversized_start_page_is_a_decode_failure() {
    let page = sample_page().replace("start_page: 0}", "start_page: 99999999999}");
    let r = Reader::from_page(&page);
    assert!(matches!(r, Err(Error::DecodeFailure(_))));
}
