//! The illustration-site extractor on a full synthetic preload blob.

use yuyu_core::error::Error;
use yuyu_core::pixiv::config_from_page;

fn preload_json() -> String {
    let illust = "{\"illustId\":\"777\",\"illustTitle\":\"An Illust\",\"illustComment\":\"c\",\"id\":\"777\",\"title\":\"An Illust\",\"description\":\"d\",\"illustType\":0,\"createDate\":\"2021-01-01T00:00:00+09:00\",\"uploadDate\":\"2021-01-02T00:00:00+09:00\",\"restrict\":0,\"xRestrict\":0,\"sl\":2,\"urls\":{\"mini\":\"https://img.example/mini.jpg\",\"thumb\":\"https://img.example/thumb.jpg\",\"small\":\"https://img.example/small.jpg\",\"regular\":\"https://img.example/regular.jpg\",\"original\":\"https://img.example/original.jpg\"},\"tags\":{\"authorId\":\"456\",\"isLocked\":false,\"tags\":[{\"tag\":\"scenery\",\"locked\":true,\"deletable\":false,\"userId\":\"456\",\"userName\":\"Painter\"}],\"writable\":true},\"alt\":\"alt text\",\"storableTags\":[\"abc\"],\"userId\":\"456\",\"userName\":\"Painter\",\"userAccount\":\"painter\",\"userIllusts\":{\"999\":null},\"likeData\":false,\"width\":800,\"height\":600,\"pageCount\":1,\"bookmarkCount\":2,\"likeCount\":3,\"commentCount\":4,\"responseCount\":5,\"viewCount\":6,\"isHowto\":false,\"isOriginal\":true,\"imageResponseOutData\":[],\"imageResponseData\":[],\"imageResponseCount\":0,\"pollData\":null,\"seriesNavData\":null,\"descriptionBoothId\":null,\"descriptionYoutubeId\":null,\"comicPromotion\":null,\"contestBanners\":[],\"isBookmarkable\":true,\"bookmarkData\":null,\"contestData\":null,\"isUnlisted\":false,\"request\":null}";
    let user = "{\"userId\":\"456\",\"name\":\"Painter\",\"image\":\"https://img.example/u.jpg\",\"imageBig\":\"https://img.example/u-big.jpg\",\"premium\":false,\"isFollowed\":false,\"isMypixiv\":false,\"isBlocking\":false,\"background\":{\"repeat\":null,\"color\":null,\"url\":\"https://img.example/bg.jpg\",\"isPrivate\":false},\"sketchLiveId\":null,\"partial\":0,\"acceptRequest\":false,\"sketchLives\":[]}";
    format!(
        r#"{{"timestamp":"2021-03-01T12:00:00+09:00","illust":{{"777":{}}},"user":{{"456":{}}}}}"#,
        illust, user
    )
}

fn preload_page() -> String {
    format!(
        r#"<html><head><meta id="meta-preload-data" content='{}'></head><body></body></html>"#,
        preload_json()
    )
}

#[test]
fn preload_record_decodes_from_the_page() {
    let config = config_from_page(&preload_page()).unwrap();
    assert_eq!(config.timestamp, "2021-03-01T12:00:00+09:00");
    assert_eq!(config.illust.len(), 1);
    assert_eq!(config.user.len(), 1);
    let (id, illust) = &config.illust[0];
    assert_eq!(id, "777");
    assert_eq!(illust.illust_title, "An Illust");
    assert_eq!(illust.width, 800);
    assert_eq!(illust.height, 600);
    assert_eq!(illust.page_count, 1);
    assert_eq!(illust.urls.original, "https://img.example/original.jpg");
    assert_eq!(illust.tags.author_id, "456");
    assert_eq!(illust.tags.tags[0].tag, "scenery");
    assert_eq!(illust.userIllusts.len(), 1);
    assert!(illust.userIllusts[0].1.is_none());
    assert!(illust.seriesNavData.is_none());
    let (uid, user) = &config.user[0];
    assert_eq!(uid, "456");
    assert_eq!(user.name, "Painter");
    assert_eq!(user.background.url, "https://img.example/bg.jpg");
    assert!(!user.premium);
}

#[test]
fn page_without_preload_element_is_a_missing_fragment() {
    let r = config_from_page("<html><head></head><body></body></html>");
    assert!(matches!(r, Err(Error::MissingFragment(_))));
}

#[test]
fn malformed_preload_json_is_a_decode_failure() {
    let page = r#"<html><meta id="meta-preload-data" content='{broken'></html>"#;
    let r = config_from_page(page);
    assert!(matches!(r, Err(Error::DecodeFailure(_))));
}

#[test]
fn record_missing_a_required_field_fails() {
    let page = r#"<html><meta id="meta-preload-data" content='{"timestamp":"t","illust":{"1":{"illustId":"1"}},"user":{}}'></html>"#;
    let r = config_from_page(page);
    assert!(r.is_err());
}
