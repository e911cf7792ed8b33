//! The video-site extractor and the stream format classifier.

use yuyu_core::error::Error;
use yuyu_core::yt::{
    classify_streams, player_response_from_page, AdaptiveFormats, Formats, StreamReport,
};

fn video_format(url_or_cipher: &str, ciphered: bool) -> String {
    let head = "{\"itag\":137,\"mimeType\":\"video/mp4\",\"bitrate\":1500000,\"width\":1920,\"height\":1080,\"initRange\":{\"start\":\"0\",\"end\":\"739\"},\"indexRange\":{\"start\":\"740\",\"end\":\"1211\"},\"lastModified\":\"1614620567944400\",\"contentLength\":\"12345678\",\"quality\":\"hd1080\",\"fps\":24,\"qualityLabel\":\"1080p\",\"projectionType\":\"RECTANGULAR\",\"averageBitrate\":1400000,\"approxDurationMs\":\"212000\"";
    if ciphered {
        format!(r#"{},"signatureCipher":"{}"}}"#, head, url_or_cipher)
    } else {
        format!(r#"{},"url":"{}"}}"#, head, url_or_cipher)
    }
}

fn audio_format(url_or_cipher: &str, ciphered: bool) -> String {
    let head = "{\"itag\":140,\"mimeType\":\"audio/mp4\",\"bitrate\":130000,\"initRange\":{\"start\":\"0\",\"end\":\"631\"},\"indexRange\":{\"start\":\"632\",\"end\":\"1103\"},\"lastModified\":\"1614620567944400\",\"contentLength\":\"3456789\",\"quality\":\"tiny\",\"projectionType\":\"RECTANGULAR\",\"averageBitrate\":128000,\"audioQuality\":\"AUDIO_QUALITY_MEDIUM\",\"approxDurationMs\":\"212000\",\"audioSampleRate\":\"44100\",\"audioChannels\":2,\"loudnessDb\":-2.25";
    if ciphered {
        format!(r#"{},"signatureCipher":"{}"}}"#, head, url_or_cipher)
    } else {
        format!(r#"{},"url":"{}"}}"#, head, url_or_cipher)
    }
}

fn progressive_format() -> &'static str {
    "{\"itag\":18,\"url\":\"https://v.example/prog\",\"mimeType\":\"video/mp4\",\"bitrate\":500000,\"width\":640,\"height\":360,\"lastModified\":\"1614620567944400\",\"quality\":\"medium\",\"fps\":24,\"qualityLabel\":\"360p\",\"projectionType\":\"RECTANGULAR\",\"audioQuality\":\"AUDIO_QUALITY_LOW\",\"approxDurationMs\":\"212000\",\"audioSampleRate\":\"44100\",\"audioChannels\":2}"
}

fn player_page(adaptive: &[String]) -> String {
    format!(
        "<script>var ytInitialPlayerResponse = {{\"streamingData\":{{\"expiresInSeconds\":\"21540\",\"formats\":[{}],\"adaptiveFormats\":[{}]}}}};</script>",
        progressive_format(),
        adaptive.join(",")
    )
}

#[test]
fn player_response_extracts_both_format_lists() {
    let page = player_page(&[
        video_format("https://v.example/video", false),
        audio_format("https://v.example/audio", false),
    ]);
    let resp = player_response_from_page(&page).unwrap();
    assert_eq!(resp.streaming_data.expires_in_seconds, "21540");
    assert_eq!(resp.streaming_data.formats.len(), 1);
    assert!(matches!(
        resp.streaming_data.formats[0],
        Formats::Format { .. }
    ));
    assert_eq!(resp.streaming_data.adaptive_formats.len(), 2);
}

#[test]
fn direct_url_video_selects_the_video_variant() {
    let page = player_page(&[video_format("https://v.example/video", false)]);
    let resp = player_response_from_page(&page).unwrap();
    match &resp.streaming_data.adaptive_formats[0] {
        AdaptiveFormats::Video { url, width, height, .. } => {
            assert_eq!(url, "https://v.example/video");
            assert_eq!(*width, 1920);
            assert_eq!(*height, 1080);
        }
        other => panic!("expected Video, got {:?}", other),
    }
}

#[test]
fn ciphered_video_selects_the_ciphered_variant() {
    let page = player_page(&[video_format("s=abc&sp=sig", true)]);
    let resp = player_response_from_page(&page).unwrap();
    match &resp.streaming_data.adaptive_formats[0] {
        AdaptiveFormats::CipheredVideo { signature_cipher, .. } => {
            assert_eq!(signature_cipher, "s=abc&sp=sig");
        }
        other => panic!("expected CipheredVideo, got {:?}", other),
    }
}

#[test]
fn audio_only_descriptor_with_url_selects_audio_not_video() {
    // A direct `url`, no `signatureCipher`, and audio-only fields (no
    // width or height): the classifier must pick `Audio`.
    let page = player_page(&[audio_format("https://v.example/audio", false)]);
    let resp = player_response_from_page(&page).unwrap();
    match &resp.streaming_data.adaptive_formats[0] {
        AdaptiveFormats::Audio { url, audio_channels, .. } => {
            assert_eq!(url, "https://v.example/audio");
            assert_eq!(*audio_channels, 2);
        }
        other => panic!("expected Audio, got {:?}", other),
    }
}

#[test]
fn ciphered_audio_selects_the_ciphered_audio_variant() {
    let page = player_page(&[audio_format("s=xyz", true)]);
    let resp = player_response_from_page(&page).unwrap();
    assert!(matches!(
        resp.streaming_data.adaptive_formats[0],
        AdaptiveFormats::CipheredAudio { .. }
    ));
}

#[test]
fn descriptor_matching_no_shape_fails_the_whole_list() {
    let page = player_page(&[r#"{"itag":1,"mimeType":"x"}"#.to_string()]);
    let r = player_response_from_page(&page);
    assert!(matches!(r, Err(Error::DecodeFailure(_))));
}

#[test]
fn page_without_marker_is_a_missing_fragment() {
    let r = player_response_from_page("<html>no player here</html>");
    assert!(matches!(r, Err(Error::MissingFragment(_))));
}

#[test]
fn stream_classifier_reports_urls_and_ciphers_in_order() {
    let page = player_page(&[
        video_format("https://v.example/video", false),
        video_format("cv", true),
        audio_format("https://v.example/audio", false),
        audio_format("ca", true),
    ]);
    let resp = player_response_from_page(&page).unwrap();
    let reports = classify_streams(&resp.streaming_data.adaptive_formats);
    assert_eq!(
        reports,
        vec![
            StreamReport::VideoUrl("https://v.example/video".to_string()),
            StreamReport::VideoCipher("cv".to_string()),
            StreamReport::AudioUrl("https://v.example/audio".to_string()),
            StreamReport::AudioCipher("ca".to_string()),
        ]
    );
}
