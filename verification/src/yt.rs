//! The video site: extracting the embedded player response and classifying
//! its stream format descriptors.
//!
//! A descriptor's variant is not tagged in the JSON: it is decided by which
//! fields are present. The variants are tried in a fixed, documented order
//! and the first structurally valid shape wins; a descriptor matching no
//! shape is a hard decode failure for the whole list.

use vstd::prelude::*;

use crate::decode::req_string;
use crate::error::Error;
use crate::json::{
    arr_field, bool_field, json_as_array, json_as_bool, json_as_string, json_as_u64, json_of,
    json_sub, model_of, obj_field, parse_json, str_field, u32_field, JsonModel,
};
use crate::text::{
    find_from, first_match_from, lemma_first_match_from, skip_spaces, str_eq, ws_end,
};

verus! {

/// The embedded player response: its streaming data.
#[derive(Debug)]
pub struct YtInitialPlayerResponse {
    pub streaming_data: StreamingData,
}

/// The two format lists of the player response: progressive formats and
/// adaptive formats.
#[derive(Debug)]
pub struct StreamingData {
    pub expires_in_seconds: String,
    pub formats: Vec<Formats>,
    pub adaptive_formats: Vec<AdaptiveFormats>,
}

/// A progressive format: a combined audio/video stream, either with a
/// direct URL or with a signature cipher.
#[derive(Debug)]
pub enum Formats {
    Format {
        itag: u32,
        url: String,
        mime_type: String,
        bitrate: u32,
        width: u32,
        height: u32,
        last_modified: String,
        content_length: Option<String>,
        quality: String,
        fps: u32,
        quality_label: String,
        projection_type: String,
        average_bitrate: Option<u32>,
        audio_quality: AudioQuality,
        approx_duration_ms: String,
        audio_sample_rate: String,
        audio_channels: u32,
    },
    CipheredFormat {
        itag: u32,
        mime_type: String,
        bitrate: u32,
        width: u32,
        height: u32,
        last_modified: String,
        content_length: Option<String>,
        quality: String,
        fps: u32,
        quality_label: String,
        projection_type: String,
        average_bitrate: Option<u32>,
        audio_quality: AudioQuality,
        approx_duration_ms: String,
        audio_sample_rate: String,
        audio_channels: u32,
        signature_cipher: String,
    },
}

/// An adaptive format: a single audio or video stream, either with a
/// direct URL or with a signature cipher.
#[derive(Debug)]
pub enum AdaptiveFormats {
    Video {
        itag: u32,
        url: String,
        mime_type: String,
        bitrate: u32,
        width: u32,
        height: u32,
        init_range: Range,
        index_range: Range,
        last_modified: String,
        content_length: String,
        quality: String,
        fps: u32,
        quality_label: String,
        projection_type: String,
        average_bitrate: u32,
        color_info: Option<ColorInfo>,
        approx_duration_ms: String,
    },
    CipheredVideo {
        itag: u32,
        mime_type: String,
        bitrate: u32,
        width: u32,
        height: u32,
        init_range: Range,
        index_range: Range,
        last_modified: String,
        content_length: String,
        quality: String,
        fps: u32,
        quality_label: String,
        projection_type: String,
        average_bitrate: u32,
        color_info: Option<ColorInfo>,
        approx_duration_ms: String,
        signature_cipher: String,
    },
    Audio {
        itag: u32,
        url: String,
        mime_type: String,
        bitrate: u32,
        init_range: Range,
        index_range: Range,
        last_modified: String,
        content_length: String,
        quality: String,
        projection_type: String,
        average_bitrate: u32,
        high_replication: Option<bool>,
        audio_quality: AudioQuality,
        approx_duration_ms: String,
        audio_sample_rate: String,
        audio_channels: u32,
    },
    CipheredAudio {
        itag: u32,
        mime_type: String,
        bitrate: u32,
        init_range: Range,
        index_range: Range,
        last_modified: String,
        content_length: String,
        quality: String,
        projection_type: String,
        average_bitrate: u32,
        high_replication: Option<bool>,
        audio_quality: AudioQuality,
        approx_duration_ms: String,
        audio_sample_rate: String,
        audio_channels: u32,
        signature_cipher: String,
    },
}

/// A byte range of a stream segment.
#[derive(Debug, Clone)]
pub struct Range {
    pub start: String,
    pub end: String,
}

/// Color metadata of a video stream.
#[derive(Debug, Clone)]
pub struct ColorInfo {
    pub primaries: Option<String>,
    pub transfer_characteristics: Option<String>,
    pub matrix_coefficients: Option<String>,
}

/// The audio quality labels the site serves.
#[derive(Debug, Clone, Copy, PartialEq, Eq, Structural)]
pub enum AudioQuality {
    AudioQualityLow,
    AudioQualityMedium,
}

// ------------------------------------------------------------------
// Probing a descriptor's fields
// ------------------------------------------------------------------

/// Every field a format descriptor may carry, each present or not. The
/// shape predicates below decide a descriptor's variant from this alone,
/// so the dispatch is verified for every combination of present fields.
pub struct FormatProbe {
    pub itag: Option<u32>,
    pub url: Option<String>,
    pub mime_type: Option<String>,
    pub bitrate: Option<u32>,
    pub width: Option<u32>,
    pub height: Option<u32>,
    pub init_range: Option<Range>,
    pub index_range: Option<Range>,
    pub last_modified: Option<String>,
    pub content_length: Option<String>,
    pub quality: Option<String>,
    pub fps: Option<u32>,
    pub quality_label: Option<String>,
    pub projection_type: Option<String>,
    pub average_bitrate: Option<u32>,
    pub color_info: Option<ColorInfo>,
    pub approx_duration_ms: Option<String>,
    pub audio_quality: Option<AudioQuality>,
    pub audio_sample_rate: Option<String>,
    pub audio_channels: Option<u32>,
    pub high_replication: Option<bool>,
    pub has_loudness_db: bool,
    pub signature_cipher: Option<String>,
}

fn probe_u32(v: &serde_json::Value, key: &str) -> (r: Option<u32>)
    ensures
        r == u32_field(model_of(*v), key@),
{
    match json_sub(v, key) {
        Some(x) => match json_as_u64(x) {
            Some(n) => {
                if n > u32::MAX as u64 {
                    None
                } else {
                    Some(n as u32)
                }
            },
            None => None,
        },
        None => None,
    }
}

fn probe_string(v: &serde_json::Value, key: &str) -> (r: Option<String>)
    ensures
        r is Some <==> str_field(model_of(*v), key@) is Some,
        r matches Some(out) ==> str_field(model_of(*v), key@) == Some(out@),
{
    match json_sub(v, key) {
        Some(x) => json_as_string(x),
        None => None,
    }
}

fn probe_bool(v: &serde_json::Value, key: &str) -> (r: Option<bool>)
    ensures
        r == bool_field(model_of(*v), key@),
{
    match json_sub(v, key) {
        Some(x) => json_as_bool(x),
        None => None,
    }
}

/// The start/end texts of a range member, when both are present.
pub open spec fn range_field(j: JsonModel, key: Seq<char>) -> Option<(Seq<char>, Seq<char>)> {
    match obj_field(j, key) {
        Some(x) => match (str_field(x, "start"@), str_field(x, "end"@)) {
            (Some(a), Some(b)) => Some((a, b)),
            _ => None,
        },
        None => None,
    }
}

fn probe_range(v: &serde_json::Value, key: &str) -> (r: Option<Range>)
    ensures
        r is Some <==> range_field(model_of(*v), key@) is Some,
        r matches Some(out) ==> range_field(model_of(*v), key@) == Some((out.start@, out.end@)),
{
    match json_sub(v, key) {
        Some(x) => {
            let start = match probe_string(x, "start") {
                Some(s) => s,
                None => {
                    return None;
                },
            };
            let end = match probe_string(x, "end") {
                Some(s) => s,
                None => {
                    return None;
                },
            };
            Some(Range { start, end })
        },
        None => None,
    }
}

/// The color texts of a color-info member, when the member is present:
/// each sub-field as its string reading.
pub open spec fn color_field(j: JsonModel, key: Seq<char>) -> Option<
    (Option<Seq<char>>, Option<Seq<char>>, Option<Seq<char>>),
> {
    match obj_field(j, key) {
        Some(x) => Some(
            (
                str_field(x, "primaries"@),
                str_field(x, "transferCharacteristics"@),
                str_field(x, "matrixCoefficients"@),
            ),
        ),
        None => None,
    }
}

/// An optional string field against its model reading.
pub open spec fn opt_str_matches(o: Option<String>, f: Option<Seq<char>>) -> bool {
    match o {
        None => f is None,
        Some(s) => f == Some(s@),
    }
}

fn probe_color_info(v: &serde_json::Value, key: &str) -> (r: Option<ColorInfo>)
    ensures
        r is Some <==> color_field(model_of(*v), key@) is Some,
        r matches Some(c) ==> (color_field(model_of(*v), key@) matches Some(f)
            && opt_str_matches(c.primaries, f.0) && opt_str_matches(
            c.transfer_characteristics,
            f.1,
        ) && opt_str_matches(c.matrix_coefficients, f.2)),
{
    match json_sub(v, key) {
        Some(x) => Some(
            ColorInfo {
                primaries: probe_string(x, "primaries"),
                transfer_characteristics: probe_string(x, "transferCharacteristics"),
                matrix_coefficients: probe_string(x, "matrixCoefficients"),
            },
        ),
        None => None,
    }
}

/// The audio-quality label a string member names, within the vocabulary.
pub open spec fn audio_quality_field(j: JsonModel, key: Seq<char>) -> Option<AudioQuality> {
    match str_field(j, key) {
        Some(s) => if s == "AUDIO_QUALITY_LOW"@ {
            Some(AudioQuality::AudioQualityLow)
        } else if s == "AUDIO_QUALITY_MEDIUM"@ {
            Some(AudioQuality::AudioQualityMedium)
        } else {
            None
        },
        None => None,
    }
}

fn probe_audio_quality(v: &serde_json::Value, key: &str) -> (r: Option<AudioQuality>)
    ensures
        r == audio_quality_field(model_of(*v), key@),
{
    proof {
        reveal_strlit("AUDIO_QUALITY_LOW");
        reveal_strlit("AUDIO_QUALITY_MEDIUM");
        assert("AUDIO_QUALITY_LOW"@.len() == 17 && "AUDIO_QUALITY_MEDIUM"@.len() == 20);
        assert("AUDIO_QUALITY_LOW"@ != "AUDIO_QUALITY_MEDIUM"@);
    }
    match probe_string(v, key) {
        Some(s) => {
            if str_eq(s.as_str(), "AUDIO_QUALITY_LOW") {
                Some(AudioQuality::AudioQualityLow)
            } else if str_eq(s.as_str(), "AUDIO_QUALITY_MEDIUM") {
                Some(AudioQuality::AudioQualityMedium)
            } else {
                None
            }
        },
        None => None,
    }
}

/// `p` is the field-wise probe of the descriptor model `j`.
pub open spec fn probe_matches(p: FormatProbe, j: JsonModel) -> bool {
    &&& p.itag == u32_field(j, "itag"@)
    &&& opt_str_matches(p.url, str_field(j, "url"@))
    &&& opt_str_matches(p.mime_type, str_field(j, "mimeType"@))
    &&& p.bitrate == u32_field(j, "bitrate"@)
    &&& p.width == u32_field(j, "width"@)
    &&& p.height == u32_field(j, "height"@)
    &&& (p.init_range is Some <==> range_field(j, "initRange"@) is Some)
    &&& (p.index_range is Some <==> range_field(j, "indexRange"@) is Some)
    &&& opt_str_matches(p.last_modified, str_field(j, "lastModified"@))
    &&& opt_str_matches(p.content_length, str_field(j, "contentLength"@))
    &&& opt_str_matches(p.quality, str_field(j, "quality"@))
    &&& p.fps == u32_field(j, "fps"@)
    &&& opt_str_matches(p.quality_label, str_field(j, "qualityLabel"@))
    &&& opt_str_matches(p.projection_type, str_field(j, "projectionType"@))
    &&& p.average_bitrate == u32_field(j, "averageBitrate"@)
    &&& (p.color_info is Some <==> color_field(j, "colorInfo"@) is Some)
    &&& opt_str_matches(p.approx_duration_ms, str_field(j, "approxDurationMs"@))
    &&& p.audio_quality == audio_quality_field(j, "audioQuality"@)
    &&& opt_str_matches(p.audio_sample_rate, str_field(j, "audioSampleRate"@))
    &&& p.audio_channels == u32_field(j, "audioChannels"@)
    &&& p.high_replication == bool_field(j, "highReplication"@)
    &&& p.has_loudness_db == (obj_field(j, "loudnessDb"@) matches Some(x) && x is Num)
    &&& opt_str_matches(p.signature_cipher, str_field(j, "signatureCipher"@))
}

/// Read every field of one descriptor into plain values.
pub fn probe_format(v: &serde_json::Value) -> (p: FormatProbe)
    ensures
        probe_matches(p, model_of(*v)),
{
    let has_loudness_db = match json_sub(v, "loudnessDb") {
        Some(x) => crate::json::json_is_number(x),
        None => false,
    };
    FormatProbe {
        itag: probe_u32(v, "itag"),
        url: probe_string(v, "url"),
        mime_type: probe_string(v, "mimeType"),
        bitrate: probe_u32(v, "bitrate"),
        width: probe_u32(v, "width"),
        height: probe_u32(v, "height"),
        init_range: probe_range(v, "initRange"),
        index_range: probe_range(v, "indexRange"),
        last_modified: probe_string(v, "lastModified"),
        content_length: probe_string(v, "contentLength"),
        quality: probe_string(v, "quality"),
        fps: probe_u32(v, "fps"),
        quality_label: probe_string(v, "qualityLabel"),
        projection_type: probe_string(v, "projectionType"),
        average_bitrate: probe_u32(v, "averageBitrate"),
        color_info: probe_color_info(v, "colorInfo"),
        approx_duration_ms: probe_string(v, "approxDurationMs"),
        audio_quality: probe_audio_quality(v, "audioQuality"),
        audio_sample_rate: probe_string(v, "audioSampleRate"),
        audio_channels: probe_u32(v, "audioChannels"),
        high_replication: probe_bool(v, "highReplication"),
        has_loudness_db,
        signature_cipher: probe_string(v, "signatureCipher"),
    }
}

// ------------------------------------------------------------------
// The shape predicates, in dispatch order
// ------------------------------------------------------------------

/// Fields both adaptive video shapes require.
pub open spec fn video_core(p: FormatProbe) -> bool {
    &&& p.itag is Some
    &&& p.mime_type is Some
    &&& p.bitrate is Some
    &&& p.width is Some
    &&& p.height is Some
    &&& p.init_range is Some
    &&& p.index_range is Some
    &&& p.last_modified is Some
    &&& p.content_length is Some
    &&& p.quality is Some
    &&& p.fps is Some
    &&& p.quality_label is Some
    &&& p.projection_type is Some
    &&& p.average_bitrate is Some
    &&& p.approx_duration_ms is Some
}

/// First shape tried: a direct-URL video stream.
pub open spec fn video_shape(p: FormatProbe) -> bool {
    video_core(p) && p.url is Some
}

/// Second shape tried: a ciphered video stream.
pub open spec fn ciphered_video_shape(p: FormatProbe) -> bool {
    video_core(p) && p.signature_cipher is Some
}

/// Fields both adaptive audio shapes require.
pub open spec fn audio_core(p: FormatProbe) -> bool {
    &&& p.itag is Some
    &&& p.mime_type is Some
    &&& p.bitrate is Some
    &&& p.init_range is Some
    &&& p.index_range is Some
    &&& p.last_modified is Some
    &&& p.content_length is Some
    &&& p.quality is Some
    &&& p.projection_type is Some
    &&& p.average_bitrate is Some
    &&& p.audio_quality is Some
    &&& p.approx_duration_ms is Some
    &&& p.audio_sample_rate is Some
    &&& p.audio_channels is Some
    &&& p.has_loudness_db
}

/// Third shape tried: a direct-URL audio stream.
pub open spec fn audio_shape(p: FormatProbe) -> bool {
    audio_core(p) && p.url is Some
}

/// Fourth shape tried: a ciphered audio stream.
pub open spec fn ciphered_audio_shape(p: FormatProbe) -> bool {
    audio_core(p) && p.signature_cipher is Some
}

/// Classify one adaptive descriptor by trying the four shapes in order:
/// `Video`, `CipheredVideo`, `Audio`, `CipheredAudio`. A descriptor that
/// matches no shape is a hard decode failure.
pub fn classify_adaptive(p: FormatProbe) -> (r: Result<AdaptiveFormats, Error>)
    ensures
        video_shape(p) ==> (r matches Ok(f) && f is Video),
        !video_shape(p) && ciphered_video_shape(p) ==> (r matches Ok(f) && f is CipheredVideo),
        !video_shape(p) && !ciphered_video_shape(p) && audio_shape(p) ==> (r matches Ok(f)
            && f is Audio),
        !video_shape(p) && !ciphered_video_shape(p) && !audio_shape(p) && ciphered_audio_shape(
            p,
        ) ==> (r matches Ok(f) && f is CipheredAudio),
        r is Err <==> !video_shape(p) && !ciphered_video_shape(p) && !audio_shape(p)
            && !ciphered_audio_shape(p),
        r matches Err(e) ==> e matches Error::DecodeFailure(_),
        r matches Ok(f) ==> match f {
            AdaptiveFormats::Video { url, width, height, .. } => p.url == Some(url) && p.width
                == Some(width) && p.height == Some(height),
            AdaptiveFormats::CipheredVideo { signature_cipher, width, height, .. } => p
                .signature_cipher == Some(signature_cipher) && p.width == Some(width) && p.height
                == Some(height),
            AdaptiveFormats::Audio { url, .. } => p.url == Some(url),
            AdaptiveFormats::CipheredAudio { signature_cipher, .. } => p.signature_cipher
                == Some(signature_cipher),
        },
{
    let video_core_ok = p.itag.is_some() && p.mime_type.is_some() && p.bitrate.is_some()
        && p.width.is_some() && p.height.is_some() && p.init_range.is_some()
        && p.index_range.is_some() && p.last_modified.is_some() && p.content_length.is_some()
        && p.quality.is_some() && p.fps.is_some() && p.quality_label.is_some()
        && p.projection_type.is_some() && p.average_bitrate.is_some()
        && p.approx_duration_ms.is_some();
    let audio_core_ok = p.itag.is_some() && p.mime_type.is_some() && p.bitrate.is_some()
        && p.init_range.is_some() && p.index_range.is_some() && p.last_modified.is_some()
        && p.content_length.is_some() && p.quality.is_some() && p.projection_type.is_some()
        && p.average_bitrate.is_some() && p.audio_quality.is_some()
        && p.approx_duration_ms.is_some() && p.audio_sample_rate.is_some()
        && p.audio_channels.is_some() && p.has_loudness_db;
    if video_core_ok && p.url.is_some() {
        Ok(
            AdaptiveFormats::Video {
                itag: p.itag.unwrap(),
                url: p.url.unwrap(),
                mime_type: p.mime_type.unwrap(),
                bitrate: p.bitrate.unwrap(),
                width: p.width.unwrap(),
                height: p.height.unwrap(),
                init_range: p.init_range.unwrap(),
                index_range: p.index_range.unwrap(),
                last_modified: p.last_modified.unwrap(),
                content_length: p.content_length.unwrap(),
                quality: p.quality.unwrap(),
                fps: p.fps.unwrap(),
                quality_label: p.quality_label.unwrap(),
                projection_type: p.projection_type.unwrap(),
                average_bitrate: p.average_bitrate.unwrap(),
                color_info: p.color_info,
                approx_duration_ms: p.approx_duration_ms.unwrap(),
            },
        )
    } else if video_core_ok && p.signature_cipher.is_some() {
        Ok(
            AdaptiveFormats::CipheredVideo {
                itag: p.itag.unwrap(),
                mime_type: p.mime_type.unwrap(),
                bitrate: p.bitrate.unwrap(),
                width: p.width.unwrap(),
                height: p.height.unwrap(),
                init_range: p.init_range.unwrap(),
                index_range: p.index_range.unwrap(),
                last_modified: p.last_modified.unwrap(),
                content_length: p.content_length.unwrap(),
                quality: p.quality.unwrap(),
                fps: p.fps.unwrap(),
                quality_label: p.quality_label.unwrap(),
                projection_type: p.projection_type.unwrap(),
                average_bitrate: p.average_bitrate.unwrap(),
                color_info: p.color_info,
                approx_duration_ms: p.approx_duration_ms.unwrap(),
                signature_cipher: p.signature_cipher.unwrap(),
            },
        )
    } else if audio_core_ok && p.url.is_some() {
        Ok(
            AdaptiveFormats::Audio {
                itag: p.itag.unwrap(),
                url: p.url.unwrap(),
                mime_type: p.mime_type.unwrap(),
                bitrate: p.bitrate.unwrap(),
                init_range: p.init_range.unwrap(),
                index_range: p.index_range.unwrap(),
                last_modified: p.last_modified.unwrap(),
                content_length: p.content_length.unwrap(),
                quality: p.quality.unwrap(),
                projection_type: p.projection_type.unwrap(),
                average_bitrate: p.average_bitrate.unwrap(),
                high_replication: p.high_replication,
                audio_quality: p.audio_quality.unwrap(),
                approx_duration_ms: p.approx_duration_ms.unwrap(),
                audio_sample_rate: p.audio_sample_rate.unwrap(),
                audio_channels: p.audio_channels.unwrap(),
            },
        )
    } else if audio_core_ok && p.signature_cipher.is_some() {
        Ok(
            AdaptiveFormats::CipheredAudio {
                itag: p.itag.unwrap(),
                mime_type: p.mime_type.unwrap(),
                bitrate: p.bitrate.unwrap(),
                init_range: p.init_range.unwrap(),
                index_range: p.index_range.unwrap(),
                last_modified: p.last_modified.unwrap(),
                content_length: p.content_length.unwrap(),
                quality: p.quality.unwrap(),
                projection_type: p.projection_type.unwrap(),
                average_bitrate: p.average_bitrate.unwrap(),
                high_replication: p.high_replication,
                audio_quality: p.audio_quality.unwrap(),
                approx_duration_ms: p.approx_duration_ms.unwrap(),
                audio_sample_rate: p.audio_sample_rate.unwrap(),
                audio_channels: p.audio_channels.unwrap(),
                signature_cipher: p.signature_cipher.unwrap(),
            },
        )
    } else {
        Err(Error::DecodeFailure(String::from_str("adaptive format shape")))
    }
}

/// An adaptive descriptor with a direct URL, no signature cipher, no video
/// dimensions, and the audio fields present can only classify as plain
/// audio: both video shapes are ruled out, and the audio shape holds.
pub proof fn lemma_audio_selected(p: FormatProbe)
    requires
        p.url is Some,
        p.signature_cipher is None,
        p.width is None,
        p.height is None,
        audio_core(p),
    ensures
        !video_shape(p),
        !ciphered_video_shape(p),
        audio_shape(p),
        !(audio_shape(p) && p.width is Some),
{
}

/// Fields both progressive shapes require.
pub open spec fn progressive_core(p: FormatProbe) -> bool {
    &&& p.itag is Some
    &&& p.mime_type is Some
    &&& p.bitrate is Some
    &&& p.width is Some
    &&& p.height is Some
    &&& p.last_modified is Some
    &&& p.quality is Some
    &&& p.fps is Some
    &&& p.quality_label is Some
    &&& p.projection_type is Some
    &&& p.audio_quality is Some
    &&& p.approx_duration_ms is Some
    &&& p.audio_sample_rate is Some
    &&& p.audio_channels is Some
}

/// First progressive shape tried: a direct-URL combined stream.
pub open spec fn format_shape(p: FormatProbe) -> bool {
    progressive_core(p) && p.url is Some
}

/// Second progressive shape tried: a ciphered combined stream.
pub open spec fn ciphered_format_shape(p: FormatProbe) -> bool {
    progressive_core(p) && p.signature_cipher is Some
}

/// Classify one progressive descriptor: `Format`, then `CipheredFormat`.
pub fn classify_progressive(p: FormatProbe) -> (r: Result<Formats, Error>)
    ensures
        format_shape(p) ==> (r matches Ok(f) && f is Format),
        !format_shape(p) && ciphered_format_shape(p) ==> (r matches Ok(f)
            && f is CipheredFormat),
        r is Err <==> !format_shape(p) && !ciphered_format_shape(p),
        r matches Err(e) ==> e matches Error::DecodeFailure(_),
        r matches Ok(f) ==> match f {
            Formats::Format { url, .. } => p.url == Some(url),
            Formats::CipheredFormat { signature_cipher, .. } => p.signature_cipher == Some(
                signature_cipher,
            ),
        },
{
    let core_ok = p.itag.is_some() && p.mime_type.is_some() && p.bitrate.is_some()
        && p.width.is_some() && p.height.is_some() && p.last_modified.is_some()
        && p.quality.is_some() && p.fps.is_some() && p.quality_label.is_some()
        && p.projection_type.is_some() && p.audio_quality.is_some()
        && p.approx_duration_ms.is_some() && p.audio_sample_rate.is_some()
        && p.audio_channels.is_some();
    if core_ok && p.url.is_some() {
        Ok(
            Formats::Format {
                itag: p.itag.unwrap(),
                url: p.url.unwrap(),
                mime_type: p.mime_type.unwrap(),
                bitrate: p.bitrate.unwrap(),
                width: p.width.unwrap(),
                height: p.height.unwrap(),
                last_modified: p.last_modified.unwrap(),
                content_length: p.content_length,
                quality: p.quality.unwrap(),
                fps: p.fps.unwrap(),
                quality_label: p.quality_label.unwrap(),
                projection_type: p.projection_type.unwrap(),
                average_bitrate: p.average_bitrate,
                audio_quality: p.audio_quality.unwrap(),
                approx_duration_ms: p.approx_duration_ms.unwrap(),
                audio_sample_rate: p.audio_sample_rate.unwrap(),
                audio_channels: p.audio_channels.unwrap(),
            },
        )
    } else if core_ok && p.signature_cipher.is_some() {
        Ok(
            Formats::CipheredFormat {
                itag: p.itag.unwrap(),
                mime_type: p.mime_type.unwrap(),
                bitrate: p.bitrate.unwrap(),
                width: p.width.unwrap(),
                height: p.height.unwrap(),
                last_modified: p.last_modified.unwrap(),
                content_length: p.content_length,
                quality: p.quality.unwrap(),
                fps: p.fps.unwrap(),
                quality_label: p.quality_label.unwrap(),
                projection_type: p.projection_type.unwrap(),
                average_bitrate: p.average_bitrate,
                audio_quality: p.audio_quality.unwrap(),
                approx_duration_ms: p.approx_duration_ms.unwrap(),
                audio_sample_rate: p.audio_sample_rate.unwrap(),
                audio_channels: p.audio_channels.unwrap(),
                signature_cipher: p.signature_cipher.unwrap(),
            },
        )
    } else {
        Err(Error::DecodeFailure(String::from_str("format shape")))
    }
}

/// The shapes, restated on the descriptor model itself.
pub open spec fn j_video_core(j: JsonModel) -> bool {
    &&& u32_field(j, "itag"@) is Some
    &&& str_field(j, "mimeType"@) is Some
    &&& u32_field(j, "bitrate"@) is Some
    &&& u32_field(j, "width"@) is Some
    &&& u32_field(j, "height"@) is Some
    &&& range_field(j, "initRange"@) is Some
    &&& range_field(j, "indexRange"@) is Some
    &&& str_field(j, "lastModified"@) is Some
    &&& str_field(j, "contentLength"@) is Some
    &&& str_field(j, "quality"@) is Some
    &&& u32_field(j, "fps"@) is Some
    &&& str_field(j, "qualityLabel"@) is Some
    &&& str_field(j, "projectionType"@) is Some
    &&& u32_field(j, "averageBitrate"@) is Some
    &&& str_field(j, "approxDurationMs"@) is Some
}

pub open spec fn j_video_shape(j: JsonModel) -> bool {
    j_video_core(j) && str_field(j, "url"@) is Some
}

pub open spec fn j_ciphered_video_shape(j: JsonModel) -> bool {
    j_video_core(j) && str_field(j, "signatureCipher"@) is Some
}

pub open spec fn j_audio_core(j: JsonModel) -> bool {
    &&& u32_field(j, "itag"@) is Some
    &&& str_field(j, "mimeType"@) is Some
    &&& u32_field(j, "bitrate"@) is Some
    &&& range_field(j, "initRange"@) is Some
    &&& range_field(j, "indexRange"@) is Some
    &&& str_field(j, "lastModified"@) is Some
    &&& str_field(j, "contentLength"@) is Some
    &&& str_field(j, "quality"@) is Some
    &&& str_field(j, "projectionType"@) is Some
    &&& u32_field(j, "averageBitrate"@) is Some
    &&& audio_quality_field(j, "audioQuality"@) is Some
    &&& str_field(j, "approxDurationMs"@) is Some
    &&& str_field(j, "audioSampleRate"@) is Some
    &&& u32_field(j, "audioChannels"@) is Some
    &&& (obj_field(j, "loudnessDb"@) matches Some(x) && x is Num)
}

pub open spec fn j_audio_shape(j: JsonModel) -> bool {
    j_audio_core(j) && str_field(j, "url"@) is Some
}

pub open spec fn j_ciphered_audio_shape(j: JsonModel) -> bool {
    j_audio_core(j) && str_field(j, "signatureCipher"@) is Some
}

/// A descriptor model matching some adaptive shape.
pub open spec fn j_some_adaptive_shape(j: JsonModel) -> bool {
    j_video_shape(j) || j_ciphered_video_shape(j) || j_audio_shape(j)
        || j_ciphered_audio_shape(j)
}

pub open spec fn j_progressive_core(j: JsonModel) -> bool {
    &&& u32_field(j, "itag"@) is Some
    &&& str_field(j, "mimeType"@) is Some
    &&& u32_field(j, "bitrate"@) is Some
    &&& u32_field(j, "width"@) is Some
    &&& u32_field(j, "height"@) is Some
    &&& str_field(j, "lastModified"@) is Some
    &&& str_field(j, "quality"@) is Some
    &&& u32_field(j, "fps"@) is Some
    &&& str_field(j, "qualityLabel"@) is Some
    &&& str_field(j, "projectionType"@) is Some
    &&& audio_quality_field(j, "audioQuality"@) is Some
    &&& str_field(j, "approxDurationMs"@) is Some
    &&& str_field(j, "audioSampleRate"@) is Some
    &&& u32_field(j, "audioChannels"@) is Some
}

pub open spec fn j_format_shape(j: JsonModel) -> bool {
    j_progressive_core(j) && str_field(j, "url"@) is Some
}

pub open spec fn j_ciphered_format_shape(j: JsonModel) -> bool {
    j_progressive_core(j) && str_field(j, "signatureCipher"@) is Some
}

/// A descriptor model matching some progressive shape.
pub open spec fn j_some_progressive_shape(j: JsonModel) -> bool {
    j_format_shape(j) || j_ciphered_format_shape(j)
}

/// A probe sees exactly the shapes its model has.
pub proof fn lemma_probe_shapes(p: FormatProbe, j: JsonModel)
    requires
        probe_matches(p, j),
    ensures
        video_shape(p) == j_video_shape(j),
        ciphered_video_shape(p) == j_ciphered_video_shape(j),
        audio_shape(p) == j_audio_shape(j),
        ciphered_audio_shape(p) == j_ciphered_audio_shape(j),
        format_shape(p) == j_format_shape(j),
        ciphered_format_shape(p) == j_ciphered_format_shape(j),
{
}

/// The classified adaptive format a descriptor model yields: the variant
/// decided by the dispatch order, carrying the model's direct URL or
/// cipher string (and dimensions for video).
pub open spec fn adaptive_rec_matches(f: AdaptiveFormats, j: JsonModel) -> bool {
    match f {
        AdaptiveFormats::Video { url, width, height, .. } => {
            &&& j_video_shape(j)
            &&& str_field(j, "url"@) == Some(url@)
            &&& u32_field(j, "width"@) == Some(width)
            &&& u32_field(j, "height"@) == Some(height)
        },
        AdaptiveFormats::CipheredVideo { signature_cipher, width, height, .. } => {
            &&& !j_video_shape(j)
            &&& j_ciphered_video_shape(j)
            &&& str_field(j, "signatureCipher"@) == Some(signature_cipher@)
            &&& u32_field(j, "width"@) == Some(width)
            &&& u32_field(j, "height"@) == Some(height)
        },
        AdaptiveFormats::Audio { url, .. } => {
            &&& !j_video_shape(j)
            &&& !j_ciphered_video_shape(j)
            &&& j_audio_shape(j)
            &&& str_field(j, "url"@) == Some(url@)
        },
        AdaptiveFormats::CipheredAudio { signature_cipher, .. } => {
            &&& !j_video_shape(j)
            &&& !j_ciphered_video_shape(j)
            &&& !j_audio_shape(j)
            &&& j_ciphered_audio_shape(j)
            &&& str_field(j, "signatureCipher"@) == Some(signature_cipher@)
        },
    }
}

/// The classified progressive format a descriptor model yields.
pub open spec fn progressive_rec_matches(f: Formats, j: JsonModel) -> bool {
    match f {
        Formats::Format { url, .. } => {
            &&& j_format_shape(j)
            &&& str_field(j, "url"@) == Some(url@)
        },
        Formats::CipheredFormat { signature_cipher, .. } => {
            &&& !j_format_shape(j)
            &&& j_ciphered_format_shape(j)
            &&& str_field(j, "signatureCipher"@) == Some(signature_cipher@)
        },
    }
}

// ------------------------------------------------------------------
// Extracting the player response
// ------------------------------------------------------------------

/// The player response blob: after the first `ytInitialPlayerResponse`,
/// optional spaces, a `=`, optional spaces, a `{`; the blob runs from that
/// brace through the `}` of the next `};`.
pub open spec fn player_response_blob(page: Seq<char>) -> Option<Seq<char>> {
    match first_match_from(page, "ytInitialPlayerResponse"@, 0) {
        None => None,
        Some(m) => {
            let i = ws_end(page, m + "ytInitialPlayerResponse"@.len());
            if i < page.len() && page[i] == '=' {
                let j = ws_end(page, i + 1);
                if j < page.len() && page[j] == '{' {
                    match first_match_from(page, "};"@, j) {
                        None => None,
                        Some(b) => Some(page.subrange(j, b + 1)),
                    }
                } else {
                    None
                }
            } else {
                None
            }
        },
    }
}

fn extract_player_blob(page: &str) -> (r: Option<String>)
    ensures
        match r {
            Some(s) => player_response_blob(page@) == Some(s@),
            None => player_response_blob(page@) is None,
        },
{
    proof {
        reveal_strlit("ytInitialPlayerResponse");
        reveal_strlit("};");
    }
    let slen = page.unicode_len();
    let m = match find_from(page, "ytInitialPlayerResponse", 0) {
        None => {
            return None;
        },
        Some(m) => m,
    };
    proof {
        lemma_first_match_from(page@, "ytInitialPlayerResponse"@, 0);
    }
    let mlen = "ytInitialPlayerResponse".unicode_len();
    let i = skip_spaces(page, m + mlen);
    if i == slen {
        return None;
    }
    if page.get_char(i) != '=' {
        return None;
    }
    let j = skip_spaces(page, i + 1);
    if j == slen {
        return None;
    }
    if page.get_char(j) != '{' {
        return None;
    }
    let b = match find_from(page, "};", j) {
        None => {
            return None;
        },
        Some(b) => b,
    };
    proof {
        lemma_first_match_from(page@, "};"@, j as int);
    }
    Some(String::from_str(page.substring_char(j, b + 1)))
}

fn decode_format_list(arr: &Vec<serde_json::Value>) -> (r: Result<Vec<Formats>, Error>)
    ensures
        r is Ok <==> (forall|k: int|
            0 <= k < arr@.len() ==> j_some_progressive_shape(#[trigger] model_of(arr@[k]))),
        r matches Ok(out) ==> out@.len() == arr@.len() && (forall|k: int|
            0 <= k < arr@.len() ==> progressive_rec_matches(
                #[trigger] out@[k],
                model_of(arr@[k]),
            )),
        r matches Err(e) ==> e matches Error::DecodeFailure(_),
{
    let mut out: Vec<Formats> = Vec::new();
    let mut i: usize = 0;
    while i < arr.len()
        invariant
            0 <= i <= arr@.len(),
            out@.len() == i,
            forall|k: int|
                0 <= k < i ==> j_some_progressive_shape(#[trigger] model_of(arr@[k])),
            forall|k: int|
                0 <= k < i ==> progressive_rec_matches(#[trigger] out@[k], model_of(arr@[k])),
        decreases arr@.len() - i,
    {
        let p = probe_format(&arr[i]);
        proof {
            lemma_probe_shapes(p, model_of(arr@[i as int]));
        }
        match classify_progressive(p) {
            Ok(f) => out.push(f),
            Err(e) => {
                return Err(e);
            },
        }
        i += 1;
    }
    Ok(out)
}

fn decode_adaptive_list(arr: &Vec<serde_json::Value>) -> (r: Result<Vec<AdaptiveFormats>, Error>)
    ensures
        r is Ok <==> (forall|k: int|
            0 <= k < arr@.len() ==> j_some_adaptive_shape(#[trigger] model_of(arr@[k]))),
        r matches Ok(out) ==> out@.len() == arr@.len() && (forall|k: int|
            0 <= k < arr@.len() ==> adaptive_rec_matches(#[trigger] out@[k], model_of(arr@[k]))),
        r matches Err(e) ==> e matches Error::DecodeFailure(_),
{
    let mut out: Vec<AdaptiveFormats> = Vec::new();
    let mut i: usize = 0;
    while i < arr.len()
        invariant
            0 <= i <= arr@.len(),
            out@.len() == i,
            forall|k: int| 0 <= k < i ==> j_some_adaptive_shape(#[trigger] model_of(arr@[k])),
            forall|k: int|
                0 <= k < i ==> adaptive_rec_matches(#[trigger] out@[k], model_of(arr@[k])),
        decreases arr@.len() - i,
    {
        let p = probe_format(&arr[i]);
        proof {
            lemma_probe_shapes(p, model_of(arr@[i as int]));
        }
        match classify_adaptive(p) {
            Ok(f) => out.push(f),
            Err(e) => {
                return Err(e);
            },
        }
        i += 1;
    }
    Ok(out)
}

/// The streaming-data member decodes: the expiry text and both format
/// lists present, every descriptor matching some shape.
pub open spec fn streaming_ok(j: JsonModel) -> bool {
    &&& (obj_field(j, "streamingData"@) matches Some(sd) && {
        &&& str_field(sd, "expiresInSeconds"@) is Some
        &&& (arr_field(sd, "formats"@) matches Some(fs) && (forall|k: int|
            0 <= k < fs.len() ==> j_some_progressive_shape(#[trigger] fs[k])))
        &&& (arr_field(sd, "adaptiveFormats"@) matches Some(afs) && (forall|k: int|
            0 <= k < afs.len() ==> j_some_adaptive_shape(#[trigger] afs[k])))
    })
}

/// The streaming-data member is present with both lists, whatever the
/// descriptors' shapes.
pub open spec fn streaming_fields_ok(j: JsonModel) -> bool {
    &&& (obj_field(j, "streamingData"@) matches Some(sd) && {
        &&& str_field(sd, "expiresInSeconds"@) is Some
        &&& arr_field(sd, "formats"@) is Some
        &&& arr_field(sd, "adaptiveFormats"@) is Some
    })
}

/// `s` is the decode of the streaming data of `j`: the format lists are
/// the classified descriptors, in document order.
pub open spec fn streaming_matches(s: StreamingData, j: JsonModel) -> bool {
    &&& (obj_field(j, "streamingData"@) matches Some(sd) && {
        &&& str_field(sd, "expiresInSeconds"@) == Some(s.expires_in_seconds@)
        &&& (arr_field(sd, "formats"@) matches Some(fs) && s.formats@.len() == fs.len() && (
        forall|k: int|
            0 <= k < fs.len() ==> progressive_rec_matches(#[trigger] s.formats@[k], fs[k])))
        &&& (arr_field(sd, "adaptiveFormats"@) matches Some(afs) && s.adaptive_formats@.len()
            == afs.len() && (forall|k: int|
            0 <= k < afs.len() ==> adaptive_rec_matches(
                #[trigger] s.adaptive_formats@[k],
                afs[k],
            )))
    })
}

fn decode_streaming_data(v: &serde_json::Value) -> (r: Result<StreamingData, Error>)
    ensures
        r is Ok <==> streaming_ok(model_of(*v)),
        r matches Ok(s) ==> streaming_matches(s, model_of(*v)),
        (streaming_fields_ok(model_of(*v)) && !streaming_ok(model_of(*v))) ==> (r matches Err(
            e,
        ) && e matches Error::DecodeFailure(_)),
        r matches Err(e) ==> (e matches Error::MissingFragment(_) || e matches
            Error::DecodeFailure(_)),
{
    let sd = match json_sub(v, "streamingData") {
        Some(x) => x,
        None => {
            return Err(Error::MissingFragment(String::from_str("streamingData")));
        },
    };
    let expires_in_seconds = match req_string(sd, "expiresInSeconds") {
        Ok(s) => s,
        Err(e) => {
            return Err(e);
        },
    };
    let formats_arr = match json_sub(sd, "formats") {
        Some(x) => match json_as_array(x) {
            Some(a) => {
                proof {
                    assert(arr_field(model_of(*sd), "formats"@) == Some(model_of(*x)->Arr_0));
                }
                a
            },
            None => {
                return Err(Error::DecodeFailure(String::from_str("formats")));
            },
        },
        None => {
            return Err(Error::MissingFragment(String::from_str("formats")));
        },
    };
    let ghost fs_models = arr_field(model_of(*sd), "formats"@)->Some_0;
    let adaptive_arr = match json_sub(sd, "adaptiveFormats") {
        Some(x) => match json_as_array(x) {
            Some(a) => {
                proof {
                    assert(arr_field(model_of(*sd), "adaptiveFormats"@) == Some(
                        model_of(*x)->Arr_0,
                    ));
                }
                a
            },
            None => {
                return Err(Error::DecodeFailure(String::from_str("adaptiveFormats")));
            },
        },
        None => {
            return Err(Error::MissingFragment(String::from_str("adaptiveFormats")));
        },
    };
    let ghost af_models = arr_field(model_of(*sd), "adaptiveFormats"@)->Some_0;
    let formats = match decode_format_list(formats_arr) {
        Ok(l) => l,
        Err(e) => {
            proof {
                assert(!streaming_ok(model_of(*v))) by {
                    if streaming_ok(model_of(*v)) {
                        let sdm = obj_field(model_of(*v), "streamingData"@)->Some_0;
                        assert(sdm == model_of(*sd));
                        assert forall|k: int|
                            0 <= k < formats_arr@.len() implies j_some_progressive_shape(
                            #[trigger] model_of(formats_arr@[k]),
                        ) by {
                            assert(model_of(formats_arr@[k]) == fs_models[k]);
                            assert(j_some_progressive_shape(fs_models[k]));
                        }
                    }
                }
            }
            return Err(e);
        },
    };
    let adaptive_formats = match decode_adaptive_list(adaptive_arr) {
        Ok(l) => l,
        Err(e) => {
            proof {
                assert(!streaming_ok(model_of(*v))) by {
                    if streaming_ok(model_of(*v)) {
                        let sdm = obj_field(model_of(*v), "streamingData"@)->Some_0;
                        assert(sdm == model_of(*sd));
                        assert forall|k: int|
                            0 <= k < adaptive_arr@.len() implies j_some_adaptive_shape(
                            #[trigger] model_of(adaptive_arr@[k]),
                        ) by {
                            assert(model_of(adaptive_arr@[k]) == af_models[k]);
                            assert(j_some_adaptive_shape(af_models[k]));
                        }
                    }
                }
            }
            return Err(e);
        },
    };
    let out = StreamingData { expires_in_seconds, formats, adaptive_formats };
    proof {
        assert forall|k: int| 0 <= k < fs_models.len() implies j_some_progressive_shape(
            #[trigger] fs_models[k],
        ) && progressive_rec_matches(out.formats@[k], fs_models[k]) by {
            assert(model_of(formats_arr@[k]) == fs_models[k]);
            assert(j_some_progressive_shape(model_of(formats_arr@[k])));
            assert(progressive_rec_matches(out.formats@[k], model_of(formats_arr@[k])));
        }
        assert forall|k: int| 0 <= k < af_models.len() implies j_some_adaptive_shape(
            #[trigger] af_models[k],
        ) && adaptive_rec_matches(out.adaptive_formats@[k], af_models[k]) by {
            assert(model_of(adaptive_arr@[k]) == af_models[k]);
            assert(j_some_adaptive_shape(model_of(adaptive_arr@[k])));
            assert(adaptive_rec_matches(out.adaptive_formats@[k], model_of(adaptive_arr@[k])));
        }
        assert(streaming_ok(model_of(*v)));
        assert(streaming_matches(out, model_of(*v)));
    }
    Ok(out)
}

/// The player-response JSON of a page: its blob, parsed.
pub open spec fn player_model(page: Seq<char>) -> Option<JsonModel> {
    match player_response_blob(page) {
        None => None,
        Some(b) => json_of(b),
    }
}

/// Extract the player response from one video page: locate the blob, parse
/// it, and classify both format lists.
///
/// Succeeds exactly when the blob is present, parses, and its streaming
/// data decodes with every descriptor matching some shape. A missing blob
/// is a `MissingFragment`; a blob that does not parse, and a present
/// format list holding one shapeless descriptor, are hard `DecodeFailure`s
/// for the whole call.
pub fn player_response_from_page(page: &str) -> (r: Result<YtInitialPlayerResponse, Error>)
    ensures
        r is Ok <==> (player_model(page@) matches Some(j) && streaming_ok(j)),
        r matches Ok(resp) ==> (player_model(page@) matches Some(j) && streaming_matches(
            resp.streaming_data,
            j,
        )),
        player_response_blob(page@) is None ==> r matches Err(Error::MissingFragment(_)),
        (player_response_blob(page@) is Some && player_model(page@) is None) ==> r matches Err(
            Error::DecodeFailure(_),
        ),
        (player_model(page@) matches Some(j) && streaming_fields_ok(j) && !streaming_ok(j))
            ==> (r matches Err(e) && e matches Error::DecodeFailure(_)),
{
    let blob = match extract_player_blob(page) {
        Some(b) => b,
        None => {
            return Err(Error::MissingFragment(String::from_str("ytInitialPlayerResponse")));
        },
    };
    let v = match parse_json(blob.as_str()) {
        Some(v) => v,
        None => {
            return Err(Error::DecodeFailure(String::from_str("player response json")));
        },
    };
    match decode_streaming_data(&v) {
        Ok(streaming_data) => Ok(YtInitialPlayerResponse { streaming_data }),
        Err(e) => Err(e),
    }
}

/// What the stream classifier reports for one adaptive format: the direct
/// URL or the cipher string, by content kind.
#[derive(Debug, Clone, PartialEq, Eq)]
pub enum StreamReport {
    VideoUrl(String),
    VideoCipher(String),
    AudioUrl(String),
    AudioCipher(String),
}

/// Partition a decoded adaptive format list into its reports, in order:
/// each direct-URL descriptor reports its URL, each ciphered descriptor
/// its cipher string, tagged by content kind.
pub fn classify_streams(formats: &Vec<AdaptiveFormats>) -> (r: Vec<StreamReport>)
    ensures
        r@.len() == formats@.len(),
        forall|k: int|
            0 <= k < formats@.len() ==> (#[trigger] r@[k]) == (match formats@[k] {
                AdaptiveFormats::Video { url, .. } => StreamReport::VideoUrl(url),
                AdaptiveFormats::CipheredVideo { signature_cipher, .. } =>
                    StreamReport::VideoCipher(signature_cipher),
                AdaptiveFormats::Audio { url, .. } => StreamReport::AudioUrl(url),
                AdaptiveFormats::CipheredAudio { signature_cipher, .. } =>
                    StreamReport::AudioCipher(signature_cipher),
            }),
{
    let mut out: Vec<StreamReport> = Vec::new();
    let mut i: usize = 0;
    while i < formats.len()
        invariant
            0 <= i <= formats@.len(),
            out@.len() == i,
            forall|k: int|
                0 <= k < i ==> (#[trigger] out@[k]) == (match formats@[k] {
                    AdaptiveFormats::Video { url, .. } => StreamReport::VideoUrl(url),
                    AdaptiveFormats::CipheredVideo { signature_cipher, .. } =>
                        StreamReport::VideoCipher(signature_cipher),
                    AdaptiveFormats::Audio { url, .. } => StreamReport::AudioUrl(url),
                    AdaptiveFormats::CipheredAudio { signature_cipher, .. } =>
                        StreamReport::AudioCipher(signature_cipher),
                }),
        decreases formats@.len() - i,
    {
        let report = match &formats[i] {
            AdaptiveFormats::Video { url, .. } => StreamReport::VideoUrl(url.clone()),
            AdaptiveFormats::CipheredVideo { signature_cipher, .. } => StreamReport::VideoCipher(
                signature_cipher.clone(),
            ),
            AdaptiveFormats::Audio { url, .. } => StreamReport::AudioUrl(url.clone()),
            AdaptiveFormats::CipheredAudio { signature_cipher, .. } =>
                StreamReport::AudioCipher(signature_cipher.clone()),
        };
        out.push(report);
        i += 1;
    }
    out
}

} // verus!
