use stream_hub::bilibili::{
    select_bilibili_urls, BilibiliPlayCodec, BilibiliPlayFormat, BilibiliPlayStream, BilibiliPlayurl,
    BilibiliUrlInfo,
};
use stream_hub::douyu::{value_to_string, JsonScalar};
use stream_hub::huya::{huya_heat_text, is_huya_room_online, HuyaLiveData, HuyaProfileRoomData};
use stream_hub::platform::normalize_danmaku_font_size;
use stream_hub::player::is_non_actionable_mpv_log;

fn bilibili_codec(protocol: &str, format: &str, codec: &str, base_url: &str) -> BilibiliPlayStream {
    BilibiliPlayStream {
        protocol_name: protocol.to_string(),
        formats: vec![BilibiliPlayFormat {
            format_name: format.to_string(),
            codecs: vec![BilibiliPlayCodec {
                codec_name: codec.to_string(),
                current_qn: 250,
                accept_qn: vec![250],
                base_url: base_url.to_string(),
                url_info: vec![BilibiliUrlInfo {
                    host: "https://example.bilivideo.com".to_string(),
                    extra: "?token=test".to_string(),
                }],
            }],
        }],
    }
}

fn empty_live_data() -> HuyaLiveData {
    HuyaLiveData {
        room_name: String::new(),
        introduction: String::new(),
        nick: String::new(),
        avatar_180: String::new(),
        screenshot: String::new(),
        total_count: String::new(),
        activity_count: String::new(),
        profile_room: String::new(),
    }
}

fn room_data(live_status: &str, real_live_status: &str, live_data: HuyaLiveData) -> HuyaProfileRoomData {
    HuyaProfileRoomData {
        live_status: live_status.to_string(),
        real_live_status: real_live_status.to_string(),
        live_data,
        stream: None,
    }
}

#[test]
fn normalize_danmaku_font_size_clamps_to_supported_range() {
    assert_eq!(normalize_danmaku_font_size(6), 9);
    assert_eq!(normalize_danmaku_font_size(18), 18);
    assert_eq!(normalize_danmaku_font_size(72), 28);
}

#[test]
fn parses_huya_nested_live_status() {
    let mut live = empty_live_data();
    live.nick = "测试主播".to_string();
    live.profile_room = value_to_string(&JsonScalar::Int(8826));
    let data = room_data("ON", "ON", live);

    assert!(is_huya_room_online(&data));
}

#[test]
fn parses_huya_heat_from_total_count() {
    let mut live = empty_live_data();
    live.total_count = value_to_string(&JsonScalar::Int(237519));
    live.activity_count = value_to_string(&JsonScalar::Int(4757927));
    let data = room_data("", "", live);

    assert_eq!(huya_heat_text(&data.live_data), "237519");
}

#[test]
fn falls_back_huya_heat_to_activity_count() {
    let mut live = empty_live_data();
    live.activity_count = value_to_string(&JsonScalar::Str("4757927".to_string()));
    let data = room_data("", "", live);

    assert_eq!(huya_heat_text(&data.live_data), "4757927");
}

#[test]
fn bilibili_play_urls_prefer_hls_fmp4_over_flv() {
    let playurl = BilibiliPlayurl {
        stream: vec![
            bilibili_codec("http_stream", "flv", "avc", "/live/test.flv"),
            bilibili_codec("http_hls", "fmp4", "avc", "/live/test/index.m3u8"),
        ],
    };

    let urls = select_bilibili_urls(&playurl);

    assert_eq!(
        urls.first().map(String::as_str),
        Some("https://example.bilivideo.com/live/test/index.m3u8?token=test")
    );
}

#[test]
fn bilibili_play_urls_fall_back_to_flv_when_hls_missing() {
    let playurl = BilibiliPlayurl {
        stream: vec![bilibili_codec("http_stream", "flv", "avc", "/live/test.flv")],
    };

    let urls = select_bilibili_urls(&playurl);

    assert_eq!(
        urls.first().map(String::as_str),
        Some("https://example.bilivideo.com/live/test.flv?token=test")
    );
}

#[test]
fn filters_ffmpeg_decoder_noise() {
    assert!(is_non_actionable_mpv_log(
        "ffmpeg/video",
        "error",
        "h264: missing picture in access unit with size 4254",
    ));
}

#[test]
fn filters_linear_stream_seek_noise() {
    assert!(is_non_actionable_mpv_log(
        "ffmpeg",
        "error",
        "Cannot seek backward in linear streams!",
    ));
}
