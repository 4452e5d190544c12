use std::io::Write;

use stream_hub::bilibili::{
    bilibili_cdn_level, bilibili_login_cookie, bilibili_old_play_urls, bilibili_page_init_json,
    bilibili_play_info_url, bilibili_room_id, reorder_bilibili_urls, BrowserCookie,
};
use stream_hub::danmaku::{
    bridge_event_outgoing, danmaku_source, douyin_ack_frame, douyin_ws_check, douyin_ws_referer,
    initial_danmaku_target, DanmakuSource,
};
use stream_hub::digest::md5_hex;
use stream_hub::douyin::{
    build_douyin_search_engine_urls, douyin_play_check, douyin_room_id, douyin_room_state,
    extract_room_ids_from_text, DouyinHelperResponse,
};
use stream_hub::douyu::{
    backup_urls, build_auth, build_xs_info, douyu_device_id, douyu_encryption_check,
    douyu_play_primary, extract_room_info_json, room_info_from_room, room_info_json_text,
    value_to_string, DouyuCdnList, DouyuEncryption, DouyuP2pMeta, DouyuPlayData, DouyuPlayResponse,
    DouyuRoom, JsonScalar,
};
use stream_hub::huya::{
    huya_decode_base64_to_string, huya_format_url, huya_play_urls, huya_room_id_from_page,
    huya_rot_uid, huya_turn_str, HuyaLiveData, HuyaProfileRoomData, HuyaStreamData, HuyaStreamInfo,
};
use stream_hub::play::{check_playable, resolved_streamer, stream_proxy_url};
use stream_hub::player::{
    format_end_file_error, mpv_log_message_text, player_command_kind, LastLoadDebug,
    PlayerCommandKind, UnsupportedHost,
};
use stream_hub::proto::{
    decode_douyin_danmaku_batch, read_proto_varint, write_proto_bytes_field,
    write_proto_string_field, write_proto_varint_field, DouyinDanmakuBatch,
};
use stream_hub::search::{
    bilibili_search_failure, bilibili_search_step, huya_search_url, search_query,
    SearchAttemptOutcome, SearchStep,
};
use stream_hub::state::ExtractResult;

fn hex_md5(s: &str) -> String {
    format!("{:x}", md5::compute(s))
}

fn plain_report(platform: &str, online: bool, urls: Vec<String>) -> ExtractResult {
    ExtractResult {
        platform: platform.to_string(),
        room_id: " 42 ".to_string(),
        streamer_name: String::new(),
        room_name: " 房间 ".to_string(),
        avatar_url: String::new(),
        is_online: online,
        screenshot_url: String::new(),
        heat_text: String::new(),
        page_url: String::new(),
        title: String::new(),
        urls,
    }
}

fn douyu_room(room_id: JsonScalar, status: JsonScalar, show_status: Option<i64>) -> DouyuRoom {
    DouyuRoom {
        room_id,
        nickname: JsonScalar::Str("斗鱼主播".to_string()),
        room_name: JsonScalar::Str("房间名".to_string()),
        avatar_big: JsonScalar::Str(String::new()),
        avatar_middle: JsonScalar::Str("https://a/m.png".to_string()),
        status,
        show_status,
        room_pic: JsonScalar::Other,
        show_details: JsonScalar::Other,
        hot: JsonScalar::Int(77),
    }
}

#[test]
fn md5_hex_matches_known_digests() {
    assert_eq!(md5_hex(""), "d41d8cd98f00b204e9800998ecf8427e");
    assert_eq!(md5_hex("abc"), "900150983cd24fb0d6963f7d28e17f72");
}

#[test]
fn json_values_read_as_text() {
    assert_eq!(value_to_string(&JsonScalar::Int(-5)), "-5");
    assert_eq!(value_to_string(&JsonScalar::UInt(u64::MAX)), "18446744073709551615");
    assert_eq!(value_to_string(&JsonScalar::Str("x".to_string())), "x");
    assert_eq!(value_to_string(&JsonScalar::Other), "");
}

#[test]
fn douyu_auth_hashes_rounds_then_suffix() {
    let enc = DouyuEncryption {
        rand_str: JsonScalar::Str("r".to_string()),
        enc_time: Some(2),
        key: JsonScalar::Str("k".to_string()),
        is_special: Some(0),
        enc_data: JsonScalar::Str("d".to_string()),
    };
    let v1 = hex_md5("rk");
    let v2 = hex_md5(&format!("{v1}k"));
    let expected = hex_md5(&format!("{v2}k99991700000000"));
    assert_eq!(build_auth(&enc, "9999", 1700000000), expected);

    let special = DouyuEncryption { is_special: Some(1), enc_time: None, ..enc };
    assert_eq!(build_auth(&special, "9999", 1700000000), hex_md5("rk"));
}

#[test]
fn douyu_room_info_is_cut_out_of_the_page() {
    let html = r#"<script>var $ROOM = "{\"roomInfo\":{\"room\":{\"room_id\":12,\"n\":{\"a\":1}}},\"x\":{}}";</script>"#;
    assert_eq!(
        extract_room_info_json(html),
        Some(r#"{"room":{"room_id":12,"n":{"a":1}}}"#.to_string())
    );
    assert_eq!(extract_room_info_json("no marker"), None);
    assert_eq!(room_info_json_text("<html>"), Err("Failed to extract roomInfo JSON".to_string()));
}

#[test]
fn douyu_room_info_needs_a_room_number() {
    let blank = douyu_room(JsonScalar::Str("  ".to_string()), JsonScalar::Int(1), None);
    assert_eq!(
        room_info_from_room(&blank).err(),
        Some("Failed to find room_id in roomInfo JSON".to_string())
    );
    let live = douyu_room(JsonScalar::Int(9999), JsonScalar::Str("1".to_string()), Some(1));
    let info = room_info_from_room(&live).expect("room number present");
    assert_eq!(info.room_id, "9999");
    assert!(info.is_living);
    assert_eq!(info.avatar_url, "https://a/m.png");
    let hidden = douyu_room(JsonScalar::Int(9999), JsonScalar::Int(1), Some(2));
    assert!(!room_info_from_room(&hidden).expect("room number present").is_living);
}

#[test]
fn douyu_answers_are_checked() {
    assert_eq!(douyu_encryption_check(Some(0)), Ok(()));
    assert_eq!(
        douyu_encryption_check(Some(3)),
        Err("Douyu encryption API error: 3".to_string())
    );
    assert_eq!(douyu_encryption_check(None), Err("Douyu encryption API error: -1".to_string()));

    let play = DouyuPlayData {
        rtmp_url: JsonScalar::Str("https://hw.douyucdn.cn/live".to_string()),
        rtmp_live: JsonScalar::Str("9999rX.flv?token=t".to_string()),
        room_name: JsonScalar::Other,
        p2p_meta: None,
    };
    let ok = DouyuPlayResponse { error: Some(0), data: Some(play) };
    assert_eq!(
        douyu_play_primary(&ok),
        Ok("https://hw.douyucdn.cn/live/9999rX.flv?token=t".to_string())
    );
    let missing = DouyuPlayResponse { error: None, data: None };
    assert_eq!(douyu_play_primary(&missing), Err("Douyu play API error: -1".to_string()));
    let empty = DouyuPlayResponse {
        error: Some(0),
        data: Some(DouyuPlayData {
            rtmp_url: JsonScalar::Other,
            rtmp_live: JsonScalar::Other,
            room_name: JsonScalar::Other,
            p2p_meta: None,
        }),
    };
    assert_eq!(douyu_play_primary(&empty), Err("Failed to build Douyu play url".to_string()));
}

#[test]
fn douyu_peer_addresses_are_built() {
    let play = DouyuPlayData {
        rtmp_url: JsonScalar::Other,
        rtmp_live: JsonScalar::Str("abc_1.flv?wsAuth=1&token=t".to_string()),
        room_name: JsonScalar::Other,
        p2p_meta: Some(DouyuP2pMeta {
            xp2p_domain: JsonScalar::Str("p2p.example".to_string()),
            xp2p_tx_delay: JsonScalar::Int(3),
            xp2p_tx_secret: JsonScalar::Str("sec".to_string()),
            xp2p_tx_time: JsonScalar::Str("t1".to_string()),
        }),
    };
    let (path, cdn) = build_xs_info(&play, "uuid-x").expect("peer data present");
    assert_eq!(
        path,
        "p2p.example/live/abc_1.xs?wsAuth=1&token=t&delay=3&txSecret=sec&txTime=t1&uuid=uuid-x"
    );
    assert_eq!(cdn, "https://p2p.example/abc_1.xs");

    let cdn_list = DouyuCdnList {
        sug: Some(vec![
            JsonScalar::Str("a.com".to_string()),
            JsonScalar::Int(1),
            JsonScalar::Str("b.com".to_string()),
        ]),
        bak: Some(vec![JsonScalar::Str("c.com".to_string())]),
    };
    assert_eq!(
        backup_urls("p", &cdn_list),
        vec!["https://a.com/p", "https://b.com/p", "https://c.com/p"]
    );
}

#[test]
fn douyu_device_id_is_a_fresh_md5() {
    let a = douyu_device_id();
    let b = douyu_device_id();
    assert_eq!(a.len(), 32);
    assert!(a.chars().all(|c| c.is_ascii_hexdigit()));
    assert_ne!(a, b);
}

#[test]
fn huya_numbers_are_formatted() {
    assert_eq!(huya_turn_str(255, 16, 4), "00ff");
    assert_eq!(huya_turn_str(5, 2, 8), "00000101");
    assert_eq!(huya_turn_str(42, 10, 1), "42");
    assert_eq!(huya_rot_uid(1), Some(256));
}

#[test]
fn huya_base64_text_is_decoded() {
    assert_eq!(huya_decode_base64_to_string("aGVsbG8="), Some("hello".to_string()));
    assert_eq!(huya_decode_base64_to_string("not base64!"), None);
}

#[test]
fn huya_stream_address_is_signed() {
    let stream = HuyaStreamInfo {
        s_stream_name: "name".to_string(),
        s_flv_url: "http://al.flv.huya.com/src".to_string(),
        s_flv_url_suffix: "flv".to_string(),
        s_flv_anti_code: "wsSecret=old&wsTime=65f0&fm=JDBfJDFfJDJfJDM%3D&ctype=huya_live&t=102"
            .to_string(),
    };
    let suffix = hex_md5("1001|huya_live|102");
    let secret = hex_md5(&format!("256_name_{suffix}_65f0"));
    let expected = format!(
        "https://al.flv.huya.com/src/name.flv?wsSecret={secret}&wsTime=65f0&seqid=1001&ctype=huya_live&ver=1&fs=bgct&ratio=0&dMod=mseh-8&sdkPcdn=1_1&u=256&t=102&sv=2407051433&sdk_sid=1000&a_block=0&sf=1"
    );
    assert_eq!(huya_format_url(1, 1000, &stream), Some(expected));

    let mut blank = stream.clone_info();
    blank.s_flv_anti_code = " ".to_string();
    assert_eq!(huya_format_url(1, 1000, &blank), None);
}

trait CloneInfo {
    fn clone_info(&self) -> HuyaStreamInfo;
}

impl CloneInfo for HuyaStreamInfo {
    fn clone_info(&self) -> HuyaStreamInfo {
        HuyaStreamInfo {
            s_stream_name: self.s_stream_name.clone(),
            s_flv_url: self.s_flv_url.clone(),
            s_flv_url_suffix: self.s_flv_url_suffix.clone(),
            s_flv_anti_code: self.s_flv_anti_code.clone(),
        }
    }
}

fn live_data() -> HuyaLiveData {
    HuyaLiveData {
        room_name: String::new(),
        introduction: String::new(),
        nick: String::new(),
        avatar_180: String::new(),
        screenshot: String::new(),
        total_count: String::new(),
        activity_count: String::new(),
        profile_room: String::new(),
    }
}

#[test]
fn huya_play_lines_put_txdirect_last() {
    let tx = HuyaStreamInfo {
        s_stream_name: "n".to_string(),
        s_flv_url: "https://txdirect.flv.huya.com/src".to_string(),
        s_flv_url_suffix: "flv".to_string(),
        s_flv_anti_code: "wsTime=1&fm=JDA%3D&ctype=c".to_string(),
    };
    let al = HuyaStreamInfo {
        s_stream_name: "n".to_string(),
        s_flv_url: "https://al.flv.huya.com/src".to_string(),
        s_flv_url_suffix: "flv".to_string(),
        s_flv_anti_code: "wsTime=1&fm=JDA%3D&ctype=c".to_string(),
    };
    let data = HuyaProfileRoomData {
        live_status: "ON".to_string(),
        real_live_status: String::new(),
        live_data: live_data(),
        stream: Some(HuyaStreamData { base_stream_info_list: vec![tx, al] }),
    };
    let urls = huya_play_urls(&data, 7, 1000).expect("two lines");
    assert_eq!(urls.len(), 2);
    assert!(urls[0].starts_with("https://al.flv.huya.com/src/n.flv?"));
    assert!(urls[1].starts_with("https://txdirect.flv.huya.com/src/n.flv?"));

    let none = HuyaProfileRoomData {
        live_status: "ON".to_string(),
        real_live_status: String::new(),
        live_data: live_data(),
        stream: None,
    };
    assert_eq!(huya_play_urls(&none, 7, 1000), Err("未获取到虎牙直播流信息".to_string()));
    let empty = HuyaProfileRoomData {
        live_status: "ON".to_string(),
        real_live_status: String::new(),
        live_data: live_data(),
        stream: Some(HuyaStreamData { base_stream_info_list: Vec::new() }),
    };
    assert_eq!(huya_play_urls(&empty, 7, 1000), Err("未获取到可用的虎牙播放线路".to_string()));
}

#[test]
fn huya_room_number_found_in_page() {
    assert_eq!(huya_room_id_from_page(r#"{"profileRoom": "8826"}"#), Ok("8826".to_string()));
    assert_eq!(huya_room_id_from_page("var a = {profileRoom:123};"), Ok("123".to_string()));
    assert_eq!(huya_room_id_from_page("nothing"), Err("无法识别虎牙房间号".to_string()));
}

#[test]
fn search_urls_are_percent_encoded() {
    assert_eq!(huya_search_url("a b"), "https://www.huya.com/search?hsk=a%20b");
    let urls = build_douyin_search_engine_urls("猫");
    assert_eq!(urls.len(), 3);
    assert_eq!(
        urls[2],
        "https://www.sogou.com/web?query=%E7%8C%AB%20抖音%20直播"
    );
    assert!(urls[0].starts_with("https://www.so.com/s?q=site%3Alive.douyin.com%20%E7%8C%AB%20"));
}

#[test]
fn search_keyword_must_not_be_blank() {
    assert_eq!(search_query("  "), Err("Missing keyword".to_string()));
    assert_eq!(search_query(" cat "), Ok("cat".to_string()));
}

#[test]
fn douyin_room_links_are_found_once() {
    let text = "see live.douyin.com/1234567 and live.douyin.com/1234567, live.douyin.com/7654321 and live.douyin.com/12";
    assert_eq!(
        extract_room_ids_from_text(text, "live.douyin.com"),
        vec!["1234567", "7654321"]
    );
    assert_eq!(extract_room_ids_from_text("liveXdouyinXcom/1234567", "live.douyin.com"), Vec::<String>::new());
}

#[test]
fn douyin_report_is_cleaned() {
    let response = DouyinHelperResponse {
        room_id: " ".to_string(),
        streamer_name: " 名 ".to_string(),
        room_name: " 房 ".to_string(),
        avatar_url: "//p3/a.jpg".to_string(),
        screenshot_url: "http://p3/s.jpg".to_string(),
        is_online: true,
        heat_text: " 12万 ".to_string(),
        page_url: "ignored".to_string(),
        title: "  ".to_string(),
        urls: vec!["http://pull/a.flv".to_string()],
    };
    let r = douyin_room_state("745", &response);
    assert_eq!(r.room_id, "745");
    assert_eq!(r.streamer_name, "名");
    assert_eq!(r.avatar_url, "https://p3/a.jpg");
    assert_eq!(r.screenshot_url, "https://p3/s.jpg");
    assert_eq!(r.heat_text, "12万");
    assert_eq!(r.page_url, "https://live.douyin.com/745");
    assert_eq!(r.title, "房");
    assert_eq!(r.urls, vec!["https://pull/a.flv"]);
    assert_eq!(douyin_room_id("nothing here"), Err("无法识别抖音直播间房间号".to_string()));
    assert_eq!(
        douyin_play_check(plain_report("douyin_live", true, Vec::new())).err(),
        Some("未获取到抖音直播播放线路".to_string())
    );
}

#[test]
fn playback_needs_a_live_room_with_lines() {
    assert_eq!(
        check_playable(plain_report("huya", false, Vec::new())).err(),
        Some("主播当前未开播".to_string())
    );
    assert_eq!(
        check_playable(plain_report("huya", true, Vec::new())).err(),
        Some("未获取到可播放的直播地址".to_string())
    );
    assert!(check_playable(plain_report("huya", true, vec!["u".to_string()])).is_ok());
    assert_eq!(stream_proxy_url(8080, "abc"), "http://127.0.0.1:8080/stream-proxy/abc");
}

#[test]
fn resolved_streamer_names_and_addresses() {
    let r = resolved_streamer(" t ", plain_report("huya", true, Vec::new()));
    assert_eq!(r.name, "房间");
    assert_eq!(r.target, "https://www.huya.com/42");
    let d = resolved_streamer(" t ", plain_report("douyu", true, Vec::new()));
    assert_eq!(d.target, " 42 ");
}

#[test]
fn bilibili_answers_and_addresses() {
    assert_eq!(bilibili_room_id("abc"), Err("无法识别 B 站直播间房间号".to_string()));
    assert_eq!(
        bilibili_play_info_url("7", 30000),
        "https://api.live.bilibili.com/xlive/web-room/v2/index/getRoomPlayInfo?room_id=7&protocol=0,1&format=0,1,2&codec=0,1&qn=30000&platform=web&ptype=8&dolby=5"
    );
    assert_eq!(
        bilibili_old_play_urls(vec![" ".to_string()]),
        Err("未获取到 B 站旧版播放线路".to_string())
    );
    assert_eq!(
        bilibili_page_init_json("<html></html>"),
        Err("未找到 B 站直播页面初始化数据".to_string())
    );
    assert_eq!(
        bilibili_page_init_json("<script>window.__NEPTUNE_IS_MY_WAIFU__={\"a\":1}</script>"),
        Ok("{\"a\":1}".to_string())
    );
}

#[test]
fn bilibili_cdn_levels_order_lines() {
    assert_eq!(bilibili_cdn_level("https://upos-sz-mirrorcos.bilivideo.com/x"), 0);
    assert_eq!(bilibili_cdn_level("https://cn-gd.bilivideo.com/x"), 1);
    assert_eq!(bilibili_cdn_level("https://xy1.mcdn.bilivideo.cn:4483/x"), 2);
    assert_eq!(bilibili_cdn_level("https://a.szbdyd.com/x"), 3);
    assert_eq!(bilibili_cdn_level("not a url"), 2);
    let ordered = reorder_bilibili_urls(vec![
        "https://a.szbdyd.com/1".to_string(),
        "https://upos.bilivideo.com/2".to_string(),
        "https://x.mcdn.bilivideo.cn/3".to_string(),
        "https://cn.bilivideo.com/4".to_string(),
        "https://upos.bilivideo.com/2".to_string(),
    ]);
    assert_eq!(
        ordered,
        vec![
            "https://upos.bilivideo.com/2",
            "https://cn.bilivideo.com/4",
            "https://x.mcdn.bilivideo.cn/3",
            "https://a.szbdyd.com/1",
        ]
    );
}

#[test]
fn bilibili_login_cookie_needs_a_session() {
    let cookies = vec![
        BrowserCookie { domain: ".bilibili.com".to_string(), name: "SESSDATA".to_string(), value: "s".to_string() },
        BrowserCookie { domain: ".example.com".to_string(), name: "x".to_string(), value: "y".to_string() },
        BrowserCookie { domain: ".bilibili.com".to_string(), name: "bili_jct".to_string(), value: "j".to_string() },
    ];
    assert_eq!(bilibili_login_cookie(&cookies), Some("SESSDATA=s; bili_jct=j".to_string()));
    let no_session = vec![BrowserCookie {
        domain: ".bilibili.com".to_string(),
        name: "bili_jct".to_string(),
        value: "j".to_string(),
    }];
    assert_eq!(bilibili_login_cookie(&no_session), None);
}

#[test]
fn bilibili_search_steps_keep_the_last_error() {
    assert!(matches!(
        bilibili_search_step(SearchAttemptOutcome::Failed("HTTP 412".to_string())),
        SearchStep::Retry(m) if m == "HTTP 412"
    ));
    assert!(matches!(
        bilibili_search_step(SearchAttemptOutcome::Answered {
            code: -412,
            message: "blocked".to_string(),
            result: Vec::new(),
        }),
        SearchStep::Retry(m) if m == "Bilibili search error -412: blocked"
    ));
    assert!(matches!(
        bilibili_search_step(SearchAttemptOutcome::Answered {
            code: 0,
            message: String::new(),
            result: Vec::new(),
        }),
        SearchStep::Found(items) if items.is_empty()
    ));
    assert_eq!(bilibili_search_failure(""), "Bilibili search failed");
    assert_eq!(bilibili_search_failure("x"), "x");
}

#[test]
fn danmaku_relay_decisions() {
    assert_eq!(
        initial_danmaku_target(" Huya ", "8826"),
        Some(("huya".to_string(), "8826".to_string()))
    );
    assert_eq!(initial_danmaku_target("huya", " "), None);
    assert_eq!(danmaku_source("huya", "").err(), Some("无法确定弹幕房间号".to_string()));
    assert!(matches!(danmaku_source("douyin_live", "1"), Ok(DanmakuSource::Douyin)));
    assert!(matches!(danmaku_source("douyu", "1"), Ok(DanmakuSource::Bridge)));
    assert_eq!(
        bridge_event_outgoing("error", "boom"),
        Some(("error".to_string(), "Stream Hub 弹幕桥接失败: boom".to_string()))
    );
    assert_eq!(bridge_event_outgoing("chat", "hi"), Some(("chat".to_string(), "hi".to_string())));
    assert_eq!(bridge_event_outgoing("gift", "x"), None);
    assert_eq!(douyin_ws_check(" "), Err("抖音弹幕 WebSocket 地址为空".to_string()));
    assert_eq!(douyin_ws_referer("  "), "https://live.douyin.com");
    assert_eq!(douyin_ws_referer(" https://r/ "), "https://r/");
}

fn gzip(data: &[u8]) -> Vec<u8> {
    let mut encoder = flate2::write::GzEncoder::new(Vec::new(), flate2::Compression::default());
    encoder.write_all(data).expect("in-memory write");
    encoder.finish().expect("in-memory finish")
}

#[test]
fn douyin_batch_is_read_from_a_gzipped_frame() {
    let mut chat = Vec::new();
    write_proto_string_field(3, "  hello  ", &mut chat);
    let mut message = Vec::new();
    write_proto_string_field(1, "WebcastChatMessage", &mut message);
    write_proto_bytes_field(2, &chat, &mut message);
    let mut other = Vec::new();
    write_proto_string_field(1, "WebcastGiftMessage", &mut other);
    let mut response = Vec::new();
    write_proto_bytes_field(1, &message, &mut response);
    write_proto_bytes_field(1, &other, &mut response);
    write_proto_string_field(5, "ext", &mut response);
    write_proto_varint_field(9, 1, &mut response);
    let mut frame = Vec::new();
    write_proto_varint_field(3, 42, &mut frame);
    write_proto_bytes_field(8, &gzip(&response), &mut frame);

    let batch = decode_douyin_danmaku_batch(&frame).expect("well-formed frame");
    assert_eq!(batch.comments, vec!["hello"]);
    assert!(batch.need_ack);
    assert_eq!(batch.ack_payload, b"ext".to_vec());
    assert_eq!(batch.log_id, 42);
    let ack = douyin_ack_frame(&batch).expect("ack asked for");
    let mut cursor = 0usize;
    assert_eq!(read_proto_varint(&ack, &mut cursor), Ok((2 << 3) as u64));

    let quiet = DouyinDanmakuBatch::empty();
    assert_eq!(douyin_ack_frame(&quiet), None);
}

#[test]
fn truncated_varint_is_an_error() {
    let mut cursor = 0usize;
    assert!(read_proto_varint(&[0x80, 0x80], &mut cursor).is_err());
    let mut cursor = 0usize;
    assert!(read_proto_varint(&[0xFF; 11], &mut cursor).is_err());
}

#[test]
fn player_messages_and_commands() {
    assert_eq!(
        mpv_log_message_text(true, None, None, Some("  broken pipe ".to_string())),
        Some("[mpv/error] broken pipe".to_string())
    );
    assert_eq!(mpv_log_message_text(false, None, None, Some("x".to_string())), None);
    assert_eq!(
        mpv_log_message_text(true, None, Some("ffmpeg/video".to_string()), Some("x".to_string())),
        None
    );
    let debug = LastLoadDebug {
        platform: "huya".to_string(),
        first_url: "u".to_string(),
        option_string: String::new(),
        url_count: 2,
    };
    assert_eq!(
        format_end_file_error("loading failed", 4, -13, Some(&debug)),
        "mpv 播放失败：loading failed | end_reason=4 | error_code=-13 | platform=huya | url_count=2 | first_url=u"
    );
    assert!(matches!(player_command_kind("seekTo"), Ok(PlayerCommandKind::SeekTo)));
    assert_eq!(
        player_command_kind("jump").err(),
        Some("不支持的播放器命令：jump".to_string())
    );
    assert_eq!(UnsupportedHost::new().err(), Some("当前平台暂不支持内嵌 libmpv 播放器".to_string()));
    let mut host = UnsupportedHost;
    assert_eq!(host.embed_id(), 0);
    assert_eq!(host.set_visible(true), Ok(()));
    assert_eq!(host.set_bounds(), Ok(()));
}

#[test]
fn protobuf_strings_must_be_utf8() {
    assert_eq!(stream_hub::proto::decode_proto_string("弹幕".as_bytes()), "弹幕");
    assert_eq!(stream_hub::proto::decode_proto_string(&[0xff, 0xfe]), "");
}

#[test]
fn icons_are_base64_data_addresses() {
    assert_eq!(stream_hub::platform::icon_data_url(b"hi"), "data:image/x-icon;base64,aGk=");
}

#[test]
fn timestamps_come_from_the_clock() {
    let now = stream_hub::danmaku::current_timestamp_ms();
    assert!(now > 1_600_000_000_000);
    assert_eq!(stream_hub::danmaku::millis_to_u64(None), 0);
    assert_eq!(stream_hub::danmaku::millis_to_u64(Some(u128::MAX)), u64::MAX);
    assert_eq!(stream_hub::danmaku::millis_to_u64(Some(42)), 42);
    assert_eq!(stream_hub::danmaku::helper_failure_message("  \n", "抖音直播解析失败"), "抖音直播解析失败");
    assert_eq!(stream_hub::danmaku::helper_failure_message(" boom \n", "x"), "boom");
}

#[test]
fn player_load_details_and_value_errors() {
    let data = plain_report("huya", true, vec!["https://a/1.flv".to_string(), "https://a/2.flv".to_string()]);
    let debug = stream_hub::player::build_last_load_debug(&data);
    assert_eq!(debug.platform, "huya");
    assert_eq!(debug.first_url, "https://a/1.flv");
    assert_eq!(debug.url_count, 2);
    assert_eq!(debug.option_string, "ytdl=no,stream-lavf-o=reconnect_streamed=yes");
    assert_eq!(
        stream_hub::player::missing_value_error(&PlayerCommandKind::SetFullscreen),
        Some("setFullscreen 需要布尔 value".to_string())
    );
    assert_eq!(stream_hub::player::missing_value_error(&PlayerCommandKind::Stop), None);
    assert_eq!(stream_hub::platform::bilibili_login_url(), "https://passport.bilibili.com/login");
}

#[test]
fn regex_meta_characters_are_escaped() {
    assert_eq!(stream_hub::text::regex_escape("live.douyin.com"), "live\\.douyin\\.com");
    assert_eq!(
        stream_hub::text::regex_escape("\\.+*?()|[]{}^$#&-~"),
        "\\\\\\.\\+\\*\\?\\(\\)\\|\\[\\]\\{\\}\\^\\$\\#\\&\\-\\~"
    );
    assert_eq!(stream_hub::text::regex_escape("a/%!\"e 抖音"), "a/%!\"e 抖音");
    assert_eq!(stream_hub::text::regex_escape(""), "");
}

#[test]
fn room_numbers_come_from_first_groups_once() {
    let m = |whole: &str, id: Option<&str>| vec![Some(whole.to_string()), id.map(|s| s.to_string())];
    let matches = vec![
        m("live.douyin.com/123456", Some("123456")),
        vec![Some("x".to_string())],
        m("live.douyin.com/123456", Some("123456")),
        m("y", None),
        m("live.douyin.com/7777777", Some("7777777")),
    ];
    assert_eq!(
        stream_hub::douyin::room_ids_from_captures(&matches),
        vec!["123456".to_string(), "7777777".to_string()]
    );
    assert!(stream_hub::douyin::room_ids_from_captures(&Vec::new()).is_empty());
}

#[test]
fn huya_stream_query_follows_the_sample_order() {
    let pair = |k: &str, v: &str| (k.to_string(), v.to_string());
    let example = vec![pair("wsSecret", "old"), pair("ctype", "huya_live"), pair("ratio", "2000")];
    let params = vec![pair("ratio", "0"), pair("wsSecret", "abc"), pair("extra", "1")];
    assert_eq!(
        stream_hub::huya::huya_stream_query(&example, &params),
        "wsSecret=abc&ctype=huya_live&ratio=0"
    );
    assert_eq!(stream_hub::huya::huya_stream_query(&Vec::new(), &params), "");
}

#[test]
fn huya_search_candidates_from_groups_and_parts() {
    let body = "<img src=\"//img.huya.com/a.png\"><div class=\"nick\"> <b>主播</b> </div><div class=\"desc\"> 一起 <i>玩</i></div>";
    let groups = vec![Some("whole".to_string()), Some("8826".to_string()), Some(body.to_string())];
    let c = stream_hub::search::huya_search_candidate(&groups).expect("named item");
    assert_eq!(c.room_id, "8826");
    assert_eq!(c.name, "主播");
    assert_eq!(c.avatar_url, "https://img.huya.com/a.png");
    assert_eq!(c.description, "一起 玩");
    let no_nick = vec![Some("whole".to_string()), Some("8826".to_string()), Some("<p></p>".to_string())];
    assert!(stream_hub::search::huya_search_candidate(&no_nick).is_none());

    let p = stream_hub::search::huya_candidate_from_parts("1".to_string(), "<b>A</b>", "http://x/y.png", "")
        .expect("named");
    assert_eq!((p.name.as_str(), p.avatar_url.as_str(), p.description.as_str()), ("A", "https://x/y.png", ""));
    assert!(stream_hub::search::huya_candidate_from_parts(String::new(), "A", "", "").is_none());
    assert!(stream_hub::search::huya_candidate_from_parts("1".to_string(), " <i></i> ", "", "").is_none());
}

fn found(name: &str) -> stream_hub::search::SearchStreamer {
    stream_hub::search::SearchStreamer {
        name: name.to_string(),
        platform: "douyu".to_string(),
        target: "1".to_string(),
        room_id: "1".to_string(),
        room_name: String::new(),
        avatar_url: String::new(),
        is_online: false,
        screenshot_url: String::new(),
        heat_text: String::new(),
    }
}

#[test]
fn combined_search_joins_platforms_in_order() {
    let r = stream_hub::search::merge_search_results(
        Ok(vec![found("a")]),
        Err("down".to_string()),
        Ok(vec![found("b"), found("c")]),
        Ok(vec![found("d")]),
    );
    let names: Vec<&str> = r.iter().map(|s| s.name.as_str()).collect();
    assert_eq!(names, vec!["a", "b", "c", "d"]);
    assert!(stream_hub::search::merge_search_results(
        Err(String::new()),
        Err(String::new()),
        Err(String::new()),
        Err(String::new())
    )
    .is_empty());
}

#[test]
fn douyu_search_page_address_is_encoded() {
    assert_eq!(
        stream_hub::search::douyu_search_page_url("斗 鱼"),
        "https://www.douyu.com/search?kw=%E6%96%97%20%E9%B1%BC"
    );
    assert_eq!(stream_hub::search::douyu_search_page_url("abc-1"), "https://www.douyu.com/search?kw=abc-1");
}

#[test]
fn douyu_peer_address_carries_a_v4_uuid() {
    let play = DouyuPlayData {
        rtmp_url: JsonScalar::Other,
        rtmp_live: JsonScalar::Str("abc_1.flv?wsAuth=1".to_string()),
        room_name: JsonScalar::Other,
        p2p_meta: Some(DouyuP2pMeta {
            xp2p_domain: JsonScalar::Str("p2p.example".to_string()),
            xp2p_tx_delay: JsonScalar::Int(3),
            xp2p_tx_secret: JsonScalar::Str("sec".to_string()),
            xp2p_tx_time: JsonScalar::Str("t1".to_string()),
        }),
    };
    let (path, cdn) = stream_hub::douyu::douyu_xs_info(&play).expect("peer data present");
    assert_eq!(cdn, "https://p2p.example/abc_1.xs");
    let uuid = path.rsplit("uuid=").next().unwrap();
    let chars: Vec<char> = uuid.chars().collect();
    assert_eq!(chars.len(), 36);
    for (i, c) in chars.iter().enumerate() {
        if [8, 13, 18, 23].contains(&i) {
            assert_eq!(*c, '-');
        } else {
            assert!(c.is_ascii_digit() || ('a'..='f').contains(c));
        }
    }
    assert_eq!(chars[14], '4');
    assert!(['8', '9', 'a', 'b'].contains(&chars[19]));
}
