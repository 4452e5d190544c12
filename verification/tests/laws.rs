use stream_hub::bilibili::BilibiliRoomBaseInfo;
use stream_hub::douyin::{douyin_search_results, merge_candidate_room_ids};
use stream_hub::platform::{
    build_bilibili_cookie_string, infer_platform_from_target, normalize_platform, Settings, Streamer,
};
use stream_hub::play::{base_url_of, proxy_target_url};
use stream_hub::proto::{
    decode_douyin_outer_frame, encode_douyin_push_frame, read_proto_varint, write_proto_varint,
};
use stream_hub::room::{
    build_bilibili_live_url, build_douyin_live_url, build_huya_live_url, extract_bilibili_room_id,
    extract_douyin_room_id, extract_huya_room_id, normalize_remote_image_url,
};
use stream_hub::search::huya_search_candidates;
use stream_hub::state::ExtractResult;
use stream_hub::sync::{sync_bilibili_streamer, sync_live_streamer};
use stream_hub::text::strip_html_tags;

fn report(platform: &str, room_id: &str, online: bool) -> ExtractResult {
    ExtractResult {
        platform: platform.to_string(),
        room_id: room_id.to_string(),
        streamer_name: "主播".to_string(),
        room_name: "房间".to_string(),
        avatar_url: "https://img/a.png".to_string(),
        is_online: online,
        screenshot_url: if online { "https://img/s.jpg".to_string() } else { String::new() },
        heat_text: if online { "1234".to_string() } else { String::new() },
        page_url: String::new(),
        title: "标题".to_string(),
        urls: Vec::new(),
    }
}

fn streamer(platform: &str, target: &str) -> Streamer {
    Streamer {
        id: "id-1".to_string(),
        name: "old name".to_string(),
        platform: platform.to_string(),
        target: target.to_string(),
        avatar_url: Some("https://img/old.png".to_string()),
        is_online: Some(true),
        screenshot_url: Some("https://img/old.jpg".to_string()),
        heat_text: Some("99".to_string()),
    }
}

#[test]
fn varint_written_reads_back() {
    for value in [0u64, 1, 127, 128, 300, 16384, u64::MAX] {
        let mut out = Vec::new();
        write_proto_varint(value, &mut out);
        out.push(0xAA);
        let mut cursor = 0usize;
        assert_eq!(read_proto_varint(&out, &mut cursor), Ok(value));
        assert_eq!(cursor, out.len() - 1);
    }
}

#[test]
fn push_frame_payload_reads_back() {
    let payload = vec![1u8, 2, 3, 200];
    let frame = encode_douyin_push_frame("ack", 77, &payload);
    assert_eq!(decode_douyin_outer_frame(&frame), Ok((0, payload)));
}

#[test]
fn normalizing_a_platform_twice_changes_nothing() {
    for name in [" Huya ", "BILIBILI_LIVE", "douyin_live", "unknown", ""] {
        let once = normalize_platform(name);
        assert_eq!(normalize_platform(once), once);
    }
    assert_eq!(normalize_platform(" Huya "), "huya");
}

#[test]
fn inferred_platform_is_a_canonical_name() {
    for target in [
        "https://live.bilibili.com/123",
        "https://www.huya.com/abc",
        "https://live.douyin.com/456",
        "9999",
    ] {
        let p = infer_platform_from_target(target);
        assert_eq!(normalize_platform(p), p);
    }
}

#[test]
fn remote_image_normalization_is_idempotent() {
    let once = normalize_remote_image_url(" //img.example.com/a.jpg ");
    assert_eq!(once, "https://img.example.com/a.jpg");
    assert_eq!(normalize_remote_image_url(&once), once);
    assert_eq!(normalize_remote_image_url("http://x/y"), "https://x/y");
}

#[test]
fn stripped_markup_has_no_brackets() {
    let once = strip_html_tags("<em class=\"kw\">Hi</em> <b>there</b>");
    assert_eq!(once, "Hi there");
    assert!(!once.contains('<') && !once.contains('>'));
    assert_eq!(strip_html_tags(&once), once);
}

#[test]
fn room_pages_give_their_numbers_back() {
    assert_eq!(extract_bilibili_room_id(&build_bilibili_live_url("21452505")), Some("21452505".to_string()));
    assert_eq!(extract_huya_room_id(&build_huya_live_url("8826")), Some("8826".to_string()));
    assert_eq!(extract_douyin_room_id(&build_douyin_live_url("745964462470")), Some("745964462470".to_string()));
}

#[test]
fn cookie_header_always_sets_quality() {
    assert_eq!(
        build_bilibili_cookie_string(" SESSDATA=abc ;  ; bili_jct=x"),
        Ok(Some("SESSDATA=abc; bili_jct=x; CURRENT_QUALITY=125".to_string()))
    );
    assert_eq!(
        build_bilibili_cookie_string("CURRENT_QUALITY=80; a=1"),
        Ok(Some("CURRENT_QUALITY=80; a=1".to_string()))
    );
    assert_eq!(build_bilibili_cookie_string(""), Ok(Some("CURRENT_QUALITY=125".to_string())));
}

#[test]
fn failed_lookup_marks_streamer_offline() {
    let mut s = streamer("huya", "https://www.huya.com/8826");
    sync_live_streamer(&mut s, Err("down".to_string()));
    assert_eq!(s.id, "id-1");
    assert_eq!(s.name, "old name");
    assert_eq!(s.target, "https://www.huya.com/8826");
    assert_eq!(s.avatar_url.as_deref(), Some("https://img/old.png"));
    assert_eq!(s.is_online, Some(false));
    assert_eq!(s.screenshot_url, None);
    assert_eq!(s.heat_text, None);
}

#[test]
fn offline_streamer_shows_no_picture_after_sync() {
    let mut s = streamer("douyu", "9999");
    sync_live_streamer(&mut s, Ok(report("douyu", "9999", false)));
    assert_eq!(s.is_online, Some(false));
    assert_eq!(s.screenshot_url, None);
    assert_eq!(s.heat_text, None);
    assert_eq!(s.platform, "douyu");

    let mut b = streamer("bilibili_live", "https://live.bilibili.com/1");
    sync_bilibili_streamer(&mut b, &Vec::new(), "");
    assert_eq!(b.is_online, Some(false));
    assert_eq!(b.screenshot_url, None);
    assert_eq!(b.heat_text, None);
    assert_eq!(b.id, "id-1");
}

#[test]
fn candidate_rooms_are_at_most_five_and_distinct() {
    let lists = vec![
        vec!["111111".to_string(), "222222".to_string(), "111111".to_string()],
        vec!["333333".to_string(), "222222".to_string(), "444444".to_string()],
        vec!["555555".to_string(), "666666".to_string()],
    ];
    let ids = merge_candidate_room_ids(&lists);
    assert_eq!(ids, vec!["111111", "222222", "333333", "444444", "555555"]);
}

#[test]
fn douyin_results_are_distinct_and_matching() {
    let mut states = Vec::new();
    for i in 0..14 {
        let mut r = report("douyin_live", &format!("70000{}", i % 12), true);
        r.streamer_name = format!("猫猫{}", i);
        states.push(Some(r));
    }
    states.push(None);
    let mut unrelated = report("douyin_live", "123", true);
    unrelated.streamer_name = "狗".to_string();
    unrelated.room_name = "狗".to_string();
    unrelated.title = "狗".to_string();
    states.insert(0, Some(unrelated));
    let results = douyin_search_results("猫", &states);
    assert_eq!(results.len(), 10);
    for (i, a) in results.iter().enumerate() {
        assert!(a.name.contains('猫'));
        for b in results.iter().skip(i + 1) {
            assert_ne!(a.room_id, b.room_id);
        }
    }
}

#[test]
fn stream_directory_ends_with_slash() {
    assert_eq!(base_url_of("https://cdn.example.com/live/a/index.m3u8?k=v/w"), "https://cdn.example.com/live/a/");
    assert_eq!(base_url_of("plain"), "plain/");
    assert_eq!(
        proxy_target_url("https://cdn.example.com/live/a/index.m3u8?k=1", "//seg-1.ts"),
        "https://cdn.example.com/live/a/seg-1.ts"
    );
    assert_eq!(
        proxy_target_url("https://cdn.example.com/live/a/index.m3u8?k=1", "/x.m3u8"),
        "https://cdn.example.com/live/a/index.m3u8?k=1"
    );
}

#[test]
fn huya_search_reads_at_most_twelve_items() {
    let mut html = String::new();
    for i in 0..14 {
        html.push_str(&format!(
            "<li title=\"房间号：{}\" class=\"host-item\"><img src=\"//img/{}.jpg\"><div class=\"nick\"><em>主播</em>{}</div><div class=\"desc\">介绍{}</div></li>",
            1000 + i, i, i, i
        ));
    }
    let candidates = huya_search_candidates(&html).expect("patterns compile");
    assert_eq!(candidates.len(), 12);
    assert_eq!(candidates[0].room_id, "1000");
    assert_eq!(candidates[0].name, "主播0");
    assert_eq!(candidates[0].avatar_url, "https://img/0.jpg");
    assert_eq!(candidates[0].description, "介绍0");
}

#[test]
fn font_size_normalization_is_idempotent() {
    let s = Settings { bilibili_cookie: "c".to_string(), danmaku_font_size: 3 }.normalized();
    assert_eq!(s.danmaku_font_size, 9);
    let again = s.normalized();
    assert_eq!(again.danmaku_font_size, 9);
    assert_eq!(again.bilibili_cookie, "c");
}

#[test]
fn base_info_found_by_short_number() {
    let info = BilibiliRoomBaseInfo {
        room_id: "21452505".to_string(),
        short_id: "6".to_string(),
        title: "t".to_string(),
        uname: "up".to_string(),
        cover: "//i0.hdslb.com/c.jpg".to_string(),
        live_url: String::new(),
        online: "321".to_string(),
        live_status: 1,
    };
    let infos = vec![("21452505".to_string(), info)];
    let mut s = streamer("bilibili_live", "https://live.bilibili.com/6");
    sync_bilibili_streamer(&mut s, &infos, "");
    assert_eq!(s.target, "https://live.bilibili.com/21452505");
    assert_eq!(s.name, "up");
    assert_eq!(s.is_online, Some(true));
    assert_eq!(s.screenshot_url.as_deref(), Some("https://i0.hdslb.com/c.jpg"));
    assert_eq!(s.heat_text.as_deref(), Some("321"));
}

#[test]
fn platform_normalization_of_streamers_is_stable() {
    let mut s = streamer("  ", "https://www.huya.com/8826");
    stream_hub::platform::ensure_streamer_platform(&mut s);
    assert_eq!(s.platform, "huya");
    stream_hub::platform::ensure_streamer_platform(&mut s);
    assert_eq!(s.platform, "huya");
}

#[test]
fn room_input_normalization_is_idempotent() {
    let once = stream_hub::room::normalize_room_input("  9999 ");
    assert_eq!(once, "https://www.douyu.com/9999");
    assert_eq!(stream_hub::room::normalize_room_input(&once), once);
    let page = stream_hub::room::normalize_room_input(" http://www.douyu.com/topic/x ");
    assert_eq!(page, "http://www.douyu.com/topic/x");
    assert_eq!(stream_hub::room::normalize_room_input(&page), page);
}

#[test]
fn reordering_keeps_each_line_once() {
    let urls = vec![
        "https://x.mcdn.bilivideo.cn/a".to_string(),
        "https://up1.bilivideo.com/b".to_string(),
        "https://x.mcdn.bilivideo.cn/a".to_string(),
        "https://c.szbdyd.com/c".to_string(),
        "https://d.example.com/d".to_string(),
    ];
    let ordered = stream_hub::bilibili::reorder_bilibili_urls(urls.clone());
    assert_eq!(ordered.len(), 4);
    for u in &urls {
        assert_eq!(ordered.iter().filter(|o| *o == u).count(), 1);
    }
}

#[test]
fn normalizing_saved_streamers_twice_changes_nothing() {
    let list = vec![
        streamer("  ", "https://www.huya.com/8826"),
        streamer(" Bilibili_Live ", "https://live.bilibili.com/1"),
        streamer("", "https://live.douyin.com/123456"),
        streamer("unknown", "9999"),
    ];
    let once = stream_hub::platform::normalize_streamers(list);
    let platforms: Vec<&str> = once.iter().map(|s| s.platform.as_str()).collect();
    assert_eq!(platforms, vec!["huya", "bilibili_live", "douyin_live", "douyu"]);
    assert_eq!(once[0].target, "https://www.huya.com/8826");
    assert_eq!(once[0].name, "old name");
    assert_eq!(once[0].heat_text.as_deref(), Some("99"));
    let before: Vec<(String, String)> = once.iter().map(|s| (s.platform.clone(), s.target.clone())).collect();
    let twice = stream_hub::platform::normalize_streamers(once);
    let after: Vec<(String, String)> = twice.iter().map(|s| (s.platform.clone(), s.target.clone())).collect();
    assert_eq!(before, after);
}
