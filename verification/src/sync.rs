//! Refreshing the saved streamers: which rooms to look up, and how each
//! streamer changes with what the platform reported.
use vstd::prelude::*;
use crate::text::{is_blank, trim, is_blank_str, same_text};
use crate::platform::{
    Streamer, StreamerView, opt_view, bilibili_name, huya_name, douyin_name,
    PLATFORM_BILIBILI_LIVE, PLATFORM_HUYA, PLATFORM_DOUYIN_LIVE,
};
use crate::room::{
    bilibili_room_prefix, huya_room_prefix, douyin_room_prefix, room_number_of,
    remote_image_url, extract_bilibili_room_id, build_bilibili_live_url, build_huya_live_url,
    build_douyin_live_url, normalize_remote_image_url,
};
use crate::bilibili::{BilibiliRoomBaseInfo, avatar_choice, resolve_bilibili_avatar};
use crate::state::{ExtractResult, RoomView};
use crate::seqs::{views, first_match, lemma_first_match};

verus! {

// ---------------------------------------------------------------------------
// Bilibili rooms to look up
// ---------------------------------------------------------------------------
/// The room numbers of the saved Bilibili streamers whose address names one,
/// in order.
pub open spec fn bilibili_ids_of(streamers: Seq<StreamerView>) -> Seq<Seq<char>>
    decreases streamers.len(),
{
    if streamers.len() == 0 {
        Seq::empty()
    } else {
        let s = streamers.last();
        bilibili_ids_of(streamers.drop_last()) + if s.platform == bilibili_name() {
            match room_number_of(s.target) {
                Some(id) => seq![id],
                None => Seq::empty(),
            }
        } else {
            Seq::empty()
        }
    }
}

pub open spec fn streamer_views(v: Seq<Streamer>) -> Seq<StreamerView> {
    v.map_values(|s: Streamer| s.view_of())
}

pub fn bilibili_sync_room_ids(streamers: &Vec<Streamer>) -> (r: Vec<String>)
    ensures
        views(r@) == bilibili_ids_of(streamer_views(streamers@)),
{
    let ghost sv = streamer_views(streamers@);
    let mut ids: Vec<String> = Vec::new();
    let mut i: usize = 0;
    while i < streamers.len()
        invariant
            0 <= i <= streamers@.len(),
            sv == streamer_views(streamers@),
            views(ids@) == bilibili_ids_of(sv.take(i as int)),
        decreases streamers.len() - i,
    {
        proof {
            assert(sv.take(i + 1).drop_last() =~= sv.take(i as int));
            assert(sv.take(i + 1).last() == streamers@[i as int].view_of());
        }
        let s = &streamers[i];
        if same_text(s.platform.as_str(), PLATFORM_BILIBILI_LIVE) {
            proof {
                reveal_strlit("bilibili_live");
            }
            match extract_bilibili_room_id(s.target.as_str()) {
                Some(id) => {
                    let ghost before = ids@;
                    ids.push(id);
                    proof {
                        assert(views(ids@) =~= views(before) + seq![id@]);
                    }
                },
                None => {
                    proof {
                        assert(views(ids@) =~= views(ids@) + Seq::<Seq<char>>::empty());
                    }
                },
            }
        } else {
            proof {
                reveal_strlit("bilibili_live");
                assert(views(ids@) =~= views(ids@) + Seq::<Seq<char>>::empty());
            }
        }
        i = i + 1;
    }
    proof {
        assert(sv.take(streamers@.len() as int) =~= sv);
    }
    ids
}

// ---------------------------------------------------------------------------
// Looking up a room's base information
// ---------------------------------------------------------------------------
pub open spec fn keyed(room_id: Seq<char>) -> spec_fn((String, BilibiliRoomBaseInfo)) -> bool {
    |p: (String, BilibiliRoomBaseInfo)| p.0@ == room_id
}

pub open spec fn short_numbered(room_id: Seq<char>) -> spec_fn((String, BilibiliRoomBaseInfo)) -> bool {
    |p: (String, BilibiliRoomBaseInfo)| p.1.short_id@ == room_id
}

/// The base information of a room among the answered entries (each under
/// its room number): the entry under the number, else the first whose short
/// number it is.
pub open spec fn base_info_for(
    infos: Seq<(String, BilibiliRoomBaseInfo)>,
    room_id: Seq<char>,
) -> Option<BilibiliRoomBaseInfo> {
    match first_match(infos, keyed(room_id)) {
        Some(i) => Some(infos[i].1),
        None => match first_match(infos, short_numbered(room_id)) {
            Some(i) => Some(infos[i].1),
            None => None,
        },
    }
}

pub open spec fn pick(by_key: bool, room_id: Seq<char>) -> spec_fn((String, BilibiliRoomBaseInfo)) -> bool {
    if by_key {
        keyed(room_id)
    } else {
        short_numbered(room_id)
    }
}

fn find_entry(infos: &Vec<(String, BilibiliRoomBaseInfo)>, room_id: &str, by_key: bool) -> (r:
    Option<usize>)
    ensures
        r matches Some(i) ==> first_match(infos@, pick(by_key, room_id@)) == Some(i as int),
        r is None ==> first_match(infos@, pick(by_key, room_id@)) is None,
{
    let ghost f = pick(by_key, room_id@);
    proof {
        lemma_first_match(infos@, f);
    }
    let mut i: usize = 0;
    while i < infos.len()
        invariant
            0 <= i <= infos@.len(),
            f == pick(by_key, room_id@),
            forall|j: int| 0 <= j < i ==> !f(infos@[j]),
        decreases infos.len() - i,
    {
        let hit = if by_key {
            same_text(infos[i].0.as_str(), room_id)
        } else {
            same_text(infos[i].1.short_id.as_str(), room_id)
        };
        if hit {
            proof {
                crate::seqs::lemma_first_match_at(infos@, f, i as int);
            }
            return Some(i);
        }
        i = i + 1;
    }
    proof {
        crate::seqs::lemma_first_match_none(infos@, f);
    }
    None
}

/// Where the base information of a room stands among the entries.
pub fn find_base_info(infos: &Vec<(String, BilibiliRoomBaseInfo)>, room_id: &str) -> (r: Option<
    usize,
>)
    ensures
        r matches Some(i) ==> i < infos@.len() && base_info_for(infos@, room_id@) == Some(
            infos@[i as int].1,
        ),
        r is None ==> base_info_for(infos@, room_id@) is None,
{
    proof {
        lemma_first_match(infos@, keyed(room_id@));
        lemma_first_match(infos@, short_numbered(room_id@));
    }
    match find_entry(infos, room_id, true) {
        Some(i) => {
            Some(i)
        },
        None => {
            let r = find_entry(infos, room_id, false);
            r
        },
    }
}

// ---------------------------------------------------------------------------
// Updating a streamer
// ---------------------------------------------------------------------------
pub open spec fn text_or_empty(o: Option<Seq<char>>) -> Seq<char> {
    match o {
        Some(s) => s,
        None => Seq::empty(),
    }
}

/// A text that is kept only when it is not blank.
pub open spec fn unless_blank(s: Seq<char>) -> Option<Seq<char>> {
    if is_blank(s) {
        None
    } else {
        Some(s)
    }
}

/// The avatar after a refresh: the resolved one when there is one, the old
/// field otherwise.
pub open spec fn refreshed_avatar(old: Option<Seq<char>>, resolved: Seq<char>) -> Option<Seq<char>> {
    if resolved.len() == 0 {
        old
    } else {
        Some(resolved)
    }
}

/// A Bilibili streamer after a refresh, from its room's base information
/// (none when the room was not among the answers) and the anchor's face (only
/// read when the streamer has no avatar).
pub open spec fn bilibili_synced(
    s: StreamerView,
    info: Option<BilibiliRoomBaseInfo>,
    anchor_face: Seq<char>,
) -> StreamerView {
    let avatar = refreshed_avatar(
        s.avatar_url,
        avatar_choice(text_or_empty(s.avatar_url), anchor_face, Seq::empty()),
    );
    match info {
        Some(info) => {
            let online = info.live_status == 1;
            StreamerView {
                id: s.id,
                name: if is_blank(info.uname@) {
                    s.name
                } else {
                    info.uname@
                },
                platform: s.platform,
                target: if is_blank(info.live_url@) {
                    bilibili_room_prefix() + trim(info.room_id@)
                } else {
                    info.live_url@
                },
                avatar_url: avatar,
                is_online: Some(online),
                screenshot_url: if online {
                    match unless_blank(info.cover@) {
                        Some(c) => Some(remote_image_url(c)),
                        None => None,
                    }
                } else {
                    None
                },
                heat_text: if online {
                    unless_blank(info.online@)
                } else {
                    None
                },
            }
        },
        None => StreamerView {
            id: s.id,
            name: s.name,
            platform: s.platform,
            target: s.target,
            avatar_url: avatar,
            is_online: Some(false),
            screenshot_url: None,
            heat_text: None,
        },
    }
}

fn some_unless_blank(s: &String) -> (r: Option<String>)
    ensures
        opt_view(r) == unless_blank(s@),
{
    if is_blank_str(s.as_str()) {
        None
    } else {
        Some(s.clone())
    }
}

/// Refreshes a Bilibili streamer from the answered base information.
pub fn sync_bilibili_streamer(
    streamer: &mut Streamer,
    infos: &Vec<(String, BilibiliRoomBaseInfo)>,
    anchor_face: &str,
)
    ensures
        final(streamer).view_of() == bilibili_synced(
            old(streamer).view_of(),
            base_info_for(
                infos@,
                text_or_empty(room_number_of(old(streamer).target@)),
            ),
            anchor_face@,
        ),
{
    let room_id = match extract_bilibili_room_id(streamer.target.as_str()) {
        Some(id) => id,
        None => String::new(),
    };
    let current = match &streamer.avatar_url {
        Some(a) => a.clone(),
        None => String::new(),
    };
    let avatar = resolve_bilibili_avatar(current.as_str(), anchor_face, "");
    proof {
        reveal_strlit("");
    }
    if !avatar.as_str().is_empty() {
        streamer.avatar_url = Some(avatar);
    }
    match find_base_info(infos, room_id.as_str()) {
        Some(k) => {
            let info = &infos[k].1;
            let is_online = info.live_status == 1;
            streamer.target = if is_blank_str(info.live_url.as_str()) {
                build_bilibili_live_url(info.room_id.as_str())
            } else {
                info.live_url.clone()
            };
            streamer.is_online = Some(is_online);
            if !is_blank_str(info.uname.as_str()) {
                streamer.name = info.uname.clone();
            }
            if is_online {
                streamer.screenshot_url = if is_blank_str(info.cover.as_str()) {
                    None
                } else {
                    Some(normalize_remote_image_url(info.cover.as_str()))
                };
                streamer.heat_text = some_unless_blank(&info.online);
            } else {
                streamer.screenshot_url = None;
                streamer.heat_text = None;
            }
        },
        None => {
            streamer.is_online = Some(false);
            streamer.screenshot_url = None;
            streamer.heat_text = None;
        },
    }
}

/// A Huya or Douyin streamer after a refresh from its room's report (an
/// error when the lookup failed); `prefix` is the platform's room address.
pub open spec fn state_synced(
    s: StreamerView,
    parsed: Result<RoomView, Seq<char>>,
    prefix: Seq<char>,
) -> StreamerView {
    match parsed {
        Ok(p) => StreamerView {
            id: s.id,
            name: if is_blank(p.streamer_name) {
                s.name
            } else {
                p.streamer_name
            },
            platform: s.platform,
            target: prefix + trim(p.room_id),
            avatar_url: if is_blank(p.avatar_url) {
                s.avatar_url
            } else {
                Some(p.avatar_url)
            },
            is_online: Some(p.is_online),
            screenshot_url: if p.is_online {
                unless_blank(p.screenshot_url)
            } else {
                None
            },
            heat_text: if p.is_online {
                unless_blank(p.heat_text)
            } else {
                None
            },
        },
        Err(_) => offline_synced(s),
    }
}

/// A streamer whose lookup failed: offline, without picture or heat.
pub open spec fn offline_synced(s: StreamerView) -> StreamerView {
    StreamerView {
        id: s.id,
        name: s.name,
        platform: s.platform,
        target: s.target,
        avatar_url: s.avatar_url,
        is_online: Some(false),
        screenshot_url: None,
        heat_text: None,
    }
}

/// A Douyu streamer after a refresh: the address stays; a live room whose
/// picture is blank keeps the old picture.
pub open spec fn douyu_synced(s: StreamerView, parsed: Result<RoomView, Seq<char>>) -> StreamerView {
    match parsed {
        Ok(p) => StreamerView {
            id: s.id,
            name: if is_blank(p.streamer_name) {
                s.name
            } else {
                p.streamer_name
            },
            platform: s.platform,
            target: s.target,
            avatar_url: if is_blank(p.avatar_url) {
                s.avatar_url
            } else {
                Some(p.avatar_url)
            },
            is_online: Some(p.is_online),
            screenshot_url: if !p.is_online {
                None
            } else if is_blank(p.screenshot_url) {
                s.screenshot_url
            } else {
                Some(p.screenshot_url)
            },
            heat_text: if p.is_online {
                unless_blank(p.heat_text)
            } else {
                None
            },
        },
        Err(_) => offline_synced(s),
    }
}

pub open spec fn report_view(r: Result<ExtractResult, String>) -> Result<RoomView, Seq<char>> {
    match r {
        Ok(p) => Ok(p.view_of()),
        Err(e) => Err(e@),
    }
}

/// A streamer of Huya, Douyin or Douyu after a refresh from its room's
/// report, by its (normalized) platform; any other platform name is treated
/// as Douyu.
pub open spec fn live_synced(s: StreamerView, parsed: Result<RoomView, Seq<char>>) -> StreamerView {
    if s.platform == huya_name() {
        state_synced(s, parsed, huya_room_prefix())
    } else if s.platform == douyin_name() {
        state_synced(s, parsed, douyin_room_prefix())
    } else {
        douyu_synced(s, parsed)
    }
}

/// Refreshes a Huya, Douyin or Douyu streamer from its room's report.
pub fn sync_live_streamer(streamer: &mut Streamer, parsed: Result<ExtractResult, String>)
    ensures
        final(streamer).view_of() == live_synced(old(streamer).view_of(), report_view(parsed)),
{
    proof {
        reveal_strlit("huya");
        reveal_strlit("douyin_live");
    }
    let is_huya = same_text(streamer.platform.as_str(), PLATFORM_HUYA);
    let is_douyin = same_text(streamer.platform.as_str(), PLATFORM_DOUYIN_LIVE);
    match parsed {
        Ok(p) => {
            if is_huya || is_douyin {
                streamer.target = if is_huya {
                    build_huya_live_url(p.room_id.as_str())
                } else {
                    build_douyin_live_url(p.room_id.as_str())
                };
            }
            streamer.is_online = Some(p.is_online);
            if !is_blank_str(p.avatar_url.as_str()) {
                streamer.avatar_url = Some(p.avatar_url.clone());
            }
            if !is_blank_str(p.streamer_name.as_str()) {
                streamer.name = p.streamer_name.clone();
            }
            if is_huya || is_douyin {
                streamer.screenshot_url = if p.is_online {
                    some_unless_blank(&p.screenshot_url)
                } else {
                    None
                };
            } else if p.is_online && !is_blank_str(p.screenshot_url.as_str()) {
                streamer.screenshot_url = Some(p.screenshot_url.clone());
            } else if !p.is_online {
                streamer.screenshot_url = None;
            }
            streamer.heat_text = if p.is_online {
                some_unless_blank(&p.heat_text)
            } else {
                None
            };
        },
        Err(_) => {
            streamer.is_online = Some(false);
            streamer.screenshot_url = None;
            streamer.heat_text = None;
        },
    }
}

/// After a refresh a streamer keeps its id and platform, and one that is
/// offline shows neither picture nor heat.
pub proof fn lemma_sync_keeps_identity(
    s: StreamerView,
    info: Option<BilibiliRoomBaseInfo>,
    anchor_face: Seq<char>,
    parsed: Result<RoomView, Seq<char>>,
)
    ensures
        ({
            let b = bilibili_synced(s, info, anchor_face);
            &&& b.id == s.id
            &&& b.platform == s.platform
            &&& b.is_online is Some
            &&& b.is_online == Some(false) ==> b.screenshot_url is None && b.heat_text is None
        }),
        ({
            let l = live_synced(s, parsed);
            &&& l.id == s.id
            &&& l.platform == s.platform
            &&& l.is_online is Some
            &&& l.is_online == Some(false) ==> l.screenshot_url is None && l.heat_text is None
        }),
{
}

/// A failed lookup leaves a streamer's name, address and avatar as they
/// were and marks it offline.
pub proof fn lemma_failed_lookup_marks_offline(s: StreamerView, e: Seq<char>)
    ensures
        live_synced(s, Err(e)) == offline_synced(s),
        offline_synced(s).name == s.name,
        offline_synced(s).target == s.target,
        offline_synced(s).avatar_url == s.avatar_url,
        offline_synced(s).is_online == Some(false),
{
}

} // verus!
