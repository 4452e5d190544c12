//! Searching streamers: reading candidates out of each platform's search
//! answer, and assembling the results with the room status looked up for
//! them.
use vstd::prelude::*;
use crate::text::{
    trim, is_blank, contains, strip_tags, trim_str, is_blank_str, contains_str, chars_of,
    strip_html_tags, extend_str, extend_chars, decimal_int, push_decimal_i64, lemma_trimmed_plain_text,
};
use crate::outside::{
    regex_captures, regex_all_captures, capture_views, capture_result, groups_view, string_from_chars,
    url_encode, percent_encode,
};
use crate::platform::{
    huya_name, bilibili_name, douyu_name, opt_view, PLATFORM_HUYA, PLATFORM_BILIBILI_LIVE,
    PLATFORM_DOUYU,
};
use crate::room::{
    huya_room_prefix, bilibili_room_prefix, remote_image_url, normalize_remote_image_url,
    build_huya_live_url, build_bilibili_live_url,
};
use crate::state::{ExtractResult, RoomView, text_when_online};
use crate::bilibili::BilibiliRoomBaseInfo;
use crate::sync::{base_info_for, find_base_info};
use crate::douyu::RoomSnapshot;
use crate::seqs::{views, first_match, lemma_first_match_at, lemma_first_match_none};

verus! {

/// One streamer found by a search.
pub struct SearchStreamer {
    pub name: String,
    pub platform: String,
    pub target: String,
    pub room_id: String,
    pub room_name: String,
    pub avatar_url: String,
    pub is_online: bool,
    pub screenshot_url: String,
    pub heat_text: String,
}

/// The texts of a search result, for contracts.
pub struct SearchView {
    pub name: Seq<char>,
    pub platform: Seq<char>,
    pub target: Seq<char>,
    pub room_id: Seq<char>,
    pub room_name: Seq<char>,
    pub avatar_url: Seq<char>,
    pub is_online: bool,
    pub screenshot_url: Seq<char>,
    pub heat_text: Seq<char>,
}

impl SearchStreamer {
    pub open spec fn view_of(&self) -> SearchView {
        SearchView {
            name: self.name@,
            platform: self.platform@,
            target: self.target@,
            room_id: self.room_id@,
            room_name: self.room_name@,
            avatar_url: self.avatar_url@,
            is_online: self.is_online,
            screenshot_url: self.screenshot_url@,
            heat_text: self.heat_text@,
        }
    }
}

pub open spec fn search_views(v: Seq<SearchStreamer>) -> Seq<SearchView> {
    v.map_values(|s: SearchStreamer| s.view_of())
}

pub open spec fn opt_room_view(o: Option<ExtractResult>) -> Option<RoomView> {
    match o {
        Some(r) => Some(r.view_of()),
        None => None,
    }
}

pub open spec fn msg_missing_keyword() -> Seq<char> {
    "Missing keyword"@
}

/// The trimmed search keyword; an error when it is blank.
pub fn search_query(keyword: &str) -> (r: Result<String, String>)
    ensures
        r is Ok <==> !is_blank(keyword@),
        r matches Ok(q) ==> q@ == trim(keyword@),
        r matches Err(e) ==> e@ == msg_missing_keyword(),
{
    let q = trim_str(keyword);
    if q.len() == 0 {
        return Err(String::from_str("Missing keyword"));
    }
    Ok(string_from_chars(q.as_slice()))
}

/// The first `n` elements, or all when there are fewer.
pub open spec fn first_n<T>(s: Seq<T>, n: int) -> Seq<T> {
    if s.len() > n {
        s.take(n)
    } else {
        s
    }
}

// ---------------------------------------------------------------------------
// Huya
// ---------------------------------------------------------------------------
/// How many Huya candidates get their room status looked up.
pub const HUYA_SEARCH_STATUS_LIMIT: usize = 6;

/// How many matches of the Huya search page are read.
pub const HUYA_SEARCH_ITEM_LIMIT: usize = 12;

pub const HUYA_ITEM_PATTERN: &'static str =
    "(?s)<li title=\"房间号：(?P<room_id>\\d+)\" class=\"host-item\">(?P<body>.*?)</li>";

pub const HUYA_AVATAR_PATTERN: &'static str = "<img src=\"(?P<avatar>[^\"]+)\"";

pub const HUYA_NICK_PATTERN: &'static str = "<div class=\"nick\">(?P<nick>.*?)</div>";

pub const HUYA_DESC_PATTERN: &'static str = "<div class=\"desc\">(?P<desc>.*?)</div>";

/// The Huya search page for a (trimmed) keyword.
pub fn huya_search_url(query: &str) -> (r: String)
    ensures
        r@ == "https://www.huya.com/search?hsk="@ + percent_encode(vstd::utf8::encode_utf8(query@)),
{
    let encoded = url_encode(query);
    let mut u: Vec<char> = Vec::new();
    extend_str(&mut u, "https://www.huya.com/search?hsk=");
    extend_str(&mut u, encoded.as_str());
    string_from_chars(u.as_slice())
}

/// The text of a group of a match; empty when it took no part.
pub open spec fn group_text(m: Seq<Option<Seq<char>>>, i: int) -> Seq<char> {
    if 0 <= i < m.len() {
        match m[i] {
            Some(s) => s,
            None => Seq::empty(),
        }
    } else {
        Seq::empty()
    }
}

/// The first group of the first match of a pattern; empty when there is
/// none.
pub open spec fn first_capture(pattern: Seq<char>, text: Seq<char>) -> Seq<char> {
    match regex_captures(pattern, text) {
        Ok(ms) => if ms.len() > 0 {
            group_text(ms[0], 1)
        } else {
            Seq::empty()
        },
        Err(_) => Seq::empty(),
    }
}

/// The error of a pattern that does not compile.
pub open spec fn pattern_error(pattern: Seq<char>) -> Option<Seq<char>> {
    match regex_captures(pattern, Seq::empty()) {
        Ok(_) => None,
        Err(e) => Some(e),
    }
}

fn group_text_exec(m: &Vec<Option<String>>, i: usize) -> (s: String)
    ensures
        s@ == group_text(groups_view(*m), i as int),
{
    if i < m.len() {
        match &m[i] {
            Some(t) => t.clone(),
            None => String::new(),
        }
    } else {
        String::new()
    }
}

fn first_capture_exec(pattern: &str, text: &str) -> (s: String)
    ensures
        s@ == first_capture(pattern@, text@),
{
    match regex_all_captures(pattern, text) {
        Ok(ms) => {
            if ms.len() > 0 {
                proof {
                    assert(capture_views(ms@)[0] == groups_view(ms@[0]));
                }
                group_text_exec(&ms[0], 1)
            } else {
                String::new()
            }
        },
        Err(_) => String::new(),
    }
}

fn pattern_check(pattern: &str) -> (r: Result<(), String>)
    ensures
        r is Ok <==> pattern_error(pattern@) is None,
        r matches Err(e) ==> pattern_error(pattern@) == Some(e@),
{
    let empty = "";
    proof {
        reveal_strlit("");
        assert(empty@ =~= Seq::<char>::empty());
    }
    let r = regex_all_captures(pattern, empty);
    proof {
        assert(capture_result(r) == regex_captures(pattern@, Seq::<char>::empty()));
    }
    match r {
        Ok(_) => Ok(()),
        Err(e) => Err(e),
    }
}

/// A streamer read out of the Huya search page.
pub struct HuyaSearchCandidate {
    pub room_id: String,
    pub name: String,
    pub avatar_url: String,
    pub description: String,
}

pub struct CandidateView {
    pub room_id: Seq<char>,
    pub name: Seq<char>,
    pub avatar_url: Seq<char>,
    pub description: Seq<char>,
}

impl HuyaSearchCandidate {
    pub open spec fn view_of(&self) -> CandidateView {
        CandidateView {
            room_id: self.room_id@,
            name: self.name@,
            avatar_url: self.avatar_url@,
            description: self.description@,
        }
    }
}

pub open spec fn candidate_views(v: Seq<HuyaSearchCandidate>) -> Seq<CandidateView> {
    v.map_values(|c: HuyaSearchCandidate| c.view_of())
}

/// A candidate from a room number and the texts captured for its nickname,
/// avatar and description: the markup taken out of the nickname and the
/// description and both trimmed, the avatar made an absolute address; none
/// when the number or the nickname comes out empty.
pub open spec fn huya_candidate_parts(
    room_id: Seq<char>,
    nick: Seq<char>,
    avatar: Seq<char>,
    desc: Seq<char>,
) -> Option<CandidateView> {
    let name = trim(strip_tags(nick));
    if room_id.len() == 0 || name.len() == 0 {
        None
    } else {
        Some(
            CandidateView {
                room_id,
                name,
                avatar_url: remote_image_url(avatar),
                description: trim(strip_tags(desc)),
            },
        )
    }
}

/// The candidate of one matched item: its room number, and the nickname,
/// avatar and description found in its body.
pub open spec fn huya_candidate(m: Seq<Option<Seq<char>>>) -> Option<CandidateView> {
    let body = group_text(m, 2);
    huya_candidate_parts(
        group_text(m, 1),
        first_capture(HUYA_NICK_PATTERN@, body),
        first_capture(HUYA_AVATAR_PATTERN@, body),
        first_capture(HUYA_DESC_PATTERN@, body),
    )
}

pub open spec fn huya_candidates_of(ms: Seq<Seq<Option<Seq<char>>>>) -> Seq<CandidateView>
    decreases ms.len(),
{
    if ms.len() == 0 {
        Seq::empty()
    } else {
        huya_candidates_of(ms.drop_last()) + match huya_candidate(ms.last()) {
            Some(c) => seq![c],
            None => Seq::empty(),
        }
    }
}

/// The candidates of a Huya search page: those of its first twelve items;
/// the error of the first pattern that does not compile.
pub open spec fn huya_search_candidates_of(html: Seq<char>) -> Result<Seq<CandidateView>, Seq<char>> {
    match regex_captures(HUYA_ITEM_PATTERN@, html) {
        Err(e) => Err(e),
        Ok(ms) => match pattern_error(HUYA_AVATAR_PATTERN@) {
            Some(e) => Err(e),
            None => match pattern_error(HUYA_NICK_PATTERN@) {
                Some(e) => Err(e),
                None => match pattern_error(HUYA_DESC_PATTERN@) {
                    Some(e) => Err(e),
                    None => Ok(huya_candidates_of(first_n(ms, 12))),
                },
            },
        },
    }
}

/// The candidate of one matched item of the search page, from its groups:
/// the room number is group 1, the body that holds the rest is group 2.
pub fn huya_search_candidate(groups: &Vec<Option<String>>) -> (r: Option<HuyaSearchCandidate>)
    ensures
        r is Some <==> huya_candidate(groups_view(*groups)) is Some,
        r matches Some(c) ==> huya_candidate(groups_view(*groups)) == Some(c.view_of()),
{
    let room_id = group_text_exec(groups, 1);
    let body = group_text_exec(groups, 2);
    let nick = first_capture_exec(HUYA_NICK_PATTERN, body.as_str());
    let avatar = first_capture_exec(HUYA_AVATAR_PATTERN, body.as_str());
    let desc = first_capture_exec(HUYA_DESC_PATTERN, body.as_str());
    huya_candidate_from_parts(room_id, nick.as_str(), avatar.as_str(), desc.as_str())
}

/// A candidate from a room number and the texts captured for its nickname,
/// avatar and description.
pub fn huya_candidate_from_parts(room_id: String, nick: &str, avatar: &str, desc: &str) -> (r:
    Option<HuyaSearchCandidate>)
    ensures
        r is Some <==> huya_candidate_parts(room_id@, nick@, avatar@, desc@) is Some,
        r matches Some(c) ==> huya_candidate_parts(room_id@, nick@, avatar@, desc@) == Some(
            c.view_of(),
        ),
{
    let stripped = strip_html_tags(nick);
    let name = trim_str(stripped.as_str());
    if room_id.as_str().is_empty() || name.len() == 0 {
        return None;
    }
    let desc_stripped = strip_html_tags(desc);
    let description = trim_str(desc_stripped.as_str());
    Some(
        HuyaSearchCandidate {
            room_id,
            name: string_from_chars(name.as_slice()),
            avatar_url: normalize_remote_image_url(avatar),
            description: string_from_chars(description.as_slice()),
        },
    )
}

pub open spec fn candidates_result(r: Result<Vec<HuyaSearchCandidate>, String>) -> Result<
    Seq<CandidateView>,
    Seq<char>,
> {
    match r {
        Ok(v) => Ok(candidate_views(v@)),
        Err(e) => Err(e@),
    }
}

/// Reads the streamers out of a Huya search page.
pub fn huya_search_candidates(html: &str) -> (r: Result<Vec<HuyaSearchCandidate>, String>)
    ensures
        candidates_result(r) == huya_search_candidates_of(html@),
{
    let items = match regex_all_captures(HUYA_ITEM_PATTERN, html) {
        Ok(ms) => ms,
        Err(e) => return Err(e),
    };
    match pattern_check(HUYA_AVATAR_PATTERN) {
        Ok(_) => {},
        Err(e) => return Err(e),
    }
    match pattern_check(HUYA_NICK_PATTERN) {
        Ok(_) => {},
        Err(e) => return Err(e),
    }
    match pattern_check(HUYA_DESC_PATTERN) {
        Ok(_) => {},
        Err(e) => return Err(e),
    }
    let ghost ms = capture_views(items@);
    let n: usize = if items.len() > HUYA_SEARCH_ITEM_LIMIT {
        HUYA_SEARCH_ITEM_LIMIT
    } else {
        items.len()
    };
    let mut out: Vec<HuyaSearchCandidate> = Vec::new();
    let mut i: usize = 0;
    while i < n
        invariant
            0 <= i <= n <= items@.len(),
            ms == capture_views(items@),
            candidate_views(out@) == huya_candidates_of(ms.take(i as int)),
        decreases n - i,
    {
        proof {
            assert(ms.take(i + 1).drop_last() =~= ms.take(i as int));
            assert(ms.take(i + 1).last() == groups_view(items@[i as int]));
        }
        match huya_search_candidate(&items[i]) {
            Some(c) => {
                let ghost before = out@;
                out.push(c);
                proof {
                    assert(candidate_views(out@) =~= candidate_views(before) + seq![c.view_of()]);
                }
            },
            None => {
                proof {
                    assert(candidate_views(out@) =~= candidate_views(out@) + Seq::<
                        CandidateView,
                    >::empty());
                }
            },
        }
        i = i + 1;
    }
    proof {
        assert(ms.take(n as int) =~= first_n(ms, 12));
    }
    Ok(out)
}

/// The room numbers whose status is looked up: those of the first six
/// candidates.
pub fn huya_status_room_ids(candidates: &Vec<HuyaSearchCandidate>) -> (r: Vec<String>)
    ensures
        r@.len() == first_n(candidates@, 6).len(),
        forall|i: int| 0 <= i < r@.len() ==> r@[i]@ == candidates@[i].room_id@,
{
    let mut out: Vec<String> = Vec::new();
    let mut i: usize = 0;
    while i < candidates.len() && i < HUYA_SEARCH_STATUS_LIMIT
        invariant
            0 <= i <= candidates@.len(),
            i <= 6,
            out@.len() == i,
            forall|k: int| 0 <= k < i ==> out@[k]@ == candidates@[k].room_id@,
        decreases candidates.len() - i,
    {
        out.push(candidates[i].room_id.clone());
        i = i + 1;
    }
    out
}

/// A Huya search result: the candidate, with what the room's status (when
/// it was looked up and answered) says in place of its parts.
pub open spec fn huya_result(c: CandidateView, state: Option<RoomView>) -> SearchView {
    SearchView {
        name: match state {
            Some(s) => if is_blank(s.streamer_name) {
                c.name
            } else {
                s.streamer_name
            },
            None => c.name,
        },
        platform: huya_name(),
        target: huya_room_prefix() + trim(c.room_id),
        room_id: c.room_id,
        room_name: match state {
            Some(s) => if is_blank(s.room_name) {
                c.description
            } else {
                s.room_name
            },
            None => c.description,
        },
        avatar_url: match state {
            Some(s) => if is_blank(s.avatar_url) {
                c.avatar_url
            } else {
                s.avatar_url
            },
            None => c.avatar_url,
        },
        is_online: match state {
            Some(s) => s.is_online,
            None => false,
        },
        screenshot_url: match state {
            Some(s) => s.screenshot_url,
            None => Seq::empty(),
        },
        heat_text: match state {
            Some(s) => s.heat_text,
            None => Seq::empty(),
        },
    }
}

/// The state at a candidate's position, when one was looked up.
pub open spec fn state_at(states: Seq<Option<RoomView>>, i: int) -> Option<RoomView> {
    if 0 <= i < states.len() {
        states[i]
    } else {
        None
    }
}

pub open spec fn huya_results(cands: Seq<CandidateView>, states: Seq<Option<RoomView>>) -> Seq<
    SearchView,
> {
    Seq::new(cands.len(), |i: int| huya_result(cands[i], state_at(states, i)))
}

fn pick_text(state: &Option<ExtractResult>, field: u8, fallback: &String) -> (r: String)
    requires
        field < 3,
    ensures
        r@ == (match opt_room_view(*state) {
            Some(s) => {
                let t = if field == 0 {
                    s.streamer_name
                } else if field == 1 {
                    s.room_name
                } else {
                    s.avatar_url
                };
                if is_blank(t) {
                    fallback@
                } else {
                    t
                }
            },
            None => fallback@,
        }),
{
    match state {
        Some(s) => {
            let t = if field == 0 {
                &s.streamer_name
            } else if field == 1 {
                &s.room_name
            } else {
                &s.avatar_url
            };
            if is_blank_str(t.as_str()) {
                fallback.clone()
            } else {
                t.clone()
            }
        },
        None => fallback.clone(),
    }
}

/// The Huya search results, from the candidates and the statuses looked up
/// for the first of them (`None` where a lookup failed).
pub fn huya_search_results(
    candidates: &Vec<HuyaSearchCandidate>,
    states: &Vec<Option<ExtractResult>>,
) -> (r: Vec<SearchStreamer>)
    ensures
        search_views(r@) == huya_results(
            candidate_views(candidates@),
            states@.map_values(|s: Option<ExtractResult>| opt_room_view(s)),
        ),
{
    let ghost sv = states@.map_values(|s: Option<ExtractResult>| opt_room_view(s));
    let ghost cv = candidate_views(candidates@);
    let mut out: Vec<SearchStreamer> = Vec::new();
    let mut i: usize = 0;
    while i < candidates.len()
        invariant
            0 <= i <= candidates@.len(),
            sv == states@.map_values(|s: Option<ExtractResult>| opt_room_view(s)),
            cv == candidate_views(candidates@),
            search_views(out@) =~= huya_results(cv, sv).take(i as int),
        decreases candidates.len() - i,
    {
        let c = &candidates[i];
        let none: Option<ExtractResult> = None;
        let state = if i < states.len() {
            &states[i]
        } else {
            &none
        };
        proof {
            assert(opt_room_view(*state) == state_at(sv, i as int));
        }
        let (online, shot, heat) = match state {
            Some(s) => (s.is_online, s.screenshot_url.clone(), s.heat_text.clone()),
            None => (false, String::new(), String::new()),
        };
        let item = SearchStreamer {
            name: pick_text(state, 0, &c.name),
            platform: String::from_str(PLATFORM_HUYA),
            target: build_huya_live_url(c.room_id.as_str()),
            room_id: c.room_id.clone(),
            room_name: pick_text(state, 1, &c.description),
            avatar_url: pick_text(state, 2, &c.avatar_url),
            is_online: online,
            screenshot_url: shot,
            heat_text: heat,
        };
        proof {
            assert(item.view_of() == huya_result(cv[i as int], state_at(sv, i as int)));
            assert(huya_results(cv, sv)[i as int] == item.view_of());
            assert(huya_results(cv, sv).take(i + 1) =~= huya_results(cv, sv).take(i as int).push(
                item.view_of(),
            ));
        }
        let ghost before = out@;
        out.push(item);
        proof {
            assert(search_views(out@) =~= search_views(before).push(item.view_of()));
        }
        i = i + 1;
    }
    proof {
        assert(huya_results(cv, sv).take(candidates@.len() as int) =~= huya_results(cv, sv));
    }
    out
}

// ---------------------------------------------------------------------------
// Bilibili
// ---------------------------------------------------------------------------
/// A live user found by the Bilibili search.
pub struct BilibiliLiveSearchItem {
    pub roomid: String,
    pub uname: String,
    pub live_status: i64,
    pub uface: String,
}

pub open spec fn not_blank() -> spec_fn(Seq<char>) -> bool {
    |s: Seq<char>| !is_blank(s)
}

pub open spec fn item_room_ids(items: Seq<BilibiliLiveSearchItem>) -> Seq<Seq<char>> {
    items.map_values(|it: BilibiliLiveSearchItem| it.roomid@)
}

/// The rooms whose base information is asked for: the non-blank room
/// numbers of the items, in order.
pub fn bilibili_search_room_ids(items: &Vec<BilibiliLiveSearchItem>) -> (r: Vec<String>)
    ensures
        views(r@) == item_room_ids(items@).filter(not_blank()),
{
    let ghost ids = item_room_ids(items@);
    let mut out: Vec<String> = Vec::new();
    let mut i: usize = 0;
    while i < items.len()
        invariant
            0 <= i <= items@.len(),
            ids == item_room_ids(items@),
            views(out@) == ids.take(i as int).filter(not_blank()),
        decreases items.len() - i,
    {
        proof {
            assert(ids.take(i + 1).drop_last() =~= ids.take(i as int));
            assert(ids.take(i + 1).last() == items@[i as int].roomid@);
            reveal_with_fuel(Seq::filter, 1);
        }
        if !is_blank_str(items[i].roomid.as_str()) {
            let ghost before = views(out@);
            out.push(items[i].roomid.clone());
            proof {
                assert(views(out@) =~= before.push(items@[i as int].roomid@));
            }
        }
        i = i + 1;
    }
    proof {
        assert(ids.take(items@.len() as int) =~= ids);
    }
    out
}

/// A Bilibili search result: the item, with the room's base information
/// (when it was answered) for its liveness, title, picture and heat.
pub open spec fn bilibili_result(it: BilibiliLiveSearchItem, info: Option<BilibiliRoomBaseInfo>) -> SearchView {
    let room_id = trim(it.roomid@);
    let online = match info {
        Some(i) => i.live_status == 1,
        None => it.live_status == 1,
    };
    SearchView {
        name: trim(strip_tags(it.uname@)),
        platform: bilibili_name(),
        target: bilibili_room_prefix() + trim(room_id),
        room_id,
        room_name: match info {
            Some(i) => i.title@,
            None => Seq::empty(),
        },
        avatar_url: remote_image_url(it.uface@),
        is_online: online,
        screenshot_url: if online {
            match info {
                Some(i) => remote_image_url(i.cover@),
                None => Seq::empty(),
            }
        } else {
            Seq::empty()
        },
        heat_text: if online {
            match info {
                Some(i) => i.online@,
                None => Seq::empty(),
            }
        } else {
            Seq::empty()
        },
    }
}

/// The results of the items with a room number and a name, in order.
pub open spec fn bilibili_results(
    items: Seq<BilibiliLiveSearchItem>,
    infos: Seq<(String, BilibiliRoomBaseInfo)>,
) -> Seq<SearchView>
    decreases items.len(),
{
    if items.len() == 0 {
        Seq::empty()
    } else {
        let it = items.last();
        bilibili_results(items.drop_last(), infos) + if is_blank(it.roomid@) || is_blank(
            it.uname@,
        ) {
            Seq::empty()
        } else {
            seq![bilibili_result(it, base_info_for(infos, trim(it.roomid@)))]
        }
    }
}

/// Every Bilibili search result is named by its item's name without markup:
/// no result's name holds `<` or `>`, and each name is the trimmed text of
/// some item's name with its tags taken out.
pub proof fn lemma_bilibili_result_names_are_plain(
    items: Seq<BilibiliLiveSearchItem>,
    infos: Seq<(String, BilibiliRoomBaseInfo)>,
)
    ensures
        forall|i: int|
            0 <= i < bilibili_results(items, infos).len() ==> {
                &&& !(#[trigger] bilibili_results(items, infos)[i]).name.contains('<')
                &&& !bilibili_results(items, infos)[i].name.contains('>')
                &&& exists|j: int|
                    0 <= j < items.len() && bilibili_results(items, infos)[i].name == trim(
                        strip_tags(#[trigger] items[j].uname@),
                    )
            },
    decreases items.len(),
{
    if items.len() > 0 {
        let prev = items.drop_last();
        lemma_bilibili_result_names_are_plain(prev, infos);
        let it = items.last();
        lemma_trimmed_plain_text(it.uname@);
        let r = bilibili_results(items, infos);
        let rp = bilibili_results(prev, infos);
        assert forall|i: int| 0 <= i < r.len() implies {
            &&& !(#[trigger] r[i]).name.contains('<')
            &&& !r[i].name.contains('>')
            &&& exists|j: int| 0 <= j < items.len() && r[i].name == trim(strip_tags(#[trigger] items[j].uname@))
        } by {
            if i < rp.len() {
                assert(r[i] == rp[i]);
                let j = choose|j: int| 0 <= j < prev.len() && rp[i].name == trim(strip_tags(#[trigger] prev[j].uname@));
                assert(prev[j] == items[j]);
            } else {
                assert(r[i].name == trim(strip_tags(it.uname@)));
                assert(items[items.len() - 1] == it);
            }
        }
    }
}

fn bilibili_result_exec(it: &BilibiliLiveSearchItem, infos: &Vec<(String, BilibiliRoomBaseInfo)>) -> (r:
    SearchStreamer)
    ensures
        r.view_of() == bilibili_result(*it, base_info_for(infos@, trim(it.roomid@))),
{
    let room_id = string_from_chars(trim_str(it.roomid.as_str()).as_slice());
    let found = find_base_info(infos, room_id.as_str());
    let online = match found {
        Some(k) => infos[k].1.live_status == 1,
        None => it.live_status == 1,
    };
    let stripped = strip_html_tags(it.uname.as_str());
    let name = string_from_chars(trim_str(stripped.as_str()).as_slice());
    let (room_name, shot, heat) = match found {
        Some(k) => (
            infos[k].1.title.clone(),
            normalize_remote_image_url(infos[k].1.cover.as_str()),
            infos[k].1.online.clone(),
        ),
        None => (String::new(), String::new(), String::new()),
    };
    SearchStreamer {
        name,
        platform: String::from_str(PLATFORM_BILIBILI_LIVE),
        target: build_bilibili_live_url(room_id.as_str()),
        room_id,
        room_name,
        avatar_url: normalize_remote_image_url(it.uface.as_str()),
        is_online: online,
        screenshot_url: text_when_online(online, shot),
        heat_text: text_when_online(online, heat),
    }
}

/// The Bilibili search results, from the items and the answered base
/// information of their rooms (each entry under its room number).
pub fn bilibili_search_results(
    items: &Vec<BilibiliLiveSearchItem>,
    infos: &Vec<(String, BilibiliRoomBaseInfo)>,
) -> (r: Vec<SearchStreamer>)
    ensures
        search_views(r@) == bilibili_results(items@, infos@),
{
    let mut out: Vec<SearchStreamer> = Vec::new();
    let mut i: usize = 0;
    while i < items.len()
        invariant
            0 <= i <= items@.len(),
            search_views(out@) == bilibili_results(items@.take(i as int), infos@),
        decreases items.len() - i,
    {
        proof {
            assert(items@.take(i + 1).drop_last() =~= items@.take(i as int));
            assert(items@.take(i + 1).last() == items@[i as int]);
        }
        let it = &items[i];
        if !is_blank_str(it.roomid.as_str()) && !is_blank_str(it.uname.as_str()) {
            let item = bilibili_result_exec(it, infos);
            let ghost before = search_views(out@);
            out.push(item);
            proof {
                assert(search_views(out@) =~= before + seq![item.view_of()]);
            }
        } else {
            proof {
                assert(search_views(out@) =~= search_views(out@) + Seq::<SearchView>::empty());
            }
        }
        i = i + 1;
    }
    proof {
        assert(items@.take(items@.len() as int) =~= items@);
    }
    out
}

/// One way of asking the Bilibili search: the address, the referer and the
/// origin header when one is sent.
pub struct SearchAttempt {
    pub url: String,
    pub referer: String,
    pub origin: Option<String>,
}

pub open spec fn attempt_views(v: Seq<SearchAttempt>) -> Seq<(Seq<char>, Seq<char>, Option<Seq<char>>)> {
    v.map_values(|a: SearchAttempt| (a.url@, a.referer@, opt_view(a.origin)))
}

/// The ways of asking the Bilibili search, in the order they are tried.
pub open spec fn search_attempts() -> Seq<(Seq<char>, Seq<char>, Option<Seq<char>>)> {
    let wbi = "https://api.bilibili.com/x/web-interface/wbi/search/type"@;
    let plain = "https://api.bilibili.com/x/web-interface/search/type"@;
    let search = "https://search.bilibili.com/"@;
    let www = "https://www.bilibili.com/"@;
    seq![
        (wbi, search, None),
        (wbi, www, None),
        (plain, www, None),
        (plain, www, Some("https://search.bilibili.com"@)),
        (plain, search, None),
    ]
}

fn attempt(url: &str, referer: &str, origin: Option<&str>) -> (a: SearchAttempt)
    ensures
        a.url@ == url@,
        a.referer@ == referer@,
        opt_view(a.origin) == (match origin {
            Some(o) => Some(o@),
            None => None,
        }),
{
    SearchAttempt {
        url: String::from_str(url),
        referer: String::from_str(referer),
        origin: match origin {
            Some(o) => Some(String::from_str(o)),
            None => None,
        },
    }
}

pub fn bilibili_search_attempts() -> (r: Vec<SearchAttempt>)
    ensures
        attempt_views(r@) == search_attempts(),
{
    let wbi = "https://api.bilibili.com/x/web-interface/wbi/search/type";
    let plain = "https://api.bilibili.com/x/web-interface/search/type";
    let search = "https://search.bilibili.com/";
    let www = "https://www.bilibili.com/";
    let r = vec![
        attempt(wbi, search, None),
        attempt(wbi, www, None),
        attempt(plain, www, None),
        attempt(plain, www, Some("https://search.bilibili.com")),
        attempt(plain, search, None),
    ];
    proof {
        assert(attempt_views(r@) =~= search_attempts());
    }
    r
}

/// The query of a Bilibili live-user search.
pub open spec fn search_params(keyword: Seq<char>) -> Seq<(Seq<char>, Seq<char>)> {
    seq![
        ("search_type"@, "live_user"@),
        ("keyword"@, keyword),
        ("order"@, "online"@),
        ("page"@, "1"@),
        ("page_size"@, "20"@),
    ]
}

pub fn bilibili_search_params(keyword: &str) -> (r: Vec<(String, String)>)
    ensures
        r@.map_values(|p: (String, String)| (p.0@, p.1@)) == search_params(keyword@),
{
    let r = vec![
        (String::from_str("search_type"), String::from_str("live_user")),
        (String::from_str("keyword"), String::from_str(keyword)),
        (String::from_str("order"), String::from_str("online")),
        (String::from_str("page"), String::from_str("1")),
        (String::from_str("page_size"), String::from_str("20")),
    ];
    proof {
        assert(r@.map_values(|p: (String, String)| (p.0@, p.1@)) =~= search_params(keyword@));
    }
    r
}

/// What one way of asking the Bilibili search gave: a failure with its
/// message (no answer, a bad status or an unreadable answer), or an answer.
pub enum SearchAttemptOutcome {
    Failed(String),
    Answered { code: i64, message: String, result: Vec<BilibiliLiveSearchItem> },
}

/// What follows an attempt: the items, or the next attempt with this error
/// as the last one.
pub enum SearchStep {
    Found(Vec<BilibiliLiveSearchItem>),
    Retry(String),
}

pub open spec fn msg_search_error(code: i64, message: Seq<char>) -> Seq<char> {
    "Bilibili search error "@ + decimal_int(code as int) + ": "@ + message
}

pub fn bilibili_search_step(outcome: SearchAttemptOutcome) -> (r: SearchStep)
    ensures
        match outcome {
            SearchAttemptOutcome::Failed(e) => r matches SearchStep::Retry(m) && m@ == e@,
            SearchAttemptOutcome::Answered { code, message, result } => if code == 0 {
                r matches SearchStep::Found(items) && items == result
            } else {
                r matches SearchStep::Retry(m) && m@ == msg_search_error(code, message@)
            },
        },
{
    match outcome {
        SearchAttemptOutcome::Failed(e) => SearchStep::Retry(e),
        SearchAttemptOutcome::Answered { code, message, result } => {
            if code == 0 {
                SearchStep::Found(result)
            } else {
                let mut v: Vec<char> = Vec::new();
                extend_str(&mut v, "Bilibili search error ");
                push_decimal_i64(&mut v, code);
                extend_str(&mut v, ": ");
                extend_str(&mut v, message.as_str());
                SearchStep::Retry(string_from_chars(v.as_slice()))
            }
        },
    }
}

/// The error when every attempt failed: the last error, or a plain one when
/// there was none.
pub fn bilibili_search_failure(last_error: &str) -> (r: String)
    ensures
        r@ == (if last_error@.len() == 0 {
            "Bilibili search failed"@
        } else {
            last_error@
        }),
{
    if last_error.is_empty() {
        String::from_str("Bilibili search failed")
    } else {
        String::from_str(last_error)
    }
}

// ---------------------------------------------------------------------------
// Douyu
// ---------------------------------------------------------------------------
/// The anchor of a Douyu user-search item.
pub struct SearchApiAnchorInfo {
    pub room_id: String,
    pub nick_name: String,
    pub description: String,
    pub avatar: String,
}

/// The Douyu user-search address for a (trimmed) keyword.
pub fn douyu_search_url(query: &str) -> (r: String)
    ensures
        r@ == "https://www.douyu.com/japi/search/api/searchUser?kw="@ + percent_encode(
            vstd::utf8::encode_utf8(query@),
        ) + "&page=1&pageSize=30"@,
{
    let encoded = url_encode(query);
    let mut u: Vec<char> = Vec::new();
    extend_str(&mut u, "https://www.douyu.com/japi/search/api/searchUser?kw=");
    extend_str(&mut u, encoded.as_str());
    extend_str(&mut u, "&page=1&pageSize=30");
    string_from_chars(u.as_slice())
}

/// The Douyu search page for a keyword, visited before the search answer
/// is asked for so that the site sets its cookies.
pub fn douyu_search_page_url(keyword: &str) -> (r: String)
    ensures
        r@ == "https://www.douyu.com/search?kw="@ + percent_encode(vstd::utf8::encode_utf8(keyword@)),
{
    let encoded = url_encode(keyword);
    let mut u: Vec<char> = Vec::new();
    extend_str(&mut u, "https://www.douyu.com/search?kw=");
    extend_str(&mut u, encoded.as_str());
    string_from_chars(u.as_slice())
}

pub open spec fn douyu_candidate(a: SearchApiAnchorInfo) -> SearchView {
    SearchView {
        name: a.nick_name@,
        platform: douyu_name(),
        target: a.room_id@,
        room_id: a.room_id@,
        room_name: a.description@,
        avatar_url: a.avatar@,
        is_online: false,
        screenshot_url: Seq::empty(),
        heat_text: Seq::empty(),
    }
}

/// The anchors with a room number and a name, as results that are offline
/// until their rooms are looked up.
pub open spec fn douyu_candidates(items: Seq<SearchApiAnchorInfo>) -> Seq<SearchView>
    decreases items.len(),
{
    if items.len() == 0 {
        Seq::empty()
    } else {
        let a = items.last();
        douyu_candidates(items.drop_last()) + if a.room_id@.len() == 0 || a.nick_name@.len() == 0 {
            Seq::empty()
        } else {
            seq![douyu_candidate(a)]
        }
    }
}

pub fn douyu_search_candidates(items: &Vec<SearchApiAnchorInfo>) -> (r: Vec<SearchStreamer>)
    ensures
        search_views(r@) == douyu_candidates(items@),
{
    let mut out: Vec<SearchStreamer> = Vec::new();
    let mut i: usize = 0;
    while i < items.len()
        invariant
            0 <= i <= items@.len(),
            search_views(out@) == douyu_candidates(items@.take(i as int)),
        decreases items.len() - i,
    {
        proof {
            assert(items@.take(i + 1).drop_last() =~= items@.take(i as int));
            assert(items@.take(i + 1).last() == items@[i as int]);
        }
        let a = &items[i];
        if !a.room_id.as_str().is_empty() && !a.nick_name.as_str().is_empty() {
            let item = SearchStreamer {
                name: a.nick_name.clone(),
                platform: String::from_str(PLATFORM_DOUYU),
                target: a.room_id.clone(),
                room_id: a.room_id.clone(),
                room_name: a.description.clone(),
                avatar_url: a.avatar.clone(),
                is_online: false,
                screenshot_url: String::new(),
                heat_text: String::new(),
            };
            let ghost before = search_views(out@);
            out.push(item);
            proof {
                assert(search_views(out@) =~= before + seq![douyu_candidate(*a)]);
            }
        } else {
            proof {
                assert(search_views(out@) =~= search_views(out@) + Seq::<SearchView>::empty());
            }
        }
        i = i + 1;
    }
    proof {
        assert(items@.take(items@.len() as int) =~= items@);
    }
    out
}

/// A Douyu result updated with its room's snapshot: non-blank texts replace
/// the search's, liveness, picture and heat come from the snapshot.
pub open spec fn with_snapshot(r: SearchView, s: RoomSnapshot) -> SearchView {
    SearchView {
        name: if is_blank(s.streamer_name@) {
            r.name
        } else {
            s.streamer_name@
        },
        platform: r.platform,
        target: r.target,
        room_id: r.room_id,
        room_name: if is_blank(s.room_name@) {
            r.room_name
        } else {
            s.room_name@
        },
        avatar_url: if is_blank(s.avatar_url@) {
            r.avatar_url
        } else {
            s.avatar_url@
        },
        is_online: s.is_online,
        screenshot_url: s.screenshot_url@,
        heat_text: s.heat_text@,
    }
}

pub open spec fn snapshot_of_room(room_id: Seq<char>) -> spec_fn(RoomSnapshot) -> bool {
    |s: RoomSnapshot| s.room_id@ == room_id
}

/// A result with the snapshot of its room, when one was taken.
pub open spec fn snapshot_applied(r: SearchView, snapshots: Seq<RoomSnapshot>) -> SearchView {
    match first_match(snapshots, snapshot_of_room(r.room_id)) {
        Some(k) => with_snapshot(r, snapshots[k]),
        None => r,
    }
}

fn find_snapshot(snapshots: &Vec<RoomSnapshot>, room_id: &String) -> (r: Option<usize>)
    ensures
        r matches Some(k) ==> first_match(snapshots@, snapshot_of_room(room_id@)) == Some(k as int)
            && k < snapshots@.len(),
        r is None ==> first_match(snapshots@, snapshot_of_room(room_id@)) is None,
{
    let ghost f = snapshot_of_room(room_id@);
    let mut i: usize = 0;
    while i < snapshots.len()
        invariant
            0 <= i <= snapshots@.len(),
            f == snapshot_of_room(room_id@),
            forall|j: int| 0 <= j < i ==> !f(snapshots@[j]),
        decreases snapshots.len() - i,
    {
        if snapshots[i].room_id == *room_id {
            proof {
                lemma_first_match_at(snapshots@, f, i as int);
            }
            return Some(i);
        }
        i = i + 1;
    }
    proof {
        lemma_first_match_none(snapshots@, f);
    }
    None
}

/// Updates each Douyu result with the snapshot taken of its room.
pub fn apply_douyu_snapshots(results: &mut Vec<SearchStreamer>, snapshots: &Vec<RoomSnapshot>)
    ensures
        search_views(final(results)@) == search_views(old(results)@).map_values(
            |r: SearchView| snapshot_applied(r, snapshots@),
        ),
{
    let ghost start = search_views(results@);
    let mut i: usize = 0;
    while i < results.len()
        invariant
            0 <= i <= results@.len(),
            results@.len() == start.len(),
            forall|k: int| 0 <= k < i ==> #[trigger] results@[k].view_of() == snapshot_applied(start[k], snapshots@),
            forall|k: int| i <= k < results@.len() ==> #[trigger] results@[k].view_of() == start[k],
        decreases results.len() - i,
    {
        let found = find_snapshot(snapshots, &results[i].room_id);
        match found {
            Some(k) => {
                let s = &snapshots[k];
                let mut r = results[i].clone_result();
                if !is_blank_str(s.streamer_name.as_str()) {
                    r.name = s.streamer_name.clone();
                }
                if !is_blank_str(s.room_name.as_str()) {
                    r.room_name = s.room_name.clone();
                }
                if !is_blank_str(s.avatar_url.as_str()) {
                    r.avatar_url = s.avatar_url.clone();
                }
                r.is_online = s.is_online;
                r.screenshot_url = s.screenshot_url.clone();
                r.heat_text = s.heat_text.clone();
                results.set(i, r);
            },
            None => {},
        }
        i = i + 1;
    }
    proof {
        assert(search_views(results@) =~= start.map_values(
            |r: SearchView| snapshot_applied(r, snapshots@),
        ));
    }
}

impl SearchStreamer {
    /// A copy of the result.
    pub fn clone_result(&self) -> (r: SearchStreamer)
        ensures
            r.view_of() == self.view_of(),
    {
        SearchStreamer {
            name: self.name.clone(),
            platform: self.platform.clone(),
            target: self.target.clone(),
            room_id: self.room_id.clone(),
            room_name: self.room_name.clone(),
            avatar_url: self.avatar_url.clone(),
            is_online: self.is_online,
            screenshot_url: self.screenshot_url.clone(),
            heat_text: self.heat_text.clone(),
        }
    }
}

/// The Huya search reads at most twelve candidates, each with a room
/// number and a name.
pub proof fn lemma_huya_candidates_bounded(html: Seq<char>)
    ensures
        huya_search_candidates_of(html) matches Ok(c) ==> c.len() <= 12 && forall|i: int|
            0 <= i < c.len() ==> c[i].room_id.len() > 0 && c[i].name.len() > 0,
{
    if let Ok(ms) = regex_captures(HUYA_ITEM_PATTERN@, html) {
        lemma_candidates_of_bounded(first_n(ms, 12));
    }
}

proof fn lemma_candidates_of_bounded(ms: Seq<Seq<Option<Seq<char>>>>)
    ensures
        huya_candidates_of(ms).len() <= ms.len(),
        forall|i: int|
            0 <= i < huya_candidates_of(ms).len() ==> huya_candidates_of(ms)[i].room_id.len() > 0
                && huya_candidates_of(ms)[i].name.len() > 0,
    decreases ms.len(),
{
    if ms.len() > 0 {
        lemma_candidates_of_bounded(ms.drop_last());
        let p = huya_candidates_of(ms.drop_last());
        let r = huya_candidates_of(ms);
        assert forall|i: int| 0 <= i < r.len() implies r[i].room_id.len() > 0 && r[i].name.len()
            > 0 by {
            if i < p.len() {
                assert(r[i] == p[i]);
            }
        }
    }
}

// ---------------------------------------------------------------------------
// All platforms
// ---------------------------------------------------------------------------
/// The results of one platform's search, none when that search failed.
pub open spec fn found_views(r: Result<Vec<SearchStreamer>, String>) -> Seq<SearchView> {
    match r {
        Ok(v) => search_views(v@),
        Err(_) => Seq::empty(),
    }
}

fn found_or_empty(r: Result<Vec<SearchStreamer>, String>) -> (v: Vec<SearchStreamer>)
    ensures
        search_views(v@) == found_views(r),
{
    match r {
        Ok(v) => v,
        Err(_) => {
            let v: Vec<SearchStreamer> = Vec::new();
            assert(search_views(v@) =~= Seq::empty());
            v
        },
    }
}

/// The combined search: Douyu's results, then Bilibili's, Huya's and
/// Douyin's, a platform whose search failed giving none.
pub fn merge_search_results(
    douyu: Result<Vec<SearchStreamer>, String>,
    bilibili: Result<Vec<SearchStreamer>, String>,
    huya: Result<Vec<SearchStreamer>, String>,
    douyin: Result<Vec<SearchStreamer>, String>,
) -> (r: Vec<SearchStreamer>)
    ensures
        search_views(r@) == found_views(douyu) + found_views(bilibili) + found_views(huya)
            + found_views(douyin),
{
    let mut results = found_or_empty(douyu);
    let mut b = found_or_empty(bilibili);
    let mut h = found_or_empty(huya);
    let mut d = found_or_empty(douyin);
    let ghost (v0, v1, v2, v3) = (results@, b@, h@, d@);
    results.append(&mut b);
    results.append(&mut h);
    results.append(&mut d);
    assert(search_views(results@) =~= search_views(v0) + search_views(v1) + search_views(v2)
        + search_views(v3));
    results
}

} // verus!
