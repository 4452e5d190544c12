//! Douyin Live: the room report from the helper's answer, finding candidate
//! rooms in search-engine pages, and the search results.
use vstd::prelude::*;
use vstd::utf8::encode_utf8;
use crate::text::{
    trim, is_blank, contains, chars_of, trim_str, is_blank_str, contains_str, extend_str, regex_escaped,
    regex_escape,
};
use crate::outside::{
    regex_captures, regex_all_captures, capture_views, groups_view,
    string_from_chars, url_encode, percent_encode,
};
use crate::platform::{douyin_name, PLATFORM_DOUYIN_LIVE};
use crate::room::{
    douyin_room_prefix, douyin_room_number_of, remote_image_url, extract_douyin_room_id,
    build_douyin_live_url, normalize_remote_image_url,
};
use crate::state::{ExtractResult, RoomView, when_online, text_when_online};
use crate::seqs::{views, dedup, lemma_dedup_props, contains_string};
use crate::search::{SearchStreamer, SearchView, search_views, opt_room_view};

verus! {

// ---------------------------------------------------------------------------
// The room report
// ---------------------------------------------------------------------------
/// What the Douyin helper answers about a room.
pub struct DouyinHelperResponse {
    pub room_id: String,
    pub streamer_name: String,
    pub room_name: String,
    pub avatar_url: String,
    pub screenshot_url: String,
    pub is_online: bool,
    pub heat_text: String,
    pub page_url: String,
    pub title: String,
    pub urls: Vec<String>,
}

pub open spec fn msg_no_douyin_room() -> Seq<char> {
    "无法识别抖音直播间房间号"@
}

/// The room number of a Douyin address; an error when there is none.
pub fn douyin_room_id(target: &str) -> (r: Result<String, String>)
    ensures
        r is Ok <==> douyin_room_number_of(target@) is Some,
        r matches Ok(id) ==> douyin_room_number_of(target@) == Some(id@),
        r matches Err(e) ==> e@ == msg_no_douyin_room(),
{
    match extract_douyin_room_id(target) {
        Some(id) => Ok(id),
        None => Err(String::from_str("无法识别抖音直播间房间号")),
    }
}

/// The report of a Douyin room from the helper's answer: texts trimmed,
/// images and stream lines made absolute, the page of the room asked for,
/// the room name as title when there is none.
pub open spec fn douyin_view(room_id: Seq<char>, r: DouyinHelperResponse) -> RoomView {
    RoomView {
        platform: douyin_name(),
        room_id: if is_blank(r.room_id@) {
            room_id
        } else {
            r.room_id@
        },
        streamer_name: trim(r.streamer_name@),
        room_name: trim(r.room_name@),
        avatar_url: remote_image_url(r.avatar_url@),
        is_online: r.is_online,
        screenshot_url: when_online(r.is_online, remote_image_url(r.screenshot_url@)),
        heat_text: when_online(r.is_online, trim(r.heat_text@)),
        page_url: douyin_room_prefix() + trim(room_id),
        title: if is_blank(r.title@) {
            trim(r.room_name@)
        } else {
            trim(r.title@)
        },
        urls: views(r.urls@).map_values(|u: Seq<char>| remote_image_url(u)),
    }
}

fn trimmed(s: &str) -> (r: String)
    ensures
        r@ == trim(s@),
{
    let t = trim_str(s);
    string_from_chars(t.as_slice())
}

pub fn douyin_room_state(room_id: &str, response: &DouyinHelperResponse) -> (r: ExtractResult)
    ensures
        r.view_of() == douyin_view(room_id@, *response),
{
    let online = response.is_online;
    let mut urls: Vec<String> = Vec::new();
    let mut i: usize = 0;
    while i < response.urls.len()
        invariant
            0 <= i <= response.urls@.len(),
            urls@.len() == i,
            forall|k: int|
                0 <= k < i ==> #[trigger] urls@[k]@ == remote_image_url(response.urls@[k]@),
        decreases response.urls.len() - i,
    {
        urls.push(normalize_remote_image_url(response.urls[i].as_str()));
        i = i + 1;
    }
    let r = ExtractResult {
        platform: String::from_str(PLATFORM_DOUYIN_LIVE),
        room_id: if is_blank_str(response.room_id.as_str()) {
            String::from_str(room_id)
        } else {
            response.room_id.clone()
        },
        streamer_name: trimmed(response.streamer_name.as_str()),
        room_name: trimmed(response.room_name.as_str()),
        avatar_url: normalize_remote_image_url(response.avatar_url.as_str()),
        is_online: online,
        screenshot_url: text_when_online(
            online,
            normalize_remote_image_url(response.screenshot_url.as_str()),
        ),
        heat_text: text_when_online(online, trimmed(response.heat_text.as_str())),
        page_url: build_douyin_live_url(room_id),
        title: if is_blank_str(response.title.as_str()) {
            trimmed(response.room_name.as_str())
        } else {
            trimmed(response.title.as_str())
        },
        urls,
    };
    proof {
        assert(r.view_of().urls =~= views(response.urls@).map_values(
            |u: Seq<char>| remote_image_url(u),
        ));
    }
    r
}

pub open spec fn msg_no_douyin_lines() -> Seq<char> {
    "未获取到抖音直播播放线路"@
}

/// A Douyin room ready for playback: an error when it is live but has no
/// stream line; a room that is not live is passed on as it is.
pub fn douyin_play_check(state: ExtractResult) -> (r: Result<ExtractResult, String>)
    ensures
        r is Err <==> state.is_online && state.urls@.len() == 0,
        r matches Ok(s) ==> s == state,
        r matches Err(e) ==> e@ == msg_no_douyin_lines(),
{
    if state.is_online && state.urls.len() == 0 {
        return Err(String::from_str("未获取到抖音直播播放线路"));
    }
    Ok(state)
}

// ---------------------------------------------------------------------------
// Candidate rooms from search engines
// ---------------------------------------------------------------------------
/// How many candidate rooms are checked.
pub const DOUYIN_SEARCH_VERIFY_LIMIT: usize = 5;

/// The search-engine query for a keyword.
pub open spec fn engine_query(keyword: Seq<char>) -> Seq<char> {
    "site:live.douyin.com "@ + keyword + " 抖音 直播"@
}

/// The search-engine pages that are read for a keyword.
pub open spec fn engine_urls(keyword: Seq<char>) -> Seq<Seq<char>> {
    seq![
        "https://www.so.com/s?q="@ + percent_encode(encode_utf8(engine_query(keyword))),
        "https://www.sogou.com/web?query="@ + percent_encode(encode_utf8(engine_query(keyword))),
        "https://www.sogou.com/web?query="@ + percent_encode(encode_utf8(keyword))
            + "%20抖音%20直播"@,
    ]
}

fn joined(a: &str, b: &str, c: &str) -> (r: String)
    ensures
        r@ == a@ + b@ + c@,
{
    let mut v = chars_of(a);
    extend_str(&mut v, b);
    extend_str(&mut v, c);
    string_from_chars(v.as_slice())
}

pub fn build_douyin_search_engine_urls(keyword: &str) -> (r: Vec<String>)
    ensures
        views(r@) == engine_urls(keyword@),
{
    let query = joined("site:live.douyin.com ", keyword, " 抖音 直播");
    let encoded_query = url_encode(query.as_str());
    let encoded = url_encode(keyword);
    let r = vec![
        joined("https://www.so.com/s?q=", encoded_query.as_str(), ""),
        joined("https://www.sogou.com/web?query=", encoded_query.as_str(), ""),
        joined("https://www.sogou.com/web?query=", encoded.as_str(), "%20抖音%20直播"),
    ];
    proof {
        reveal_strlit("");
        assert(views(r@) =~= engine_urls(keyword@));
    }
    r
}

/// The first groups of the matches that have one, in order.
pub open spec fn first_groups(ms: Seq<Seq<Option<Seq<char>>>>) -> Seq<Seq<char>>
    decreases ms.len(),
{
    if ms.len() == 0 {
        Seq::empty()
    } else {
        first_groups(ms.drop_last()) + if ms.last().len() > 1 && ms.last()[1] is Some {
            seq![ms.last()[1].unwrap()]
        } else {
            Seq::empty()
        }
    }
}

/// The pattern of a room address on a host.
pub open spec fn room_link_pattern(host: Seq<char>) -> Seq<char> {
    regex_escaped(host) + "/(\\d{6,24})"@
}

/// The room numbers linked on a page: the 6 to 24 digits after `host/`,
/// each once, in order of first appearance.
pub open spec fn room_ids_in(text: Seq<char>, host: Seq<char>) -> Seq<Seq<char>> {
    match regex_captures(room_link_pattern(host), text) {
        Ok(ms) => dedup(first_groups(ms)),
        Err(_) => Seq::empty(),
    }
}

pub fn extract_room_ids_from_text(text: &str, host: &str) -> (r: Vec<String>)
    ensures
        views(r@) == room_ids_in(text@, host@),
{
    let escaped = regex_escape(host);
    let pattern = joined(escaped.as_str(), "/(\\d{6,24})", "");
    proof {
        reveal_strlit("");
        assert(pattern@ =~= room_link_pattern(host@));
    }
    match regex_all_captures(pattern.as_str(), text) {
        Ok(ms) => room_ids_from_captures(&ms),
        Err(_) => Vec::new(),
    }
}

/// The room numbers of a list of matches: the first group of each match
/// that has one, each number once, in order of first appearance.
pub fn room_ids_from_captures(ms: &Vec<Vec<Option<String>>>) -> (r: Vec<String>)
    ensures
        views(r@) == dedup(first_groups(capture_views(ms@))),
{
    let ghost cv = capture_views(ms@);
    let mut ids: Vec<String> = Vec::new();
    let mut i: usize = 0;
    while i < ms.len()
        invariant
            0 <= i <= ms@.len(),
            cv == capture_views(ms@),
            views(ids@) == dedup(first_groups(cv.take(i as int))),
        decreases ms.len() - i,
    {
        proof {
            assert(cv.take(i + 1).drop_last() =~= cv.take(i as int));
            assert(cv.take(i + 1).last() == groups_view(ms@[i as int]));
        }
        let m = &ms[i];
        let mut found: Option<String> = None;
        if m.len() > 1 {
            match &m[1] {
                Some(id) => {
                    found = Some(id.clone());
                },
                None => {},
            }
        }
        match found {
            Some(id) => {
                proof {
                    let fg = first_groups(cv.take(i as int));
                    assert(first_groups(cv.take(i + 1)) =~= fg.push(id@));
                    assert(fg.push(id@).drop_last() =~= fg);
                    assert(fg.push(id@).last() == id@);
                    assert(dedup(fg.push(id@)) == (if dedup(fg).contains(id@) {
                        dedup(fg)
                    } else {
                        dedup(fg).push(id@)
                    }));
                }
                if !contains_string(&ids, &id) {
                    let ghost before = ids@;
                    ids.push(id);
                    proof {
                        assert(views(ids@) =~= views(before).push(id@));
                    }
                }
            },
            None => {
                proof {
                    assert(first_groups(cv.take(i + 1)) =~= first_groups(cv.take(i as int)));
                }
            },
        }
        i = i + 1;
    }
    proof {
        assert(cv.take(ms@.len() as int) =~= cv);
    }
    ids
}

/// Adds a room number unless it is there already or five are there.
pub open spec fn merge_step(prev: Seq<Seq<char>>, id: Seq<char>) -> Seq<Seq<char>> {
    if prev.len() >= 5 || prev.contains(id) {
        prev
    } else {
        prev.push(id)
    }
}

pub open spec fn merge_all(prev: Seq<Seq<char>>, ids: Seq<Seq<char>>) -> Seq<Seq<char>>
    decreases ids.len(),
{
    if ids.len() == 0 {
        prev
    } else {
        merge_step(merge_all(prev, ids.drop_last()), ids.last())
    }
}

/// The candidate rooms of all pages, in order, each once, at most five.
pub open spec fn merged_ids(lists: Seq<Seq<Seq<char>>>) -> Seq<Seq<char>>
    decreases lists.len(),
{
    if lists.len() == 0 {
        Seq::empty()
    } else {
        merge_all(merged_ids(lists.drop_last()), lists.last())
    }
}

pub open spec fn list_views(v: Seq<Vec<String>>) -> Seq<Seq<Seq<char>>> {
    v.map_values(|l: Vec<String>| views(l@))
}

fn merge_list(out: &mut Vec<String>, ids: &Vec<String>)
    ensures
        views(final(out)@) == merge_all(views(old(out)@), views(ids@)),
{
    let ghost start = views(out@);
    let ghost iv = views(ids@);
    let mut i: usize = 0;
    while i < ids.len()
        invariant
            0 <= i <= ids@.len(),
            iv == views(ids@),
            views(out@) == merge_all(start, iv.take(i as int)),
        decreases ids.len() - i,
    {
        proof {
            assert(iv.take(i + 1).drop_last() =~= iv.take(i as int));
            assert(iv.take(i + 1).last() == ids@[i as int]@);
        }
        if out.len() < DOUYIN_SEARCH_VERIFY_LIMIT && !contains_string(out, &ids[i]) {
            let ghost before = views(out@);
            out.push(ids[i].clone());
            proof {
                assert(views(out@) =~= before.push(ids@[i as int]@));
            }
        }
        i = i + 1;
    }
    proof {
        assert(iv.take(ids@.len() as int) =~= iv);
    }
}

/// The candidate rooms found on the search-engine pages that were read.
pub fn merge_candidate_room_ids(lists: &Vec<Vec<String>>) -> (r: Vec<String>)
    ensures
        views(r@) == merged_ids(list_views(lists@)),
{
    let ghost lv = list_views(lists@);
    let mut out: Vec<String> = Vec::new();
    let mut j: usize = 0;
    while j < lists.len()
        invariant
            0 <= j <= lists@.len(),
            lv == list_views(lists@),
            views(out@) == merged_ids(lv.take(j as int)),
        decreases lists.len() - j,
    {
        proof {
            assert(lv.take(j + 1).drop_last() =~= lv.take(j as int));
            assert(lv.take(j + 1).last() == views(lists@[j as int]@));
        }
        merge_list(&mut out, &lists[j]);
        j = j + 1;
    }
    proof {
        assert(lv.take(lists@.len() as int) =~= lv);
    }
    out
}

proof fn lemma_merge_all_props(prev: Seq<Seq<char>>, ids: Seq<Seq<char>>)
    requires
        prev.len() <= 5,
        prev.no_duplicates(),
    ensures
        merge_all(prev, ids).len() <= 5,
        merge_all(prev, ids).no_duplicates(),
    decreases ids.len(),
{
    if ids.len() > 0 {
        lemma_merge_all_props(prev, ids.drop_last());
        let p = merge_all(prev, ids.drop_last());
        if !(p.len() >= 5 || p.contains(ids.last())) {
            let e = p.push(ids.last());
            assert forall|i: int, j: int| 0 <= i < e.len() && 0 <= j < e.len() && i != j implies e[i]
                != e[j] by {
                if i < p.len() && j < p.len() {
                    assert(p[i] != p[j]);
                } else if i < p.len() {
                    assert(p.contains(e[i]));
                } else {
                    assert(p.contains(e[j]));
                }
            }
        }
    }
}

/// The candidate rooms are at most five, none twice.
pub proof fn lemma_merged_ids_bounded(lists: Seq<Seq<Seq<char>>>)
    ensures
        merged_ids(lists).len() <= 5,
        merged_ids(lists).no_duplicates(),
    decreases lists.len(),
{
    if lists.len() > 0 {
        lemma_merged_ids_bounded(lists.drop_last());
        lemma_merge_all_props(merged_ids(lists.drop_last()), lists.last());
    }
}

// ---------------------------------------------------------------------------
// Search results
// ---------------------------------------------------------------------------
/// A checked room matches when its streamer name, room name or title holds
/// the keyword.
pub open spec fn matches_keyword(s: RoomView, query: Seq<char>) -> bool {
    contains(s.streamer_name, query) || contains(s.room_name, query) || contains(s.title, query)
}

pub open spec fn douyin_result(s: RoomView) -> SearchView {
    SearchView {
        name: if is_blank(s.streamer_name) {
            s.room_name
        } else {
            s.streamer_name
        },
        platform: douyin_name(),
        target: douyin_room_prefix() + trim(s.room_id),
        room_id: s.room_id,
        room_name: s.room_name,
        avatar_url: s.avatar_url,
        is_online: s.is_online,
        screenshot_url: s.screenshot_url,
        heat_text: s.heat_text,
    }
}

/// Whether a room is among the results already.
pub open spec fn has_room(results: Seq<SearchView>, room_id: Seq<char>) -> bool {
    exists|k: int| 0 <= k < results.len() && results[k].room_id == room_id
}

/// Adds a checked room unless ten are there, it does not match or it is
/// there already.
pub open spec fn douyin_step(prev: Seq<SearchView>, state: Option<RoomView>, query: Seq<char>) -> Seq<
    SearchView,
> {
    match state {
        None => prev,
        Some(s) => if prev.len() >= 10 || !matches_keyword(s, query) || has_room(prev, s.room_id) {
            prev
        } else {
            prev.push(douyin_result(s))
        },
    }
}

pub open spec fn douyin_results(states: Seq<Option<RoomView>>, query: Seq<char>) -> Seq<SearchView>
    decreases states.len(),
{
    if states.len() == 0 {
        Seq::empty()
    } else {
        douyin_step(douyin_results(states.drop_last(), query), states.last(), query)
    }
}

fn has_room_exec(results: &Vec<SearchStreamer>, room_id: &String) -> (r: bool)
    ensures
        r == has_room(search_views(results@), room_id@),
{
    let mut i: usize = 0;
    while i < results.len()
        invariant
            0 <= i <= results@.len(),
            forall|k: int| 0 <= k < i ==> results@[k].room_id@ != room_id@,
        decreases results.len() - i,
    {
        if results[i].room_id == *room_id {
            proof {
                assert(search_views(results@)[i as int].room_id == room_id@);
            }
            return true;
        }
        i = i + 1;
    }
    proof {
        assert forall|k: int| 0 <= k < search_views(results@).len() implies search_views(
            results@,
        )[k].room_id != room_id@ by {
            assert(search_views(results@)[k] == results@[k].view_of());
        }
    }
    false
}

/// The Douyin search results, from the rooms that were checked (`None`
/// where a check failed), for the trimmed keyword.
pub fn douyin_search_results(query: &str, states: &Vec<Option<ExtractResult>>) -> (r: Vec<
    SearchStreamer,
>)
    ensures
        search_views(r@) == douyin_results(
            states@.map_values(|s: Option<ExtractResult>| opt_room_view(s)),
            query@,
        ),
{
    let ghost sv = states@.map_values(|s: Option<ExtractResult>| opt_room_view(s));
    let q = chars_of(query);
    let mut out: Vec<SearchStreamer> = Vec::new();
    let mut i: usize = 0;
    while i < states.len()
        invariant
            0 <= i <= states@.len(),
            q@ == query@,
            sv == states@.map_values(|s: Option<ExtractResult>| opt_room_view(s)),
            search_views(out@) == douyin_results(sv.take(i as int), query@),
        decreases states.len() - i,
    {
        proof {
            assert(sv.take(i + 1).drop_last() =~= sv.take(i as int));
            assert(sv.take(i + 1).last() == opt_room_view(states@[i as int]));
        }
        match &states[i] {
            Some(s) => {
                let name = chars_of(s.streamer_name.as_str());
                let room = chars_of(s.room_name.as_str());
                let title = chars_of(s.title.as_str());
                let hit = crate::text::contains_exec(name.as_slice(), q.as_slice())
                    || crate::text::contains_exec(room.as_slice(), q.as_slice())
                    || crate::text::contains_exec(title.as_slice(), q.as_slice());
                if out.len() < 10 && hit && !has_room_exec(&out, &s.room_id) {
                    let item = SearchStreamer {
                        name: if is_blank_str(s.streamer_name.as_str()) {
                            s.room_name.clone()
                        } else {
                            s.streamer_name.clone()
                        },
                        platform: String::from_str(PLATFORM_DOUYIN_LIVE),
                        target: build_douyin_live_url(s.room_id.as_str()),
                        room_id: s.room_id.clone(),
                        room_name: s.room_name.clone(),
                        avatar_url: s.avatar_url.clone(),
                        is_online: s.is_online,
                        screenshot_url: s.screenshot_url.clone(),
                        heat_text: s.heat_text.clone(),
                    };
                    let ghost before = search_views(out@);
                    out.push(item);
                    proof {
                        assert(search_views(out@) =~= before.push(douyin_result(s.view_of())));
                    }
                }
            },
            None => {},
        }
        i = i + 1;
    }
    proof {
        assert(sv.take(states@.len() as int) =~= sv);
    }
    out
}

/// The Douyin results are at most ten, each room once, each matching the
/// keyword.
pub proof fn lemma_douyin_results_sound(states: Seq<Option<RoomView>>, query: Seq<char>)
    ensures
        douyin_results(states, query).len() <= 10,
        forall|i: int, j: int|
            0 <= i < j < douyin_results(states, query).len() ==> douyin_results(states, query)[i].room_id
                != douyin_results(states, query)[j].room_id,
    decreases states.len(),
{
    if states.len() > 0 {
        lemma_douyin_results_sound(states.drop_last(), query);
        let p = douyin_results(states.drop_last(), query);
        let r = douyin_results(states, query);
        if r != p {
            let s = states.last().unwrap();
            assert(!has_room(p, s.room_id));
            assert forall|i: int, j: int| 0 <= i < j < r.len() implies r[i].room_id != r[j].room_id by {
                if j < p.len() {
                    assert(r[i] == p[i] && r[j] == p[j]);
                } else {
                    assert(r[j].room_id == s.room_id);
                    assert(r[i] == p[i]);
                }
            }
        }
    }
}

} // verus!
