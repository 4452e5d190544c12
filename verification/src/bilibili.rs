//! Bilibili Live: choosing stream lines from the play-URL answer, ordering
//! them by CDN, and assembling the room report.
use vstd::prelude::*;
use crate::text::{
    trim, is_blank, contains, starts_with, find, occurs_at, is_first_occurrence, chars_of,
    is_blank_str, contains_str, starts_with_str, find_exec, sub_chars, extend_chars, extend_str,
    decimal_int, push_decimal_i64,
};
use crate::outside::{string_from_chars, parse_url_host, url_host, url_encode, percent_encode};
use crate::seqs::{
    views, first_match, lemma_first_match, lemma_first_match_at, lemma_first_match_none, dedup,
    dedup_strings,
};
use crate::state::{ExtractResult, RoomView, when_online, text_when_online};
use crate::platform::{bilibili_name, PLATFORM_BILIBILI_LIVE};
use crate::room::{
    remote_image_url, normalize_remote_image_url, build_bilibili_live_url, bilibili_room_prefix,
    room_number_of, extract_bilibili_room_id,
};

verus! {

pub struct BilibiliUrlInfo {
    pub host: String,
    pub extra: String,
}

pub struct BilibiliPlayCodec {
    pub codec_name: String,
    pub current_qn: i64,
    pub accept_qn: Vec<i64>,
    pub base_url: String,
    pub url_info: Vec<BilibiliUrlInfo>,
}

pub struct BilibiliPlayFormat {
    pub format_name: String,
    pub codecs: Vec<BilibiliPlayCodec>,
}

pub struct BilibiliPlayStream {
    pub protocol_name: String,
    pub formats: Vec<BilibiliPlayFormat>,
}

pub struct BilibiliPlayurl {
    pub stream: Vec<BilibiliPlayStream>,
}

// ---------------------------------------------------------------------------
// Stream addresses of one codec
// ---------------------------------------------------------------------------
/// The address one CDN entry gives: host, base path, then the extra query.
pub open spec fn info_url(base: Seq<char>, info: BilibiliUrlInfo) -> Seq<char> {
    info.host@ + base + info.extra@
}

pub open spec fn has_host(info: BilibiliUrlInfo) -> bool {
    !is_blank(info.host@)
}

/// The addresses of a codec, one per CDN entry with a host, in order.
pub open spec fn codec_urls(codec: BilibiliPlayCodec) -> Seq<Seq<char>> {
    codec.url_info@.filter(|i: BilibiliUrlInfo| has_host(i)).map_values(
        |i: BilibiliUrlInfo| info_url(codec.base_url@, i),
    )
}

pub fn bilibili_codec_urls(codec: &BilibiliPlayCodec) -> (r: Vec<String>)
    ensures
        views(r@) == codec_urls(*codec),
{
    let mut out: Vec<String> = Vec::new();
    let ghost infos = codec.url_info@;
    let ghost f = |i: BilibiliUrlInfo| has_host(i);
    let ghost g = |i: BilibiliUrlInfo| info_url(codec.base_url@, i);
    let mut i: usize = 0;
    while i < codec.url_info.len()
        invariant
            0 <= i <= infos.len(),
            infos == codec.url_info@,
            f == (|i: BilibiliUrlInfo| has_host(i)),
            g == (|i: BilibiliUrlInfo| info_url(codec.base_url@, i)),
            views(out@) == infos.take(i as int).filter(f).map_values(g),
        decreases codec.url_info.len() - i,
    {
        proof {
            assert(infos.take(i + 1).drop_last() =~= infos.take(i as int));
            reveal_with_fuel(Seq::filter, 1);
        }
        let info = &codec.url_info[i];
        if !is_blank_str(info.host.as_str()) {
            let mut v: Vec<char> = Vec::new();
            extend_str(&mut v, info.host.as_str());
            extend_str(&mut v, codec.base_url.as_str());
            extend_str(&mut v, info.extra.as_str());
            let ghost before = out@;
            out.push(string_from_chars(v.as_slice()));
            proof {
                assert(infos.take(i + 1).filter(f) =~= infos.take(i as int).filter(f).push(
                    infos[i as int],
                ));
                assert(views(out@) =~= views(before).push(g(infos[i as int])));
            }
        }
        i = i + 1;
    }
    proof {
        assert(infos.take(infos.len() as int) =~= infos);
    }
    out
}

// ---------------------------------------------------------------------------
// CDN order
// ---------------------------------------------------------------------------
/// The CDN class of a stream address, lower first: `up*` hosts on
/// bilivideo.com are 0, other hosts 1, `.mcdn.bilivideo.cn` hosts and
/// addresses without a host 2, `.szbdyd.com` hosts 3.
pub open spec fn cdn_level(url: Seq<char>) -> int {
    match url_host(url) {
        None => 2,
        Some(h) => if contains(h, ".mcdn.bilivideo.cn"@) {
            2
        } else if contains(h, ".szbdyd.com"@) {
            3
        } else if contains(h, "bilivideo.com"@) && starts_with(h, "up"@) {
            0
        } else {
            1
        },
    }
}

pub fn bilibili_cdn_level(url: &str) -> (r: i32)
    ensures
        r == cdn_level(url@),
{
    let host = match parse_url_host(url) {
        Some(h) => h,
        None => return 2,
    };
    let h = chars_of(host.as_str());
    if contains_str(h.as_slice(), ".mcdn.bilivideo.cn") {
        2
    } else if contains_str(h.as_slice(), ".szbdyd.com") {
        3
    } else if contains_str(h.as_slice(), "bilivideo.com") && starts_with_str(h.as_slice(), "up") {
        0
    } else {
        1
    }
}

/// The addresses of one CDN class, in their order.
pub open spec fn at_level(s: Seq<Seq<char>>, level: int) -> Seq<Seq<char>> {
    s.filter(|u: Seq<char>| cdn_level(u) == level)
}

/// The addresses without repeats, ordered by CDN class; addresses of one
/// class keep their order (a stable sort by class).
pub open spec fn reordered_urls(urls: Seq<Seq<char>>) -> Seq<Seq<char>> {
    let d = dedup(urls);
    at_level(d, 0) + at_level(d, 1) + at_level(d, 2) + at_level(d, 3)
}

pub fn reorder_bilibili_urls(urls: Vec<String>) -> (r: Vec<String>)
    ensures
        views(r@) == reordered_urls(views(urls@)),
{
    let deduped = dedup_strings(urls);
    let ghost d = views(deduped@);
    let mut levels: Vec<i32> = Vec::new();
    let mut i: usize = 0;
    while i < deduped.len()
        invariant
            0 <= i <= deduped@.len(),
            levels@.len() == i,
            forall|j: int| 0 <= j < i ==> levels@[j] == cdn_level(#[trigger] deduped@[j]@),
        decreases deduped.len() - i,
    {
        levels.push(bilibili_cdn_level(deduped[i].as_str()));
        i = i + 1;
    }
    let mut out: Vec<String> = Vec::new();
    let mut level: i32 = 0;
    proof {
        assert(views(out@) =~= Seq::<Seq<char>>::empty());
    }
    while level < 4
        invariant
            0 <= level <= 4,
            d == views(deduped@),
            levels@.len() == deduped@.len(),
            forall|j: int| 0 <= j < levels@.len() ==> levels@[j] == cdn_level(#[trigger] deduped@[j]@),
            views(out@) == (if level == 0 {
                Seq::empty()
            } else if level == 1 {
                at_level(d, 0)
            } else if level == 2 {
                at_level(d, 0) + at_level(d, 1)
            } else if level == 3 {
                at_level(d, 0) + at_level(d, 1) + at_level(d, 2)
            } else {
                at_level(d, 0) + at_level(d, 1) + at_level(d, 2) + at_level(d, 3)
            }),
        decreases 4 - level,
    {
        let ghost start = views(out@);
        let ghost f = |u: Seq<char>| cdn_level(u) == level as int;
        let mut k: usize = 0;
        while k < deduped.len()
            invariant
                0 <= k <= deduped@.len(),
                d == views(deduped@),
                levels@.len() == deduped@.len(),
                forall|j: int|
                    0 <= j < levels@.len() ==> levels@[j] == cdn_level(#[trigger] deduped@[j]@),
                f == (|u: Seq<char>| cdn_level(u) == level as int),
                views(out@) == start + d.take(k as int).filter(f),
            decreases deduped.len() - k,
        {
            proof {
                assert(d.take(k + 1).drop_last() =~= d.take(k as int));
                assert(d.take(k + 1).last() == deduped@[k as int]@);
                reveal_with_fuel(Seq::filter, 1);
            }
            if levels[k] == level {
                let ghost before = out@;
                out.push(deduped[k].clone());
                proof {
                    assert(views(out@) =~= views(before).push(deduped@[k as int]@));
                }
            }
            k = k + 1;
        }
        proof {
            assert(d.take(deduped@.len() as int) =~= d);
            assert(d.filter(f) == at_level(d, level as int));
        }
        level = level + 1;
    }
    out
}

proof fn lemma_filter_distinct(s: Seq<Seq<char>>, f: spec_fn(Seq<char>) -> bool)
    requires
        s.no_duplicates(),
    ensures
        s.filter(f).no_duplicates(),
        forall|x: Seq<char>| s.filter(f).contains(x) <==> (s.contains(x) && f(x)),
    decreases s.len(),
{
    reveal_with_fuel(Seq::filter, 1);
    if s.len() > 0 {
        let p = s.drop_last();
        assert(p.no_duplicates()) by {
            assert forall|i: int, j: int| 0 <= i < p.len() && 0 <= j < p.len() && i != j implies p[i]
                != p[j] by {
                assert(p[i] == s[i] && p[j] == s[j]);
            }
        }
        lemma_filter_distinct(p, f);
        let q = p.filter(f);
        assert forall|x: Seq<char>| s.contains(x) <==> (p.contains(x) || x == s.last()) by {
            if s.contains(x) {
                let i = choose|i: int| 0 <= i < s.len() && s[i] == x;
                if i < s.len() - 1 {
                    assert(p[i] == x);
                }
            }
            if p.contains(x) {
                let i = choose|i: int| 0 <= i < p.len() && p[i] == x;
                assert(s[i] == x);
            }
            if x == s.last() {
                assert(s[s.len() - 1] == x);
            }
        }
        assert(!p.contains(s.last())) by {
            if p.contains(s.last()) {
                let i = choose|i: int| 0 <= i < p.len() && p[i] == s.last();
                assert(s[i] == s[s.len() - 1]);
            }
        }
        if f(s.last()) {
            let e = q.push(s.last());
            assert forall|x: Seq<char>| e.contains(x) <==> (q.contains(x) || x == s.last()) by {
                if e.contains(x) {
                    let i = choose|i: int| 0 <= i < e.len() && e[i] == x;
                    if i < q.len() {
                        assert(q[i] == x);
                    }
                }
                if q.contains(x) {
                    let i = choose|i: int| 0 <= i < q.len() && q[i] == x;
                    assert(e[i] == x);
                }
                if x == s.last() {
                    assert(e[q.len() as int] == x);
                }
            }
            assert forall|i: int, j: int| 0 <= i < e.len() && 0 <= j < e.len() && i != j implies e[i]
                != e[j] by {
                if i < q.len() && j < q.len() {
                    assert(q[i] != q[j]);
                } else if i < q.len() {
                    assert(q.contains(e[i]));
                } else {
                    assert(q.contains(e[j]));
                }
            }
        }
    }
}

proof fn lemma_concat_distinct(a: Seq<Seq<char>>, b: Seq<Seq<char>>)
    requires
        a.no_duplicates(),
        b.no_duplicates(),
        forall|x: Seq<char>| a.contains(x) ==> !b.contains(x),
    ensures
        (a + b).no_duplicates(),
        forall|x: Seq<char>| (a + b).contains(x) <==> (a.contains(x) || b.contains(x)),
{
    let c = a + b;
    assert forall|x: Seq<char>| c.contains(x) <==> (a.contains(x) || b.contains(x)) by {
        if c.contains(x) {
            let i = choose|i: int| 0 <= i < c.len() && c[i] == x;
            if i < a.len() {
                assert(a[i] == x);
            } else {
                assert(b[i - a.len()] == x);
            }
        }
        if a.contains(x) {
            let i = choose|i: int| 0 <= i < a.len() && a[i] == x;
            assert(c[i] == x);
        }
        if b.contains(x) {
            let i = choose|i: int| 0 <= i < b.len() && b[i] == x;
            assert(c[a.len() + i] == x);
        }
    }
    assert forall|i: int, j: int| 0 <= i < c.len() && 0 <= j < c.len() && i != j implies c[i]
        != c[j] by {
        if i < a.len() && j < a.len() {
            assert(a[i] != a[j]);
        } else if i >= a.len() && j >= a.len() {
            assert(b[i - a.len()] != b[j - a.len()]);
        } else if i < a.len() {
            assert(a.contains(c[i]));
            assert(b.contains(c[j])) by {
                assert(b[j - a.len()] == c[j]);
            }
        } else {
            assert(a.contains(c[j]));
            assert(b.contains(c[i])) by {
                assert(b[i - a.len()] == c[i]);
            }
        }
    }
}

proof fn lemma_cdn_level_range(u: Seq<char>)
    ensures
        0 <= cdn_level(u) <= 3,
{
}

/// Ordering the stream lines by CDN keeps each address of the answer
/// exactly once and adds none.
pub proof fn lemma_reordered_keeps_each_once(urls: Seq<Seq<char>>)
    ensures
        reordered_urls(urls).no_duplicates(),
        forall|x: Seq<char>| reordered_urls(urls).contains(x) <==> urls.contains(x),
{
    let d = dedup(urls);
    crate::seqs::lemma_dedup_props(urls);
    let a0 = at_level(d, 0);
    let a1 = at_level(d, 1);
    let a2 = at_level(d, 2);
    let a3 = at_level(d, 3);
    lemma_filter_distinct(d, |u: Seq<char>| cdn_level(u) == 0);
    lemma_filter_distinct(d, |u: Seq<char>| cdn_level(u) == 1);
    lemma_filter_distinct(d, |u: Seq<char>| cdn_level(u) == 2);
    lemma_filter_distinct(d, |u: Seq<char>| cdn_level(u) == 3);
    lemma_concat_distinct(a0, a1);
    lemma_concat_distinct(a0 + a1, a2);
    lemma_concat_distinct(a0 + a1 + a2, a3);
    assert forall|x: Seq<char>| reordered_urls(urls).contains(x) <==> urls.contains(x) by {
        lemma_cdn_level_range(x);
    }
}

// ---------------------------------------------------------------------------
// Choosing a codec
// ---------------------------------------------------------------------------
pub open spec fn stream_named(name: Seq<char>) -> spec_fn(BilibiliPlayStream) -> bool {
    |s: BilibiliPlayStream| s.protocol_name@ == name
}

pub open spec fn format_named(name: Seq<char>) -> spec_fn(BilibiliPlayFormat) -> bool {
    |f: BilibiliPlayFormat| f.format_name@ == name
}

pub open spec fn codec_named(name: Seq<char>) -> spec_fn(BilibiliPlayCodec) -> bool {
    |c: BilibiliPlayCodec| c.codec_name@ == name
}

/// The codec of the given name in the first format of the given name of the
/// first stream of the given protocol; nothing when any of these is missing
/// (later streams or formats of the same name are not tried).
pub open spec fn selected_codec(
    playurl: BilibiliPlayurl,
    protocol: Seq<char>,
    format: Seq<char>,
    codec: Seq<char>,
) -> Option<BilibiliPlayCodec> {
    match first_match(playurl.stream@, stream_named(protocol)) {
        None => None,
        Some(i) => {
            let formats = playurl.stream@[i].formats@;
            match first_match(formats, format_named(format)) {
                None => None,
                Some(j) => {
                    let codecs = formats[j].codecs@;
                    match first_match(codecs, codec_named(codec)) {
                        None => None,
                        Some(k) => Some(codecs[k]),
                    }
                },
            }
        },
    }
}

fn find_stream(streams: &Vec<BilibiliPlayStream>, name: &str) -> (r: Option<usize>)
    ensures
        r matches Some(i) ==> first_match(streams@, stream_named(name@)) == Some(i as int),
        r is None ==> first_match(streams@, stream_named(name@)) is None,
{
    let n = chars_of(name);
    let mut i: usize = 0;
    while i < streams.len()
        invariant
            0 <= i <= streams@.len(),
            n@ == name@,
            forall|j: int| 0 <= j < i ==> !(stream_named(name@))(streams@[j]),
        decreases streams.len() - i,
    {
        let s = chars_of(streams[i].protocol_name.as_str());
        if crate::text::eq_chars(s.as_slice(), n.as_slice()) {
            proof {
                lemma_first_match_at(streams@, stream_named(name@), i as int);
            }
            return Some(i);
        }
        i = i + 1;
    }
    proof {
        lemma_first_match_none(streams@, stream_named(name@));
    }
    None
}

fn find_format(formats: &Vec<BilibiliPlayFormat>, name: &str) -> (r: Option<usize>)
    ensures
        r matches Some(i) ==> first_match(formats@, format_named(name@)) == Some(i as int),
        r is None ==> first_match(formats@, format_named(name@)) is None,
{
    let n = chars_of(name);
    let mut i: usize = 0;
    while i < formats.len()
        invariant
            0 <= i <= formats@.len(),
            n@ == name@,
            forall|j: int| 0 <= j < i ==> !(format_named(name@))(formats@[j]),
        decreases formats.len() - i,
    {
        let s = chars_of(formats[i].format_name.as_str());
        if crate::text::eq_chars(s.as_slice(), n.as_slice()) {
            proof {
                lemma_first_match_at(formats@, format_named(name@), i as int);
            }
            return Some(i);
        }
        i = i + 1;
    }
    proof {
        lemma_first_match_none(formats@, format_named(name@));
    }
    None
}

fn find_codec(codecs: &Vec<BilibiliPlayCodec>, name: &str) -> (r: Option<usize>)
    ensures
        r matches Some(i) ==> first_match(codecs@, codec_named(name@)) == Some(i as int),
        r is None ==> first_match(codecs@, codec_named(name@)) is None,
{
    let n = chars_of(name);
    let mut i: usize = 0;
    while i < codecs.len()
        invariant
            0 <= i <= codecs@.len(),
            n@ == name@,
            forall|j: int| 0 <= j < i ==> !(codec_named(name@))(codecs@[j]),
        decreases codecs.len() - i,
    {
        let s = chars_of(codecs[i].codec_name.as_str());
        if crate::text::eq_chars(s.as_slice(), n.as_slice()) {
            proof {
                lemma_first_match_at(codecs@, codec_named(name@), i as int);
            }
            return Some(i);
        }
        i = i + 1;
    }
    proof {
        lemma_first_match_none(codecs@, codec_named(name@));
    }
    None
}

pub fn select_bilibili_codec<'a>(
    playurl: &'a BilibiliPlayurl,
    protocol_name: &str,
    format_name: &str,
    codec_name: &str,
) -> (r: Option<&'a BilibiliPlayCodec>)
    ensures
        match selected_codec(*playurl, protocol_name@, format_name@, codec_name@) {
            Some(c) => r is Some && *r->Some_0 == c,
            None => r is None,
        },
{
    proof {
        lemma_first_match(playurl.stream@, stream_named(protocol_name@));
    }
    let i = match find_stream(&playurl.stream, protocol_name) {
        Some(i) => i,
        None => return None,
    };
    let stream = &playurl.stream[i];
    proof {
        lemma_first_match(stream.formats@, format_named(format_name@));
    }
    let j = match find_format(&stream.formats, format_name) {
        Some(j) => j,
        None => {
            proof {
                assert(first_match(playurl.stream@, stream_named(protocol_name@)) == Some(i as int));
                assert(stream.formats@ == playurl.stream@[i as int].formats@);
                assert(selected_codec(*playurl, protocol_name@, format_name@, codec_name@) is None);
            }
            return None;
        },
    };
    let format = &stream.formats[j];
    proof {
        lemma_first_match(format.codecs@, codec_named(codec_name@));
    }
    let k = match find_codec(&format.codecs, codec_name) {
        Some(k) => k,
        None => {
            proof {
                assert(first_match(playurl.stream@, stream_named(protocol_name@)) == Some(i as int));
                assert(stream.formats@ == playurl.stream@[i as int].formats@);
                assert(first_match(stream.formats@, format_named(format_name@)) == Some(j as int));
                assert(format.codecs@ == stream.formats@[j as int].codecs@);
                assert(selected_codec(*playurl, protocol_name@, format_name@, codec_name@) is None);
            }
            return None;
        },
    };
    Some(&format.codecs[k])
}

/// The stream lines of a play-URL answer: the first codec found in the order
/// HLS fMP4 AVC, HLS TS AVC, FLV AVC, HLS fMP4 HEVC, HLS TS HEVC, FLV HEVC,
/// with its addresses de-duplicated and ordered by CDN; none when no such
/// codec exists.
pub open spec fn codec_preferences() -> Seq<(Seq<char>, Seq<char>, Seq<char>)> {
    seq![
        ("http_hls"@, "fmp4"@, "avc"@),
        ("http_hls"@, "ts"@, "avc"@),
        ("http_stream"@, "flv"@, "avc"@),
        ("http_hls"@, "fmp4"@, "hevc"@),
        ("http_hls"@, "ts"@, "hevc"@),
        ("http_stream"@, "flv"@, "hevc"@),
    ]
}

pub open spec fn offers(playurl: BilibiliPlayurl) -> spec_fn(
    (Seq<char>, Seq<char>, Seq<char>),
) -> bool {
    |p: (Seq<char>, Seq<char>, Seq<char>)| selected_codec(playurl, p.0, p.1, p.2) is Some
}

pub open spec fn selected_urls(playurl: BilibiliPlayurl) -> Seq<Seq<char>> {
    let prefs = codec_preferences();
    match first_match(prefs, offers(playurl)) {
        None => Seq::empty(),
        Some(i) => reordered_urls(
            codec_urls(selected_codec(playurl, prefs[i].0, prefs[i].1, prefs[i].2)->Some_0),
        ),
    }
}

pub fn select_bilibili_urls(playurl: &BilibiliPlayurl) -> (r: Vec<String>)
    ensures
        views(r@) == selected_urls(*playurl),
{
    let ghost prefs = codec_preferences();
    let ghost f = offers(*playurl);
    let protocols: [&str; 6] = ["http_hls", "http_hls", "http_stream", "http_hls", "http_hls", "http_stream"];
    let formats: [&str; 6] = ["fmp4", "ts", "flv", "fmp4", "ts", "flv"];
    let codecs: [&str; 6] = ["avc", "avc", "avc", "hevc", "hevc", "hevc"];
    let mut i: usize = 0;
    while i < 6
        invariant
            0 <= i <= 6,
            forall|j: int| 0 <= j < 6 ==> (#[trigger] prefs[j]).0 == protocols@[j]@,
            forall|j: int| 0 <= j < 6 ==> (#[trigger] prefs[j]).1 == formats@[j]@,
            forall|j: int| 0 <= j < 6 ==> (#[trigger] prefs[j]).2 == codecs@[j]@,
            prefs == codec_preferences(),
            prefs.len() == 6,
            f == offers(*playurl),
            forall|j: int| 0 <= j < i ==> !f(prefs[j]),
        decreases 6 - i,
    {
        match select_bilibili_codec(playurl, protocols[i], formats[i], codecs[i]) {
            Some(codec) => {
                proof {
                    assert(f(prefs[i as int]));
                    lemma_first_match_at(prefs, f, i as int);
                }
                proof {
                    assert(*codec == selected_codec(
                        *playurl,
                        prefs[i as int].0,
                        prefs[i as int].1,
                        prefs[i as int].2,
                    )->Some_0);
                    assert(first_match(codec_preferences(), offers(*playurl)) == Some(i as int));
                    let ghost sel = selected_codec(
                        *playurl,
                        prefs[i as int].0,
                        prefs[i as int].1,
                        prefs[i as int].2,
                    );
                    assert(selected_urls(*playurl) == reordered_urls(codec_urls(sel->Some_0)));
                    assert(selected_urls(*playurl) == reordered_urls(codec_urls(*codec)));
                }
                let urls = bilibili_codec_urls(codec);
                return reorder_bilibili_urls(urls);
            },
            None => {
                proof {
                    assert(!f(prefs[i as int]));
                }
            },
        }
        i = i + 1;
    }
    proof {
        lemma_first_match_none(prefs, f);
    }
    Vec::new()
}


// ---------------------------------------------------------------------------
// Room report
// ---------------------------------------------------------------------------
pub struct BilibiliRoomInfoData {
    pub room_id: String,
    pub title: String,
    pub user_cover: String,
    pub keyframe: String,
    pub online: String,
    pub live_status: i64,
}

pub struct BilibiliAnchorInfo {
    pub uname: String,
    pub face: String,
}

pub struct BilibiliRoomBaseInfo {
    pub room_id: String,
    pub short_id: String,
    pub title: String,
    pub uname: String,
    pub cover: String,
    pub live_url: String,
    pub online: String,
    pub live_status: i64,
}

/// The room picture: the user's cover when set, the key frame otherwise.
pub open spec fn cover_of(info: BilibiliRoomInfoData) -> Seq<char> {
    if !is_blank(info.user_cover@) {
        remote_image_url(info.user_cover@)
    } else {
        remote_image_url(info.keyframe@)
    }
}

pub fn bilibili_cover(room_info: &BilibiliRoomInfoData) -> (s: String)
    ensures
        s@ == cover_of(*room_info),
{
    if !is_blank_str(room_info.user_cover.as_str()) {
        normalize_remote_image_url(room_info.user_cover.as_str())
    } else {
        normalize_remote_image_url(room_info.keyframe.as_str())
    }
}

/// The report of a Bilibili room from its room information and the anchor
/// information (empty when the anchor lookup failed).
pub open spec fn bilibili_room_view(
    info: BilibiliRoomInfoData,
    anchor: BilibiliAnchorInfo,
) -> RoomView {
    let online = info.live_status == 1;
    RoomView {
        platform: bilibili_name(),
        room_id: info.room_id@,
        streamer_name: if is_blank(anchor.uname@) {
            info.title@
        } else {
            anchor.uname@
        },
        room_name: info.title@,
        avatar_url: remote_image_url(anchor.face@),
        is_online: online,
        screenshot_url: when_online(online, cover_of(info)),
        heat_text: when_online(online, info.online@),
        page_url: bilibili_room_prefix() + trim(info.room_id@),
        title: info.title@,
        urls: Seq::empty(),
    }
}

pub fn bilibili_room_state(room_info: &BilibiliRoomInfoData, anchor: &BilibiliAnchorInfo) -> (r:
    ExtractResult)
    ensures
        r.view_of() == bilibili_room_view(*room_info, *anchor),
{
    let is_online = room_info.live_status == 1;
    let r = ExtractResult {
        platform: String::from_str(PLATFORM_BILIBILI_LIVE),
        room_id: room_info.room_id.clone(),
        streamer_name: if is_blank_str(anchor.uname.as_str()) {
            room_info.title.clone()
        } else {
            anchor.uname.clone()
        },
        room_name: room_info.title.clone(),
        avatar_url: normalize_remote_image_url(anchor.face.as_str()),
        is_online,
        screenshot_url: text_when_online(is_online, bilibili_cover(room_info)),
        heat_text: text_when_online(is_online, room_info.online.clone()),
        page_url: build_bilibili_live_url(room_info.room_id.as_str()),
        title: room_info.title.clone(),
        urls: Vec::new(),
    };
    proof {
        assert(r.view_of().urls =~= Seq::<Seq<char>>::empty());
    }
    r
}

pub open spec fn msg_password_room() -> Seq<char> {
    "该 B 站直播间需要密码验证"@
}

pub open spec fn msg_no_room_lines() -> Seq<char> {
    "未获取到 B 站直播播放线路"@
}

/// The stream lines of a room-play-info answer: refused for a password room
/// that is not unlocked, and an error when no line is found.
pub fn bilibili_room_play_urls(encrypted: bool, pwd_verified: bool, playurl: &BilibiliPlayurl) -> (r:
    Result<Vec<String>, String>)
    ensures
        encrypted && !pwd_verified ==> r is Err && r->Err_0@ == msg_password_room(),
        !(encrypted && !pwd_verified) && selected_urls(*playurl).len() == 0 ==> r is Err
            && r->Err_0@ == msg_no_room_lines(),
        !(encrypted && !pwd_verified) && selected_urls(*playurl).len() > 0 ==> r is Ok && views(
            r->Ok_0@,
        ) == selected_urls(*playurl),
{
    if encrypted && !pwd_verified {
        return Err(String::from_str("该 B 站直播间需要密码验证"));
    }
    let urls = select_bilibili_urls(playurl);
    if urls.len() == 0 {
        return Err(String::from_str("未获取到 B 站直播播放线路"));
    }
    Ok(urls)
}

pub open spec fn msg_no_old_lines() -> Seq<char> {
    "未获取到 B 站旧版播放线路"@
}

pub open spec fn non_blank(s: Seq<Seq<char>>) -> Seq<Seq<char>> {
    s.filter(|u: Seq<char>| !is_blank(u))
}

/// The stream lines of the older play-URL answer: its non-blank addresses,
/// or an error when there is none.
pub fn bilibili_old_play_urls(urls: Vec<String>) -> (r: Result<Vec<String>, String>)
    ensures
        non_blank(views(urls@)).len() == 0 ==> r is Err && r->Err_0@ == msg_no_old_lines(),
        non_blank(views(urls@)).len() > 0 ==> r is Ok && views(r->Ok_0@) == non_blank(
            views(urls@),
        ),
{
    let ghost v = views(urls@);
    let mut out: Vec<String> = Vec::new();
    let mut i: usize = 0;
    while i < urls.len()
        invariant
            0 <= i <= urls@.len(),
            v == views(urls@),
            views(out@) == non_blank(v.take(i as int)),
        decreases urls.len() - i,
    {
        proof {
            assert(v.take(i + 1).drop_last() =~= v.take(i as int));
            assert(v.take(i + 1).last() == urls@[i as int]@);
            reveal_with_fuel(Seq::filter, 1);
        }
        if !is_blank_str(urls[i].as_str()) {
            let ghost before = out@;
            out.push(urls[i].clone());
            proof {
                assert(views(out@) =~= views(before).push(urls@[i as int]@));
            }
        }
        i = i + 1;
    }
    proof {
        assert(v.take(urls@.len() as int) =~= v);
    }
    if out.len() == 0 {
        return Err(String::from_str("未获取到 B 站旧版播放线路"));
    }
    Ok(out)
}

/// The text between the first `prefix` and the first `suffix` after it.
pub open spec fn script_json(html: Seq<char>, prefix: Seq<char>, suffix: Seq<char>) -> Option<
    Seq<char>,
> {
    match find(html, prefix) {
        None => None,
        Some(start) => {
            let remain = html.subrange(start + prefix.len(), html.len() as int);
            match find(remain, suffix) {
                None => None,
                Some(end) => Some(remain.subrange(0, end)),
            }
        },
    }
}

pub fn extract_json_from_script(html: &str, prefix: &str, suffix: &str) -> (r: Option<String>)
    ensures
        r is Some <==> script_json(html@, prefix@, suffix@) is Some,
        r matches Some(s) ==> script_json(html@, prefix@, suffix@) == Some(s@),
{
    let h = chars_of(html);
    let p = chars_of(prefix);
    let q = chars_of(suffix);
    let start = match find_exec(h.as_slice(), p.as_slice()) {
        Some(start) => start,
        None => return None,
    };
    proof {
        assert(is_first_occurrence(h@, p@, start as int));
        assert(occurs_at(h@, p@, start as int));
    }
    let hl = h.len();
    let remain = sub_chars(h.as_slice(), start + p.len(), hl);
    let end = match find_exec(remain.as_slice(), q.as_slice()) {
        Some(end) => end,
        None => return None,
    };
    let body = sub_chars(remain.as_slice(), 0, end);
    Some(string_from_chars(body.as_slice()))
}

/// A streamer's avatar: the current one when there is one, otherwise the
/// anchor's face (empty when the anchor lookup failed or gave none),
/// otherwise the fallback; made absolute over https.
pub open spec fn avatar_choice(current: Seq<char>, anchor_face: Seq<char>, fallback: Seq<char>) -> Seq<
    char,
> {
    if !is_blank(current) {
        remote_image_url(current)
    } else if trim(anchor_face).len() > 0 {
        remote_image_url(trim(anchor_face))
    } else {
        remote_image_url(fallback)
    }
}

pub fn resolve_bilibili_avatar(current_avatar: &str, anchor_face: &str, fallback_avatar: &str) -> (r:
    String)
    ensures
        r@ == avatar_choice(current_avatar@, anchor_face@, fallback_avatar@),
{
    if !is_blank_str(current_avatar) {
        return normalize_remote_image_url(current_avatar);
    }
    let face = crate::text::trim_str(anchor_face);
    if face.len() > 0 {
        let f = string_from_chars(face.as_slice());
        return normalize_remote_image_url(f.as_str());
    }
    normalize_remote_image_url(fallback_avatar)
}

/// The room-base-info query: one `room_ids=` parameter per non-blank room
/// number, percent-encoded; no query at all when there is none.
pub open spec fn base_info_params(ids: Seq<Seq<char>>) -> Seq<Seq<char>> {
    ids.filter(|id: Seq<char>| !is_blank(id)).map_values(
        |id: Seq<char>| "room_ids="@ + percent_encode(vstd::utf8::encode_utf8(id)),
    )
}

pub open spec fn base_info_url(ids: Seq<Seq<char>>) -> Option<Seq<char>> {
    let params = base_info_params(ids);
    if params.len() == 0 {
        None
    } else {
        Some(
            "https://api.live.bilibili.com/xlive/web-room/v1/index/getRoomBaseInfo?"@
                + crate::platform::join(params, "&"@) + "&req_biz=web_room_componet"@,
        )
    }
}

pub fn bilibili_room_base_info_url(room_ids: &Vec<String>) -> (r: Option<String>)
    ensures
        r is Some <==> base_info_url(views(room_ids@)) is Some,
        r matches Some(u) ==> base_info_url(views(room_ids@)) == Some(u@),
{
    let ghost v = views(room_ids@);
    let ghost f = |id: Seq<char>| !is_blank(id);
    let ghost g = |id: Seq<char>| "room_ids="@ + percent_encode(vstd::utf8::encode_utf8(id));
    let mut params: Vec<Vec<char>> = Vec::new();
    let mut i: usize = 0;
    while i < room_ids.len()
        invariant
            0 <= i <= room_ids@.len(),
            v == views(room_ids@),
            f == (|id: Seq<char>| !is_blank(id)),
            g == (|id: Seq<char>| "room_ids="@ + percent_encode(vstd::utf8::encode_utf8(id))),
            params@.map_values(|p: Vec<char>| p@) == v.take(i as int).filter(f).map_values(g),
        decreases room_ids.len() - i,
    {
        proof {
            assert(v.take(i + 1).drop_last() =~= v.take(i as int));
            assert(v.take(i + 1).last() == room_ids@[i as int]@);
            reveal_with_fuel(Seq::filter, 1);
        }
        if !is_blank_str(room_ids[i].as_str()) {
            let encoded = url_encode(room_ids[i].as_str());
            let mut p: Vec<char> = Vec::new();
            extend_str(&mut p, "room_ids=");
            extend_str(&mut p, encoded.as_str());
            let ghost before = params@;
            params.push(p);
            proof {
                assert(v.take(i + 1).filter(f) =~= v.take(i as int).filter(f).push(v[i as int]));
                assert(params@.map_values(|p: Vec<char>| p@) =~= before.map_values(
                    |p: Vec<char>| p@,
                ).push(g(v[i as int])));
            }
        }
        i = i + 1;
    }
    proof {
        assert(v.take(room_ids@.len() as int) =~= v);
    }
    if params.len() == 0 {
        return None;
    }
    let joined = crate::platform::join_exec(&params, "&");
    let mut u: Vec<char> = Vec::new();
    extend_str(&mut u, "https://api.live.bilibili.com/xlive/web-room/v1/index/getRoomBaseInfo?");
    extend_chars(&mut u, joined.as_slice());
    extend_str(&mut u, "&req_biz=web_room_componet");
    Some(string_from_chars(u.as_slice()))
}

// ---------------------------------------------------------------------------
// Addresses of the Bilibili answers, and the play report
// ---------------------------------------------------------------------------
pub open spec fn msg_no_bilibili_room() -> Seq<char> {
    "无法识别 B 站直播间房间号"@
}

/// The room number of a Bilibili address; an error when there is none.
pub fn bilibili_room_id(target: &str) -> (r: Result<String, String>)
    ensures
        r is Ok <==> room_number_of(target@) is Some,
        r matches Ok(id) ==> room_number_of(target@) == Some(id@),
        r matches Err(e) ==> e@ == msg_no_bilibili_room(),
{
    match extract_bilibili_room_id(target) {
        Some(id) => Ok(id),
        None => Err(String::from_str("无法识别 B 站直播间房间号")),
    }
}

fn concat3(a: &str, b: &str, c: &str) -> (r: String)
    ensures
        r@ == a@ + b@ + c@,
{
    let mut v = chars_of(a);
    extend_str(&mut v, b);
    extend_str(&mut v, c);
    string_from_chars(v.as_slice())
}

fn with_quality(a: &str, room_id: &str, b: &str, qn: i64, c: &str) -> (r: String)
    ensures
        r@ == a@ + room_id@ + b@ + decimal_int(qn as int) + c@,
{
    let mut v = chars_of(a);
    extend_str(&mut v, room_id);
    extend_str(&mut v, b);
    push_decimal_i64(&mut v, qn);
    extend_str(&mut v, c);
    string_from_chars(v.as_slice())
}

/// The quality asked for when playing a room.
pub const BILIBILI_PLAY_QN: i64 = 30000;

pub fn bilibili_room_info_url(room_id: &str) -> (r: String)
    ensures
        r@ == "https://api.live.bilibili.com/room/v1/Room/get_info?room_id="@ + room_id@,
{
    let r = concat3("https://api.live.bilibili.com/room/v1/Room/get_info?room_id=", room_id, "");
    proof {
        reveal_strlit("");
        assert(r@ =~= "https://api.live.bilibili.com/room/v1/Room/get_info?room_id="@ + room_id@);
    }
    r
}

pub fn bilibili_anchor_info_url(room_id: &str) -> (r: String)
    ensures
        r@ == "https://api.live.bilibili.com/live_user/v1/UserInfo/get_anchor_in_room?roomid="@
            + room_id@,
{
    let r = concat3(
        "https://api.live.bilibili.com/live_user/v1/UserInfo/get_anchor_in_room?roomid=",
        room_id,
        "",
    );
    proof {
        reveal_strlit("");
        assert(r@ =~= "https://api.live.bilibili.com/live_user/v1/UserInfo/get_anchor_in_room?roomid="@
            + room_id@);
    }
    r
}

pub fn bilibili_play_info_url(room_id: &str, qn: i64) -> (r: String)
    ensures
        r@ == "https://api.live.bilibili.com/xlive/web-room/v2/index/getRoomPlayInfo?room_id="@
            + room_id@ + "&protocol=0,1&format=0,1,2&codec=0,1&qn="@ + decimal_int(qn as int)
            + "&platform=web&ptype=8&dolby=5"@,
{
    with_quality(
        "https://api.live.bilibili.com/xlive/web-room/v2/index/getRoomPlayInfo?room_id=",
        room_id,
        "&protocol=0,1&format=0,1,2&codec=0,1&qn=",
        qn,
        "&platform=web&ptype=8&dolby=5",
    )
}

pub fn bilibili_old_play_info_url(room_id: &str, qn: i64) -> (r: String)
    ensures
        r@ == "https://api.live.bilibili.com/room/v1/Room/playUrl?cid="@ + room_id@ + "&qn="@
            + decimal_int(qn as int) + "&platform=web"@,
{
    with_quality(
        "https://api.live.bilibili.com/room/v1/Room/playUrl?cid=",
        room_id,
        "&qn=",
        qn,
        "&platform=web",
    )
}

pub open spec fn msg_no_page_data() -> Seq<char> {
    "未找到 B 站直播页面初始化数据"@
}

pub open spec fn msg_no_page_lines() -> Seq<char> {
    "未从 B 站页面解析到播放线路"@
}

pub const BILIBILI_PAGE_PREFIX: &'static str = "<script>window.__NEPTUNE_IS_MY_WAIFU__=";

pub const BILIBILI_PAGE_SUFFIX: &'static str = "</script>";

/// The initial data embedded in a Bilibili live page; an error when the
/// page has none.
pub fn bilibili_page_init_json(html: &str) -> (r: Result<String, String>)
    ensures
        r is Ok <==> script_json(html@, BILIBILI_PAGE_PREFIX@, BILIBILI_PAGE_SUFFIX@) is Some,
        r matches Ok(j) ==> script_json(html@, BILIBILI_PAGE_PREFIX@, BILIBILI_PAGE_SUFFIX@) == Some(
            j@,
        ),
        r matches Err(e) ==> e@ == msg_no_page_data(),
{
    match extract_json_from_script(html, BILIBILI_PAGE_PREFIX, BILIBILI_PAGE_SUFFIX) {
        Some(j) => Ok(j),
        None => Err(String::from_str("未找到 B 站直播页面初始化数据")),
    }
}

/// The stream lines of the play data embedded in a page; an error when
/// none is found.
pub fn bilibili_page_play_urls(playurl: &BilibiliPlayurl) -> (r: Result<Vec<String>, String>)
    ensures
        r is Ok <==> selected_urls(*playurl).len() > 0,
        r matches Ok(v) ==> views(v@) == selected_urls(*playurl),
        r matches Err(e) ==> e@ == msg_no_page_lines(),
{
    let urls = select_bilibili_urls(playurl);
    if urls.len() == 0 {
        return Err(String::from_str("未从 B 站页面解析到播放线路"));
    }
    Ok(urls)
}

/// A live room's report with its stream lines; a blank title becomes the
/// room's name.
pub fn bilibili_play_state(state: ExtractResult, urls: Vec<String>) -> (r: ExtractResult)
    ensures
        r.view_of().urls == views(urls@),
        r.view_of().title == (if is_blank(state.title@) {
            state.room_name@
        } else {
            state.title@
        }),
        r.platform == state.platform,
        r.room_id == state.room_id,
        r.streamer_name == state.streamer_name,
        r.room_name == state.room_name,
        r.avatar_url == state.avatar_url,
        r.is_online == state.is_online,
        r.screenshot_url == state.screenshot_url,
        r.heat_text == state.heat_text,
        r.page_url == state.page_url,
{
    let mut state = state;
    state.urls = urls;
    if is_blank_str(state.title.as_str()) {
        state.title = state.room_name.clone();
    }
    proof {
        assert(state.view_of().urls =~= views(urls@));
    }
    state
}

// ---------------------------------------------------------------------------
// The login cookie
// ---------------------------------------------------------------------------
/// A cookie of the login window: its domain, name and value.
pub struct BrowserCookie {
    pub domain: String,
    pub name: String,
    pub value: String,
}

/// The `name=value` pieces of the Bilibili cookies that have both.
pub open spec fn cookie_pieces(cookies: Seq<BrowserCookie>) -> Seq<Seq<char>>
    decreases cookies.len(),
{
    if cookies.len() == 0 {
        Seq::empty()
    } else {
        let c = cookies.last();
        cookie_pieces(cookies.drop_last()) + if contains(c.domain@, "bilibili.com"@)
            && c.name@.len() > 0 && c.value@.len() > 0 {
            seq![c.name@ + "="@ + c.value@]
        } else {
            Seq::empty()
        }
    }
}

/// The login cookie read from the login window: the Bilibili cookies
/// joined by `; `, kept only when it holds a login session.
pub open spec fn login_cookie(cookies: Seq<BrowserCookie>) -> Option<Seq<char>> {
    let joined = crate::platform::join(cookie_pieces(cookies), "; "@);
    if crate::platform::has_login(joined) {
        Some(joined)
    } else {
        None
    }
}

pub fn bilibili_login_cookie(cookies: &Vec<BrowserCookie>) -> (r: Option<String>)
    ensures
        r is Some <==> login_cookie(cookies@) is Some,
        r matches Some(c) ==> login_cookie(cookies@) == Some(c@),
{
    let mut parts: Vec<Vec<char>> = Vec::new();
    let mut i: usize = 0;
    while i < cookies.len()
        invariant
            0 <= i <= cookies@.len(),
            parts@.map_values(|v: Vec<char>| v@) == cookie_pieces(cookies@.take(i as int)),
        decreases cookies.len() - i,
    {
        proof {
            assert(cookies@.take(i + 1).drop_last() =~= cookies@.take(i as int));
            assert(cookies@.take(i + 1).last() == cookies@[i as int]);
        }
        let c = &cookies[i];
        let d = chars_of(c.domain.as_str());
        if contains_str(d.as_slice(), "bilibili.com") && !c.name.as_str().is_empty()
            && !c.value.as_str().is_empty() {
            let mut piece = chars_of(c.name.as_str());
            piece.push('=');
            extend_str(&mut piece, c.value.as_str());
            let ghost before = parts@.map_values(|v: Vec<char>| v@);
            proof {
                reveal_strlit("=");
                assert(piece@ =~= c.name@ + "="@ + c.value@);
            }
            parts.push(piece);
            proof {
                assert(parts@.map_values(|v: Vec<char>| v@) =~= before + seq![
                    c.name@ + "="@ + c.value@,
                ]);
            }
        } else {
            proof {
                assert(parts@.map_values(|v: Vec<char>| v@) =~= parts@.map_values(|v: Vec<char>| v@)
                    + Seq::<Seq<char>>::empty());
            }
        }
        i = i + 1;
    }
    proof {
        assert(cookies@.take(cookies@.len() as int) =~= cookies@);
    }
    let joined = crate::platform::join_exec(&parts, "; ");
    let text = string_from_chars(joined.as_slice());
    if crate::platform::has_bilibili_login(text.as_str()) {
        Some(text)
    } else {
        None
    }
}

} // verus!
