//! Platforms, saved streamers, settings, and the request headers and
//! cookies that each platform needs.
use vstd::prelude::*;
use crate::text::{
    trim, lower, contains, starts_with, is_blank, before_char, chars_of, trim_chars, trim_str,
    lower_chars, contains_str, eq_str, eq_chars, starts_with_str, before_char_exec, extend_chars,
    extend_str, is_blank_str,
};
use crate::outside::string_from_chars;

verus! {

// ---------------------------------------------------------------------------
// Platform names
// ---------------------------------------------------------------------------
pub const PLATFORM_DOUYU: &'static str = "douyu";

pub const PLATFORM_BILIBILI_LIVE: &'static str = "bilibili_live";

pub const PLATFORM_HUYA: &'static str = "huya";

pub const PLATFORM_DOUYIN_LIVE: &'static str = "douyin_live";

pub open spec fn douyu_name() -> Seq<char> {
    "douyu"@
}

pub open spec fn bilibili_name() -> Seq<char> {
    "bilibili_live"@
}

pub open spec fn huya_name() -> Seq<char> {
    "huya"@
}

pub open spec fn douyin_name() -> Seq<char> {
    "douyin_live"@
}

/// The platform a saved name stands for: trimmed and lower-cased, one of
/// the three other names, and Douyu for everything else. Only ASCII letters
/// can lower-case into these ASCII names, so ASCII lower-casing decides it.
pub open spec fn platform_from_name(s: Seq<char>) -> Seq<char> {
    let t = lower(trim(s));
    if t == bilibili_name() {
        bilibili_name()
    } else if t == huya_name() {
        huya_name()
    } else if t == douyin_name() {
        douyin_name()
    } else {
        douyu_name()
    }
}

/// The platform a room address belongs to, judged by the host names it
/// mentions.
pub open spec fn platform_from_target(s: Seq<char>) -> Seq<char> {
    let t = lower(trim(s));
    if contains(t, "live.bilibili.com"@) {
        bilibili_name()
    } else if contains(t, "huya.com"@) {
        huya_name()
    } else if contains(t, "live.douyin.com"@) || contains(t, "v.douyin.com"@) {
        douyin_name()
    } else {
        douyu_name()
    }
}

pub open spec fn is_platform_name(s: Seq<char>) -> bool {
    s == douyu_name() || s == bilibili_name() || s == huya_name() || s == douyin_name()
}

/// The canonical name of a platform.
pub fn normalize_platform(platform: &str) -> (r: &'static str)
    ensures
        r@ == platform_from_name(platform@),
{
    let t = trim_str(platform);
    let l = lower_chars(t.as_slice());
    if eq_str(l.as_slice(), PLATFORM_BILIBILI_LIVE) {
        PLATFORM_BILIBILI_LIVE
    } else if eq_str(l.as_slice(), PLATFORM_HUYA) {
        PLATFORM_HUYA
    } else if eq_str(l.as_slice(), PLATFORM_DOUYIN_LIVE) {
        PLATFORM_DOUYIN_LIVE
    } else {
        PLATFORM_DOUYU
    }
}

/// The platform that a room address points at.
pub fn infer_platform_from_target(target: &str) -> (r: &'static str)
    ensures
        r@ == platform_from_target(target@),
{
    let t = trim_str(target);
    let l = lower_chars(t.as_slice());
    if contains_str(l.as_slice(), "live.bilibili.com") {
        PLATFORM_BILIBILI_LIVE
    } else if contains_str(l.as_slice(), "huya.com") {
        PLATFORM_HUYA
    } else if contains_str(l.as_slice(), "live.douyin.com") || contains_str(
        l.as_slice(),
        "v.douyin.com",
    ) {
        PLATFORM_DOUYIN_LIVE
    } else {
        PLATFORM_DOUYU
    }
}

pub proof fn lemma_names_fixed()
    ensures
        trim(douyu_name()) == douyu_name(),
        trim(bilibili_name()) == bilibili_name(),
        trim(huya_name()) == huya_name(),
        trim(douyin_name()) == douyin_name(),
        lower(douyu_name()) == douyu_name(),
        lower(bilibili_name()) == bilibili_name(),
        lower(huya_name()) == huya_name(),
        lower(douyin_name()) == douyin_name(),
        douyu_name() != bilibili_name(),
        douyu_name() != huya_name(),
        douyu_name() != douyin_name(),
        bilibili_name() != huya_name(),
        bilibili_name() != douyin_name(),
        huya_name() != douyin_name(),
{
    reveal_strlit("douyu");
    reveal_strlit("bilibili_live");
    reveal_strlit("huya");
    reveal_strlit("douyin_live");
    assert(lower(douyu_name()) =~= douyu_name());
    assert(lower(bilibili_name()) =~= bilibili_name());
    assert(lower(huya_name()) =~= huya_name());
    assert(lower(douyin_name()) =~= douyin_name());
    assert(douyu_name().len() != bilibili_name().len());
    assert(douyu_name()[0] != huya_name()[0]);
    assert(douyu_name().len() != douyin_name().len());
    assert(bilibili_name().len() != huya_name().len());
    assert(bilibili_name().len() != douyin_name().len());
    assert(huya_name().len() != douyin_name().len());
}

/// Normalizing a platform name gives a canonical name, and a canonical name
/// is left as it is.
pub proof fn lemma_normalize_platform_idempotent(s: Seq<char>)
    ensures
        is_platform_name(platform_from_name(s)),
        platform_from_name(platform_from_name(s)) == platform_from_name(s),
        is_platform_name(s) ==> platform_from_name(s) == s,
{
    lemma_names_fixed();
}

/// The platform inferred from an address is a canonical name.
pub proof fn lemma_inferred_platform_is_canonical(s: Seq<char>)
    ensures
        is_platform_name(platform_from_target(s)),
        platform_from_name(platform_from_target(s)) == platform_from_target(s),
{
    lemma_names_fixed();
}

pub fn default_streamer_platform() -> (s: String)
    ensures
        s@ == douyu_name(),
{
    String::from_str(PLATFORM_DOUYU)
}

pub fn default_danmaku_font_size() -> (v: u32)
    ensures
        v == 18,
{
    18
}

// ---------------------------------------------------------------------------
// Saved streamers and settings
// ---------------------------------------------------------------------------
/// A streamer saved by the user.
pub struct Streamer {
    pub id: String,
    pub name: String,
    pub platform: String,
    pub target: String,
    pub avatar_url: Option<String>,
    pub is_online: Option<bool>,
    pub screenshot_url: Option<String>,
    pub heat_text: Option<String>,
}

/// The texts of a saved streamer, for contracts.
pub struct StreamerView {
    pub id: Seq<char>,
    pub name: Seq<char>,
    pub platform: Seq<char>,
    pub target: Seq<char>,
    pub avatar_url: Option<Seq<char>>,
    pub is_online: Option<bool>,
    pub screenshot_url: Option<Seq<char>>,
    pub heat_text: Option<Seq<char>>,
}

/// The text of an optional string.
pub open spec fn opt_view(o: Option<String>) -> Option<Seq<char>> {
    match o {
        Some(s) => Some(s@),
        None => None,
    }
}

impl Streamer {
    pub open spec fn view_of(&self) -> StreamerView {
        StreamerView {
            id: self.id@,
            name: self.name@,
            platform: self.platform@,
            target: self.target@,
            avatar_url: opt_view(self.avatar_url),
            is_online: self.is_online,
            screenshot_url: opt_view(self.screenshot_url),
            heat_text: opt_view(self.heat_text),
        }
    }
}

/// The platform a saved streamer has after normalization: its own name when
/// it has one, otherwise the one its address points at.
pub open spec fn streamer_platform(platform: Seq<char>, target: Seq<char>) -> Seq<char> {
    platform_from_name(
        if is_blank(platform) {
            platform_from_target(target)
        } else {
            platform
        },
    )
}

/// A streamer whose platform was normalized keeps it when normalized again.
pub proof fn lemma_streamer_platform_idempotent(platform: Seq<char>, target: Seq<char>)
    ensures
        is_platform_name(streamer_platform(platform, target)),
        streamer_platform(streamer_platform(platform, target), target) == streamer_platform(
            platform,
            target,
        ),
{
    lemma_names_fixed();
    let p = streamer_platform(platform, target);
    lemma_normalize_platform_idempotent(
        if is_blank(platform) {
            platform_from_target(target)
        } else {
            platform
        },
    );
    assert(!is_blank(p)) by {
        reveal_strlit("douyu");
        reveal_strlit("bilibili_live");
        reveal_strlit("huya");
        reveal_strlit("douyin_live");
        assert(p.len() > 0);
    }
}

/// Gives the streamer its canonical platform name; nothing else changes.
pub fn ensure_streamer_platform(streamer: &mut Streamer)
    ensures
        final(streamer).platform@ == streamer_platform(old(streamer).platform@, old(streamer).target@),
        final(streamer).id == old(streamer).id,
        final(streamer).name == old(streamer).name,
        final(streamer).target == old(streamer).target,
        final(streamer).avatar_url == old(streamer).avatar_url,
        final(streamer).is_online == old(streamer).is_online,
        final(streamer).screenshot_url == old(streamer).screenshot_url,
        final(streamer).heat_text == old(streamer).heat_text,
{
    let name = if is_blank_str(streamer.platform.as_str()) {
        normalize_platform(infer_platform_from_target(streamer.target.as_str()))
    } else {
        normalize_platform(streamer.platform.as_str())
    };
    streamer.platform = String::from_str(name);
}

/// A saved streamer's texts after normalization: its platform replaced by
/// the canonical one, every other field kept.
pub open spec fn normalized_view(v: StreamerView) -> StreamerView {
    StreamerView {
        id: v.id,
        name: v.name,
        platform: streamer_platform(v.platform, v.target),
        target: v.target,
        avatar_url: v.avatar_url,
        is_online: v.is_online,
        screenshot_url: v.screenshot_url,
        heat_text: v.heat_text,
    }
}

/// The texts of a list of saved streamers.
pub open spec fn streamer_views(v: Seq<Streamer>) -> Seq<StreamerView> {
    v.map_values(|s: Streamer| s.view_of())
}

/// A list of streamers' texts, each normalized.
pub open spec fn normalized_views(v: Seq<StreamerView>) -> Seq<StreamerView> {
    v.map_values(|x: StreamerView| normalized_view(x))
}

/// Gives every saved streamer its canonical platform name, in order.
pub fn normalize_streamers(streamers: Vec<Streamer>) -> (r: Vec<Streamer>)
    ensures
        streamer_views(r@) == normalized_views(streamer_views(streamers@)),
{
    let ghost input = streamers@;
    let mut out: Vec<Streamer> = Vec::new();
    for s in it: streamers.into_iter()
        invariant
            it.seq() == input,
            out@.len() == it.index(),
            forall|j: int|
                0 <= j < out@.len() ==> (#[trigger] out@[j]).view_of() == normalized_view(
                    input[j].view_of(),
                ),
    {
        let mut s = s;
        ensure_streamer_platform(&mut s);
        out.push(s);
    }
    assert(streamer_views(out@) =~= normalized_views(streamer_views(input)));
    out
}

/// Normalizing a list of streamers that was normalized already changes
/// nothing.
pub proof fn lemma_normalize_streamers_idempotent(v: Seq<StreamerView>)
    ensures
        normalized_views(normalized_views(v)) == normalized_views(v),
{
    assert forall|i: int| 0 <= i < v.len() implies normalized_views(normalized_views(v))[i]
        == normalized_views(v)[i] by {
        lemma_streamer_platform_idempotent(v[i].platform, v[i].target);
    }
    assert(normalized_views(normalized_views(v)) =~= normalized_views(v));
}

/// The user's settings.
pub struct Settings {
    pub bilibili_cookie: String,
    pub danmaku_font_size: u32,
}

impl Settings {
    /// No cookie and the default comment size.
    pub fn default() -> (s: Settings)
        ensures
            s.bilibili_cookie@.len() == 0,
            s.danmaku_font_size == 18,
    {
        Settings { bilibili_cookie: String::new(), danmaku_font_size: default_danmaku_font_size() }
    }
}

/// The comment size kept within 9 to 28.
pub open spec fn clamped_font_size(v: u32) -> u32 {
    if v < 9 {
        9
    } else if v > 28 {
        28
    } else {
        v
    }
}

impl Settings {
    /// The settings as they are loaded and saved: the comment size kept
    /// within 9 to 28, the cookie as it is.
    pub fn normalized(self) -> (r: Settings)
        ensures
            r.bilibili_cookie == self.bilibili_cookie,
            r.danmaku_font_size == clamped_font_size(self.danmaku_font_size),
    {
        let mut s = self;
        s.danmaku_font_size = normalize_danmaku_font_size(s.danmaku_font_size);
        s
    }
}

/// Normalizing a size twice changes nothing more than once.
pub proof fn lemma_font_size_normalization_idempotent(v: u32)
    ensures
        clamped_font_size(clamped_font_size(v)) == clamped_font_size(v),
        9 <= clamped_font_size(v) <= 28,
{
}

/// Keeps the comment font size within 9 to 28.
pub fn normalize_danmaku_font_size(value: u32) -> (r: u32)
    ensures
        9 <= r <= 28,
        r == if value < 9 {
            9
        } else if value > 28 {
            28
        } else {
            value
        },
{
    if value < 9 {
        9
    } else if value > 28 {
        28
    } else {
        value
    }
}

// ---------------------------------------------------------------------------
// Cookies
// ---------------------------------------------------------------------------
/// The pieces of `s` between occurrences of `c`, as `str::split` yields them.
pub open spec fn split(s: Seq<char>, c: char) -> Seq<Seq<char>>
    decreases s.len(),
{
    if s.len() == 0 {
        seq![Seq::empty()]
    } else {
        let init = split(s.drop_last(), c);
        if s.last() == c {
            init.push(Seq::empty())
        } else {
            init.update(init.len() - 1, init.last().push(s.last()))
        }
    }
}

pub proof fn lemma_split_nonempty(s: Seq<char>, c: char)
    ensures
        split(s, c).len() >= 1,
    decreases s.len(),
{
    if s.len() > 0 {
        lemma_split_nonempty(s.drop_last(), c);
    }
}

/// The pieces of `s` between occurrences of `c`.
pub fn split_exec(s: &[char], c: char) -> (r: Vec<Vec<char>>)
    ensures
        r@.map_values(|v: Vec<char>| v@) == split(s@, c),
{
    let mut done: Vec<Vec<char>> = Vec::new();
    let mut cur: Vec<char> = Vec::new();
    let mut i: usize = 0;
    proof {
        assert(s@.take(0) =~= Seq::<char>::empty());
        assert(done@.map_values(|v: Vec<char>| v@).push(cur@) =~= split(s@.take(0), c));
    }
    while i < s.len()
        invariant
            0 <= i <= s@.len(),
            done@.map_values(|v: Vec<char>| v@).push(cur@) == split(s@.take(i as int), c),
        decreases s.len() - i,
    {
        let ghost prev = split(s@.take(i as int), c);
        proof {
            assert(s@.take(i + 1).drop_last() =~= s@.take(i as int));
            assert(s@.take(i + 1).last() == s@[i as int]);
        }
        if s[i] == c {
            let piece = cur;
            done.push(piece);
            cur = Vec::new();
            proof {
                assert(done@.map_values(|v: Vec<char>| v@).push(cur@) =~= prev.push(
                    Seq::empty(),
                ));
            }
        } else {
            cur.push(s[i]);
            proof {
                assert(done@.map_values(|v: Vec<char>| v@).push(cur@) =~= prev.update(
                    prev.len() - 1,
                    prev.last().push(s@[i as int]),
                ));
            }
        }
        i = i + 1;
    }
    done.push(cur);
    proof {
        assert(s@.take(s@.len() as int) =~= s@);
    }
    done
}

/// The pieces joined with `sep` between them.
pub open spec fn join(parts: Seq<Seq<char>>, sep: Seq<char>) -> Seq<char>
    decreases parts.len(),
{
    if parts.len() == 0 {
        Seq::empty()
    } else if parts.len() == 1 {
        parts[0]
    } else {
        join(parts.drop_last(), sep) + sep + parts.last()
    }
}

pub fn join_exec(parts: &Vec<Vec<char>>, sep: &str) -> (r: Vec<char>)
    ensures
        r@ == join(parts@.map_values(|v: Vec<char>| v@), sep@),
{
    let ghost views = parts@.map_values(|v: Vec<char>| v@);
    let mut out: Vec<char> = Vec::new();
    let mut i: usize = 0;
    while i < parts.len()
        invariant
            0 <= i <= parts@.len(),
            views == parts@.map_values(|v: Vec<char>| v@),
            out@ == join(views.take(i as int), sep@),
        decreases parts.len() - i,
    {
        proof {
            assert(views.take(i + 1).drop_last() =~= views.take(i as int));
        }
        if i > 0 {
            extend_str(&mut out, sep);
        } else {
            proof {
                assert(views.take(0) =~= Seq::<Seq<char>>::empty());
            }
        }
        extend_chars(&mut out, parts[i].as_slice());
        i = i + 1;
    }
    proof {
        assert(views.take(parts@.len() as int) =~= views);
    }
    out
}

/// The non-empty trimmed pieces of a raw cookie string.
pub open spec fn cookie_parts(raw: Seq<char>) -> Seq<Seq<char>> {
    split(raw, ';').map_values(|p: Seq<char>| trim(p)).filter(|p: Seq<char>| p.len() > 0)
}

/// The name of a cookie piece: the trimmed text before its first `=`.
pub open spec fn cookie_name(part: Seq<char>) -> Seq<char> {
    trim(before_char(part, '='))
}

pub open spec fn has_quality_cookie(parts: Seq<Seq<char>>) -> bool {
    exists|i: int| 0 <= i < parts.len() && cookie_name(parts[i]) == "CURRENT_QUALITY"@
}

/// The cookie header text: the pieces of the raw cookie joined with `; `,
/// with `CURRENT_QUALITY=125` added when no piece sets the quality.
pub open spec fn cookie_header_text(raw: Seq<char>) -> Seq<char> {
    let parts = cookie_parts(raw);
    join(
        if has_quality_cookie(parts) {
            parts
        } else {
            parts.push("CURRENT_QUALITY=125"@)
        },
        "; "@,
    )
}

/// The pieces of the cookie header.
pub open spec fn cookie_header_parts(raw: Seq<char>) -> Seq<Seq<char>> {
    let parts = cookie_parts(raw);
    if has_quality_cookie(parts) {
        parts
    } else {
        parts.push("CURRENT_QUALITY=125"@)
    }
}

/// The cookie header always sets the stream quality, and keeps every piece
/// of the raw cookie in order.
pub proof fn lemma_cookie_header_sets_quality(raw: Seq<char>)
    ensures
        cookie_header_text(raw) == join(cookie_header_parts(raw), "; "@),
        has_quality_cookie(cookie_header_parts(raw)),
        cookie_header_parts(raw).take(cookie_parts(raw).len() as int) == cookie_parts(raw),
{
    let parts = cookie_parts(raw);
    if !has_quality_cookie(parts) {
        let q = "CURRENT_QUALITY=125"@;
        reveal_strlit("CURRENT_QUALITY=125");
        reveal_strlit("CURRENT_QUALITY");
        crate::text::lemma_before_char_prefix(q, '=', 15);
        let rest = q.subrange(15, q.len() as int);
        assert(rest[0] == '=');
        assert(before_char(q, '=') =~= "CURRENT_QUALITY"@);
        crate::text::lemma_trim_fixed("CURRENT_QUALITY"@);
        let e = parts.push(q);
        assert(cookie_name(e[parts.len() as int]) == "CURRENT_QUALITY"@);
        assert(e.take(parts.len() as int) =~= parts);
    } else {
        assert(parts.take(parts.len() as int) =~= parts);
    }
}

/// A character whose UTF-8 bytes `http::HeaderValue::from_str` accepts.
pub open spec fn is_header_char(c: char) -> bool {
    ((c as u32) >= 32 && (c as u32) != 127) || c == '\t'
}

/// A character that `HeaderValue::to_str` gives back as text.
pub open spec fn is_visible_header_char(c: char) -> bool {
    ((c as u32) >= 32 && (c as u32) < 127) || c == '\t'
}

pub open spec fn is_header_text(s: Seq<char>) -> bool {
    forall|i: int| 0 <= i < s.len() ==> is_header_char(#[trigger] s[i])
}

pub open spec fn is_visible_header_text(s: Seq<char>) -> bool {
    forall|i: int| 0 <= i < s.len() ==> is_visible_header_char(#[trigger] s[i])
}

pub open spec fn msg_invalid_header() -> Seq<char> {
    "failed to parse header value"@
}

fn check_header_text(s: &[char]) -> (r: (bool, bool))
    ensures
        r.0 == is_header_text(s@),
        r.1 == is_visible_header_text(s@),
{
    let mut valid = true;
    let mut visible = true;
    let mut i: usize = 0;
    while i < s.len()
        invariant
            0 <= i <= s@.len(),
            valid == (forall|j: int| 0 <= j < i ==> is_header_char(#[trigger] s@[j])),
            visible == (forall|j: int| 0 <= j < i ==> is_visible_header_char(#[trigger] s@[j])),
        decreases s.len() - i,
    {
        let u = s[i] as u32;
        let ok = (u >= 32 && u != 127) || s[i] == '\t';
        let ok_visible = (u >= 32 && u < 127) || s[i] == '\t';
        proof {
            if !ok {
                assert(!is_header_char(s@[i as int]));
            }
            if !ok_visible {
                assert(!is_visible_header_char(s@[i as int]));
            }
        }
        valid = valid && ok;
        visible = visible && ok_visible;
        i = i + 1;
    }
    (valid, visible)
}

/// The Bilibili cookie header: `Ok(None)` is never returned, because the
/// quality piece makes the header non-empty; an error comes when the text
/// holds a control character.
pub fn build_bilibili_cookie_header(raw_cookie: &str) -> (r: Result<Option<String>, String>)
    ensures
        is_header_text(cookie_header_text(raw_cookie@)) ==> r == Ok::<Option<String>, String>(
            Some(r->Ok_0->Some_0),
        ) && r->Ok_0->Some_0@ == cookie_header_text(raw_cookie@),
        !is_header_text(cookie_header_text(raw_cookie@)) ==> r is Err && r->Err_0@
            == msg_invalid_header(),
{
    let raw = chars_of(raw_cookie);
    let pieces = split_exec(raw.as_slice(), ';');
    let ghost pv = pieces@.map_values(|v: Vec<char>| v@);
    let ghost trimmed = pv.map_values(|p: Seq<char>| trim(p));
    let mut cookies: Vec<Vec<char>> = Vec::new();
    let mut has_quality = false;
    let mut i: usize = 0;
    while i < pieces.len()
        invariant
            0 <= i <= pieces@.len(),
            pv == pieces@.map_values(|v: Vec<char>| v@),
            trimmed == pv.map_values(|p: Seq<char>| trim(p)),
            cookies@.map_values(|v: Vec<char>| v@) == trimmed.take(i as int).filter(
                |p: Seq<char>| p.len() > 0,
            ),
            has_quality == has_quality_cookie(cookies@.map_values(|v: Vec<char>| v@)),
        decreases pieces.len() - i,
    {
        let t = trim_chars(pieces[i].as_slice());
        let ghost before = cookies@.map_values(|v: Vec<char>| v@);
        proof {
            assert(trimmed.take(i + 1).drop_last() =~= trimmed.take(i as int));
            reveal_with_fuel(Seq::filter, 1);
        }
        if t.len() > 0 {
            let name_raw = before_char_exec(t.as_slice(), '=');
            let name = trim_chars(name_raw.as_slice());
            let is_quality = eq_str(name.as_slice(), "CURRENT_QUALITY");
            cookies.push(t);
            proof {
                let after = cookies@.map_values(|v: Vec<char>| v@);
                assert(after =~= before.push(trimmed[i as int]));
                if is_quality {
                    assert(cookie_name(after[after.len() - 1]) == "CURRENT_QUALITY"@);
                }
                if has_quality_cookie(after) && !has_quality {
                    let k = choose|k: int|
                        0 <= k < after.len() && cookie_name(after[k]) == "CURRENT_QUALITY"@;
                    if k < before.len() {
                        assert(after[k] == before[k]);
                    }
                }
                if has_quality {
                    let k = choose|k: int|
                        0 <= k < before.len() && cookie_name(before[k]) == "CURRENT_QUALITY"@;
                    assert(after[k] == before[k]);
                }
            }
            has_quality = has_quality || is_quality;
        }
        i = i + 1;
    }
    proof {
        assert(trimmed.take(pieces@.len() as int) =~= trimmed);
    }
    if !has_quality {
        let q = chars_of("CURRENT_QUALITY=125");
        cookies.push(q);
    }
    proof {
        assert(cookies@.map_values(|v: Vec<char>| v@) =~= if has_quality_cookie(
            cookie_parts(raw_cookie@),
        ) {
            cookie_parts(raw_cookie@)
        } else {
            cookie_parts(raw_cookie@).push("CURRENT_QUALITY=125"@)
        });
    }
    let header = join_exec(&cookies, "; ");
    let (valid, _) = check_header_text(header.as_slice());
    if !valid {
        return Err(String::from_str("failed to parse header value"));
    }
    Ok(Some(string_from_chars(header.as_slice())))
}

/// The cookie header as text: `Ok(None)` when the header holds a character
/// outside visible ASCII and tab, an error when it holds a control character.
pub fn build_bilibili_cookie_string(raw_cookie: &str) -> (r: Result<Option<String>, String>)
    ensures
        ({
            let h = cookie_header_text(raw_cookie@);
            &&& is_visible_header_text(h) ==> r is Ok && r->Ok_0 is Some && r->Ok_0->Some_0@ == h
            &&& (is_header_text(h) && !is_visible_header_text(h)) ==> r == Ok::<
                Option<String>,
                String,
            >(None)
            &&& !is_header_text(h) ==> r is Err && r->Err_0@ == msg_invalid_header()
        }),
{
    match build_bilibili_cookie_header(raw_cookie) {
        Err(e) => Err(e),
        Ok(None) => Ok(None),
        Ok(Some(header)) => {
            let chars = chars_of(header.as_str());
            let (_, visible) = check_header_text(chars.as_slice());
            proof {
                assert forall|i: int| 0 <= i < chars@.len() implies is_header_char(
                    #[trigger] chars@[i],
                ) by {
                    if is_visible_header_text(chars@) {
                        assert(is_visible_header_char(chars@[i]));
                    }
                }
            }
            if visible {
                Ok(Some(header))
            } else {
                Ok(None)
            }
        },
    }
}

/// A cookie piece that carries a non-empty `SESSDATA` value.
pub open spec fn is_login_piece(p: Seq<char>) -> bool {
    starts_with(trim(p), "SESSDATA="@) && trim(p).len() > "SESSDATA="@.len()
}

/// Whether a cookie string holds a Bilibili login.
pub open spec fn has_login(cookie: Seq<char>) -> bool {
    exists|i: int| 0 <= i < split(cookie, ';').len() && is_login_piece(split(cookie, ';')[i])
}

pub fn has_bilibili_login(cookie: &str) -> (r: bool)
    ensures
        r == has_login(cookie@),
{
    let chars = chars_of(cookie);
    let pieces = split_exec(chars.as_slice(), ';');
    let ghost pv = pieces@.map_values(|v: Vec<char>| v@);
    let prefix = chars_of("SESSDATA=");
    let mut i: usize = 0;
    while i < pieces.len()
        invariant
            0 <= i <= pieces@.len(),
            pv == pieces@.map_values(|v: Vec<char>| v@),
            pv == split(cookie@, ';'),
            prefix@ == "SESSDATA="@,
            forall|j: int| 0 <= j < i ==> !is_login_piece(pv[j]),
        decreases pieces.len() - i,
    {
        let t = trim_chars(pieces[i].as_slice());
        if starts_with_str(t.as_slice(), "SESSDATA=") && t.len() > prefix.len() {
            proof {
                assert(is_login_piece(pv[i as int]));
            }
            return true;
        }
        i = i + 1;
    }
    false
}

pub fn bilibili_login_url() -> (r: &'static str)
    ensures
        r@ == "https://passport.bilibili.com/login"@,
{
    "https://passport.bilibili.com/login"
}

// ---------------------------------------------------------------------------
// Request headers for the stream proxy
// ---------------------------------------------------------------------------
pub const DOUYU_USER_AGENT: &'static str =
    "Mozilla/5.0 (Macintosh; Intel Mac OS X 10_15_7) AppleWebKit/537.36 (KHTML, like Gecko) Chrome/135.0.0.0 Safari/537.36";

pub const BILIBILI_USER_AGENT: &'static str =
    "Mozilla/5.0 (Macintosh; Intel Mac OS X 10_15_7) AppleWebKit/605.1.15 (KHTML, like Gecko) Version/18.0 Safari/605.1.15";

pub const HUYA_USER_AGENT: &'static str =
    "Mozilla/5.0 (iPhone; CPU iPhone OS 14_0 like Mac OS X) AppleWebKit/605.1.15 (KHTML, like Gecko) Version/14.0 Mobile/15E148 Safari/604.1";

pub const DOUYIN_USER_AGENT: &'static str =
    "Mozilla/5.0 (Macintosh; Intel Mac OS X 10_15_7) AppleWebKit/605.1.15 (KHTML, like Gecko) Version/18.6 Safari/605.1.15";

pub open spec fn header_views(v: Seq<(String, String)>) -> Seq<(Seq<char>, Seq<char>)> {
    v.map_values(|p: (String, String)| (p.0@, p.1@))
}

/// The user agent and referer that a platform's streams need, keyed by the
/// exact platform name (anything else counts as Douyu).
pub open spec fn platform_agent_referer(platform: Seq<char>) -> (Seq<char>, Seq<char>) {
    if platform == bilibili_name() {
        (BILIBILI_USER_AGENT@, "https://live.bilibili.com/"@)
    } else if platform == huya_name() {
        (HUYA_USER_AGENT@, "https://www.huya.com/"@)
    } else if platform == douyin_name() {
        (DOUYIN_USER_AGENT@, "https://live.douyin.com/"@)
    } else {
        (DOUYU_USER_AGENT@, "https://www.douyu.com/"@)
    }
}

fn header_pair(name: &str, value: &str) -> (p: (String, String))
    ensures
        p.0@ == name@,
        p.1@ == value@,
{
    (String::from_str(name), String::from_str(value))
}

/// Headers sent upstream by the stream proxy: user agent, referer, the
/// Bilibili cookie where there is one, and `accept: */*`.
pub fn stream_proxy_headers_for_platform(platform: &str, settings: &Settings) -> (r: Result<
    Vec<(String, String)>,
    String,
>)
    ensures
        ({
            let (ua, referer) = platform_agent_referer(platform@);
            let base = seq![("user-agent"@, ua), ("referer"@, referer)];
            let tail = seq![("accept"@, "*/*"@)];
            let h = cookie_header_text(settings.bilibili_cookie@);
            if platform@ == bilibili_name() {
                &&& is_visible_header_text(h) ==> r is Ok && header_views(r->Ok_0@) == base
                    + seq![("cookie"@, h)] + tail
                &&& (is_header_text(h) && !is_visible_header_text(h)) ==> r is Ok && header_views(
                    r->Ok_0@,
                ) == base + tail
                &&& !is_header_text(h) ==> r is Err && r->Err_0@ == msg_invalid_header()
            } else {
                r is Ok && header_views(r->Ok_0@) == base + tail
            }
        }),
{
    let p = chars_of(platform);
    let mut headers: Vec<(String, String)> = Vec::new();
    if eq_str(p.as_slice(), PLATFORM_BILIBILI_LIVE) {
        headers.push(header_pair("user-agent", BILIBILI_USER_AGENT));
        headers.push(header_pair("referer", "https://live.bilibili.com/"));
        match build_bilibili_cookie_string(settings.bilibili_cookie.as_str()) {
            Err(e) => return Err(e),
            Ok(Some(cookie)) => {
                let value = cookie;
                headers.push((String::from_str("cookie"), value));
            },
            Ok(None) => {},
        }
    } else if eq_str(p.as_slice(), PLATFORM_HUYA) {
        headers.push(header_pair("user-agent", HUYA_USER_AGENT));
        headers.push(header_pair("referer", "https://www.huya.com/"));
    } else if eq_str(p.as_slice(), PLATFORM_DOUYIN_LIVE) {
        headers.push(header_pair("user-agent", DOUYIN_USER_AGENT));
        headers.push(header_pair("referer", "https://live.douyin.com/"));
    } else {
        headers.push(header_pair("user-agent", DOUYU_USER_AGENT));
        headers.push(header_pair("referer", "https://www.douyu.com/"));
    }
    headers.push(header_pair("accept", "*/*"));
    proof {
        let (ua, referer) = platform_agent_referer(platform@);
        let h = cookie_header_text(settings.bilibili_cookie@);
        if platform@ == bilibili_name() && is_visible_header_text(h) {
            assert(header_views(headers@) =~= seq![("user-agent"@, ua), ("referer"@, referer)]
                + seq![("cookie"@, h)] + seq![("accept"@, "*/*"@)]);
        } else {
            assert(header_views(headers@) =~= seq![("user-agent"@, ua), ("referer"@, referer)]
                + seq![("accept"@, "*/*"@)]);
        }
    }
    Ok(headers)
}

/// The data address of a platform icon: its bytes in standard base64.
pub fn icon_data_url(bytes: &[u8]) -> (r: String)
    ensures
        r@ == "data:image/x-icon;base64,"@ + crate::outside::base64_standard_encode(bytes@),
{
    let encoded = crate::outside::base64_encode(bytes);
    let mut v = chars_of("data:image/x-icon;base64,");
    extend_str(&mut v, encoded.as_str());
    string_from_chars(v.as_slice())
}

} // verus!
