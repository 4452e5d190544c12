//! Room addresses: building the page address of a room and reading the room
//! number back out of what the user typed or pasted.
use vstd::prelude::*;
use crate::text::{
    is_ws, lemma_trim_idempotent, lemma_trim_fixed, sub_chars,
    trim, is_number, before_char, after_last_char, trim_end_char, starts_with, chars_of,
    trim_str, is_number_exec, before_char_exec, after_last_char_exec, trim_end_char_exec,
    extend_str, extend_chars, starts_with_str,
};
use crate::outside::string_from_chars;
use crate::platform::{
    split, split_exec, platform_from_target, infer_platform_from_target, bilibili_name,
    huya_name, douyin_name, PLATFORM_BILIBILI_LIVE, PLATFORM_HUYA, PLATFORM_DOUYIN_LIVE,
};

verus! {

pub open spec fn bilibili_room_prefix() -> Seq<char> {
    "https://live.bilibili.com/"@
}

pub open spec fn huya_room_prefix() -> Seq<char> {
    "https://www.huya.com/"@
}

pub open spec fn douyin_room_prefix() -> Seq<char> {
    "https://live.douyin.com/"@
}

pub open spec fn douyu_room_prefix() -> Seq<char> {
    "https://www.douyu.com/"@
}

fn prefixed(prefix: &str, rest: &[char]) -> (s: String)
    ensures
        s@ == prefix@ + rest@,
{
    let mut v: Vec<char> = Vec::new();
    extend_str(&mut v, prefix);
    extend_chars(&mut v, rest);
    string_from_chars(v.as_slice())
}

/// The Bilibili live page of a room.
pub fn build_bilibili_live_url(room_id: &str) -> (s: String)
    ensures
        s@ == bilibili_room_prefix() + trim(room_id@),
{
    let t = trim_str(room_id);
    prefixed("https://live.bilibili.com/", t.as_slice())
}

/// The Huya page of a room.
pub fn build_huya_live_url(room_id: &str) -> (s: String)
    ensures
        s@ == huya_room_prefix() + trim(room_id@),
{
    let t = trim_str(room_id);
    prefixed("https://www.huya.com/", t.as_slice())
}

/// The Douyin live page of a room.
pub fn build_douyin_live_url(room_id: &str) -> (s: String)
    ensures
        s@ == douyin_room_prefix() + trim(room_id@),
{
    let t = trim_str(room_id);
    prefixed("https://live.douyin.com/", t.as_slice())
}

/// The last path segment of an address, with fragment, query and trailing
/// slashes removed.
pub open spec fn last_path_segment(t: Seq<char>) -> Seq<char> {
    after_last_char(trim_end_char(before_char(before_char(t, '#'), '?'), '/'), '/')
}

/// The room number in what the user entered: the whole trimmed text when
/// it is a number, otherwise the last path segment when that is a number.
pub open spec fn room_number_of(target: Seq<char>) -> Option<Seq<char>> {
    let t = trim(target);
    if is_number(t) {
        Some(t)
    } else if is_number(last_path_segment(t)) {
        Some(last_path_segment(t))
    } else {
        None
    }
}

fn room_number_exec(target: &str) -> (r: Option<String>)
    ensures
        r is Some <==> room_number_of(target@) is Some,
        r matches Some(s) ==> room_number_of(target@) == Some(s@),
{
    let t = trim_str(target);
    if is_number_exec(t.as_slice()) {
        return Some(string_from_chars(t.as_slice()));
    }
    let a = before_char_exec(t.as_slice(), '#');
    let b = before_char_exec(a.as_slice(), '?');
    let c = trim_end_char_exec(b.as_slice(), '/');
    let segment = after_last_char_exec(c.as_slice(), '/');
    if is_number_exec(segment.as_slice()) {
        Some(string_from_chars(segment.as_slice()))
    } else {
        None
    }
}

/// The room number of a Bilibili room address or number.
pub fn extract_bilibili_room_id(target: &str) -> (r: Option<String>)
    ensures
        r is Some <==> room_number_of(target@) is Some,
        r matches Some(s) ==> room_number_of(target@) == Some(s@),
{
    room_number_exec(target)
}

/// The room number of a Huya room address or number.
pub fn extract_huya_room_id(target: &str) -> (r: Option<String>)
    ensures
        r is Some <==> room_number_of(target@) is Some,
        r matches Some(s) ==> room_number_of(target@) == Some(s@),
{
    room_number_exec(target)
}

/// The room number of a Douyu room address or number.
pub fn extract_room_id_from_target(input: &str) -> (r: Option<String>)
    ensures
        r is Some <==> room_number_of(input@) is Some,
        r matches Some(s) ==> room_number_of(input@) == Some(s@),
{
    room_number_exec(input)
}

/// The last non-empty segment that is a number.
pub open spec fn last_number_segment(segs: Seq<Seq<char>>) -> Option<Seq<char>>
    decreases segs.len(),
{
    if segs.len() == 0 {
        None
    } else if is_number(segs.last()) {
        Some(segs.last())
    } else {
        last_number_segment(segs.drop_last())
    }
}

/// The Douyin room number: the whole trimmed text when it is a number,
/// otherwise the last path segment that is one.
pub open spec fn douyin_room_number_of(target: Seq<char>) -> Option<Seq<char>> {
    let t = trim(target);
    if is_number(t) {
        Some(t)
    } else {
        last_number_segment(
            split(trim_end_char(before_char(before_char(t, '#'), '?'), '/'), '/'),
        )
    }
}

/// The room number of a Douyin room address or number.
pub fn extract_douyin_room_id(target: &str) -> (r: Option<String>)
    ensures
        r is Some <==> douyin_room_number_of(target@) is Some,
        r matches Some(s) ==> douyin_room_number_of(target@) == Some(s@),
{
    let t = trim_str(target);
    if is_number_exec(t.as_slice()) {
        return Some(string_from_chars(t.as_slice()));
    }
    let a = before_char_exec(t.as_slice(), '#');
    let b = before_char_exec(a.as_slice(), '?');
    let c = trim_end_char_exec(b.as_slice(), '/');
    let segments = split_exec(c.as_slice(), '/');
    let ghost segs = segments@.map_values(|v: Vec<char>| v@);
    let mut i = segments.len();
    proof {
        assert(segs.take(i as int) =~= segs);
    }
    while i > 0
        invariant
            0 <= i <= segments@.len(),
            segs == segments@.map_values(|v: Vec<char>| v@),
            douyin_room_number_of(target@) == last_number_segment(segs),
            last_number_segment(segs) == last_number_segment(segs.take(i as int)),
        decreases i,
    {
        proof {
            assert(segs.take(i as int).drop_last() =~= segs.take(i - 1));
            assert(segs.take(i as int).last() == segs[i - 1]);
        }
        if is_number_exec(segments[i - 1].as_slice()) {
            return Some(string_from_chars(segments[i - 1].as_slice()));
        }
        i = i - 1;
    }
    proof {
        assert(segs.take(0) =~= Seq::<Seq<char>>::empty());
    }
    None
}

/// What a room entry opens: an `http(s)` address as it is, otherwise the
/// Douyu room of that name.
pub open spec fn room_input_url(input: Seq<char>) -> Seq<char> {
    let t = trim(input);
    if starts_with(t, "http://"@) || starts_with(t, "https://"@) {
        t
    } else {
        douyu_room_prefix() + t
    }
}

/// Normalizing an entered room twice changes nothing more than once.
pub proof fn lemma_room_input_idempotent(input: Seq<char>)
    ensures
        room_input_url(room_input_url(input)) == room_input_url(input),
{
    let t = trim(input);
    lemma_trim_idempotent(input);
    reveal_strlit("https://www.douyu.com/");
    reveal_strlit("https://");
    if starts_with(t, "http://"@) || starts_with(t, "https://"@) {
        assert(trim(t) == t);
    } else {
        let u = douyu_room_prefix() + t;
        assert(u[0] == 'h');
        if t.len() > 0 {
            assert(u.last() == t.last());
        } else {
            assert(u.last() == '/');
        }
        lemma_trim_fixed(u);
        assert(u.subrange(0, 8) =~= "https://"@);
    }
}

pub fn normalize_room_input(input: &str) -> (s: String)
    ensures
        s@ == room_input_url(input@),
{
    let t = trim_str(input);
    if starts_with_str(t.as_slice(), "http://") || starts_with_str(t.as_slice(), "https://") {
        string_from_chars(t.as_slice())
    } else {
        prefixed("https://www.douyu.com/", t.as_slice())
    }
}

/// The room number of an address for the platform it points at.
pub open spec fn room_number_for(platform: Seq<char>, target: Seq<char>) -> Option<Seq<char>> {
    if platform == douyin_name() {
        douyin_room_number_of(target)
    } else {
        room_number_of(target)
    }
}

/// The platform and room number named by the first message of a comment
/// socket client.
pub fn parse_danmaku_target_from_client_message(message: &str) -> (r: Option<(String, String)>)
    ensures
        ({
            let p = platform_from_target(message@);
            &&& r is Some <==> room_number_for(p, message@) is Some
            &&& r matches Some(pair) ==> pair.0@ == p && room_number_for(p, message@) == Some(
                pair.1@,
            )
        }),
{
    let platform = infer_platform_from_target(message);
    proof {
        crate::platform::lemma_names_fixed();
    }
    let pchars = chars_of(platform);
    let room_id = if crate::text::eq_str(pchars.as_slice(), PLATFORM_BILIBILI_LIVE) {
        extract_bilibili_room_id(message)
    } else if crate::text::eq_str(pchars.as_slice(), PLATFORM_HUYA) {
        extract_huya_room_id(message)
    } else if crate::text::eq_str(pchars.as_slice(), PLATFORM_DOUYIN_LIVE) {
        extract_douyin_room_id(message)
    } else {
        extract_room_id_from_target(message)
    };
    match room_id {
        Some(id) => Some((String::from_str(platform), id)),
        None => None,
    }
}


// ---------------------------------------------------------------------------
// Remote images and stream addresses
// ---------------------------------------------------------------------------
/// A remote address made absolute over https: trimmed, `http://` and
/// protocol-relative `//` turned into `https://`, empty kept empty.
pub open spec fn remote_image_url(url: Seq<char>) -> Seq<char> {
    let t = trim(url);
    if t.len() == 0 {
        Seq::empty()
    } else if starts_with(t, "http://"@) {
        "https://"@ + t.subrange(7, t.len() as int)
    } else if starts_with(t, "//"@) {
        "https://"@ + t.subrange(2, t.len() as int)
    } else {
        t
    }
}

pub fn normalize_remote_image_url(url: &str) -> (s: String)
    ensures
        s@ == remote_image_url(url@),
{
    let t = trim_str(url);
    proof {
        reveal_strlit("http://");
        reveal_strlit("//");
    }
    if t.len() == 0 {
        return String::new();
    }
    if starts_with_str(t.as_slice(), "http://") {
        let rest = sub_chars(t.as_slice(), 7, t.len());
        return prefixed("https://", rest.as_slice());
    }
    if starts_with_str(t.as_slice(), "//") {
        let rest = sub_chars(t.as_slice(), 2, t.len());
        return prefixed("https://", rest.as_slice());
    }
    string_from_chars(t.as_slice())
}

/// Normalizing a remote address twice is normalizing it once.
pub proof fn lemma_remote_image_url_idempotent(url: Seq<char>)
    ensures
        remote_image_url(remote_image_url(url)) == remote_image_url(url),
{
    reveal_strlit("http://");
    reveal_strlit("https://");
    reveal_strlit("//");
    lemma_trim_idempotent(url);
    let t = trim(url);
    let r = remote_image_url(url);
    if t.len() > 0 && (starts_with(t, "http://"@) || starts_with(t, "//"@)) {
        let k: int = if starts_with(t, "http://"@) {
            7
        } else {
            2
        };
        assert(r == "https://"@ + t.subrange(k, t.len() as int));
        assert(r[0] == 'h');
        assert(!is_ws(r.last())) by {
            if t.len() > k {
                assert(r.last() == t.last());
            } else {
                assert(r.last() == '/');
            }
        }
        lemma_trim_fixed(r);
        assert(r[4] == 's');
        assert(!starts_with(r, "http://"@)) by {
            assert(r.subrange(0, 7)[4] == 's');
        }
        assert(!starts_with(r, "//"@)) by {
            assert(r.subrange(0, 2)[0] == 'h');
        }
    }
}

// ---------------------------------------------------------------------------
// Page addresses give their room numbers back
// ---------------------------------------------------------------------------
/// A room-page prefix: an address that ends with `/`, starts with a letter
/// and holds no `#` or `?`.
pub open spec fn is_page_prefix(prefix: Seq<char>) -> bool {
    &&& prefix.len() > 0
    &&& !is_ws(prefix[0]) && !crate::text::is_digit(prefix[0])
    &&& prefix.last() == '/'
    &&& forall|k: int| 0 <= k < prefix.len() ==> prefix[k] != '#' && prefix[k] != '?'
}

proof fn lemma_page_text(prefix: Seq<char>, id: Seq<char>)
    requires
        is_page_prefix(prefix),
        is_number(id),
    ensures
        trim(prefix + id) == prefix + id,
        !is_number(prefix + id),
        before_char(before_char(prefix + id, '#'), '?') == prefix + id,
        trim_end_char(prefix + id, '/') == prefix + id,
{
    let s = prefix + id;
    assert(s[0] == prefix[0]);
    assert(s.last() == id.last());
    assert(crate::text::is_digit(id[id.len() - 1]));
    crate::text::lemma_trim_fixed(s);
    assert(forall|k: int| 0 <= k < s.len() ==> s[k] != '#' && s[k] != '?') by {
        assert forall|k: int| 0 <= k < s.len() implies s[k] != '#' && s[k] != '?' by {
            if k >= prefix.len() {
                assert(s[k] == id[k - prefix.len()]);
                assert(crate::text::is_digit(id[k - prefix.len()]));
            }
        }
    }
    crate::text::lemma_before_char_prefix(s, '#', s.len() as int);
    assert(s.subrange(s.len() as int, s.len() as int) =~= Seq::<char>::empty());
    assert(s.subrange(0, s.len() as int) =~= s);
    crate::text::lemma_before_char_prefix(s, '?', s.len() as int);
}

/// The segment after the last `/` of a prefix ending in `/` followed by a
/// number is the number.
proof fn lemma_after_prefix(prefix: Seq<char>, id: Seq<char>)
    requires
        is_page_prefix(prefix),
        is_number(id),
    ensures
        after_last_char(prefix + id, '/') == id,
{
    let s = prefix + id;
    assert forall|k: int| prefix.len() <= k < s.len() implies s[k] != '/' by {
        assert(s[k] == id[k - prefix.len()]);
        assert(crate::text::is_digit(id[k - prefix.len()]));
    }
    crate::text::lemma_after_last_char_suffix(s, '/', prefix.len() as int);
    assert(s.subrange(0, prefix.len() as int) =~= prefix);
    assert(s.subrange(prefix.len() as int, s.len() as int) =~= id);
    assert(after_last_char(prefix, '/') =~= Seq::<char>::empty());
}

proof fn lemma_page_number(prefix: Seq<char>, id: Seq<char>)
    requires
        is_page_prefix(prefix),
        is_number(id),
    ensures
        room_number_of(prefix + trim(id)) == Some(id),
{
    assert(trim(id) == id) by {
        assert(!is_ws(id[0])) by {
            assert(crate::text::is_digit(id[0]));
        }
        assert(!is_ws(id.last())) by {
            assert(crate::text::is_digit(id[id.len() - 1]));
        }
        crate::text::lemma_trim_fixed(id);
    }
    lemma_page_text(prefix, id);
    lemma_after_prefix(prefix, id);
}

/// The last segment of a prefix ending in `/` followed by digits is those
/// digits.
proof fn lemma_split_last_segment(prefix: Seq<char>, id: Seq<char>, k: int)
    requires
        is_page_prefix(prefix),
        is_number(id),
        0 <= k <= id.len(),
    ensures
        split(prefix + id.take(k), '/').len() > 0,
        split(prefix + id.take(k), '/').last() == id.take(k),
    decreases k,
{
    crate::platform::lemma_split_nonempty(prefix + id.take(k), '/');
    if k == 0 {
        assert(prefix + id.take(0) =~= prefix);
        assert(id.take(0) =~= Seq::<char>::empty());
        crate::platform::lemma_split_nonempty(prefix.drop_last(), '/');
    } else {
        lemma_split_last_segment(prefix, id, k - 1);
        let s = prefix + id.take(k);
        assert(s.drop_last() =~= prefix + id.take(k - 1));
        assert(s.last() == id[k - 1]);
        assert(crate::text::is_digit(id[k - 1]));
        assert(id.take(k - 1).push(id[k - 1]) =~= id.take(k));
    }
}

proof fn lemma_douyin_page_number(prefix: Seq<char>, id: Seq<char>)
    requires
        is_page_prefix(prefix),
        is_number(id),
    ensures
        douyin_room_number_of(prefix + trim(id)) == Some(id),
{
    assert(trim(id) == id) by {
        assert(crate::text::is_digit(id[0]));
        assert(crate::text::is_digit(id[id.len() - 1]));
        crate::text::lemma_trim_fixed(id);
    }
    lemma_page_text(prefix, id);
    lemma_split_last_segment(prefix, id, id.len() as int);
    assert(id.take(id.len() as int) =~= id);
}

/// White space at the end of what follows a text that ends in a visible
/// character is all that trimming the end removes.
proof fn lemma_trim_end_after(x: Seq<char>, y: Seq<char>)
    requires
        x.len() > 0,
        !is_ws(x.last()),
    ensures
        crate::text::trim_end(x + y) == x + crate::text::trim_end(y),
    decreases y.len(),
{
    if y.len() == 0 {
        assert(x + y =~= x);
        assert(x + Seq::<char>::empty() =~= x);
    } else if is_ws(y.last()) {
        assert((x + y).drop_last() =~= x + y.drop_last());
        lemma_trim_end_after(x, y.drop_last());
    }
}

/// A room page address with a query or a fragment after the number still
/// gives that number back: for every room-page prefix, number and text
/// after it, the room number of `prefix + number + "?" + text` and of
/// `prefix + number + "#" + text` is the number.
pub proof fn lemma_room_number_ignores_query(prefix: Seq<char>, id: Seq<char>, rest: Seq<char>)
    requires
        is_page_prefix(prefix),
        is_number(id),
    ensures
        room_number_of(prefix + id + seq!['?'] + rest) == Some(id),
        room_number_of(prefix + id + seq!['#'] + rest) == Some(id),
{
    lemma_number_before_separator(prefix, id, '?', rest);
    lemma_number_before_separator(prefix, id, '#', rest);
}

proof fn lemma_number_before_separator(prefix: Seq<char>, id: Seq<char>, sep: char, rest: Seq<char>)
    requires
        is_page_prefix(prefix),
        is_number(id),
        sep == '?' || sep == '#',
    ensures
        room_number_of(prefix + id + seq![sep] + rest) == Some(id),
{
    let a = prefix + id;
    let s = a + seq![sep] + rest;
    lemma_page_text(prefix, id);
    lemma_after_prefix(prefix, id);
    assert(a[0] == prefix[0]);
    assert(a.last() == id.last());
    assert(crate::text::is_digit(id[id.len() - 1]));
    assert forall|k: int| 0 <= k < a.len() implies a[k] != '#' && a[k] != '?' by {
        if k >= prefix.len() {
            assert(a[k] == id[k - prefix.len()]);
            assert(crate::text::is_digit(id[k - prefix.len()]));
        }
    }
    // the trimmed text is the address up to the separator, then the rest
    // with its trailing white space removed
    let x = a + seq![sep];
    assert(s =~= x + rest);
    assert(x.last() == sep);
    lemma_trim_end_after(x, rest);
    assert(s[0] == prefix[0]);
    assert(crate::text::trim_start(s) == s);
    let t = x + crate::text::trim_end(rest);
    assert(trim(s) == t);
    assert(t[0] == prefix[0]);
    assert(!is_number(t));
    // before the first '#' and then the first '?': the address itself
    assert forall|k: int| 0 <= k < a.len() implies t[k] != '#' && t[k] != '?' by {
        assert(t[k] == a[k]);
    }
    crate::text::lemma_before_char_prefix(t, '#', a.len() as int);
    assert(t.subrange(0, a.len() as int) =~= a);
    let tail = t.subrange(a.len() as int, t.len() as int);
    assert(tail =~= seq![sep] + crate::text::trim_end(rest));
    assert(tail[0] == sep);
    let b1 = before_char(t, '#');
    if sep == '#' {
        assert(before_char(tail, '#') =~= Seq::<char>::empty());
        assert(b1 =~= a);
        crate::text::lemma_before_char_prefix(a, '?', a.len() as int);
        assert(a.subrange(0, a.len() as int) =~= a);
        assert(a.subrange(a.len() as int, a.len() as int) =~= Seq::<char>::empty());
        assert(before_char(b1, '?') =~= a);
    } else {
        let q3 = before_char(tail.drop_first(), '#');
        assert(before_char(tail, '#') == seq!['?'] + q3);
        assert(b1 == a + (seq!['?'] + q3));
        assert forall|k: int| 0 <= k < a.len() implies b1[k] != '?' by {
            assert(b1[k] == a[k]);
        }
        crate::text::lemma_before_char_prefix(b1, '?', a.len() as int);
        assert(b1.subrange(0, a.len() as int) =~= a);
        let tail2 = b1.subrange(a.len() as int, b1.len() as int);
        assert(tail2 =~= seq!['?'] + q3);
        assert(tail2[0] == '?');
        assert(before_char(tail2, '?') =~= Seq::<char>::empty());
        assert(before_char(b1, '?') =~= a);
    }
    assert(last_path_segment(t) == id);
}

/// The room pages of Bilibili, Huya and Douyu are room-page prefixes, so
/// their addresses with a query or a fragment give the room number back.
pub proof fn lemma_platform_pages_ignore_query(id: Seq<char>, rest: Seq<char>)
    requires
        is_number(id),
    ensures
        room_number_of(bilibili_room_prefix() + id + seq!['?'] + rest) == Some(id),
        room_number_of(bilibili_room_prefix() + id + seq!['#'] + rest) == Some(id),
        room_number_of(huya_room_prefix() + id + seq!['?'] + rest) == Some(id),
        room_number_of(huya_room_prefix() + id + seq!['#'] + rest) == Some(id),
        room_number_of(douyu_room_prefix() + id + seq!['?'] + rest) == Some(id),
        room_number_of(douyu_room_prefix() + id + seq!['#'] + rest) == Some(id),
{
    reveal_strlit("https://live.bilibili.com/");
    reveal_strlit("https://www.huya.com/");
    reveal_strlit("https://www.douyu.com/");
    lemma_room_number_ignores_query(bilibili_room_prefix(), id, rest);
    lemma_room_number_ignores_query(huya_room_prefix(), id, rest);
    lemma_room_number_ignores_query(douyu_room_prefix(), id, rest);
}

/// The room number read back from a Bilibili room page is the number the
/// page was built from.
pub proof fn lemma_bilibili_url_roundtrip(id: Seq<char>)
    requires
        is_number(id),
    ensures
        room_number_of(bilibili_room_prefix() + trim(id)) == Some(id),
{
    reveal_strlit("https://live.bilibili.com/");
    lemma_page_number(bilibili_room_prefix(), id);
}

/// The room number read back from a Huya room page is the number the page
/// was built from.
pub proof fn lemma_huya_url_roundtrip(id: Seq<char>)
    requires
        is_number(id),
    ensures
        room_number_of(huya_room_prefix() + trim(id)) == Some(id),
{
    reveal_strlit("https://www.huya.com/");
    lemma_page_number(huya_room_prefix(), id);
}

/// The room number read back from a Douyin room page is the number the
/// page was built from.
pub proof fn lemma_douyin_url_roundtrip(id: Seq<char>)
    requires
        is_number(id),
    ensures
        douyin_room_number_of(douyin_room_prefix() + trim(id)) == Some(id),
{
    reveal_strlit("https://live.douyin.com/");
    lemma_douyin_page_number(douyin_room_prefix(), id);
}

} // verus!
