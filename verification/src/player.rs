//! The embedded player's text logic: load options, what is kept of mpv's
//! log, the end-of-file error report, the command names, and the host used
//! where no embedded player is supported.
use vstd::prelude::*;
use crate::text::{
    trim, lower, contains, starts_with, decimal, decimal_int, chars_of, trim_str, lower_chars,
    contains_str, starts_with_str, eq_str, push_decimal, push_decimal_i64, extend_str,
    extend_chars,
};
use crate::outside::string_from_chars;
use crate::state::ExtractResult;

verus! {

/// The options given with every `loadfile`.
pub open spec fn loadfile_options() -> Seq<char> {
    "ytdl=no,stream-lavf-o=reconnect_streamed=yes"@
}

pub fn build_loadfile_option_string() -> (r: String)
    ensures
        r@ == loadfile_options(),
{
    let mut v = chars_of("ytdl=no");
    extend_str(&mut v, ",");
    extend_str(&mut v, "stream-lavf-o=reconnect_streamed=yes");
    proof {
        reveal_strlit("ytdl=no");
        reveal_strlit(",");
        reveal_strlit("stream-lavf-o=reconnect_streamed=yes");
        reveal_strlit("ytdl=no,stream-lavf-o=reconnect_streamed=yes");
        assert(v@ =~= loadfile_options());
    }
    string_from_chars(v.as_slice())
}

/// What was last given to the player, kept for error reports.
pub struct LastLoadDebug {
    pub platform: String,
    pub first_url: String,
    pub option_string: String,
    pub url_count: usize,
}

pub fn build_last_load_debug(data: &ExtractResult) -> (r: LastLoadDebug)
    ensures
        r.platform@ == data.platform@,
        r.first_url@ == (if data.urls@.len() > 0 {
            data.urls@[0]@
        } else {
            Seq::empty()
        }),
        r.option_string@ == loadfile_options(),
        r.url_count == data.urls@.len(),
{
    LastLoadDebug {
        platform: data.platform.clone(),
        first_url: if data.urls.len() > 0 {
            data.urls[0].clone()
        } else {
            String::new()
        },
        option_string: build_loadfile_option_string(),
        url_count: data.urls.len(),
    }
}

/// A log line of mpv that needs no action: from the video decoder, or about
/// a missing picture or a backward seek in a linear stream (case ignored).
pub open spec fn non_actionable(prefix: Seq<char>, text: Seq<char>) -> bool {
    starts_with(lower(trim(prefix)), "ffmpeg/video"@) || contains(
        lower(trim(text)),
        "missing picture in access unit"@,
    ) || contains(lower(trim(text)), "cannot seek backward in linear streams"@)
}

pub fn is_non_actionable_mpv_log(prefix: &str, level: &str, text: &str) -> (r: bool)
    ensures
        r == non_actionable(prefix@, text@),
{
    let p = lower_chars(trim_str(prefix).as_slice());
    let t = lower_chars(trim_str(text).as_slice());
    starts_with_str(p.as_slice(), "ffmpeg/video") || contains_str(
        t.as_slice(),
        "missing picture in access unit",
    ) || contains_str(t.as_slice(), "cannot seek backward in linear streams")
}

/// The text of an mpv log message while playback is shown: `[prefix/level]
/// text` with the text trimmed, the level `error` and the prefix `mpv` when
/// missing; none while hidden, without text, or when it needs no action.
pub open spec fn log_line(
    visible: bool,
    level: Option<Seq<char>>,
    prefix: Option<Seq<char>>,
    text: Option<Seq<char>>,
) -> Option<Seq<char>> {
    let lv = match level {
        Some(l) => l,
        None => "error"@,
    };
    let px = match prefix {
        Some(p) => p,
        None => "mpv"@,
    };
    if !visible || text is None {
        None
    } else {
        let t = trim(text.unwrap());
        if t.len() == 0 || non_actionable(px, t) {
            None
        } else {
            Some("["@ + px + "/"@ + lv + "] "@ + t)
        }
    }
}

pub open spec fn opt_text(o: Option<String>) -> Option<Seq<char>> {
    match o {
        Some(s) => Some(s@),
        None => None,
    }
}

pub fn mpv_log_message_text(
    playback_visible: bool,
    level: Option<String>,
    prefix: Option<String>,
    text: Option<String>,
) -> (r: Option<String>)
    ensures
        opt_text(r) == log_line(playback_visible, opt_text(level), opt_text(prefix), opt_text(text)),
{
    if !playback_visible {
        return None;
    }
    let level = match level {
        Some(l) => l,
        None => String::from_str("error"),
    };
    let prefix = match prefix {
        Some(p) => p,
        None => String::from_str("mpv"),
    };
    let raw = match text {
        Some(t) => t,
        None => return None,
    };
    let t = trim_str(raw.as_str());
    let trimmed = string_from_chars(t.as_slice());
    if t.len() == 0 || is_non_actionable_mpv_log(prefix.as_str(), level.as_str(), trimmed.as_str()) {
        proof {
            crate::text::lemma_trim_idempotent(raw@);
        }
        return None;
    }
    proof {
        crate::text::lemma_trim_idempotent(raw@);
    }
    let mut v = chars_of("[");
    extend_str(&mut v, prefix.as_str());
    extend_str(&mut v, "/");
    extend_str(&mut v, level.as_str());
    extend_str(&mut v, "] ");
    extend_chars(&mut v, t.as_slice());
    Some(string_from_chars(v.as_slice()))
}

/// The report of a failed playback: mpv's message, the end reason and the
/// error code, then what was last loaded when it is known.
pub open spec fn end_file_report(
    message: Seq<char>,
    reason: u32,
    error: i32,
    debug: Option<(Seq<char>, nat, Seq<char>, Seq<char>)>,
) -> Seq<char> {
    let head = "mpv 播放失败："@ + message + " | end_reason="@ + decimal(reason as nat)
        + " | error_code="@ + decimal_int(error as int);
    match debug {
        None => head,
        Some((platform, count, first, options)) => head + " | platform="@ + platform
            + " | url_count="@ + decimal(count) + " | first_url="@ + first + if options.len() == 0 {
            Seq::empty()
        } else {
            " | options="@ + options
        },
    }
}

pub open spec fn debug_view(d: Option<&LastLoadDebug>) -> Option<(Seq<char>, nat, Seq<char>, Seq<char>)> {
    match d {
        Some(x) => Some((x.platform@, x.url_count as nat, x.first_url@, x.option_string@)),
        None => None,
    }
}

/// The report of a failed playback, from mpv's message for the error code.
pub fn format_end_file_error(
    error_message: &str,
    reason: u32,
    error: i32,
    load_debug: Option<&LastLoadDebug>,
) -> (r: String)
    ensures
        r@ == end_file_report(error_message@, reason, error, debug_view(load_debug)),
{
    let mut v = chars_of("mpv 播放失败：");
    extend_str(&mut v, error_message);
    extend_str(&mut v, " | end_reason=");
    push_decimal(&mut v, reason as u64);
    extend_str(&mut v, " | error_code=");
    push_decimal_i64(&mut v, error as i64);
    let ghost head = v@;
    match load_debug {
        Some(d) => {
            extend_str(&mut v, " | platform=");
            extend_str(&mut v, d.platform.as_str());
            extend_str(&mut v, " | url_count=");
            push_decimal(&mut v, d.url_count as u64);
            extend_str(&mut v, " | first_url=");
            extend_str(&mut v, d.first_url.as_str());
            let ghost mid = v@;
            if !d.option_string.as_str().is_empty() {
                extend_str(&mut v, " | options=");
                extend_str(&mut v, d.option_string.as_str());
                proof {
                    assert(v@ =~= mid + (" | options="@ + d.option_string@));
                }
            } else {
                proof {
                    assert(v@ =~= mid + Seq::<char>::empty());
                }
            }
        },
        None => {},
    }
    string_from_chars(v.as_slice())
}

/// The commands the front end sends to the player.
pub enum PlayerCommandKind {
    TogglePause,
    Stop,
    ToggleMute,
    SetVolume,
    SeekBy,
    SeekTo,
    ReloadCurrent,
    SetFullscreen,
}

/// The command of a name; an error naming an unknown one.
pub open spec fn command_of(kind: Seq<char>) -> Result<PlayerCommandKind, Seq<char>> {
    if kind == "togglePause"@ {
        Ok(PlayerCommandKind::TogglePause)
    } else if kind == "stop"@ {
        Ok(PlayerCommandKind::Stop)
    } else if kind == "toggleMute"@ {
        Ok(PlayerCommandKind::ToggleMute)
    } else if kind == "setVolume"@ {
        Ok(PlayerCommandKind::SetVolume)
    } else if kind == "seekBy"@ {
        Ok(PlayerCommandKind::SeekBy)
    } else if kind == "seekTo"@ {
        Ok(PlayerCommandKind::SeekTo)
    } else if kind == "reloadCurrent"@ {
        Ok(PlayerCommandKind::ReloadCurrent)
    } else if kind == "setFullscreen"@ {
        Ok(PlayerCommandKind::SetFullscreen)
    } else {
        Err("不支持的播放器命令："@ + kind)
    }
}

pub fn player_command_kind(kind: &str) -> (r: Result<PlayerCommandKind, String>)
    ensures
        match command_of(kind@) {
            Ok(k) => r matches Ok(c) && c == k,
            Err(e) => r matches Err(m) && m@ == e,
        },
{
    let k = chars_of(kind);
    if eq_str(k.as_slice(), "togglePause") {
        Ok(PlayerCommandKind::TogglePause)
    } else if eq_str(k.as_slice(), "stop") {
        Ok(PlayerCommandKind::Stop)
    } else if eq_str(k.as_slice(), "toggleMute") {
        Ok(PlayerCommandKind::ToggleMute)
    } else if eq_str(k.as_slice(), "setVolume") {
        Ok(PlayerCommandKind::SetVolume)
    } else if eq_str(k.as_slice(), "seekBy") {
        Ok(PlayerCommandKind::SeekBy)
    } else if eq_str(k.as_slice(), "seekTo") {
        Ok(PlayerCommandKind::SeekTo)
    } else if eq_str(k.as_slice(), "reloadCurrent") {
        Ok(PlayerCommandKind::ReloadCurrent)
    } else if eq_str(k.as_slice(), "setFullscreen") {
        Ok(PlayerCommandKind::SetFullscreen)
    } else {
        let mut v = chars_of("不支持的播放器命令：");
        extend_chars(&mut v, k.as_slice());
        Err(string_from_chars(v.as_slice()))
    }
}

/// The error of a command sent without the value it needs: a number for
/// the volume and seeks, a boolean for full screen; none for the others.
pub open spec fn missing_value_message(k: PlayerCommandKind) -> Option<Seq<char>> {
    match k {
        PlayerCommandKind::SetVolume => Some("setVolume 需要数值 value"@),
        PlayerCommandKind::SeekBy => Some("seekBy 需要数值 value"@),
        PlayerCommandKind::SeekTo => Some("seekTo 需要数值 value"@),
        PlayerCommandKind::SetFullscreen => Some("setFullscreen 需要布尔 value"@),
        _ => None,
    }
}

pub fn missing_value_error(k: &PlayerCommandKind) -> (r: Option<String>)
    ensures
        opt_text(r) == missing_value_message(*k),
{
    match k {
        PlayerCommandKind::SetVolume => Some(String::from_str("setVolume 需要数值 value")),
        PlayerCommandKind::SeekBy => Some(String::from_str("seekBy 需要数值 value")),
        PlayerCommandKind::SeekTo => Some(String::from_str("seekTo 需要数值 value")),
        PlayerCommandKind::SetFullscreen => Some(String::from_str("setFullscreen 需要布尔 value")),
        _ => None,
    }
}

// ---------------------------------------------------------------------------
// The host where no embedded player is supported
// ---------------------------------------------------------------------------
pub open spec fn msg_unsupported() -> Seq<char> {
    "当前平台暂不支持内嵌 libmpv 播放器"@
}

/// The player host of a platform without an embedded player.
pub struct UnsupportedHost;

impl UnsupportedHost {
    /// There is no such host: always the error that says so.
    pub fn new() -> (r: Result<UnsupportedHost, String>)
        ensures
            r matches Err(e) && e@ == msg_unsupported(),
    {
        Err(String::from_str("当前平台暂不支持内嵌 libmpv 播放器"))
    }

    /// The window id handed to mpv: none, so 0.
    pub fn embed_id(&self) -> (r: isize)
        ensures
            r == 0,
    {
        0
    }

    /// There is no window to place: every placement is accepted.
    pub fn set_bounds(&mut self) -> (r: Result<(), String>)
        ensures
            r is Ok,
    {
        Ok(())
    }

    /// There is no window to show or hide: always accepted.
    pub fn set_visible(&mut self, visible: bool) -> (r: Result<(), String>)
        ensures
            r is Ok,
    {
        Ok(())
    }
}

} // verus!
