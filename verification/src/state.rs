//! What the library reports about a room, and the common shape of that
//! report across platforms.
use vstd::prelude::*;

verus! {

/// A room as resolved from a platform: who streams, whether the room is
/// live, and (when extracted for playback) the stream addresses.
pub struct ExtractResult {
    pub platform: String,
    pub room_id: String,
    pub streamer_name: String,
    pub room_name: String,
    pub avatar_url: String,
    pub is_online: bool,
    pub screenshot_url: String,
    pub heat_text: String,
    pub page_url: String,
    pub title: String,
    pub urls: Vec<String>,
}

/// The texts of a report, for contracts.
pub struct RoomView {
    pub platform: Seq<char>,
    pub room_id: Seq<char>,
    pub streamer_name: Seq<char>,
    pub room_name: Seq<char>,
    pub avatar_url: Seq<char>,
    pub is_online: bool,
    pub screenshot_url: Seq<char>,
    pub heat_text: Seq<char>,
    pub page_url: Seq<char>,
    pub title: Seq<char>,
    pub urls: Seq<Seq<char>>,
}

impl ExtractResult {
    pub open spec fn view_of(&self) -> RoomView {
        RoomView {
            platform: self.platform@,
            room_id: self.room_id@,
            streamer_name: self.streamer_name@,
            room_name: self.room_name@,
            avatar_url: self.avatar_url@,
            is_online: self.is_online,
            screenshot_url: self.screenshot_url@,
            heat_text: self.heat_text@,
            page_url: self.page_url@,
            title: self.title@,
            urls: self.urls@.map_values(|s: String| s@),
        }
    }
}

/// A live room shows its picture and heat; an offline one shows neither.
pub open spec fn when_online(online: bool, s: Seq<char>) -> Seq<char> {
    if online {
        s
    } else {
        Seq::empty()
    }
}

pub fn text_when_online(online: bool, s: String) -> (r: String)
    ensures
        r@ == when_online(online, s@),
{
    if online {
        s
    } else {
        String::new()
    }
}

} // verus!
