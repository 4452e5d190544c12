//! Verified core of a live-stream aggregator: room addresses, platform
//! rules, stream-line selection, protobuf framing of live comments, and the
//! assembly of search and status results.
pub mod text;
pub mod outside;
pub mod proto;
pub mod platform;
pub mod room;
pub mod seqs;
pub mod state;
pub mod bilibili;
pub mod digest;
pub mod huya;
pub mod sync;
pub mod search;
pub mod douyu;
pub mod douyin;
pub mod play;
pub mod danmaku;
pub mod player;
