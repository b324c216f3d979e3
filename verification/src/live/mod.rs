//! Live-room lookups' data model and the streaming session core.
use vstd::prelude::*;

pub mod fanout;
pub mod json;
pub mod session;
pub mod supervisor;
pub mod ws;

verus! {

/// Identity of a living room, as the room-init lookup returns it.
#[derive(Copy, Clone, Debug)]
pub struct RoomInit {
    pub room_id: u64,
    pub short_id: u64,
    pub uid: u64,
    pub need_p2p: u64,
    pub is_hidden: bool,
    pub is_locked: bool,
    pub is_portrait: bool,
    pub live_status: u64,
    pub hidden_till: u64,
    pub lock_till: u64,
    pub encrypted: bool,
    pub pwd_verified: bool,
    pub live_time: i64,
    pub room_shield: u64,
    pub is_sp: u64,
    pub special_type: u64,
}

/// Directory of danmaku servers for a room: the access token and the ordered
/// candidate hosts that failover walks modulo their number.
#[derive(Clone, Debug)]
pub struct DanmakuInfo {
    pub group: String,
    pub business_id: u32,
    pub refresh_rate: u32,
    pub max_delay: u32,
    pub token: String,
    pub host_list: Vec<DanmakuHost>,
}

/// One candidate danmaku server.
#[derive(Clone, Debug)]
pub struct DanmakuHost {
    pub host: String,
    pub port: u16,
    pub wss_port: u16,
    pub ws_port: u16,
}

/// Playback URL information for a room.
#[derive(Clone, Debug)]
pub struct PlayUrlInfos {
    pub current_quality: u16,
    pub accept_quality: Vec<String>,
    pub current_qn: u32,
    pub quality_description: Vec<QualityDescription>,
    pub durl: Vec<PlayUrl>,
}

/// One selectable playback quality.
#[derive(Clone, Debug)]
pub struct QualityDescription {
    pub qn: u32,
    pub desc: String,
}

/// One playback URL.
#[derive(Clone, Debug)]
pub struct PlayUrl {
    pub url: String,
    pub length: u16,
    pub order: u16,
    pub stream_type: u16,
    pub p2p_type: u16,
}

} // verus!
