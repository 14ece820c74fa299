//! Packets exchanged with devices over their WebSocket, and the messages
//! that sessions receive from the rest of the gateway.

use vstd::prelude::*;
use crate::unix::{PossibleGroup, SnapshotData, TestPacketData, TranslationLocale};
use crate::version::Version;

verus! {

/// A packet to or from a device; a reply carries the request's tag.
#[derive(Debug, Clone)]
pub struct TimerPacket {
    pub tag: Option<u64>,
    pub data: TimerPacketInner,
}

#[derive(Debug, Clone)]
pub enum TimerPacketInner {
    StartUpdate { version: String, build_time: u64, size: u32, crc: u32, firmware: String },
    Solve {
        solve_time: u64,
        penalty: i64,
        competitor_id: u64,
        judge_id: u64,
        timestamp: u64,
        session_id: String,
        delegate: bool,
        inspection_time: i64,
        group_id: String,
        sign_key: u32,
    },
    SolveConfirm { competitor_id: u64, session_id: String },
    DelegateResponse { should_scan_cards: bool, solve_time: Option<u64>, penalty: Option<i64> },
    ApiError { error: String, should_reset_time: bool },
    CustomMessage { line1: String, line2: String },
    CardInfoRequest { card_id: u64, attendance_device: Option<bool>, sign_key: u32 },
    CardInfoResponse {
        card_id: u64,
        display: String,
        country_iso2: String,
        can_compete: bool,
        possible_groups: Vec<PossibleGroup>,
    },
    AttendanceMarked,
    DeviceSettings {
        added: bool,
        locales: Vec<TranslationLocale>,
        default_locale: String,
        fkm_token: i32,
        secure_rfid: bool,
    },
    Logs { logs: Vec<String> },
    /// The battery level in whole percent, as the device's reading rounds.
    Battery { level: Option<u8> },
    Add { firmware: String, sign_key: u32 },
    EpochTime { current_epoch: u64 },
    TestPacket(TestPacketData),
    TestAck(SnapshotData),
}

/// A firmware image ready to be sent.
#[derive(Debug, Clone)]
pub struct Firmware {
    pub data: Vec<u8>,
    pub version: Version,
    pub build_time: u64,
    pub firmware: String,
}

/// A message that every session receives.
#[derive(Debug)]
pub enum BroadcastPacket {
    /// Newer firmware may be available.
    Build,
    /// A packet for the device with this id.
    Resp((u32, TimerPacket)),
    /// Sessions re-send their device's settings.
    UpdateDeviceSettings,
    /// Sessions whose device has this hardware and firmware kind update to it.
    ForceUpdate((String, Firmware)),
}

} // verus!
