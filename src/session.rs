//! The decisions of a device session: admission data, heartbeat, what to do
//! with gateway broadcasts, and how an inbound device packet is handled.

use vstd::prelude::*;
use crate::outside::{i128_text, rfc3339_of};
use crate::packets::{BroadcastPacket, TimerPacket, TimerPacketInner};
use crate::state::AppState;
use crate::text::decimal_text;
use crate::translate::solve_entry_request;
use crate::unix::{UnixError, UnixRequestData};

verus! {

broadcast use vstd::std_specs::hash::group_hash_axioms;

/// Seconds between heartbeats.
pub const HEARTBEAT_SECS: u64 = 5;

/// What a device states when it connects.
#[derive(Debug)]
pub struct EspConnectInfo {
    pub id: u32,
    pub version: String,
    /// The hardware it runs on.
    pub hw: String,
    /// The kind of firmware it runs.
    pub firmware: String,
}

/// The hardware assumed when a device names none.
pub fn default_chip() -> (r: String)
    ensures
        r@ == "no-chip"@,
{
    String::from_str("no-chip")
}

/// The firmware kind assumed when a device names none.
pub fn default_firmware() -> (r: String)
    ensures
        r@ == "no-firmware"@,
{
    String::from_str("no-firmware")
}

/// Whether the device answered since the last ping.
#[derive(Debug, Clone, Copy, PartialEq, Eq, Structural)]
pub struct Heartbeat {
    pub received: bool,
}

/// What a heartbeat tick calls for.
#[derive(Debug, Clone, Copy, PartialEq, Eq, Structural)]
pub enum TickAction {
    SendPing,
    Close,
}

impl Heartbeat {
    /// A fresh session counts as answered.
    pub fn new() -> (r: Heartbeat)
        ensures
            r.received,
    {
        Heartbeat { received: true }
    }

    /// On a tick: close when the last ping went unanswered, else ping again
    /// and wait for an answer.
    pub fn on_tick(&mut self) -> (r: TickAction)
        ensures
            old(self).received ==> r == TickAction::SendPing && !final(self).received,
            !old(self).received ==> r == TickAction::Close && *final(self) == *old(self),
    {
        if !self.received {
            return TickAction::Close;
        }
        self.received = false;
        TickAction::SendPing
    }

    /// Any frame from the device counts as an answer.
    pub fn on_frame(&mut self)
        ensures
            final(self).received,
    {
        self.received = true;
    }
}

/// What a session does with a broadcast.
#[derive(Debug, Clone, Copy, PartialEq, Eq, Structural)]
pub enum SessionAction {
    /// Look for newer firmware and offer it.
    CheckFirmware,
    /// Send the packet the broadcast carries.
    Forward,
    /// Send the device its settings again.
    ResendSettings,
    /// Offer the firmware the broadcast carries.
    ForceUpdate,
    Ignore,
}

/// The session's answer to a broadcast: firmware checks only while updates
/// are on, packets only for its own device, forced updates only for its
/// hardware and firmware kind.
pub fn on_broadcast(info: &EspConnectInfo, should_update: bool, msg: &BroadcastPacket) -> (r: SessionAction)
    ensures
        r == (match msg {
            BroadcastPacket::Build => if should_update {
                SessionAction::CheckFirmware
            } else {
                SessionAction::Ignore
            },
            BroadcastPacket::Resp((id, _)) => if *id == info.id {
                SessionAction::Forward
            } else {
                SessionAction::Ignore
            },
            BroadcastPacket::UpdateDeviceSettings => SessionAction::ResendSettings,
            BroadcastPacket::ForceUpdate((hw, fw)) => if fw.firmware@ == info.firmware@ && hw@
                == info.hw@ {
                SessionAction::ForceUpdate
            } else {
                SessionAction::Ignore
            },
        }),
{
    match msg {
        BroadcastPacket::Build => if should_update {
            SessionAction::CheckFirmware
        } else {
            SessionAction::Ignore
        },
        BroadcastPacket::Resp((id, _)) => if *id == info.id {
            SessionAction::Forward
        } else {
            SessionAction::Ignore
        },
        BroadcastPacket::UpdateDeviceSettings => SessionAction::ResendSettings,
        BroadcastPacket::ForceUpdate((hw, fw)) => if fw.firmware == info.firmware && *hw == info.hw {
            SessionAction::ForceUpdate
        } else {
            SessionAction::Ignore
        },
    }
}

/// The settings packet for a device: whether the back-end knows it, the
/// locale table, default locale, token and card-security flag.
pub fn device_settings_packet(state: &AppState, esp_id: u32) -> (r: TimerPacket)
    ensures
        r.tag is None,
        r.data matches TimerPacketInner::DeviceSettings {
            added,
            locales,
            default_locale,
            fkm_token,
            secure_rfid,
        } && added == state.devices_settings@.contains_key(esp_id) && locales@.len()
            == state.locales@.len() && (forall|i: int|
            0 <= i < locales@.len() ==> (#[trigger] locales@[i]).locale == state.locales@[i].locale
                && locales@[i].translations@ == state.locales@[i].translations@) && default_locale
            == state.default_locale && fkm_token == state.fkm_token && secure_rfid == state.secure_rfid,
{
    let added = state.devices_settings.contains_key(&esp_id);
    let locales = state.locales.clone();
    proof {
        assert forall|i: int| 0 <= i < locales@.len() implies (#[trigger] locales@[i]).locale
            == state.locales@[i].locale && locales@[i].translations@
            == state.locales@[i].translations@ by {
            assert(cloned::<crate::unix::TranslationLocale>(state.locales@[i], locales@[i]));
        }
    }
    TimerPacket {
        tag: None,
        data: TimerPacketInner::DeviceSettings {
            added,
            locales,
            default_locale: state.default_locale.clone(),
            fkm_token: state.fkm_token,
            secure_rfid: state.secure_rfid,
        },
    }
}

/// The packet that tells a device the time.
pub fn epoch_time_packet(current_epoch: u64) -> (r: TimerPacket)
    ensures
        r.tag is None,
        r.data == (TimerPacketInner::EpochTime { current_epoch }),
{
    TimerPacket { tag: None, data: TimerPacketInner::EpochTime { current_epoch } }
}

/// The reply a request from a device is owed once the back-end answered.
#[derive(Debug)]
pub enum ReplyKind {
    /// Tell the device the attendance was marked.
    Attendance { tag: Option<u64> },
    /// Answer a card lookup.
    CardInfo { tag: Option<u64>, card_id: u64 },
    /// Answer a solve.
    Solve { tag: Option<u64>, delegate: bool, session_id: String, competitor_id: u64 },
    /// Send nothing back.
    Nothing,
    /// Send the request without a tag and wait for nothing.
    NoWait,
}

/// What a session does with a packet from its device.
#[derive(Debug)]
pub enum Inbound {
    /// Send this request to the back-end and await it, then reply as stated.
    Request(UnixRequestData, ReplyKind),
    /// Tell the device of this error at once.
    Fail(Option<u64>, UnixError),
    /// Write these lines to the device's log.
    Log(Vec<String>),
    Ignore,
}

/// Dispatches a packet from device `esp_id`; `known` tells whether the
/// back-end has settings for it.
pub fn on_device_packet(packet: TimerPacket, esp_id: u32, known: bool) -> (r: Inbound)
    ensures
        match packet.data {
            TimerPacketInner::CardInfoRequest { card_id, attendance_device, .. } => if attendance_device
                == Some(true) {
                r matches Inbound::Request(UnixRequestData::CreateAttendance { card_id: c, esp_id: e }, ReplyKind::Attendance { tag })
                    && c@ == decimal_text(card_id as nat) && e == esp_id && tag == packet.tag
            } else {
                r matches Inbound::Request(UnixRequestData::PersonInfo { card_id: c, esp_id: e }, ReplyKind::CardInfo { tag, card_id: id })
                    && c@ == decimal_text(card_id as nat) && e == esp_id && tag == packet.tag && id == card_id
            },
            TimerPacketInner::Solve {
                solve_time,
                penalty,
                competitor_id,
                judge_id,
                timestamp,
                session_id,
                delegate,
                inspection_time,
                group_id,
                ..
            } => match (if timestamp <= i64::MAX {
                rfc3339_of(timestamp as int)
            } else {
                None
            }) {
                None => r matches Inbound::Fail(tag, e) && tag == packet.tag && e.message@
                    == "Error parsing timestamp"@ && !e.should_reset_time,
                Some(text) => r matches Inbound::Request(
                    UnixRequestData::EnterAttempt {
                        value,
                        value_ms,
                        penalty: p,
                        solved_at,
                        esp_id: e,
                        judge_id: j,
                        competitor_id: c,
                        is_delegate,
                        session_id: s,
                        inspection_time: it,
                        group_id: g,
                    },
                    ReplyKind::Solve { tag, delegate: d, session_id: rs, competitor_id: rc },
                ) && value == solve_time / 10 && value_ms == solve_time && p == penalty && solved_at@
                    == text && e == esp_id && j@ == decimal_text(judge_id as nat) && c@ == decimal_text(
                    competitor_id as nat,
                ) && is_delegate == delegate && s@ == session_id@ && it == inspection_time && g@
                    == group_id@ && tag == packet.tag && d == delegate && rs == session_id && rc
                    == competitor_id,
            },
            TimerPacketInner::Logs { logs } => r == Inbound::Log(logs),
            TimerPacketInner::Battery { level } => match level {
                Some(p) => if known {
                    r matches Inbound::Request(
                        UnixRequestData::UpdateBatteryPercentage { esp_id: e, battery_percentage: b },
                        ReplyKind::Nothing,
                    ) && e == esp_id && b == p
                } else {
                    r is Ignore
                },
                None => r is Ignore,
            },
            TimerPacketInner::Add { firmware, .. } => if !known {
                r matches Inbound::Request(UnixRequestData::RequestToConnectDevice { esp_id: e, device_type }, ReplyKind::Nothing)
                    && e == esp_id && device_type == firmware
            } else {
                r is Ignore
            },
            TimerPacketInner::TestAck(snapshot) => if known {
                r == Inbound::Request(UnixRequestData::TestAck { esp_id, snapshot }, ReplyKind::NoWait)
            } else {
                r is Ignore
            },
            _ => r is Ignore,
        },
{
    let tag = packet.tag;
    match packet.data {
        TimerPacketInner::CardInfoRequest { card_id, attendance_device, .. } => {
            let text = i128_text(card_id as i128);
            if matches!(attendance_device, Some(true)) {
                Inbound::Request(
                    UnixRequestData::CreateAttendance { card_id: text, esp_id },
                    ReplyKind::Attendance { tag },
                )
            } else {
                Inbound::Request(
                    UnixRequestData::PersonInfo { card_id: text, esp_id },
                    ReplyKind::CardInfo { tag, card_id },
                )
            }
        },
        TimerPacketInner::Solve {
            solve_time,
            penalty,
            competitor_id,
            judge_id,
            timestamp,
            session_id,
            delegate,
            inspection_time,
            group_id,
            ..
        } => {
            match solve_entry_request(
                solve_time,
                penalty,
                timestamp,
                esp_id,
                judge_id,
                competitor_id,
                delegate,
                session_id.as_str(),
                inspection_time,
                group_id.as_str(),
            ) {
                Ok(req) => Inbound::Request(
                    req,
                    ReplyKind::Solve { tag, delegate, session_id, competitor_id },
                ),
                Err(e) => Inbound::Fail(tag, e),
            }
        },
        TimerPacketInner::Logs { logs } => Inbound::Log(logs),
        TimerPacketInner::Battery { level } => match level {
            Some(p) => if known {
                Inbound::Request(
                    UnixRequestData::UpdateBatteryPercentage { esp_id, battery_percentage: p },
                    ReplyKind::Nothing,
                )
            } else {
                Inbound::Ignore
            },
            None => Inbound::Ignore,
        },
        TimerPacketInner::Add { firmware, .. } => if !known {
            Inbound::Request(
                UnixRequestData::RequestToConnectDevice { esp_id, device_type: firmware },
                ReplyKind::Nothing,
            )
        } else {
            Inbound::Ignore
        },
        TimerPacketInner::TestAck(snapshot) => if known {
            Inbound::Request(UnixRequestData::TestAck { esp_id, snapshot }, ReplyKind::NoWait)
        } else {
            Inbound::Ignore
        },
        _ => Inbound::Ignore,
    }
}

} // verus!
