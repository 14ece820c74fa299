//! How device packets become back-end requests, and back-end answers and
//! events become device packets.

use vstd::prelude::*;
use crate::firmware::{name_parts, parse_firmware_name, version_part};
use crate::outside::{base64_decoded, decode_base64, i128_text, rfc3339_of, rfc3339_utc};
use crate::packets::{Firmware, TimerPacket, TimerPacketInner};
use crate::text::{decimal_text, signed_decimal_text};
use crate::unix::{
    CompetitionStatusResp, PossibleGroup, UnixError, UnixRequestData, UnixResponseData,
};
use crate::version::parse_version;

verus! {

/// A competitor as the back-end describes one.
#[derive(Debug)]
pub struct CompetitorInfo {
    pub id: String,
    pub registrant_id: Option<i64>,
    pub name: String,
    pub wca_id: Option<String>,
    pub country_iso2: Option<String>,
    pub gender: String,
    pub can_compete: bool,
    pub possible_groups: Vec<PossibleGroup>,
}

/// Whether `gs` is the fallback list of groups: 333-r1 and 222-r1 with
/// inspection, then `other` without.
pub open spec fn is_default_groups(gs: Seq<PossibleGroup>) -> bool {
    &&& gs.len() == 3
    &&& gs[0].group_id@ == "333-r1"@ && gs[0].secondary_text@ == "3x3 R1"@ && gs[0].use_inspection
    &&& gs[1].group_id@ == "222-r1"@ && gs[1].secondary_text@ == "2x2 R1"@ && gs[1].use_inspection
    &&& gs[2].group_id@ == "other"@ && gs[2].secondary_text@ == "Other room"@ && !gs[2].use_inspection
}

/// The groups offered when the back-end names none.
pub fn default_groups() -> (r: Vec<PossibleGroup>)
    ensures
        is_default_groups(r@),
{
    vec![
        PossibleGroup {
            group_id: String::from_str("333-r1"),
            secondary_text: String::from_str("3x3 R1"),
            use_inspection: true,
        },
        PossibleGroup {
            group_id: String::from_str("222-r1"),
            secondary_text: String::from_str("2x2 R1"),
            use_inspection: true,
        },
        PossibleGroup {
            group_id: String::from_str("other"),
            secondary_text: String::from_str("Other room"),
            use_inspection: false,
        },
    ]
}

/// Reads the answer to a card lookup: a `PersonInfoResp` gives the
/// competitor (with the fallback groups when it lists none); anything else is
/// the error "Operation failed!".
pub fn competitor_info_from(res: UnixResponseData) -> (r: Result<CompetitorInfo, UnixError>)
    ensures
        match res {
            UnixResponseData::PersonInfoResp {
                id,
                registrant_id,
                name,
                wca_id,
                country_iso2,
                gender,
                can_compete,
                possible_groups,
            } => r matches Ok(c) && c.id == id && c.registrant_id == registrant_id && c.name == name
                && c.wca_id == wca_id && c.country_iso2 == country_iso2 && c.gender == gender
                && c.can_compete == can_compete && match possible_groups {
                Some(g) => c.possible_groups == g,
                None => is_default_groups(c.possible_groups@),
            },
            _ => r matches Err(e) && e.message@ == "Operation failed!"@ && !e.should_reset_time,
        },
{
    match res {
        UnixResponseData::PersonInfoResp {
            id,
            registrant_id,
            name,
            wca_id,
            country_iso2,
            gender,
            can_compete,
            possible_groups,
        } => Ok(
            CompetitorInfo {
                id,
                registrant_id,
                name,
                wca_id,
                country_iso2,
                gender,
                can_compete,
                possible_groups: match possible_groups {
                    Some(g) => g,
                    None => default_groups(),
                },
            },
        ),
        _ => Err(
            UnixError { message: String::from_str("Operation failed!"), should_reset_time: false },
        ),
    }
}

/// The name a device shows for a competitor: the name, then ` (<id>)` when
/// the back-end gave a registrant id.
pub open spec fn display_text(name: Seq<char>, registrant_id: Option<i64>) -> Seq<char> {
    match registrant_id {
        Some(x) => name + " ("@ + signed_decimal_text(x as int) + ")"@,
        None => name,
    }
}

/// The reply to a card lookup.
pub fn card_info_reply(tag: Option<u64>, card_id: u64, res: Result<CompetitorInfo, UnixError>) -> (r:
    TimerPacket)
    ensures
        r.tag == tag,
        match res {
            Ok(info) => r.data matches TimerPacketInner::CardInfoResponse {
                card_id: c,
                display,
                country_iso2,
                can_compete,
                possible_groups,
            } && c == card_id && display@ == display_text(info.name@, info.registrant_id)
                && country_iso2@ == (match info.country_iso2 {
                Some(s) => s@,
                None => Seq::empty(),
            }) && can_compete == info.can_compete && possible_groups == info.possible_groups,
            Err(e) => r.data matches TimerPacketInner::ApiError { error, should_reset_time }
                && error == e.message && should_reset_time == e.should_reset_time,
        },
{
    match res {
        Ok(info) => {
            let display = match info.registrant_id {
                Some(x) => {
                    proof {
                        reveal_strlit(" (");
                        reveal_strlit(")");
                    }
                    info.name.clone().concat(" (").concat(i128_text(x as i128).as_str()).concat(")")
                },
                None => info.name.clone(),
            };
            let country_iso2 = match info.country_iso2 {
                Some(s) => s,
                None => String::new(),
            };
            TimerPacket {
                tag,
                data: TimerPacketInner::CardInfoResponse {
                    card_id,
                    display,
                    country_iso2,
                    can_compete: info.can_compete,
                    possible_groups: info.possible_groups,
                },
            }
        },
        Err(e) => TimerPacket {
            tag,
            data: TimerPacketInner::ApiError { error: e.message, should_reset_time: e.should_reset_time },
        },
    }
}

/// The attempt record for a solve. The device reports milliseconds; the
/// back-end takes centiseconds and keeps the milliseconds beside them. The
/// solve's Unix time becomes RFC 3339 text; a time beyond `i64` seconds, or
/// an instant chrono cannot hold, gives the error "Error parsing timestamp".
pub fn solve_entry_request(
    time: u64,
    penalty: i64,
    solved_at: u64,
    esp_id: u32,
    judge_id: u64,
    competitor_id: u64,
    is_delegate: bool,
    session_id: &str,
    inspection_time: i64,
    group_id: &str,
) -> (r: Result<UnixRequestData, UnixError>)
    ensures
        match (if solved_at <= i64::MAX {
            rfc3339_of(solved_at as int)
        } else {
            None
        }) {
            None => r matches Err(e) && e.message@ == "Error parsing timestamp"@ && !e.should_reset_time,
            Some(text) => r matches Ok(UnixRequestData::EnterAttempt {
                value,
                value_ms,
                penalty: p,
                solved_at: at,
                esp_id: e,
                judge_id: j,
                competitor_id: c,
                is_delegate: d,
                session_id: s,
                inspection_time: it,
                group_id: g,
            }) && value == time / 10 && value_ms == time && p == penalty && at@ == text && e == esp_id
                && j@ == decimal_text(judge_id as nat) && c@ == decimal_text(competitor_id as nat) && d
                == is_delegate && s@ == session_id@ && it == inspection_time && g@ == group_id@,
        },
{
    let parsed = if solved_at <= i64::MAX as u64 {
        rfc3339_utc(solved_at as i64)
    } else {
        None
    };
    let at = match parsed {
        Some(t) => t,
        None => {
            return Err(
                UnixError {
                    message: String::from_str("Error parsing timestamp"),
                    should_reset_time: false,
                },
            );
        },
    };
    Ok(
        UnixRequestData::EnterAttempt {
            value: time / 10,
            value_ms: time,
            penalty,
            solved_at: at,
            esp_id,
            judge_id: i128_text(judge_id as i128),
            competitor_id: i128_text(competitor_id as i128),
            is_delegate,
            session_id: String::from_str(session_id),
            inspection_time,
            group_id: String::from_str(group_id),
        },
    )
}

/// Whether a solve gets a reply at once: all but a delegate's solve that the
/// back-end accepted do.
pub open spec fn solve_gets_reply(delegate: bool, accepted: bool) -> bool {
    !(delegate && accepted)
}

/// The device packet for a delegate's decision, the time in milliseconds.
pub open spec fn delegate_packet(should_scan_cards: bool, penalty: Option<i64>, value: Option<u64>) -> TimerPacketInner {
    TimerPacketInner::DelegateResponse {
        should_scan_cards,
        solve_time: match value {
            Some(v) => Some((v * 10) as u64),
            None => None,
        },
        penalty,
    }
}

/// A delegate's solve that the back-end accepted gets no reply at once; the
/// decision that the back-end sends later reaches the device with the
/// attempt's centiseconds turned into milliseconds.
pub proof fn lemma_delegate_decision(should_scan_cards: bool, penalty: Option<i64>, value: u64)
    requires
        value * 10 <= u64::MAX,
    ensures
        !solve_gets_reply(true, true),
        delegate_packet(should_scan_cards, penalty, Some(value)) == (TimerPacketInner::DelegateResponse {
            should_scan_cards,
            solve_time: Some((value * 10) as u64),
            penalty,
        }),
{
}

/// The reply to a solve: none for a delegate's solve that went through (the
/// decision comes later as its own event), a confirmation for another, the
/// back-end's error otherwise.
pub fn solve_reply(
    tag: Option<u64>,
    delegate: bool,
    session_id: String,
    competitor_id: u64,
    res: Result<(), UnixError>,
) -> (r: Option<TimerPacket>)
    ensures
        r is Some == solve_gets_reply(delegate, res is Ok),
        match res {
            Ok(()) => if delegate {
                r is None
            } else {
                match r {
                    Some(p) => p.tag == tag && (p.data matches TimerPacketInner::SolveConfirm {
                        competitor_id: c,
                        session_id: s,
                    } && c == competitor_id && s == session_id),
                    None => false,
                }
            },
            Err(e) => match r {
                Some(p) => p.tag == tag && (p.data matches TimerPacketInner::ApiError {
                    error,
                    should_reset_time,
                } && error == e.message && should_reset_time == e.should_reset_time),
                None => false,
            },
        },
{
    match res {
        Ok(()) => if delegate {
            None
        } else {
            Some(TimerPacket { tag, data: TimerPacketInner::SolveConfirm { competitor_id, session_id } })
        },
        Err(e) => Some(
            TimerPacket {
                tag,
                data: TimerPacketInner::ApiError { error: e.message, should_reset_time: e.should_reset_time },
            },
        ),
    }
}

/// The device packet for a delegate's decision: the time goes back from
/// centiseconds to milliseconds.
pub fn delegate_response(should_scan_cards: bool, penalty: Option<i64>, value: Option<u64>) -> (r:
    TimerPacket)
    requires
        value matches Some(v) ==> v * 10 <= u64::MAX,
    ensures
        r.tag is None,
        r.data == delegate_packet(should_scan_cards, penalty, value),
{
    TimerPacket {
        tag: None,
        data: TimerPacketInner::DelegateResponse {
            should_scan_cards,
            solve_time: match value {
                Some(v) => Some(v * 10),
                None => None,
            },
            penalty,
        },
    }
}

/// What the gateway does with an event that no request awaits.
#[derive(Debug)]
pub enum EventAction {
    /// Send this packet to the session of this device.
    Forward(u32, TimerPacket),
    /// Apply this status to the shared state.
    Status(CompetitionStatusResp),
    /// Push this firmware to every session with this hardware.
    ForceUpdate(String, Firmware),
    /// Nothing to do.
    Ignore,
}

/// Routes an event from the back-end: messages, delegate decisions and test
/// commands go to their device; a status goes to the shared state; an
/// uploaded image whose Base64 decodes and whose name is well formed becomes
/// a forced update; the rest, and a decision whose time would not fit in
/// milliseconds, is ignored.
pub fn route_event(data: UnixResponseData) -> (r: EventAction)
    ensures
        match data {
            UnixResponseData::CustomMessage { esp_id, line1, line2 } => r matches EventAction::Forward(
                id,
                p,
            ) && id == esp_id && p.tag is None && p.data == (TimerPacketInner::CustomMessage {
                line1,
                line2,
            }),
            UnixResponseData::IncidentResolved { esp_id, should_scan_cards, attempt } => if attempt.value matches Some(
                v,
            ) && v * 10 > u64::MAX {
                r is Ignore
            } else {
                r matches EventAction::Forward(id, p) && id == esp_id && p.tag is None && p.data
                    == delegate_packet(should_scan_cards, attempt.penalty, attempt.value)
            },
            UnixResponseData::TestPacket { esp_id, data: d } => r matches EventAction::Forward(id, p) && id
                == esp_id && p.tag is None && p.data == TimerPacketInner::TestPacket(d),
            UnixResponseData::ServerStatus(s) => r == EventAction::Status(s),
            UnixResponseData::UploadFirmware { file_name, file_data } => match (
                base64_decoded(file_data@),
                name_parts(file_name@),
            ) {
                (Some(bytes), Some((hw, fw, _))) => r matches EventAction::ForceUpdate(h, f) && h@ == hw
                    && f.firmware@ == fw && f.data@ == bytes && f.version@ == parse_version(
                    version_part(file_name@),
                ) && f.build_time == 0,
                _ => r is Ignore,
            },
            _ => r is Ignore,
        },
{
    match data {
        UnixResponseData::CustomMessage { esp_id, line1, line2 } => EventAction::Forward(
            esp_id,
            TimerPacket { tag: None, data: TimerPacketInner::CustomMessage { line1, line2 } },
        ),
        UnixResponseData::IncidentResolved { esp_id, should_scan_cards, attempt } => {
            if let Some(v) = attempt.value {
                if v > u64::MAX / 10 {
                    return EventAction::Ignore;
                }
            }
            EventAction::Forward(
                esp_id,
                delegate_response(should_scan_cards, attempt.penalty, attempt.value),
            )
        },
        UnixResponseData::TestPacket { esp_id, data } => EventAction::Forward(
            esp_id,
            TimerPacket { tag: None, data: TimerPacketInner::TestPacket(data) },
        ),
        UnixResponseData::ServerStatus(s) => EventAction::Status(s),
        UnixResponseData::UploadFirmware { file_name, file_data } => {
            let bytes = match decode_base64(file_data.as_str()) {
                Some(b) => b,
                None => {
                    return EventAction::Ignore;
                },
            };
            match parse_firmware_name(file_name.as_str()) {
                Some(n) => EventAction::ForceUpdate(
                    n.hardware,
                    Firmware { data: bytes, version: n.version, build_time: 0, firmware: n.firmware },
                ),
                None => EventAction::Ignore,
            }
        },
        _ => EventAction::Ignore,
    }
}

} // verus!
