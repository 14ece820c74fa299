use fkm_connector::firmware::{
    chunk_bounds, chunks_in, parse_firmware_name, select_firmware, start_update_packet, OtaEvent,
    OtaStep, OtaTransfer,
};
use fkm_connector::mux::{frame_record, resolve_response, send_failed, take_record, PendingTags};
use fkm_connector::packets::{BroadcastPacket, Firmware, TimerPacket, TimerPacketInner};
use fkm_connector::session::{
    default_chip, default_firmware, device_settings_packet, epoch_time_packet, on_broadcast,
    on_device_packet, EspConnectInfo, Heartbeat, Inbound, ReplyKind, SessionAction, TickAction,
};
use fkm_connector::state::{AppState, DeviceSettings};
use fkm_connector::translate::{
    card_info_reply, competitor_info_from, default_groups, delegate_response, route_event,
    solve_entry_request, solve_reply, EventAction,
};
use fkm_connector::unix::{
    CompetitionStatusDevice, CompetitionStatusResp, IncidentAttempt, TranslationLocale,
    TranslationRecord, UnixError, UnixRequestData, UnixResponseData,
};
use fkm_connector::version::Version;

fn status(devices: Vec<CompetitionStatusDevice>, translation: &str) -> CompetitionStatusResp {
    CompetitionStatusResp {
        should_update: true,
        devices,
        translations: vec![TranslationLocale {
            locale: "pl".to_string(),
            translations: vec![TranslationRecord {
                key: "city".to_string(),
                translation: translation.to_string(),
            }],
        }],
        default_locale: "pl".to_string(),
        fkm_token: 99,
    }
}

#[test]
fn server_status_sets_device_settings() {
    let mut state = AppState::new();
    let changed = state.apply_server_status(status(
        vec![
            CompetitionStatusDevice { esp_id: 1, sign_key: Some(5) },
            CompetitionStatusDevice { esp_id: 2, sign_key: None },
        ],
        "Łódź",
    ));
    assert!(changed);
    assert_eq!(state.devices_settings.len(), 2);
    assert_eq!(state.devices_settings.get(&1), Some(&DeviceSettings { sign_key: Some(5) }));
    assert_eq!(state.devices_settings.get(&2), Some(&DeviceSettings { sign_key: None }));
    assert_eq!(state.locales[0].translations[0].translation, "Lodz");
    assert_eq!(state.fkm_token, 99);
    assert!(state.should_update);
    // the same status again changes nothing
    let changed = state.apply_server_status(status(
        vec![
            CompetitionStatusDevice { esp_id: 1, sign_key: Some(5) },
            CompetitionStatusDevice { esp_id: 2, sign_key: None },
        ],
        "Łódź",
    ));
    assert!(!changed);
    // a device left out is removed
    let changed = state.apply_server_status(status(
        vec![CompetitionStatusDevice { esp_id: 2, sign_key: None }],
        "Łódź",
    ));
    assert!(changed);
    assert_eq!(state.devices_settings.len(), 1);
    assert!(!state.devices_settings.contains_key(&1));
    // a key rotation is a change
    let changed = state.apply_server_status(status(
        vec![CompetitionStatusDevice { esp_id: 2, sign_key: Some(1) }],
        "Łódź",
    ));
    assert!(changed);
}

#[test]
fn settings_packet_reflects_state() {
    let mut state = AppState::new();
    state.apply_server_status(status(vec![CompetitionStatusDevice { esp_id: 4, sign_key: None }], "x"));
    let p = device_settings_packet(&state, 4);
    match p.data {
        TimerPacketInner::DeviceSettings { added, locales, default_locale, fkm_token, secure_rfid } => {
            assert!(added);
            assert_eq!(locales.len(), 1);
            assert_eq!(default_locale, "pl");
            assert_eq!(fkm_token, 99);
            assert!(!secure_rfid);
        }
        other => panic!("unexpected {other:?}"),
    }
    assert!(matches!(
        device_settings_packet(&state, 5).data,
        TimerPacketInner::DeviceSettings { added: false, .. }
    ));
    assert!(matches!(
        epoch_time_packet(1717000000).data,
        TimerPacketInner::EpochTime { current_epoch: 1717000000 }
    ));
}

#[test]
fn card_lookup_success() {
    let (req, reply) = match on_device_packet(
        TimerPacket {
            tag: Some(12),
            data: TimerPacketInner::CardInfoRequest { card_id: 3004425529, attendance_device: None, sign_key: 0 },
        },
        77,
        true,
    ) {
        Inbound::Request(req, reply) => (req, reply),
        other => panic!("unexpected {other:?}"),
    };
    assert!(matches!(&req, UnixRequestData::PersonInfo { card_id, esp_id: 77 } if card_id == "3004425529"));
    assert!(matches!(reply, ReplyKind::CardInfo { tag: Some(12), card_id: 3004425529 }));
    let info = competitor_info_from(UnixResponseData::PersonInfoResp {
        id: "3004425529".to_string(),
        registrant_id: Some(42),
        name: "Filip Sciurka".to_string(),
        wca_id: None,
        country_iso2: Some("PL".to_string()),
        gender: "m".to_string(),
        can_compete: true,
        possible_groups: None,
    });
    let p = card_info_reply(Some(12), 3004425529, info);
    assert_eq!(p.tag, Some(12));
    match p.data {
        TimerPacketInner::CardInfoResponse { card_id, display, country_iso2, can_compete, possible_groups } => {
            assert_eq!(card_id, 3004425529);
            assert_eq!(display, "Filip Sciurka (42)");
            assert_eq!(country_iso2, "PL");
            assert!(can_compete);
            let ids: Vec<&str> = possible_groups.iter().map(|g| g.group_id.as_str()).collect();
            assert_eq!(ids, vec!["333-r1", "222-r1", "other"]);
        }
        other => panic!("unexpected {other:?}"),
    }
}

#[test]
fn card_lookup_errors_and_attendance() {
    let p = card_info_reply(
        None,
        1,
        Err(UnixError { message: "nope".to_string(), should_reset_time: true }),
    );
    assert!(matches!(p.data, TimerPacketInner::ApiError { ref error, should_reset_time: true } if error == "nope"));
    let e = competitor_info_from(UnixResponseData::Empty).unwrap_err();
    assert_eq!(e.message, "Operation failed!");
    let p = card_info_reply(None, 1, competitor_info_from(UnixResponseData::PersonInfoResp {
        id: "1".to_string(),
        registrant_id: None,
        name: "Anna".to_string(),
        wca_id: None,
        country_iso2: None,
        gender: "f".to_string(),
        can_compete: false,
        possible_groups: Some(Vec::new()),
    }));
    assert!(matches!(p.data, TimerPacketInner::CardInfoResponse { ref display, ref country_iso2, ref possible_groups, .. } if display == "Anna" && country_iso2.is_empty() && possible_groups.is_empty()));
    let a = on_device_packet(
        TimerPacket {
            tag: None,
            data: TimerPacketInner::CardInfoRequest { card_id: 5, attendance_device: Some(true), sign_key: 0 },
        },
        3,
        false,
    );
    assert!(matches!(a, Inbound::Request(UnixRequestData::CreateAttendance { ref card_id, esp_id: 3 }, ReplyKind::Attendance { tag: None }) if card_id == "5"));
    assert_eq!(default_groups().len(), 3);
}

#[test]
fn solve_with_delegate() {
    let inbound = on_device_packet(
        TimerPacket {
            tag: Some(2),
            data: TimerPacketInner::Solve {
                solve_time: 12340,
                penalty: 0,
                competitor_id: 15,
                judge_id: 16,
                timestamp: 1717000000,
                session_id: "abc".to_string(),
                delegate: true,
                inspection_time: 3000,
                group_id: "333-r1".to_string(),
                sign_key: 0,
            },
        },
        21,
        true,
    );
    match inbound {
        Inbound::Request(
            UnixRequestData::EnterAttempt { value, value_ms, penalty, solved_at, esp_id, judge_id, competitor_id, is_delegate, session_id, inspection_time, group_id },
            ReplyKind::Solve { delegate, .. },
        ) => {
            assert_eq!((value, value_ms, penalty, esp_id, is_delegate, inspection_time), (1234, 12340, 0, 21, true, 3000));
            assert_eq!(solved_at, "2024-05-29T16:26:40Z");
            assert_eq!((judge_id.as_str(), competitor_id.as_str()), ("16", "15"));
            assert_eq!((session_id.as_str(), group_id.as_str()), ("abc", "333-r1"));
            assert!(delegate);
        }
        other => panic!("unexpected {other:?}"),
    }
    assert!(solve_reply(Some(2), true, "abc".to_string(), 15, Ok(())).is_none());
    let later = route_event(UnixResponseData::IncidentResolved {
        esp_id: 21,
        should_scan_cards: true,
        attempt: IncidentAttempt { session_id: String::new(), penalty: Some(2), value: Some(49) },
    });
    match later {
        EventAction::Forward(21, p) => assert!(matches!(
            p.data,
            TimerPacketInner::DelegateResponse { should_scan_cards: true, solve_time: Some(490), penalty: Some(2) }
        )),
        other => panic!("unexpected {other:?}"),
    }
}

#[test]
fn solve_replies() {
    let p = solve_reply(Some(4), false, "s1".to_string(), 9, Ok(())).unwrap();
    assert!(matches!(p.data, TimerPacketInner::SolveConfirm { competitor_id: 9, ref session_id } if session_id == "s1"));
    let p = solve_reply(Some(4), true, "s1".to_string(), 9, Err(UnixError { message: "late".to_string(), should_reset_time: false })).unwrap();
    assert!(matches!(p.data, TimerPacketInner::ApiError { ref error, .. } if error == "late"));
    let r = solve_entry_request(1, 0, 0, 1, 2, 3, false, "", 0, "g").unwrap();
    assert!(matches!(r, UnixRequestData::EnterAttempt { value: 0, ref solved_at, .. } if solved_at == "1970-01-01T00:00:00Z"));
    let p = delegate_response(false, None, None);
    assert!(matches!(p.data, TimerPacketInner::DelegateResponse { solve_time: None, .. }));
}

#[test]
fn events_are_routed() {
    assert!(matches!(
        route_event(UnixResponseData::CustomMessage { esp_id: 3, line1: "a".to_string(), line2: "b".to_string() }),
        EventAction::Forward(3, TimerPacket { data: TimerPacketInner::CustomMessage { .. }, .. })
    ));
    assert!(matches!(
        route_event(UnixResponseData::TestPacket { esp_id: 3, data: fkm_connector::unix::TestPacketData::ResetState }),
        EventAction::Forward(3, _)
    ));
    assert!(matches!(route_event(UnixResponseData::Empty), EventAction::Ignore));
    assert!(matches!(
        route_event(UnixResponseData::IncidentResolved {
            esp_id: 1,
            should_scan_cards: false,
            attempt: IncidentAttempt { session_id: String::new(), penalty: None, value: Some(u64::MAX) },
        }),
        EventAction::Ignore
    ));
    assert!(matches!(
        route_event(UnixResponseData::ServerStatus(CompetitionStatusResp::default_status())),
        EventAction::Status(_)
    ));
}

#[test]
fn force_update_from_upload() {
    let action = route_event(UnixResponseData::UploadFirmware {
        file_name: "esp32_station_D1717000000.bin".to_string(),
        file_data: "ZmlybXdhcmUtYnl0ZXM=".to_string(),
    });
    let (hw, fw) = match action {
        EventAction::ForceUpdate(hw, fw) => (hw, fw),
        other => panic!("unexpected {other:?}"),
    };
    assert_eq!(hw, "esp32");
    assert_eq!(fw.firmware, "station");
    assert_eq!(fw.data, b"firmware-bytes".to_vec());
    assert!(matches!(fw.version, Version::Dev(1717000000)));
    let msg = BroadcastPacket::ForceUpdate((hw, fw));
    let device = EspConnectInfo { id: 1, version: "v2.0.0".to_string(), hw: "esp32".to_string(), firmware: "station".to_string() };
    assert_eq!(on_broadcast(&device, false, &msg), SessionAction::ForceUpdate);
    let other = EspConnectInfo { id: 2, version: "v2.0.0".to_string(), hw: "esp8266".to_string(), firmware: "station".to_string() };
    assert_eq!(on_broadcast(&other, false, &msg), SessionAction::Ignore);
    assert!(matches!(
        route_event(UnixResponseData::UploadFirmware { file_name: "x.bin".to_string(), file_data: "ZmlybXdhcmUtYnl0ZXM=".to_string() }),
        EventAction::Ignore
    ));
    assert!(matches!(
        route_event(UnixResponseData::UploadFirmware { file_name: "a_b_v1.bin".to_string(), file_data: "%%%".to_string() }),
        EventAction::Ignore
    ));
}

#[test]
fn broadcasts_reach_the_right_sessions() {
    let device = EspConnectInfo { id: 1, version: "v2.0.0".to_string(), hw: default_chip(), firmware: default_firmware() };
    assert_eq!(device.hw, "no-chip");
    assert_eq!(device.firmware, "no-firmware");
    assert_eq!(on_broadcast(&device, true, &BroadcastPacket::Build), SessionAction::CheckFirmware);
    assert_eq!(on_broadcast(&device, false, &BroadcastPacket::Build), SessionAction::Ignore);
    assert_eq!(on_broadcast(&device, false, &BroadcastPacket::UpdateDeviceSettings), SessionAction::ResendSettings);
    let resp = |id| BroadcastPacket::Resp((id, epoch_time_packet(1)));
    assert_eq!(on_broadcast(&device, false, &resp(1)), SessionAction::Forward);
    assert_eq!(on_broadcast(&device, false, &resp(2)), SessionAction::Ignore);
}

#[test]
fn heartbeat_failure_closes() {
    let mut hb = Heartbeat::new();
    assert_eq!(hb.on_tick(), TickAction::SendPing);
    assert_eq!(hb.on_tick(), TickAction::Close);
    let mut hb = Heartbeat::new();
    assert_eq!(hb.on_tick(), TickAction::SendPing);
    hb.on_frame();
    assert_eq!(hb.on_tick(), TickAction::SendPing);
}

#[test]
fn battery_add_and_ack_need_the_right_roster() {
    let bat = |known| on_device_packet(TimerPacket { tag: None, data: TimerPacketInner::Battery { level: Some(80) } }, 6, known);
    assert!(matches!(bat(true), Inbound::Request(UnixRequestData::UpdateBatteryPercentage { esp_id: 6, battery_percentage: 80 }, ReplyKind::Nothing)));
    assert!(matches!(bat(false), Inbound::Ignore));
    let add = |known| on_device_packet(TimerPacket { tag: None, data: TimerPacketInner::Add { firmware: "station".to_string(), sign_key: 0 } }, 6, known);
    assert!(matches!(add(false), Inbound::Request(UnixRequestData::RequestToConnectDevice { esp_id: 6, ref device_type }, _) if device_type == "station"));
    assert!(matches!(add(true), Inbound::Ignore));
    let logs = on_device_packet(TimerPacket { tag: None, data: TimerPacketInner::Logs { logs: vec!["a".to_string()] } }, 6, true);
    assert!(matches!(logs, Inbound::Log(ref l) if l.len() == 1));
}

#[test]
fn firmware_selection() {
    let names: Vec<String> = [
        "esp32_station_v2.1.0.bin",
        "esp32_station_v1.9.0.bin",
        "esp32_timer_v3.0.0.bin",
        "esp32_station_D99.bin",
        "readme.txt",
        "esp32_station_v2.0.5.bin",
    ]
    .iter()
    .map(|s| s.to_string())
    .collect();
    let cur = Version::from_str("v2.0.0");
    assert_eq!(select_firmware(&cur, "esp32", "station", false, &names), Some(0));
    let cur = Version::from_str("v2.1.0");
    assert_eq!(select_firmware(&cur, "esp32", "station", false, &names), None);
    let cur = Version::from_str("D50");
    assert_eq!(select_firmware(&cur, "esp32", "station", true, &names), Some(3));
    let n = parse_firmware_name("esp32_station_v2.1.0.bin").unwrap();
    assert_eq!((n.hardware.as_str(), n.firmware.as_str()), ("esp32", "station"));
    assert!(matches!(n.version, Version::Stable(ref s) if s == "2.1.0"));
    assert!(parse_firmware_name("esp32_station.bin").is_none());
    assert!(parse_firmware_name("esp32_station_v1").is_none());
}

#[test]
fn ota_happy_path() {
    let fw = Firmware {
        data: b"123456789".to_vec(),
        version: Version::from_str("v2.1.0"),
        build_time: 5,
        firmware: "station".to_string(),
    };
    match start_update_packet(&fw).data {
        TimerPacketInner::StartUpdate { version, build_time, size, crc, firmware } => {
            assert_eq!(version, "2.1.0");
            assert_eq!((build_time, size, crc), (5, 9, 0xcbf43926));
            assert_eq!(firmware, "station");
        }
        other => panic!("unexpected {other:?}"),
    }
    let size = 10000;
    let mut t = OtaTransfer::start(size);
    assert_eq!(t.on_event(OtaEvent::Frame), OtaStep::Send { start: 0, end: 4096, then_drain: false });
    assert_eq!(t.on_event(OtaEvent::Frame), OtaStep::Send { start: 4096, end: 8192, then_drain: false });
    assert_eq!(t.on_event(OtaEvent::Frame), OtaStep::Send { start: 8192, end: 10000, then_drain: true });
    assert_eq!(t.on_event(OtaEvent::Drained), OtaStep::Finished { updated: true });
    assert_eq!(chunks_in(size), 3);
    assert_eq!(chunks_in(4096), 1);
    assert_eq!(chunks_in(4097), 2);
    assert_eq!(chunks_in(0), 0);
    assert_eq!(chunk_bounds(4097, 1), (4096, 4097));
}

#[test]
fn ota_close_and_timeout() {
    let mut t = OtaTransfer::start(5000);
    assert_eq!(t.on_event(OtaEvent::Frame), OtaStep::Send { start: 0, end: 4096, then_drain: false });
    assert_eq!(t.on_event(OtaEvent::Close), OtaStep::Finished { updated: false });
    let mut t = OtaTransfer::start(5000);
    assert_eq!(t.on_event(OtaEvent::Timeout), OtaStep::Failed);
    let mut t = OtaTransfer::start(0);
    assert_eq!(t.on_event(OtaEvent::Frame), OtaStep::Finished { updated: true });
}

#[test]
fn tags_settle_once() {
    let mut tags = PendingTags::new();
    assert!(tags.register(17));
    assert!(!tags.register(17));
    assert!(tags.settle(17));
    assert!(!tags.settle(17));
    assert!(!tags.settle(18));
}

#[test]
fn responses_resolve() {
    assert!(matches!(resolve_response(None), Ok(UnixResponseData::Empty)));
    let e = resolve_response(Some(UnixResponseData::Error { message: "bad".to_string(), should_reset_time: true })).unwrap_err();
    assert_eq!(e.message, "bad");
    assert!(e.should_reset_time);
    assert!(matches!(resolve_response(Some(UnixResponseData::Success { message: "ok".to_string() })), Ok(UnixResponseData::Success { .. })));
    assert_eq!(send_failed().message, "Send failed");
}

#[test]
fn records_are_nul_framed() {
    let framed = frame_record(&b"{\"a\":1}".to_vec());
    assert_eq!(framed, b"{\"a\":1}\0".to_vec());
    let mut buf = framed.clone();
    buf.extend_from_slice(b"{\"b\"");
    assert_eq!(take_record(&mut buf), Some(b"{\"a\":1}".to_vec()));
    assert_eq!(buf, b"{\"b\"".to_vec());
    assert_eq!(take_record(&mut buf), None);
    assert_eq!(buf, b"{\"b\"".to_vec());
    let big = vec![b'x'; 70000];
    let mut buf = frame_record(&big);
    assert_eq!(take_record(&mut buf), Some(big));
    assert!(buf.is_empty());
}

#[test]
fn test_ack_is_sent_without_waiting() {
    let snapshot = fkm_connector::unix::SnapshotData {
        scene: 1,
        inspection_time: None,
        solve_time: None,
        penalty: None,
        time_confirmed: false,
        possible_groups: 0,
        group_selected_idx: 0,
        current_competitor: None,
        current_judge: None,
    };
    let r = on_device_packet(TimerPacket { tag: None, data: TimerPacketInner::TestAck(snapshot) }, 4, true);
    assert!(matches!(r, Inbound::Request(UnixRequestData::TestAck { esp_id: 4, .. }, ReplyKind::NoWait)));
    let r = on_device_packet(TimerPacket { tag: None, data: TimerPacketInner::TestAck(snapshot) }, 4, false);
    assert!(matches!(r, Inbound::Ignore));
}

#[test]
fn far_timestamps_give_the_parse_error() {
    let e = solve_entry_request(1, 0, u64::MAX, 1, 2, 3, false, "", 0, "g").unwrap_err();
    assert_eq!(e.message, "Error parsing timestamp");
    let e = solve_entry_request(1, 0, i64::MAX as u64, 1, 2, 3, false, "", 0, "g").unwrap_err();
    assert_eq!(e.message, "Error parsing timestamp");
    let r = on_device_packet(
        TimerPacket {
            tag: Some(3),
            data: TimerPacketInner::Solve {
                solve_time: 1,
                penalty: 0,
                competitor_id: 1,
                judge_id: 1,
                timestamp: u64::MAX,
                session_id: String::new(),
                delegate: false,
                inspection_time: 0,
                group_id: String::new(),
                sign_key: 0,
            },
        },
        1,
        true,
    );
    assert!(matches!(r, Inbound::Fail(Some(3), ref e) if e.message == "Error parsing timestamp"));
}
