use fkm_connector::hil::{
    default_sleep_between, ButtonPin, CardInfo, HilDevice, HilError, HilState, TestData, TestStep,
    TestsRoot,
};
use fkm_connector::unix::{
    CompetitionStatusDevice, CompetitionStatusResp, PossibleGroup, SnapshotData, TestPacketData,
    UnixRequest, UnixRequestData, UnixResponse, UnixResponseData,
};
use std::collections::HashMap;

fn status() -> CompetitionStatusResp {
    CompetitionStatusResp {
        should_update: false,
        devices: Vec::new(),
        translations: Vec::new(),
        default_locale: "en".to_string(),
        fkm_token: 7,
    }
}

fn state_with(tests: Vec<TestData>) -> HilState {
    let mut cards = HashMap::new();
    cards.insert(
        3004425529u64,
        CardInfo {
            registrant_id: 42,
            name: "Filip Sciurka".to_string(),
            wca_id: "2020SCIU01".to_string(),
            can_compete: true,
            groups: vec!["333-r1".to_string()],
        },
    );
    HilState::new(
        TestsRoot {
            dump_state_after_test: false,
            groups: vec![
                PossibleGroup {
                    group_id: "333-r1".to_string(),
                    use_inspection: true,
                    secondary_text: "3x3".to_string(),
                },
                PossibleGroup {
                    group_id: "444-r1".to_string(),
                    use_inspection: true,
                    secondary_text: "4x4".to_string(),
                },
            ],
            cards,
            buttons: vec![ButtonPin { name: "submit".to_string(), pin: 4 }],
            tests,
        },
        status(),
    )
}

fn connect(state: &mut HilState, esp_id: u32) {
    let req = UnixRequest {
        tag: Some(1),
        data: UnixRequestData::RequestToConnectDevice { esp_id, device_type: "station".to_string() },
    };
    assert_eq!(state.feed(Some(req), 0), Ok(()));
}

fn attempt(esp_id: u32, value: u64, penalty: i64, is_delegate: bool) -> UnixRequest {
    UnixRequest {
        tag: Some(9),
        data: UnixRequestData::EnterAttempt {
            value,
            value_ms: value * 10,
            penalty,
            solved_at: String::new(),
            esp_id,
            judge_id: "1".to_string(),
            competitor_id: "2".to_string(),
            is_delegate,
            session_id: "s".to_string(),
            inspection_time: 0,
            group_id: "333-r1".to_string(),
        },
    }
}

fn ack(esp_id: u32) -> UnixRequest {
    UnixRequest {
        tag: None,
        data: UnixRequestData::TestAck {
            esp_id,
            snapshot: SnapshotData {
                scene: 2,
                inspection_time: None,
                solve_time: Some(2000),
                penalty: None,
                time_confirmed: true,
                possible_groups: 1,
                group_selected_idx: 0,
                current_competitor: None,
                current_judge: None,
            },
        },
    }
}

fn verify_program(time: i64) -> Vec<TestData> {
    vec![TestData {
        name: "solve".to_string(),
        sleep_between: default_sleep_between(),
        steps: vec![
            TestStep::SolveTime,
            TestStep::VerifySend { time: Some(time), penalty: Some(0), delegate: false },
        ],
    }]
}

#[test]
fn connect_announces_device_and_resets_it() {
    let mut state = state_with(verify_program(-1));
    connect(&mut state, 7);
    assert_eq!(state.devices.len(), 1);
    let out = state.process_with(0, &vec![(0, 2000)]);
    assert!(matches!(
        &out[0].data,
        Some(UnixResponseData::ServerStatus(s)) if s.devices == vec![CompetitionStatusDevice { esp_id: 7, sign_key: None }] && s.fkm_token == 7
    ));
    assert!(matches!(out[1].data, Some(UnixResponseData::Empty)) && out[1].tag == Some(1));
    assert!(matches!(
        out[2].data,
        Some(UnixResponseData::TestPacket { esp_id: 7, data: TestPacketData::HardStateReset })
    ));
    assert!(matches!(
        out[3].data,
        Some(UnixResponseData::TestPacket { esp_id: 7, data: TestPacketData::StackmatTime(2000) })
    ));
    assert_eq!(out.len(), 4);
    // a second request for the same device changes nothing
    connect(&mut state, 7);
    assert_eq!(state.devices.len(), 1);
    assert!(state.packet_queue.is_empty());
}

#[test]
fn verify_send_mismatch_drops_device() {
    let mut state = state_with(verify_program(-1));
    connect(&mut state, 7);
    let _ = state.process_with(0, &vec![(0, 2000)]);
    assert!(state.devices[0].wait_for_ack);
    assert_eq!(state.devices[0].last_solve_time, 2000);
    assert_eq!(state.feed(Some(ack(7)), 100), Ok(()));
    assert!(!state.devices[0].wait_for_ack);
    assert_eq!(state.feed(Some(attempt(7, 2000 / 10 + 1, 0, false)), 200), Ok(()));
    let out = state.process_with(300, &vec![(0, 2000)]);
    let msg = out
        .iter()
        .find_map(|r| match &r.data {
            Some(UnixResponseData::CustomMessage { esp_id, line1, line2 }) => {
                Some((*esp_id, line1.clone(), line2.clone()))
            }
            _ => None,
        })
        .expect("a failure message");
    assert_eq!(msg, (7, "HIL Error T:0".to_string(), "S:1 201/200".to_string()));
    assert!(state.devices.is_empty());
    assert!(state.should_send_status);
    assert_eq!(state.error_log.len(), 1);
    assert_eq!(state.error_log[0].error, HilError::ValueNotExpected { found: 201, expected: 200 });
    let out = state.process_with(400, &vec![]);
    assert!(matches!(&out[0].data, Some(UnixResponseData::ServerStatus(s)) if s.devices.is_empty()));
}

#[test]
fn verify_send_match_finishes_test() {
    let mut state = state_with(verify_program(-1));
    connect(&mut state, 7);
    let _ = state.process_with(0, &vec![(0, 2000)]);
    state.feed(Some(ack(7)), 100).unwrap();
    state.feed(Some(attempt(7, 200, 0, false)), 200).unwrap();
    let out = state.process_with(300, &vec![(0, 2000)]);
    assert_eq!(out.len(), 1);
    assert!(matches!(out[0].data, Some(UnixResponseData::Empty)) && out[0].tag == Some(9));
    assert_eq!(state.devices[0].current_step, 2);
    assert!(state.devices[0].back_packet.is_none());
    assert_eq!(state.devices[0].next_step_time, 700);
    let _ = state.process_with(700, &vec![(0, 2000)]);
    assert_eq!(state.completed_count, 1);
    assert_eq!(state.devices[0].completed_count, 1);
    assert_eq!(state.devices[0].current_test, None);
}

#[test]
fn ack_timeout_drops_device() {
    let mut state = state_with(verify_program(-1));
    connect(&mut state, 3);
    let _ = state.process_with(0, &vec![(0, 1000)]);
    // waiting for the ack since next_step_time = 1500
    let out = state.process_with(6499, &vec![(0, 1000)]);
    assert!(out.is_empty());
    let out = state.process_with(6500, &vec![(0, 1000)]);
    assert!(matches!(
        &out[0].data,
        Some(UnixResponseData::CustomMessage { line2, .. }) if line2 == "S:1 TimeoutAck"
    ));
    assert!(state.devices.is_empty());
}

#[test]
fn unknown_button_is_fatal_and_known_one_pressed() {
    let mut state = state_with(vec![TestData {
        name: "buttons".to_string(),
        sleep_between: 0,
        steps: vec![
            TestStep::Button { name: "submit".to_string(), time: 100, ack: Some(false) },
            TestStep::Button { name: "missing".to_string(), time: 100, ack: None },
        ],
    }]);
    connect(&mut state, 5);
    let out = state.process_with(0, &vec![(0, 600)]);
    assert!(matches!(
        out.last().unwrap().data,
        Some(UnixResponseData::TestPacket {
            esp_id: 5,
            data: TestPacketData::ButtonPress { pin: 4, press_time: 100 }
        })
    ));
    assert!(!state.devices[0].wait_for_ack);
    let out = state.process_with(100, &vec![(0, 600)]);
    assert!(matches!(
        &out[0].data,
        Some(UnixResponseData::CustomMessage { line2, .. }) if line2 == "S:1 WrongButtonName"
    ));
}

#[test]
fn sleep_skips_pause_and_delegate_resolve_is_sent() {
    let mut state = state_with(vec![TestData {
        name: "delegate".to_string(),
        sleep_between: 500,
        steps: vec![
            TestStep::Sleep(1000),
            TestStep::DelegateResolve { should_scan_cards: true, penalty: Some(2), value: Some(495) },
        ],
    }]);
    connect(&mut state, 8);
    let _ = state.process_with(10, &vec![(0, 600)]);
    assert_eq!(state.devices[0].next_step_time, 1010);
    let out = state.process_with(1010, &vec![(0, 600)]);
    match &out[0].data {
        Some(UnixResponseData::IncidentResolved { esp_id, should_scan_cards, attempt }) => {
            assert_eq!(*esp_id, 8);
            assert!(*should_scan_cards);
            assert_eq!(attempt.session_id, "");
            assert_eq!(attempt.penalty, Some(2));
            assert_eq!(attempt.value, Some(49));
        }
        other => panic!("unexpected {other:?}"),
    }
    assert_eq!(state.devices[0].last_solve_time, 495);
    assert_eq!(state.devices[0].next_step_time, 1510);
}

#[test]
fn snapshot_step_checks_queries() {
    let mut state = state_with(vec![TestData {
        name: "snap".to_string(),
        sleep_between: 0,
        steps: vec![
            TestStep::ResetState,
            TestStep::VerifySnapshot(vec!["scene == 2".to_string(), "solve_time == 2000".to_string()]),
            TestStep::VerifySnapshot(vec!["scene == 2".to_string(), "penalty == 1".to_string()]),
        ],
    }]);
    connect(&mut state, 9);
    let _ = state.process_with(0, &vec![(0, 600)]);
    state.feed(Some(ack(9)), 10).unwrap();
    let out = state.process_with(260, &vec![(0, 600)]);
    assert!(out.is_empty());
    assert_eq!(state.devices[0].current_step, 2);
    let out = state.process_with(260, &vec![(0, 600)]);
    assert!(matches!(
        &out[0].data,
        Some(UnixResponseData::CustomMessage { line2, .. }) if line2 == "S:2 SnapshotDsl 1"
    ));
}

#[test]
fn same_inputs_give_same_packets() {
    let run = || {
        let mut state = state_with(verify_program(-1));
        connect(&mut state, 1);
        connect(&mut state, 2);
        let mut all = Vec::new();
        for (now, solve) in [(0u64, 900u64), (100, 700), (5000, 800), (9000, 1200)] {
            all.extend(state.process_with(now, &vec![(0, solve), (0, solve + 1)]));
        }
        format!("{all:?}")
    };
    assert_eq!(run(), run());
}

#[test]
fn process_draws_solve_times_in_range() {
    let mut state = state_with(verify_program(-1));
    connect(&mut state, 1);
    let out = state.process(0);
    match out.last().unwrap().data {
        Some(UnixResponseData::TestPacket { data: TestPacketData::StackmatTime(t), .. }) => {
            assert!((501..14132).contains(&t))
        }
        ref other => panic!("unexpected {other:?}"),
    }
}

#[test]
fn person_info_lookup() {
    let mut state = state_with(verify_program(-1));
    let req = UnixRequest {
        tag: Some(3),
        data: UnixRequestData::PersonInfo { card_id: "3004425529".to_string(), esp_id: 1 },
    };
    assert_eq!(state.feed(Some(req), 0), Ok(()));
    let rec: &UnixResponse = state.packet_queue.last().unwrap();
    assert_eq!(rec.tag, Some(3));
    assert_eq!(rec.error, Some(false));
    match &rec.data {
        Some(UnixResponseData::PersonInfoResp { id, name, possible_groups, registrant_id, .. }) => {
            assert_eq!(id, "3004425529");
            assert_eq!(name, "Filip Sciurka");
            assert_eq!(*registrant_id, Some(42));
            let groups = possible_groups.as_ref().unwrap();
            assert_eq!(groups.len(), 1);
            assert_eq!(groups[0].group_id, "333-r1");
        }
        other => panic!("unexpected {other:?}"),
    }
    let req = UnixRequest {
        tag: Some(4),
        data: UnixRequestData::PersonInfo { card_id: "12".to_string(), esp_id: 1 },
    };
    state.feed(Some(req), 0).unwrap();
    let rec = state.packet_queue.last().unwrap();
    assert_eq!(rec.error, Some(true));
    assert!(matches!(&rec.data, Some(UnixResponseData::Error { message, .. }) if message == "Competitor not found"));
    let req = UnixRequest {
        tag: Some(5),
        data: UnixRequestData::PersonInfo { card_id: "card".to_string(), esp_id: 1 },
    };
    assert_eq!(state.feed(Some(req), 0), Err(()));
}

#[test]
fn initial_status_devices_are_added() {
    let mut st = status();
    st.devices = vec![
        CompetitionStatusDevice { esp_id: 11, sign_key: None },
        CompetitionStatusDevice { esp_id: 12, sign_key: Some(3) },
    ];
    let mut state = HilState::new(
        TestsRoot {
            dump_state_after_test: false,
            groups: Vec::new(),
            cards: HashMap::new(),
            buttons: Vec::new(),
            tests: Vec::new(),
        },
        st,
    );
    state.process_initial_status_devices();
    let ids: Vec<u32> = state.devices.iter().map(|d| d.id).collect();
    assert_eq!(ids, vec![11, 12]);
    let d = HilDevice::new(5);
    assert_eq!(d.last_test, usize::MAX);
}

#[test]
fn send_helpers_queue_records() {
    let mut state = state_with(Vec::new());
    state.send_test_packet(4, TestPacketData::StackmatReset);
    state.send_resp(UnixResponseData::Empty, Some(8), true);
    state.send_status_resp();
    assert_eq!(state.packet_queue.len(), 3);
    assert_eq!(state.packet_queue[0].error, None);
    assert_eq!(state.packet_queue[1].error, Some(true));
    assert_eq!(state.packet_queue[1].tag, Some(8));
    assert!(matches!(&state.packet_queue[2].data, Some(UnixResponseData::ServerStatus(s)) if s.default_locale == "en"));
}

#[test]
fn verify_send_divides_negative_times_toward_zero() {
    let mut state = state_with(verify_program(-5));
    connect(&mut state, 7);
    let _ = state.process_with(0, &vec![(0, 2000)]);
    state.feed(Some(ack(7)), 100).unwrap();
    state.feed(Some(attempt(7, 0, 0, false)), 200).unwrap();
    let _ = state.process_with(300, &vec![(0, 2000)]);
    assert_eq!(state.devices.len(), 1);
    assert_eq!(state.devices[0].current_step, 2);
}

#[test]
fn snapshot_step_without_queries_needs_no_snapshot() {
    let mut state = state_with(vec![TestData {
        name: "empty".to_string(),
        sleep_between: 0,
        steps: vec![TestStep::VerifySnapshot(Vec::new()), TestStep::VerifySnapshot(vec!["scene == 0".to_string()])],
    }]);
    connect(&mut state, 2);
    let _ = state.process_with(0, &vec![(0, 600)]);
    assert_eq!(state.devices[0].current_step, 1);
    let out = state.process_with(0, &vec![(0, 600)]);
    assert!(matches!(
        &out[0].data,
        Some(UnixResponseData::CustomMessage { line2, .. }) if line2 == "S:1 SnapshotDsl 0"
    ));
}
