use fkm_connector::hil::{HilDevice, HilState, TestsRoot};
use fkm_connector::snapshot::{snapshot_dsl_check, DslOp, SnapshotData};
use fkm_connector::unix::CompetitionStatusResp;
use std::collections::HashMap;

fn generate_state() -> (HilState, HilDevice, SnapshotData) {
    let state = HilState::new(
        TestsRoot {
            dump_state_after_test: false,
            groups: Vec::new(),
            cards: HashMap::new(),
            buttons: Vec::new(),
            tests: Vec::new(),
        },
        CompetitionStatusResp {
            should_update: false,
            devices: Vec::new(),
            translations: Vec::new(),
            default_locale: "".to_string(),
            fkm_token: 0,
        },
    );

    let device = HilDevice {
        id: 0,
        last_snapshot: None,
        back_packet: None,
        completed_count: 0,
        last_solve_time: 69420,
        last_test: 0,
        current_test: None,
        current_step: 0,
        wait_for_ack: false,
        next_step_time: 0,
    };

    let snapshot = SnapshotData {
        scene: 0,
        inspection_time: None,
        solve_time: None,
        penalty: None,
        time_confirmed: false,
        possible_groups: 0,
        group_selected_idx: 0,
        current_competitor: None,
        current_judge: None,
    };

    (state, device, snapshot)
}

#[test]
fn test_smaller_than() {
    let (state, device, mut snapshot) = generate_state();
    snapshot.possible_groups = 1;

    assert_eq!(
        snapshot_dsl_check(&state, &device, &snapshot, "possible_groups < 2"),
        Ok(true)
    );
    assert_eq!(
        snapshot_dsl_check(&state, &device, &snapshot, "possible_groups < 1"),
        Ok(false)
    );
}

#[test]
fn test_greater_than() {
    let (state, device, mut snapshot) = generate_state();
    snapshot.group_selected_idx = 3;

    assert_eq!(
        snapshot_dsl_check(&state, &device, &snapshot, "group_selected_idx > 2"),
        Ok(true)
    );
    assert_eq!(
        snapshot_dsl_check(&state, &device, &snapshot, "group_selected_idx > 3"),
        Ok(false)
    );
}

#[test]
fn test_equal() {
    let (state, device, mut snapshot) = generate_state();
    snapshot.time_confirmed = true;
    snapshot.solve_time = Some(69420); // same as device last solve time

    assert_eq!(
        snapshot_dsl_check(&state, &device, &snapshot, "time_confirmed == true"),
        Ok(true)
    );
    assert_eq!(
        snapshot_dsl_check(&state, &device, &snapshot, "time_confirmed == 1"),
        Ok(true)
    );
    assert_eq!(
        snapshot_dsl_check(&state, &device, &snapshot, "time_confirmed == false"),
        Ok(false)
    );
    assert_eq!(
        snapshot_dsl_check(&state, &device, &snapshot, "solve_time == 69420"),
        Ok(true)
    );
    assert_eq!(
        snapshot_dsl_check(&state, &device, &snapshot, "solve_time == 12345"),
        Ok(false)
    );
    assert_eq!(
        snapshot_dsl_check(&state, &device, &snapshot, "solve_time == timer"),
        Ok(true)
    );

    snapshot.solve_time = Some(12345);

    assert_eq!(
        snapshot_dsl_check(&state, &device, &snapshot, "solve_time == timer"),
        Ok(false)
    );
    assert_eq!(
        snapshot_dsl_check(&state, &device, &snapshot, "penalty == 0"),
        Ok(true)
    );
    assert_eq!(
        snapshot_dsl_check(&state, &device, &snapshot, "penalty == 1"),
        Ok(false)
    );
}

#[test]
fn test_notequal() {
    let (state, device, mut snapshot) = generate_state();
    snapshot.time_confirmed = true;
    snapshot.solve_time = Some(69420); // same as device last solve time

    assert_eq!(
        snapshot_dsl_check(&state, &device, &snapshot, "time_confirmed != true"),
        Ok(false)
    );
    assert_eq!(
        snapshot_dsl_check(&state, &device, &snapshot, "time_confirmed != 1"),
        Ok(false)
    );
    assert_eq!(
        snapshot_dsl_check(&state, &device, &snapshot, "time_confirmed != false"),
        Ok(true)
    );
    assert_eq!(
        snapshot_dsl_check(&state, &device, &snapshot, "solve_time != 69420"),
        Ok(false)
    );
    assert_eq!(
        snapshot_dsl_check(&state, &device, &snapshot, "solve_time != 12345"),
        Ok(true)
    );
    assert_eq!(
        snapshot_dsl_check(&state, &device, &snapshot, "solve_time != timer"),
        Ok(false)
    );

    snapshot.solve_time = Some(12345);

    assert_eq!(
        snapshot_dsl_check(&state, &device, &snapshot, "solve_time != timer"),
        Ok(true)
    );
    assert_eq!(
        snapshot_dsl_check(&state, &device, &snapshot, "penalty != 0"),
        Ok(false)
    );
    assert_eq!(
        snapshot_dsl_check(&state, &device, &snapshot, "penalty != 1"),
        Ok(true)
    );
}

#[test]
fn test_is() {
    let (state, device, mut snapshot) = generate_state();
    snapshot.inspection_time = Some(123);

    assert_eq!(
        snapshot_dsl_check(&state, &device, &snapshot, "inspection_time is some"),
        Ok(true)
    );
    assert_eq!(
        snapshot_dsl_check(&state, &device, &snapshot, "inspection_time is none"),
        Ok(false)
    );
    assert_eq!(
        snapshot_dsl_check(&state, &device, &snapshot, "solve_time is some"),
        Ok(false)
    );
    assert_eq!(
        snapshot_dsl_check(&state, &device, &snapshot, "solve_time is none"),
        Ok(true)
    );
}

#[test]
fn dsl_rejects_malformed_queries() {
    let (state, device, snapshot) = generate_state();
    assert_eq!(snapshot_dsl_check(&state, &device, &snapshot, "scene <"), Err(()));
    assert_eq!(snapshot_dsl_check(&state, &device, &snapshot, "scene  < 2"), Err(()));
    assert_eq!(snapshot_dsl_check(&state, &device, &snapshot, "colour == 1"), Err(()));
    assert_eq!(snapshot_dsl_check(&state, &device, &snapshot, "scene ~ 1"), Err(()));
    assert_eq!(snapshot_dsl_check(&state, &device, &snapshot, "scene == x1"), Err(()));
    assert_eq!(snapshot_dsl_check(&state, &device, &snapshot, "scene is maybe"), Err(()));
}

#[test]
fn dsl_absent_values_fail_comparisons() {
    let (state, device, snapshot) = generate_state();
    assert_eq!(snapshot_dsl_check(&state, &device, &snapshot, "current_judge < 5"), Ok(false));
    assert_eq!(snapshot_dsl_check(&state, &device, &snapshot, "current_judge != 5"), Ok(false));
    assert_eq!(snapshot_dsl_check(&state, &device, &snapshot, "current_judge is none"), Ok(true));
    assert_eq!(snapshot_dsl_check(&state, &device, &snapshot, "scene > -1"), Ok(true));
    assert_eq!(snapshot_dsl_check(&state, &device, &snapshot, "scene < +1"), Ok(true));
}

#[test]
fn dsl_op_check_against() {
    assert!(DslOp::SmallerThan(3).check_against(Some(2)));
    assert!(!DslOp::GreaterThan(3).check_against(None));
    assert!(DslOp::Is(false).check_against(None));
    assert!(!DslOp::Is(true).check_against(None));
    assert!(DslOp::NotEqual(1).check_against(Some(2)));
}
