//! The hardware-in-the-loop engine: it plays the back-end for virtual
//! devices and drives each through scripted test programs.

use vstd::prelude::*;
use std::collections::HashMap;
use crate::snapshot::{query_result, snapshot_dsl_check};
use crate::outside::{draw_below, i128_text};
use crate::text::{chars_of, decimal_text, parse_unsigned, signed_decimal_text, unsigned_within};
use crate::unix::{
    CompetitionStatusDevice, CompetitionStatusResp, IncidentAttempt, PossibleGroup, SnapshotData,
    TestPacketData, TranslationLocale, UnixRequest, UnixRequestData, UnixResponse, UnixResponseData,
};

verus! {

broadcast use vstd::std_specs::hash::group_hash_axioms;

/// How long a device may take to acknowledge a command, in ms.
pub const ACK_TIMEOUT_MS: u64 = 5000;
/// Pause after a step unless the program sets its own, in ms.
pub const DEFAULT_SLEEP_BETWEEN: u64 = 500;
/// Drawn solve times lie in `SOLVE_TIME_MIN..SOLVE_TIME_END` ms.
pub const SOLVE_TIME_MIN: u64 = 501;
pub const SOLVE_TIME_END: u64 = 14132;
/// Delay after an acknowledgement before the next step, in ms.
pub const ACK_SETTLE_MS: u64 = 250;

pub fn default_sleep_between() -> (r: u64)
    ensures
        r == DEFAULT_SLEEP_BETWEEN,
{
    DEFAULT_SLEEP_BETWEEN
}

/// A competitor that a test card stands for.
#[derive(Debug, Clone)]
pub struct CardInfo {
    pub registrant_id: i64,
    pub name: String,
    pub wca_id: String,
    pub can_compete: bool,
    pub groups: Vec<String>,
}

/// A named button and the pin it is wired to.
#[derive(Debug, Clone)]
pub struct ButtonPin {
    pub name: String,
    pub pin: u8,
}

/// The test programs and the fixtures they use.
#[derive(Debug)]
pub struct TestsRoot {
    pub dump_state_after_test: bool,
    pub groups: Vec<PossibleGroup>,
    pub cards: HashMap<u64, CardInfo>,
    /// Button names with their pins; no two share a name.
    pub buttons: Vec<ButtonPin>,
    pub tests: Vec<TestData>,
}

/// One test program.
#[derive(Debug)]
pub struct TestData {
    pub name: String,
    pub sleep_between: u64,
    pub steps: Vec<TestStep>,
}

#[derive(Debug)]
pub enum TestStep {
    Sleep(u64),
    ScanCard(u64),
    ResetState,
    /// A solve of random length.
    SolveTime,
    Button { name: String, time: u64, ack: Option<bool> },
    DelegateResolve { should_scan_cards: bool, penalty: Option<i64>, value: Option<u64> },
    /// Checks the attempt the device sent: `time` -1 stands for the last
    /// solve time; `None` fields are not checked.
    VerifySend { time: Option<i64>, penalty: Option<i64>, delegate: bool },
    /// Snapshot queries that must all hold; each fails while no snapshot
    /// has arrived.
    VerifySnapshot(Vec<String>),
}

/// Why a virtual device was dropped.
#[derive(Debug, Clone, Copy, PartialEq, Eq, Structural)]
pub enum HilError {
    TimeoutAck,
    WrongButtonName,
    BackpacketTimeout,
    BackpacketWrong,
    /// The query at this index failed or could not be read.
    SnapshotDsl(usize),
    StepNotMatched,
    ValueNotExpected { found: i128, expected: i128 },
}

/// Where a device failed.
#[derive(Debug, Clone, Copy, PartialEq, Eq, Structural)]
pub struct HilErrorLoc {
    pub test: usize,
    pub step: usize,
    pub error: HilError,
}

/// What one step of a device produced.
#[derive(Debug, Clone, Copy, PartialEq, Eq, Structural)]
pub enum StepOutput {
    /// Nothing to send.
    Idle,
    /// A command for the device.
    Test(TestPacketData),
    /// A delegate's decision on the device's attempt.
    Resolved { should_scan_cards: bool, penalty: Option<i64>, value: Option<u64> },
    /// The current program ran to its end.
    TestDone,
}

/// A virtual device and its place in its program.
#[derive(Debug)]
pub struct HilDevice {
    pub id: u32,
    pub last_snapshot: Option<SnapshotData>,
    pub back_packet: Option<UnixRequestData>,
    pub next_step_time: u64,
    pub current_test: Option<usize>,
    pub current_step: usize,
    pub wait_for_ack: bool,
    pub last_test: usize,
    pub last_solve_time: u64,
    pub completed_count: usize,
}

/// The engine's state.
#[derive(Debug)]
pub struct HilState {
    pub devices: Vec<HilDevice>,
    pub tests: TestsRoot,
    pub should_send_status: bool,
    pub status: CompetitionStatusResp,
    pub completed_count: usize,
    pub packet_queue: Vec<UnixResponse>,
    pub error_log: Vec<HilErrorLoc>,
}

pub open spec fn sat_add(a: u64, b: u64) -> u64 {
    if a + b > u64::MAX {
        u64::MAX
    } else {
        (a + b) as u64
    }
}

pub open spec fn sat_inc(a: usize) -> usize {
    if a == usize::MAX {
        a
    } else {
        (a + 1) as usize
    }
}

/// The program index used when `pick` was drawn: `pick`, unless that was the
/// last program, in which case the next one (wrapping).
pub open spec fn choose_test(pick: usize, last: usize, n: usize) -> usize {
    if pick == last {
        if pick + 1 >= n {
            0
        } else {
            (pick + 1) as usize
        }
    } else {
        pick
    }
}

/// Whether no two buttons share a name.
pub open spec fn unique_button_names(buttons: Seq<ButtonPin>) -> bool {
    forall|i: int, j: int|
        0 <= i < j < buttons.len() ==> (#[trigger] buttons[i]).name@ != (#[trigger] buttons[j]).name@
}

/// The pin of the first button named `name`.
pub open spec fn button_pin(buttons: Seq<ButtonPin>, name: Seq<char>) -> Option<u8>
    decreases buttons.len(),
{
    if buttons.len() == 0 {
        None
    } else if buttons[0].name@ == name {
        Some(buttons[0].pin)
    } else {
        button_pin(buttons.drop_first(), name)
    }
}

/// A device whose program has reached `VerifySend { time: Some(-1), .. }`
/// and whose recorded attempt is not its last solve time in centiseconds
/// fails with both numbers, and is left as it was.
pub proof fn lemma_verify_send_mismatch(tests: TestsRoot, dev: HilDevice, now: u64, pick: usize, solve: u64)
    requires
        !dev.wait_for_ack,
        now >= dev.next_step_time,
        dev.current_test matches Some(t) && t < tests.tests@.len() && dev.current_step
            < tests.tests@[t as int].steps@.len() && tests.tests@[t as int].steps@[dev.current_step as int] matches TestStep::VerifySend {
            time: Some(-1),
            ..
        },
        dev.back_packet matches Some(UnixRequestData::EnterAttempt { value, .. }) && value
            != dev.last_solve_time / 10,
    ensures
        step_spec(tests, dev, now, pick, solve) == (
            dev,
            Err::<StepOutput, HilError>(
                HilError::ValueNotExpected {
                    found: dev.back_packet->Some_0->EnterAttempt_value as i128,
                    expected: (dev.last_solve_time / 10) as i128,
                },
            ),
        ),
{
}

/// With distinct names, looking a button up by its name gives its own pin.
pub proof fn lemma_button_lookup(buttons: Seq<ButtonPin>, k: int)
    requires
        unique_button_names(buttons),
        0 <= k < buttons.len(),
    ensures
        button_pin(buttons, buttons[k].name@) == Some(buttons[k].pin),
    decreases k,
{
    if k > 0 {
        let rest = buttons.drop_first();
        assert(buttons[0].name@ != buttons[k].name@);
        assert(rest[k - 1] == buttons[k]);
        assert forall|i: int, j: int| 0 <= i < j < rest.len() implies (#[trigger] rest[i]).name@
            != (#[trigger] rest[j]).name@ by {
            assert(rest[i] == buttons[i + 1] && rest[j] == buttons[j + 1]);
        }
        lemma_button_lookup(rest, k - 1);
    }
}

/// The index of the first query from `k` on that does not hold.
pub open spec fn first_failing(qs: Seq<String>, snap: SnapshotData, timer: u64, k: int) -> Option<usize>
    decreases qs.len() - k,
{
    if k < 0 || k >= qs.len() {
        None
    } else if query_result(qs[k]@, snap, timer) != Ok::<bool, ()>(true) {
        Some(k as usize)
    } else {
        first_failing(qs, snap, timer, k + 1)
    }
}

/// Checks an attempt against a `VerifySend` step: the attempt's centiseconds
/// must equal the step's time divided by 10 (rounded toward zero; -1 stands
/// for the last solve time), and the penalty and delegate flag must match.
pub open spec fn verify_send(
    value: u64,
    penalty: i64,
    is_delegate: bool,
    time: Option<i64>,
    want_penalty: Option<i64>,
    delegate: bool,
    last_solve: u64,
) -> Option<HilError> {
    let time_err = match time {
        Some(t) => {
            let exp: int = if t == -1 {
                last_solve as int / 10
            } else if t >= 0 {
                t as int / 10
            } else {
                -((-t) as int / 10)
            };
            if value as int != exp {
                Some(HilError::ValueNotExpected { found: value as i128, expected: exp as i128 })
            } else {
                None
            }
        },
        None => None,
    };
    if time_err is Some {
        time_err
    } else if want_penalty matches Some(p) && penalty != p {
        Some(HilError::ValueNotExpected { found: penalty as i128, expected: want_penalty->0 as i128 })
    } else if is_delegate != delegate {
        Some(
            HilError::ValueNotExpected {
                found: if is_delegate { 1 } else { 0 },
                expected: if delegate { 1 } else { 0 },
            },
        )
    } else {
        None
    }
}

/// A device is well formed against the programs when its current program exists.
pub open spec fn device_fits(d: HilDevice, n_tests: nat) -> bool {
    d.current_test matches Some(t) ==> t < n_tests
}

/// The step once a program is under way (`dev.current_test` is `Some`).
pub open spec fn run_step(tests: TestsRoot, dev: HilDevice, now: u64, solve: u64) -> (
    HilDevice,
    Result<StepOutput, HilError>,
) {
    let t = tests.tests@[dev.current_test->0 as int];
    let between = t.sleep_between;
    if dev.current_step >= t.steps@.len() {
        (
            HilDevice {
                completed_count: sat_inc(dev.completed_count),
                current_test: None,
                ..dev
            },
            Ok(StepOutput::TestDone),
        )
    } else {
        let next = (dev.current_step + 1) as usize;
        match t.steps@[dev.current_step as int] {
            TestStep::Sleep(ms) => (
                HilDevice { current_step: next, next_step_time: sat_add(now, ms), ..dev },
                Ok(StepOutput::Idle),
            ),
            TestStep::ResetState => (
                HilDevice {
                    wait_for_ack: true,
                    current_step: next,
                    next_step_time: sat_add(now, between),
                    ..dev
                },
                Ok(StepOutput::Test(TestPacketData::ResetState)),
            ),
            TestStep::SolveTime => (
                HilDevice {
                    wait_for_ack: true,
                    last_solve_time: solve,
                    current_step: next,
                    next_step_time: sat_add(sat_add(now, solve), between),
                    ..dev
                },
                Ok(StepOutput::Test(TestPacketData::StackmatTime(solve))),
            ),
            TestStep::ScanCard(id) => (
                HilDevice {
                    wait_for_ack: true,
                    current_step: next,
                    next_step_time: sat_add(now, between),
                    ..dev
                },
                Ok(StepOutput::Test(TestPacketData::ScanCard(id))),
            ),
            TestStep::Button { name, time, ack } => match button_pin(tests.buttons@, name@) {
                None => (dev, Err(HilError::WrongButtonName)),
                Some(pin) => (
                    HilDevice {
                        wait_for_ack: if ack == Some(false) {
                            dev.wait_for_ack
                        } else {
                            true
                        },
                        current_step: next,
                        next_step_time: sat_add(sat_add(now, time), between),
                        ..dev
                    },
                    Ok(StepOutput::Test(TestPacketData::ButtonPress { pin, press_time: time })),
                ),
            },
            TestStep::VerifySend { time, penalty, delegate } => match dev.back_packet {
                None => if now >= sat_add(dev.next_step_time, ACK_TIMEOUT_MS) {
                    (dev, Err(HilError::BackpacketTimeout))
                } else {
                    (dev, Ok(StepOutput::Idle))
                },
                Some(UnixRequestData::EnterAttempt { value, penalty: p, is_delegate, .. }) => match verify_send(
                    value,
                    p,
                    is_delegate,
                    time,
                    penalty,
                    delegate,
                    dev.last_solve_time,
                ) {
                    Some(e) => (dev, Err(e)),
                    None => (
                        HilDevice {
                            current_step: next,
                            back_packet: None,
                            next_step_time: sat_add(dev.next_step_time, between),
                            ..dev
                        },
                        Ok(StepOutput::Idle),
                    ),
                },
                Some(_) => (dev, Err(HilError::BackpacketWrong)),
            },
            TestStep::DelegateResolve { should_scan_cards, penalty, value } => (
                HilDevice {
                    last_solve_time: match value {
                        Some(v) => v,
                        None => dev.last_solve_time,
                    },
                    current_step: next,
                    next_step_time: sat_add(dev.next_step_time, between),
                    ..dev
                },
                Ok(
                    StepOutput::Resolved {
                        should_scan_cards,
                        penalty,
                        value: match value {
                            Some(v) => Some((v / 10) as u64),
                            None => None,
                        },
                    },
                ),
            ),
            TestStep::VerifySnapshot(qs) => match dev.last_snapshot {
                None => if qs@.len() == 0 {
                    (
                        HilDevice {
                            current_step: next,
                            next_step_time: sat_add(now, between),
                            ..dev
                        },
                        Ok(StepOutput::Idle),
                    )
                } else {
                    (dev, Err(HilError::SnapshotDsl(0)))
                },
                Some(snap) => match first_failing(qs@, snap, dev.last_solve_time, 0) {
                    Some(k) => (dev, Err(HilError::SnapshotDsl(k))),
                    None => (
                        HilDevice {
                            current_step: next,
                            next_step_time: sat_add(now, between),
                            ..dev
                        },
                        Ok(StepOutput::Idle),
                    ),
                },
            },
        }
    }
}

/// One scheduling step of a device at time `now`; `pick` is a random program
/// index and `solve` a random solve time, used only when needed.
pub open spec fn step_spec(tests: TestsRoot, dev: HilDevice, now: u64, pick: usize, solve: u64) -> (
    HilDevice,
    Result<StepOutput, HilError>,
) {
    if dev.wait_for_ack {
        if now >= sat_add(dev.next_step_time, ACK_TIMEOUT_MS) {
            (dev, Err(HilError::TimeoutAck))
        } else {
            (dev, Ok(StepOutput::Idle))
        }
    } else if now < dev.next_step_time {
        (dev, Ok(StepOutput::Idle))
    } else if dev.current_test is None {
        let idx = choose_test(pick, dev.last_test, tests.tests@.len() as usize);
        run_step(
            tests,
            HilDevice {
                current_test: Some(idx),
                current_step: 0,
                next_step_time: now,
                last_test: idx,
                ..dev
            },
            now,
            solve,
        )
    } else {
        run_step(tests, dev, now, solve)
    }
}


fn find_button(buttons: &Vec<ButtonPin>, name: &String) -> (r: Option<u8>)
    ensures
        r == button_pin(buttons@, name@),
{
    let mut i: usize = 0;
    assert(buttons@.skip(0) =~= buttons@);
    while i < buttons.len()
        invariant
            i <= buttons.len(),
            button_pin(buttons@, name@) == button_pin(buttons@.skip(i as int), name@),
        decreases buttons.len() - i,
    {
        assert(buttons@.skip(i as int).drop_first() =~= buttons@.skip(i + 1));
        if buttons[i].name == *name {
            return Some(buttons[i].pin);
        }
        i = i + 1;
    }
    None
}

fn verify_attempt(
    value: u64,
    penalty: i64,
    is_delegate: bool,
    time: Option<i64>,
    want_penalty: Option<i64>,
    delegate: bool,
    last_solve: u64,
) -> (r: Option<HilError>)
    ensures
        r == verify_send(value, penalty, is_delegate, time, want_penalty, delegate, last_solve),
{
    if let Some(t) = time {
        let exp: i128 = if t == -1 {
            (last_solve / 10) as i128
        } else if t >= 0 {
            (t / 10) as i128
        } else {
            -((-(t as i128)) / 10)
        };
        if value as i128 != exp {
            return Some(HilError::ValueNotExpected { found: value as i128, expected: exp });
        }
    }
    if let Some(p) = want_penalty {
        if penalty != p {
            return Some(HilError::ValueNotExpected { found: penalty as i128, expected: p as i128 });
        }
    }
    if is_delegate != delegate {
        return Some(
            HilError::ValueNotExpected {
                found: if is_delegate { 1 } else { 0 },
                expected: if delegate { 1 } else { 0 },
            },
        );
    }
    None
}

impl HilDevice {
    /// A device that has not started a program.
    pub fn new(id: u32) -> (r: HilDevice)
        ensures
            r.id == id,
            r.last_snapshot is None,
            r.back_packet is None,
            r.next_step_time == 0,
            r.current_test is None,
            r.current_step == 0,
            !r.wait_for_ack,
            r.last_test == usize::MAX,
            r.last_solve_time == 0,
            r.completed_count == 0,
    {
        HilDevice {
            id,
            last_snapshot: None,
            back_packet: None,
            next_step_time: 0,
            current_test: None,
            current_step: 0,
            wait_for_ack: false,
            last_test: usize::MAX,
            last_solve_time: 0,
            completed_count: 0,
        }
    }
}

impl HilState {
    /// Checks the queries of a `VerifySnapshot` step in order.
    fn first_failing_query(&self, device: &HilDevice, snap: &SnapshotData, qs: &Vec<String>) -> (r:
        Option<usize>)
        ensures
            r == first_failing(qs@, *snap, device.last_solve_time, 0),
    {
        let mut k: usize = 0;
        while k < qs.len()
            invariant
                k <= qs.len(),
                first_failing(qs@, *snap, device.last_solve_time, 0) == first_failing(
                    qs@,
                    *snap,
                    device.last_solve_time,
                    k as int,
                ),
            decreases qs.len() - k,
        {
            let res = snapshot_dsl_check(self, device, snap, qs[k].as_str());
            match res {
                Ok(true) => {},
                _ => {
                    return Some(k);
                },
            }
            k = k + 1;
        }
        None
    }

    /// Runs the current step of a program that is under way.
    #[verifier::rlimit(60)]
    fn run_current_step(&self, device: &mut HilDevice, now: u64, solve: u64) -> (r: Result<
        StepOutput,
        HilError,
    >)
        requires
            old(device).current_test matches Some(t) && t < self.tests.tests@.len(),
        ensures
            (*final(device), r) == run_step(self.tests, *old(device), now, solve),
    {
        let ti = match device.current_test {
            Some(t) => t,
            None => 0,
        };
        let t = &self.tests.tests[ti];
        let between = t.sleep_between;
        if device.current_step >= t.steps.len() {
            device.completed_count = device.completed_count.saturating_add(1);
            device.current_test = None;
            return Ok(StepOutput::TestDone);
        }
        let next = device.current_step + 1;
        match &t.steps[device.current_step] {
            TestStep::Sleep(ms) => {
                device.current_step = next;
                device.next_step_time = now.saturating_add(*ms);
                Ok(StepOutput::Idle)
            },
            TestStep::ResetState => {
                device.wait_for_ack = true;
                device.current_step = next;
                device.next_step_time = now.saturating_add(between);
                Ok(StepOutput::Test(TestPacketData::ResetState))
            },
            TestStep::SolveTime => {
                device.wait_for_ack = true;
                device.last_solve_time = solve;
                device.current_step = next;
                device.next_step_time = now.saturating_add(solve).saturating_add(between);
                Ok(StepOutput::Test(TestPacketData::StackmatTime(solve)))
            },
            TestStep::ScanCard(id) => {
                device.wait_for_ack = true;
                device.current_step = next;
                device.next_step_time = now.saturating_add(between);
                Ok(StepOutput::Test(TestPacketData::ScanCard(*id)))
            },
            TestStep::Button { name, time, ack } => match find_button(&self.tests.buttons, name) {
                None => Err(HilError::WrongButtonName),
                Some(pin) => {
                    if !matches!(ack, Some(false)) {
                        device.wait_for_ack = true;
                    }
                    device.current_step = next;
                    device.next_step_time = now.saturating_add(*time).saturating_add(between);
                    Ok(StepOutput::Test(TestPacketData::ButtonPress { pin, press_time: *time }))
                },
            },
            TestStep::VerifySend { time, penalty, delegate } => {
                let verdict = match &device.back_packet {
                    None => {
                        if now >= device.next_step_time.saturating_add(ACK_TIMEOUT_MS) {
                            return Err(HilError::BackpacketTimeout);
                        } else {
                            return Ok(StepOutput::Idle);
                        }
                    },
                    Some(UnixRequestData::EnterAttempt { value, penalty: p, is_delegate, .. }) => {
                        verify_attempt(
                            *value,
                            *p,
                            *is_delegate,
                            *time,
                            *penalty,
                            *delegate,
                            device.last_solve_time,
                        )
                    },
                    Some(_) => {
                        return Err(HilError::BackpacketWrong);
                    },
                };
                match verdict {
                    Some(e) => Err(e),
                    None => {
                        device.current_step = next;
                        device.back_packet = None;
                        device.next_step_time = device.next_step_time.saturating_add(between);
                        Ok(StepOutput::Idle)
                    },
                }
            },
            TestStep::DelegateResolve { should_scan_cards, penalty, value } => {
                if let Some(v) = value {
                    device.last_solve_time = *v;
                }
                device.current_step = next;
                device.next_step_time = device.next_step_time.saturating_add(between);
                Ok(
                    StepOutput::Resolved {
                        should_scan_cards: *should_scan_cards,
                        penalty: *penalty,
                        value: match value {
                            Some(v) => Some(*v / 10),
                            None => None,
                        },
                    },
                )
            },
            TestStep::VerifySnapshot(qs) => match device.last_snapshot {
                None => if qs.len() == 0 {
                    device.current_step = next;
                    device.next_step_time = now.saturating_add(between);
                    Ok(StepOutput::Idle)
                } else {
                    Err(HilError::SnapshotDsl(0))
                },
                Some(snap) => match self.first_failing_query(device, &snap, qs) {
                    Some(k) => Err(HilError::SnapshotDsl(k)),
                    None => {
                        device.current_step = next;
                        device.next_step_time = now.saturating_add(between);
                        Ok(StepOutput::Idle)
                    },
                },
            },
        }
    }

    /// One scheduling step of `device` at time `now`. `pick` is a random
    /// program index and `solve` a random solve time; each is used only when
    /// the step needs one.
    pub fn process_device(&self, device: &mut HilDevice, now: u64, pick: usize, solve: u64) -> (r:
        Result<StepOutput, HilError>)
        requires
            self.tests.tests@.len() > 0,
            pick < self.tests.tests@.len(),
            device_fits(*old(device), self.tests.tests@.len()),
        ensures
            (*final(device), r) == step_spec(self.tests, *old(device), now, pick, solve),
            device_fits(*final(device), self.tests.tests@.len()),
    {
        if device.wait_for_ack {
            if now >= device.next_step_time.saturating_add(ACK_TIMEOUT_MS) {
                return Err(HilError::TimeoutAck);
            }
            return Ok(StepOutput::Idle);
        }
        if now < device.next_step_time {
            return Ok(StepOutput::Idle);
        }
        if device.current_test.is_none() {
            let n = self.tests.tests.len();
            let mut idx = pick;
            if idx == device.last_test {
                idx = idx + 1;
                if idx >= n {
                    idx = 0;
                }
            }
            device.current_test = Some(idx);
            device.current_step = 0;
            device.next_step_time = now;
            device.last_test = idx;
        }
        self.run_current_step(device, now, solve)
    }
}


/// The index of the first device with this id.
pub open spec fn device_index(devs: Seq<HilDevice>, esp_id: u32) -> Option<usize> {
    if exists|i: int| 0 <= i < devs.len() && (#[trigger] devs[i]).id == esp_id {
        let i = choose|i: int|
            0 <= i < devs.len() && (#[trigger] devs[i]).id == esp_id && forall|j: int|
                0 <= j < i ==> (#[trigger] devs[j]).id != esp_id;
        Some(i as usize)
    } else {
        None
    }
}

/// The fixture groups that a card lists, in fixture order.
pub open spec fn card_groups(groups: Seq<PossibleGroup>, ids: Seq<String>) -> Seq<PossibleGroup>
    decreases groups.len(),
{
    if groups.len() == 0 {
        Seq::empty()
    } else {
        let rest = card_groups(groups.drop_last(), ids);
        if exists|j: int| 0 <= j < ids.len() && (#[trigger] ids[j])@ == groups.last().group_id@ {
            rest.push(groups.last())
        } else {
            rest
        }
    }
}

/// Whether `r` answers a lookup of card `id` with tag `tag`.
pub open spec fn person_renders(r: UnixResponse, tag: Option<u32>, id: u64, tests: TestsRoot) -> bool {
    &&& r.tag == tag
    &&& if tests.cards@.contains_key(id) {
        let c = tests.cards@[id];
        &&& r.error == Some(false)
        &&& r.data matches Some(
            UnixResponseData::PersonInfoResp {
                id: text,
                registrant_id,
                name,
                wca_id,
                country_iso2,
                gender,
                can_compete,
                possible_groups,
            },
        )
        &&& text@ == decimal_text(id as nat)
        &&& registrant_id == Some(c.registrant_id)
        &&& name@ == c.name@
        &&& wca_id matches Some(w) && w@ == c.wca_id@
        &&& country_iso2 matches Some(ci) && ci@ == "PL"@
        &&& gender@ == "Male"@
        &&& can_compete == c.can_compete
        &&& possible_groups matches Some(g) && g@ == card_groups(tests.groups@, c.groups@)
    } else {
        &&& r.error == Some(true)
        &&& r.data matches Some(UnixResponseData::Error { message, should_reset_time })
        &&& message@ == "Competitor not found"@
        &&& !should_reset_time
    }
}

/// Whether `r` is an empty acknowledgement with tag `tag`.
pub open spec fn empty_renders(r: UnixResponse, tag: Option<u32>) -> bool {
    r.tag == tag && r.error == Some(false) && r.data matches Some(UnixResponseData::Empty)
}

/// What `feed` does with a request.
pub open spec fn feed_effect(
    old: HilState,
    packet: Option<UnixRequest>,
    now: u64,
    new: HilState,
    r: Result<(), ()>,
) -> bool {
    let same_counts = new.should_send_status == old.should_send_status && new.completed_count
        == old.completed_count && new.error_log == old.error_log;
    let q = old.packet_queue@;
    match packet {
        None => r is Ok && new == old,
        Some(p) => match p.data {
            UnixRequestData::RequestToConnectDevice { esp_id, .. } => r is Ok && if device_index(
                old.devices@,
                esp_id,
            ) is Some {
                new == old
            } else {
                let d = new.devices@.last();
                &&& same_counts
                &&& new.devices@.len() == old.devices@.len() + 1
                &&& new.devices@.drop_last() == old.devices@
                &&& d.id == esp_id && d.current_test is None && d.current_step == 0
                &&& !d.wait_for_ack && d.next_step_time == 0 && d.last_test == usize::MAX
                &&& d.back_packet is None && d.last_snapshot is None
                &&& d.last_solve_time == 0 && d.completed_count == 0
                &&& new.packet_queue@.len() == q.len() + 3
                &&& new.packet_queue@.take(q.len() as int) == q
                &&& status_renders(new.packet_queue@[q.len() as int], old.status, new.devices@)
                &&& empty_renders(new.packet_queue@[q.len() as int + 1], p.tag)
                &&& new.packet_queue@[q.len() as int + 2] == (UnixResponse {
                    tag: None,
                    error: Some(false),
                    data: Some(
                        UnixResponseData::TestPacket { esp_id, data: TestPacketData::HardStateReset },
                    ),
                })
            },
            UnixRequestData::PersonInfo { card_id, .. } => match unsigned_within(
                card_id@,
                u64::MAX as int,
            ) {
                None => r is Err && new == old,
                Some(id) => {
                    &&& r is Ok && same_counts && new.devices == old.devices
                    &&& new.packet_queue@.len() == q.len() + 1
                    &&& new.packet_queue@.take(q.len() as int) == q
                    &&& person_renders(new.packet_queue@.last(), p.tag, id as u64, old.tests)
                },
            },
            UnixRequestData::EnterAttempt { esp_id, .. } => {
                &&& r is Ok && same_counts
                &&& new.packet_queue@ == q.push(new.packet_queue@.last())
                &&& empty_renders(new.packet_queue@.last(), p.tag)
                &&& match device_index(old.devices@, esp_id) {
                    None => new.devices@ == old.devices@,
                    Some(i) => {
                        let d = old.devices@[i as int];
                        &&& new.devices@.len() == old.devices@.len()
                        &&& forall|k: int|
                            0 <= k < old.devices@.len() && k != i ==> #[trigger] new.devices@[k]
                                == old.devices@[k]
                        &&& new.devices@[i as int] == (HilDevice {
                            back_packet: Some(p.data),
                            next_step_time: now,
                            ..d
                        })
                    },
                }
            },
            UnixRequestData::TestAck { esp_id, snapshot } => {
                &&& r is Ok && same_counts
                &&& new.packet_queue == old.packet_queue
                &&& match device_index(old.devices@, esp_id) {
                    None => new.devices@ == old.devices@,
                    Some(i) => new.devices@ == old.devices@.update(
                        i as int,
                        HilDevice {
                            last_snapshot: Some(snapshot),
                            wait_for_ack: false,
                            next_step_time: sat_add(now, ACK_SETTLE_MS),
                            ..old.devices@[i as int]
                        },
                    ),
                }
            },
            _ => {
                &&& r is Ok && same_counts && new.devices == old.devices
                &&& new.packet_queue@.len() == q.len() + 1
                &&& new.packet_queue@.take(q.len() as int) == q
                &&& empty_renders(new.packet_queue@.last(), p.tag)
            },
        },
    }
}

/// Something the engine sends while processing its devices.
#[derive(Debug, Clone, Copy, PartialEq, Eq, Structural)]
pub enum HilEvent {
    /// A step of this device produced a packet.
    Step { esp_id: u32, out: StepOutput },
    /// This device failed at this test and step and was dropped.
    Failure { esp_id: u32, test: usize, step: usize, error: HilError },
}

/// What processing the devices from index `k - 1` down to 0 yields.
pub struct RunOutcome {
    pub devs: Seq<HilDevice>,
    pub events: Seq<HilEvent>,
    pub failed: bool,
    pub done: nat,
    pub locs: Seq<HilErrorLoc>,
}

/// Steps the devices `devs[k-1]`, ..., `devs[0]` in that order, each with its
/// own draws; a device whose step fails is removed.
pub open spec fn run_devices(
    tests: TestsRoot,
    devs: Seq<HilDevice>,
    k: int,
    now: u64,
    draws: Seq<(usize, u64)>,
) -> RunOutcome
    decreases k,
{
    if k <= 0 || k > devs.len() {
        RunOutcome { devs, events: Seq::empty(), failed: false, done: 0, locs: Seq::empty() }
    } else {
        let i = k - 1;
        let d = devs[i];
        let (d2, r) = step_spec(tests, d, now, draws[i].0, draws[i].1);
        let test = match d.current_test {
            Some(t) => t,
            None => 0,
        };
        let next_devs = match r {
            Err(_) => devs.remove(i),
            Ok(_) => devs.update(i, d2),
        };
        let rest = run_devices(tests, next_devs, i, now, draws);
        let ev: Seq<HilEvent> = match r {
            Err(e) => seq![HilEvent::Failure { esp_id: d.id, test, step: d.current_step, error: e }],
            Ok(StepOutput::Idle) => Seq::empty(),
            Ok(StepOutput::TestDone) => Seq::empty(),
            Ok(out) => seq![HilEvent::Step { esp_id: d.id, out }],
        };
        let loc: Seq<HilErrorLoc> = match r {
            Err(e) => seq![HilErrorLoc { test, step: d.current_step, error: e }],
            Ok(_) => Seq::empty(),
        };
        RunOutcome {
            devs: rest.devs,
            events: ev + rest.events,
            failed: r is Err || rest.failed,
            done: (if r == Ok::<StepOutput, HilError>(StepOutput::TestDone) {
                1nat
            } else {
                0nat
            }) + rest.done,
            locs: loc + rest.locs,
        }
    }
}

/// The words that name an error on a device's screen.
pub open spec fn error_text(e: HilError) -> Seq<char> {
    match e {
        HilError::TimeoutAck => "TimeoutAck"@,
        HilError::WrongButtonName => "WrongButtonName"@,
        HilError::BackpacketTimeout => "BackpacketTimeout"@,
        HilError::BackpacketWrong => "BackpacketWrong"@,
        HilError::SnapshotDsl(k) => "SnapshotDsl "@ + decimal_text(k as nat),
        HilError::StepNotMatched => "StepNotMatched"@,
        HilError::ValueNotExpected { found, expected } => signed_decimal_text(found as int) + "/"@
            + signed_decimal_text(expected as int),
    }
}

/// Whether two locale tables hold the same entries.
pub open spec fn locales_match(a: Seq<TranslationLocale>, b: Seq<TranslationLocale>) -> bool {
    &&& a.len() == b.len()
    &&& forall|i: int|
        0 <= i < a.len() ==> (#[trigger] a[i]).locale == b[i].locale && a[i].translations@
            == b[i].translations@
}

/// Whether `r` announces `status` with the devices `devs`.
pub open spec fn status_renders(r: UnixResponse, status: CompetitionStatusResp, devs: Seq<HilDevice>) -> bool {
    &&& r.error == Some(false)
    &&& r.tag is None
    &&& match r.data {
        Some(UnixResponseData::ServerStatus(s)) => {
            &&& s.should_update == status.should_update
            &&& s.fkm_token == status.fkm_token
            &&& s.default_locale@ == status.default_locale@
            &&& locales_match(s.translations@, status.translations@)
            &&& s.devices@.len() == devs.len()
            &&& forall|i: int|
                0 <= i < devs.len() ==> #[trigger] s.devices@[i] == (CompetitionStatusDevice {
                    esp_id: devs[i].id,
                    sign_key: None,
                })
        },
        _ => false,
    }
}

/// Whether `r` is the packet that `ev` stands for.
pub open spec fn event_renders(r: UnixResponse, ev: HilEvent) -> bool {
    match ev {
        HilEvent::Step { esp_id, out } => match out {
            StepOutput::Test(d) => {
                &&& r.error is None
                &&& r.tag is None
                &&& r.data matches Some(UnixResponseData::TestPacket { esp_id: e, data })
                &&& e == esp_id && data == d
            },
            StepOutput::Resolved { should_scan_cards, penalty, value } => {
                &&& r.error == Some(false)
                &&& r.tag is None
                &&& r.data matches Some(UnixResponseData::IncidentResolved { esp_id: e, should_scan_cards: s, attempt })
                &&& e == esp_id && s == should_scan_cards
                &&& attempt.session_id@ == Seq::<char>::empty()
                &&& attempt.penalty == penalty && attempt.value == value
            },
            _ => false,
        },
        HilEvent::Failure { esp_id, test, step, error } => {
            &&& r.error == Some(false)
            &&& r.tag is None
            &&& r.data matches Some(UnixResponseData::CustomMessage { esp_id: e, line1, line2 })
            &&& e == esp_id
            &&& line1@ == "HIL Error T:"@ + decimal_text(test as nat)
            &&& line2@ == "S:"@ + decimal_text(step as nat) + " "@ + error_text(error)
        },
    }
}

/// What a tick at `now` with these draws does: the devices are stepped as
/// `run_devices` says, the queued records go out first, then the status
/// announcement if one was due, then one record per event.
pub open spec fn tick_result(
    old: HilState,
    now: u64,
    draws: Seq<(usize, u64)>,
    new: HilState,
    out: Seq<UnixResponse>,
) -> bool {
    let run = run_devices(old.tests, old.devices@, old.devices@.len() as int, now, draws);
    let q = old.packet_queue@.len();
    let pre = q + if old.should_send_status {
        1int
    } else {
        0int
    };
    &&& new.devices@ == run.devs
    &&& new.should_send_status == run.failed
    &&& new.completed_count == (if old.completed_count + run.done > usize::MAX {
        usize::MAX as int
    } else {
        old.completed_count + run.done
    })
    &&& new.error_log@ == old.error_log@ + run.locs
    &&& out.len() == pre + run.events.len()
    &&& out.take(q as int) == old.packet_queue@
    &&& old.should_send_status ==> status_renders(out[q as int], old.status, old.devices@)
    &&& forall|k: int|
        pre <= k < pre + run.events.len() ==> event_renders(#[trigger] out[k], run.events[k - pre])
    &&& new.wf()
    &&& new.packet_queue@.len() == 0
    &&& new.tests == old.tests
    &&& new.status == old.status
}

/// Whether the random draws suit the devices: one per device, each program
/// index below the number of programs, each solve time in range.
pub open spec fn draws_fit(draws: Seq<(usize, u64)>, n_devs: nat, n_tests: nat) -> bool {
    &&& draws.len() == n_devs
    &&& forall|i: int|
        0 <= i < draws.len() ==> (#[trigger] draws[i]).0 < n_tests && SOLVE_TIME_MIN <= draws[i].1
            < SOLVE_TIME_END
}

proof fn lemma_step_fits(tests: TestsRoot, d: HilDevice, now: u64, pick: usize, solve: u64)
    requires
        device_fits(d, tests.tests@.len()),
        pick < tests.tests@.len(),
    ensures
        device_fits(step_spec(tests, d, now, pick, solve).0, tests.tests@.len()),
{
}

proof fn lemma_run_fits(tests: TestsRoot, devs: Seq<HilDevice>, k: int, now: u64, draws: Seq<(usize, u64)>)
    requires
        forall|i: int| 0 <= i < devs.len() ==> device_fits(#[trigger] devs[i], tests.tests@.len()),
        k <= draws.len(),
        forall|i: int| 0 <= i < draws.len() ==> (#[trigger] draws[i]).0 < tests.tests@.len(),
    ensures
        forall|i: int|
            0 <= i < run_devices(tests, devs, k, now, draws).devs.len() ==> device_fits(
                #[trigger] run_devices(tests, devs, k, now, draws).devs[i],
                tests.tests@.len(),
            ),
    decreases k,
{
    if k > 0 && k <= devs.len() {
        let i = k - 1;
        let (d2, r) = step_spec(tests, devs[i], now, draws[i].0, draws[i].1);
        lemma_step_fits(tests, devs[i], now, draws[i].0, draws[i].1);
        let next_devs = match r {
            Err(_) => devs.remove(i),
            Ok(_) => devs.update(i, d2),
        };
        assert forall|j: int| 0 <= j < next_devs.len() implies device_fits(
            #[trigger] next_devs[j],
            tests.tests@.len(),
        ) by {
            if r is Err {
                if j < i {
                    assert(next_devs[j] == devs[j]);
                } else {
                    assert(next_devs[j] == devs[j + 1]);
                }
            }
        }
        lemma_run_fits(tests, next_devs, i, now, draws);
        assert(run_devices(tests, devs, k, now, draws).devs == run_devices(
            tests,
            next_devs,
            i,
            now,
            draws,
        ).devs);
    }
}

fn error_words(e: HilError) -> (r: String)
    ensures
        r@ == error_text(e),
{
    proof {
        reveal_strlit("TimeoutAck");
        reveal_strlit("WrongButtonName");
        reveal_strlit("BackpacketTimeout");
        reveal_strlit("BackpacketWrong");
        reveal_strlit("SnapshotDsl ");
        reveal_strlit("StepNotMatched");
        reveal_strlit("/");
    }
    match e {
        HilError::TimeoutAck => String::from_str("TimeoutAck"),
        HilError::WrongButtonName => String::from_str("WrongButtonName"),
        HilError::BackpacketTimeout => String::from_str("BackpacketTimeout"),
        HilError::BackpacketWrong => String::from_str("BackpacketWrong"),
        HilError::SnapshotDsl(k) => String::from_str("SnapshotDsl ").concat(
            i128_text(k as i128).as_str(),
        ),
        HilError::StepNotMatched => String::from_str("StepNotMatched"),
        HilError::ValueNotExpected { found, expected } => i128_text(found).concat("/").concat(
            i128_text(expected).as_str(),
        ),
    }
}

impl HilState {
    /// Whether every device's current program exists and no two buttons
    /// share a name.
    pub open spec fn wf(&self) -> bool {
        &&& unique_button_names(self.tests.buttons@)
        &&& forall|i: int|
            0 <= i < self.devices@.len() ==> device_fits(
                #[trigger] self.devices@[i],
                self.tests.tests@.len(),
            )
    }

    /// A fresh engine with no devices and nothing queued.
    pub fn new(tests: TestsRoot, status: CompetitionStatusResp) -> (r: HilState)
        requires
            unique_button_names(tests.buttons@),
        ensures
            r.devices@.len() == 0,
            r.tests == tests,
            r.status == status,
            !r.should_send_status,
            r.completed_count == 0,
            r.packet_queue@.len() == 0,
            r.error_log@.len() == 0,
            r.wf(),
    {
        HilState {
            devices: Vec::new(),
            tests,
            should_send_status: false,
            status,
            completed_count: 0,
            packet_queue: Vec::new(),
            error_log: Vec::new(),
        }
    }

    /// Queues a record with the given tag and error flag.
    pub fn send_resp(&mut self, data: UnixResponseData, tag: Option<u32>, error: bool)
        ensures
            final(self).packet_queue@ == old(self).packet_queue@.push(
                UnixResponse { tag, error: Some(error), data: Some(data) },
            ),
            final(self).devices == old(self).devices,
            final(self).tests == old(self).tests,
            final(self).status == old(self).status,
            final(self).should_send_status == old(self).should_send_status,
            final(self).completed_count == old(self).completed_count,
            final(self).error_log == old(self).error_log,
    {
        self.packet_queue.push(UnixResponse { tag, error: Some(error), data: Some(data) });
    }

    fn status_record(&self) -> (r: UnixResponse)
        ensures
            status_renders(r, self.status, self.devices@),
    {
        let mut ids: Vec<CompetitionStatusDevice> = Vec::new();
        let mut i: usize = 0;
        while i < self.devices.len()
            invariant
                i <= self.devices@.len(),
                ids@.len() == i,
                forall|j: int|
                    0 <= j < i ==> #[trigger] ids@[j] == (CompetitionStatusDevice {
                        esp_id: self.devices@[j].id,
                        sign_key: None,
                    }),
            decreases self.devices@.len() - i,
        {
            ids.push(CompetitionStatusDevice { esp_id: self.devices[i].id, sign_key: None });
            i = i + 1;
        }
        let translations = self.status.translations.clone();
        proof {
            assert forall|j: int| 0 <= j < translations@.len() implies (#[trigger] translations@[j]).locale
                == self.status.translations@[j].locale && translations@[j].translations@
                == self.status.translations@[j].translations@ by {
                assert(cloned::<TranslationLocale>(self.status.translations@[j], translations@[j]));
            }
        }
        UnixResponse {
            tag: None,
            error: Some(false),
            data: Some(
                UnixResponseData::ServerStatus(
                    CompetitionStatusResp {
                        should_update: self.status.should_update,
                        devices: ids,
                        translations,
                        default_locale: self.status.default_locale.clone(),
                        fkm_token: self.status.fkm_token,
                    },
                ),
            ),
        }
    }

    /// Queues a status announcement listing the current devices.
    pub fn send_status_resp(&mut self)
        ensures
            final(self).packet_queue@.len() == old(self).packet_queue@.len() + 1,
            final(self).packet_queue@.take(old(self).packet_queue@.len() as int)
                == old(self).packet_queue@,
            status_renders(
                final(self).packet_queue@.last(),
                old(self).status,
                old(self).devices@,
            ),
            final(self).devices == old(self).devices,
            final(self).tests == old(self).tests,
            final(self).status == old(self).status,
            final(self).should_send_status == old(self).should_send_status,
            final(self).completed_count == old(self).completed_count,
            final(self).error_log == old(self).error_log,
    {
        let r = self.status_record();
        self.packet_queue.push(r);
        assert(self.packet_queue@.take(old(self).packet_queue@.len() as int) =~= old(self).packet_queue@);
    }

    /// Queues a command for a device.
    pub fn send_test_packet(&mut self, esp_id: u32, data: TestPacketData)
        ensures
            final(self).packet_queue@ == old(self).packet_queue@.push(
                UnixResponse {
                    error: None,
                    tag: None,
                    data: Some(UnixResponseData::TestPacket { esp_id, data }),
                },
            ),
            final(self).devices == old(self).devices,
            final(self).tests == old(self).tests,
            final(self).status == old(self).status,
            final(self).should_send_status == old(self).should_send_status,
            final(self).completed_count == old(self).completed_count,
            final(self).error_log == old(self).error_log,
    {
        self.packet_queue.push(
            UnixResponse {
                error: None,
                tag: None,
                data: Some(UnixResponseData::TestPacket { esp_id, data }),
            },
        );
    }

    /// Queues a two-line message for a device's screen.
    pub fn send_device_custom_message(&mut self, esp_id: u32, line1: String, line2: String)
        ensures
            final(self).packet_queue@ == old(self).packet_queue@.push(
                UnixResponse {
                    tag: None,
                    error: Some(false),
                    data: Some(UnixResponseData::CustomMessage { esp_id, line1, line2 }),
                },
            ),
            final(self).devices == old(self).devices,
            final(self).tests == old(self).tests,
            final(self).status == old(self).status,
            final(self).should_send_status == old(self).should_send_status,
            final(self).completed_count == old(self).completed_count,
            final(self).error_log == old(self).error_log,
    {
        self.send_resp(UnixResponseData::CustomMessage { esp_id, line1, line2 }, None, false);
    }

    /// Adds a fresh device for each device the initial status lists.
    pub fn process_initial_status_devices(&mut self)
        requires
            old(self).wf(),
        ensures
            final(self).wf(),
            final(self).devices@.len() == old(self).devices@.len() + old(self).status.devices@.len(),
            final(self).devices@.take(old(self).devices@.len() as int) == old(self).devices@,
            forall|j: int|
                0 <= j < old(self).status.devices@.len() ==> {
                    let d = #[trigger] final(self).devices@[old(self).devices@.len() + j];
                    &&& d.id == old(self).status.devices@[j].esp_id
                    &&& d.current_test is None && d.current_step == 0 && !d.wait_for_ack
                    &&& d.next_step_time == 0 && d.last_test == usize::MAX
                    &&& d.back_packet is None && d.last_snapshot is None
                    &&& d.last_solve_time == 0 && d.completed_count == 0
                },
            final(self).tests == old(self).tests,
            final(self).status == old(self).status,
            final(self).packet_queue == old(self).packet_queue,
    {
        let ghost base = self.devices@;
        let mut i: usize = 0;
        while i < self.status.devices.len()
            invariant
                i <= self.status.devices@.len(),
                self.status == old(self).status,
                self.tests == old(self).tests,
                self.packet_queue == old(self).packet_queue,
                base == old(self).devices@,
                self.devices@.len() == base.len() + i,
                self.devices@.take(base.len() as int) == base,
                self.wf(),
                forall|j: int|
                    0 <= j < i ==> {
                        let d = #[trigger] self.devices@[base.len() + j];
                        &&& d.id == self.status.devices@[j].esp_id
                        &&& d.current_test is None && d.current_step == 0 && !d.wait_for_ack
                        &&& d.next_step_time == 0 && d.last_test == usize::MAX
                        &&& d.back_packet is None && d.last_snapshot is None
                        &&& d.last_solve_time == 0 && d.completed_count == 0
                    },
            decreases self.status.devices@.len() - i,
        {
            let id = self.status.devices[i].esp_id;
            self.devices.push(HilDevice::new(id));
            assert(self.devices@.take(base.len() as int) =~= base);
            i = i + 1;
        }
    }

    fn failure_message(esp_id: u32, test: usize, step: usize, error: HilError) -> (r: UnixResponse)
        ensures
            event_renders(r, HilEvent::Failure { esp_id, test, step, error }),
    {
        proof {
            reveal_strlit("HIL Error T:");
            reveal_strlit("S:");
            reveal_strlit(" ");
        }
        let line1 = String::from_str("HIL Error T:").concat(i128_text(test as i128).as_str());
        let line2 = String::from_str("S:").concat(i128_text(step as i128).as_str()).concat(" ").concat(
            error_words(error).as_str(),
        );
        UnixResponse {
            tag: None,
            error: Some(false),
            data: Some(UnixResponseData::CustomMessage { esp_id, line1, line2 }),
        }
    }

    fn step_message(esp_id: u32, out: StepOutput) -> (r: Option<UnixResponse>)
        ensures
            out is Idle || out is TestDone ==> r is None,
            !(out is Idle || out is TestDone) ==> (r matches Some(p) && event_renders(
                p,
                HilEvent::Step { esp_id, out },
            )),
    {
        match out {
            StepOutput::Test(data) => Some(
                UnixResponse {
                    error: None,
                    tag: None,
                    data: Some(UnixResponseData::TestPacket { esp_id, data }),
                },
            ),
            StepOutput::Resolved { should_scan_cards, penalty, value } => Some(
                UnixResponse {
                    error: Some(false),
                    tag: None,
                    data: Some(
                        UnixResponseData::IncidentResolved {
                            esp_id,
                            should_scan_cards,
                            attempt: IncidentAttempt { session_id: String::new(), penalty, value },
                        },
                    ),
                },
            ),
            _ => None,
        }
    }

    /// Runs one tick at time `now` with the given random draws (one per
    /// device): announces the status if due, steps every device from the last
    /// to the first, drops and reports those that fail, and hands out every
    /// queued record.
    #[verifier::rlimit(80)]
    pub fn process_with(&mut self, now: u64, draws: &Vec<(usize, u64)>) -> (out: Vec<UnixResponse>)
        requires
            old(self).wf(),
            draws_fit(draws@, old(self).devices@.len(), old(self).tests.tests@.len()),
        ensures
            tick_result(*old(self), now, draws@, *final(self), out@),
            final(self).wf(),
            final(self).packet_queue@.len() == 0,
            final(self).tests == old(self).tests,
            final(self).status == old(self).status,
    {
        if self.should_send_status {
            self.send_status_resp();
            self.should_send_status = false;
        }
        let ghost q = old(self).packet_queue@.len();
        let ghost base = self.packet_queue@.len() as int;
        let ghost devs0 = self.devices@;
        let ghost total = run_devices(self.tests, devs0, devs0.len() as int, now, draws@);
        let ghost c0 = self.completed_count as int;
        let ghost log0 = self.error_log@;
        let ghost mut evs: Seq<HilEvent> = Seq::empty();
        let ghost mut locs: Seq<HilErrorLoc> = Seq::empty();
        let ghost mut done: nat = 0;
        proof {
            lemma_run_fits(self.tests, devs0, devs0.len() as int, now, draws@);
        }
        let mut i: usize = self.devices.len();
        while i > 0
            invariant
                i <= self.devices@.len(),
                self.devices@.len() <= devs0.len(),
                draws_fit(draws@, devs0.len(), self.tests.tests@.len()),
                self.tests == old(self).tests,
                self.status == old(self).status,
                self.wf(),
                total == run_devices(self.tests, devs0, devs0.len() as int, now, draws@),
                total.devs == run_devices(self.tests, self.devices@, i as int, now, draws@).devs,
                total.events == evs + run_devices(self.tests, self.devices@, i as int, now, draws@).events,
                total.failed == (self.should_send_status || run_devices(
                    self.tests,
                    self.devices@,
                    i as int,
                    now,
                    draws@,
                ).failed),
                total.done == done + run_devices(self.tests, self.devices@, i as int, now, draws@).done,
                total.locs == locs + run_devices(self.tests, self.devices@, i as int, now, draws@).locs,
                self.completed_count == (if c0 + done > usize::MAX {
                    usize::MAX as int
                } else {
                    c0 + done
                }),
                self.error_log@ == log0 + locs,
                self.packet_queue@.len() == base + evs.len(),
                self.packet_queue@.take(base) == old(self).packet_queue@.take(q as int).add(
                    self.packet_queue@.take(base).skip(q as int),
                ),
                base >= q,
                self.packet_queue@.take(q as int) == old(self).packet_queue@,
                old(self).should_send_status ==> status_renders(
                    self.packet_queue@[q as int],
                    old(self).status,
                    old(self).devices@,
                ),
                base == q + if old(self).should_send_status {
                    1int
                } else {
                    0int
                },
                forall|j: int|
                    0 <= j < evs.len() ==> event_renders(
                        #[trigger] self.packet_queue@[base + j],
                        evs[j],
                    ),
            decreases i,
        {
            let idx = i - 1;
            let ghost before = self.devices@;
            let ghost rest_before = run_devices(self.tests, before, i as int, now, draws@);
            let ghost pq_before = self.packet_queue@;
            let mut device = self.devices.remove(idx);
            let pick = draws[idx].0;
            let solve = draws[idx].1;
            assert(device_fits(before[idx as int], self.tests.tests@.len()));
            let ghost d_old = device;
            let esp_id = device.id;
            let cur_test = device.current_test;
            let cur_step = device.current_step;
            let res = self.process_device(&mut device, now, pick, solve);
            let ghost test = match d_old.current_test {
                Some(t) => t,
                None => 0,
            };
            match res {
                Ok(out) => {
                    self.devices.insert(idx, device);
                    assert(self.devices@ =~= before.update(idx as int, device));
                    if matches!(out, StepOutput::TestDone) {
                        self.completed_count = self.completed_count.saturating_add(1);
                    }
                    match Self::step_message(esp_id, out) {
                        Some(p) => {
                            self.packet_queue.push(p);
                        },
                        None => {},
                    }
                    proof {
                        if out is TestDone {
                            done = done + 1;
                        }
                        if !(out is Idle || out is TestDone) {
                            evs = evs.push(HilEvent::Step { esp_id: d_old.id, out });
                        }
                    }
                },
                Err(e) => {
                    let test_idx = match cur_test {
                        Some(t) => t,
                        None => 0,
                    };
                    let msg = Self::failure_message(esp_id, test_idx, cur_step, e);
                    self.packet_queue.push(msg);
                    self.error_log.push(HilErrorLoc { test: test_idx, step: cur_step, error: e });
                    self.should_send_status = true;
                    proof {
                        evs = evs.push(
                            HilEvent::Failure { esp_id: d_old.id, test, step: d_old.current_step, error: e },
                        );
                        locs = locs.push(HilErrorLoc { test, step: d_old.current_step, error: e });
                    }
                },
            }
            proof {
                assert(self.packet_queue@.take(q as int) =~= old(self).packet_queue@) by {
                    assert(pq_before.take(q as int) == old(self).packet_queue@);
                }
                assert forall|j: int| 0 <= j < evs.len() implies event_renders(
                    #[trigger] self.packet_queue@[base + j],
                    evs[j],
                ) by {
                    if base + j < pq_before.len() {
                        assert(self.packet_queue@[base + j] == pq_before[base + j]);
                    }
                }
                if old(self).should_send_status {
                    assert(self.packet_queue@[q as int] == pq_before[q as int]);
                }
                assert(self.wf()) by {
                    assert forall|k: int| 0 <= k < self.devices@.len() implies device_fits(
                        #[trigger] self.devices@[k],
                        self.tests.tests@.len(),
                    ) by {
                        if res is Err {
                            if k < idx {
                                assert(self.devices@[k] == before[k]);
                            } else {
                                assert(self.devices@[k] == before[k + 1]);
                            }
                        }
                    }
                }
                assert(self.packet_queue@.take(base) =~= old(self).packet_queue@.take(q as int).add(
                    self.packet_queue@.take(base).skip(q as int),
                ));
            }
            i = idx;
        }
        let ghost pq_end = self.packet_queue@;
        let out = self.packet_queue.split_off(0);
        assert(out@ =~= self.packet_queue@ + out@);
        proof {
            assert(out@ == pq_end);
            let rest = run_devices(self.tests, self.devices@, 0, now, draws@);
            assert(rest.events == Seq::<HilEvent>::empty());
            assert(total.events =~= evs);
            assert forall|k: int| base <= k < base + total.events.len() implies event_renders(
                #[trigger] out@[k],
                total.events[k - base],
            ) by {
                assert(event_renders(pq_end[base + (k - base)], evs[k - base]));
            }
        }
        assert(tick_result(*old(self), now, draws@, *self, out@));
        out
    }

    /// Runs one tick at time `now`, drawing the random program indices and
    /// solve times that `process_with` needs.
    pub fn process(&mut self, now: u64) -> (out: Vec<UnixResponse>)
        requires
            old(self).wf(),
            old(self).devices@.len() > 0 ==> old(self).tests.tests@.len() > 0,
        ensures
            final(self).wf(),
            final(self).packet_queue@.len() == 0,
            final(self).tests == old(self).tests,
            final(self).status == old(self).status,
            exists|draws: Seq<(usize, u64)>|
                #[trigger] draws_fit(draws, old(self).devices@.len(), old(self).tests.tests@.len())
                    && tick_result(*old(self), now, draws, *final(self), out@),
    {
        let n = self.tests.tests.len();
        let mut draws: Vec<(usize, u64)> = Vec::new();
        let mut i: usize = 0;
        while i < self.devices.len()
            invariant
                n == self.tests.tests@.len(),
                self.devices@.len() > 0 ==> n > 0,
                i <= self.devices@.len(),
                draws@.len() == i,
                forall|j: int|
                    0 <= j < i ==> (#[trigger] draws@[j]).0 < n && SOLVE_TIME_MIN <= draws@[j].1
                        < SOLVE_TIME_END,
            decreases self.devices@.len() - i,
        {
            let pick = draw_below(0, n as u64) as usize;
            let solve = draw_below(SOLVE_TIME_MIN, SOLVE_TIME_END);
            draws.push((pick, solve));
            i = i + 1;
        }
        assert(draws_fit(draws@, self.devices@.len(), self.tests.tests@.len()));
        let out = self.process_with(now, &draws);
        out
    }

    fn find_device(&self, esp_id: u32) -> (r: Option<usize>)
        ensures
            r == device_index(self.devices@, esp_id),
            r matches Some(i) ==> i < self.devices@.len() && self.devices@[i as int].id == esp_id,
    {
        let mut i: usize = 0;
        while i < self.devices.len()
            invariant
                i <= self.devices@.len(),
                forall|j: int| 0 <= j < i ==> (#[trigger] self.devices@[j]).id != esp_id,
            decreases self.devices@.len() - i,
        {
            if self.devices[i].id == esp_id {
                return Some(i);
            }
            i = i + 1;
        }
        None
    }

    fn groups_for(&self, card: &CardInfo) -> (r: Vec<PossibleGroup>)
        ensures
            r@ == card_groups(self.tests.groups@, card.groups@),
    {
        let mut out: Vec<PossibleGroup> = Vec::new();
        let mut i: usize = 0;
        while i < self.tests.groups.len()
            invariant
                i <= self.tests.groups@.len(),
                out@ == card_groups(self.tests.groups@.take(i as int), card.groups@),
            decreases self.tests.groups@.len() - i,
        {
            let g = &self.tests.groups[i];
            let mut listed = false;
            let mut k: usize = 0;
            while k < card.groups.len()
                invariant
                    k <= card.groups@.len(),
                    listed == exists|j: int| 0 <= j < k && (#[trigger] card.groups@[j])@ == g.group_id@,
                decreases card.groups@.len() - k,
            {
                if card.groups[k] == g.group_id {
                    listed = true;
                }
                k = k + 1;
            }
            assert(self.tests.groups@.take(i + 1).drop_last() =~= self.tests.groups@.take(i as int));
            if listed {
                out.push(g.clone());
            }
            i = i + 1;
        }
        assert(self.tests.groups@.take(i as int) =~= self.tests.groups@);
        out
    }

    fn person_info(&mut self, card_text: &String, tag: Option<u32>) -> (r: Result<(), ()>)
        ensures
            unsigned_within(card_text@, u64::MAX as int) is None ==> r is Err && *final(self)
                == *old(self),
            unsigned_within(card_text@, u64::MAX as int) matches Some(id) ==> {
                &&& r is Ok
                &&& final(self).devices == old(self).devices
                &&& final(self).tests == old(self).tests
                &&& final(self).status == old(self).status
                &&& final(self).should_send_status == old(self).should_send_status
                &&& final(self).completed_count == old(self).completed_count
                &&& final(self).error_log == old(self).error_log
                &&& final(self).packet_queue@.len() == old(self).packet_queue@.len() + 1
                &&& final(self).packet_queue@.take(old(self).packet_queue@.len() as int)
                    == old(self).packet_queue@
                &&& person_renders(
                    final(self).packet_queue@.last(),
                    tag,
                    id as u64,
                    old(self).tests,
                )
            },
    {
        let parsed = parse_unsigned(&chars_of(card_text.as_str()), u64::MAX as u128);
        let id = match parsed {
            Some(v) => v as u64,
            None => {
                return Err(());
            },
        };
        let ghost q0 = self.packet_queue@;
        let rec = match self.tests.cards.get(&id) {
            Some(card) => {
                proof {
                    reveal_strlit("PL");
                    reveal_strlit("Male");
                }
                UnixResponse {
                    tag,
                    error: Some(false),
                    data: Some(
                        UnixResponseData::PersonInfoResp {
                            id: i128_text(id as i128),
                            registrant_id: Some(card.registrant_id),
                            name: card.name.clone(),
                            wca_id: Some(card.wca_id.clone()),
                            country_iso2: Some(String::from_str("PL")),
                            gender: String::from_str("Male"),
                            can_compete: card.can_compete,
                            possible_groups: Some(self.groups_for(card)),
                        },
                    ),
                }
            },
            None => {
                proof {
                    reveal_strlit("Competitor not found");
                }
                UnixResponse {
                    tag,
                    error: Some(true),
                    data: Some(
                        UnixResponseData::Error {
                            message: String::from_str("Competitor not found"),
                            should_reset_time: false,
                        },
                    ),
                }
            },
        };
        self.packet_queue.push(rec);
        assert(self.packet_queue@.take(q0.len() as int) =~= q0);
        Ok(())
    }

    /// Takes a request from the gateway at time `now`: connects new devices,
    /// answers card lookups from the fixtures, records attempts and
    /// acknowledgements against their device, and acknowledges the rest.
    /// Fails only on a card number that is no `u64`.
    pub fn feed(&mut self, packet: Option<UnixRequest>, now: u64) -> (r: Result<(), ()>)
        requires
            old(self).wf(),
        ensures
            final(self).wf(),
            final(self).tests == old(self).tests,
            final(self).status == old(self).status,
            feed_effect(*old(self), packet, now, *final(self), r),
    {
        let packet = match packet {
            Some(p) => p,
            None => {
                return Ok(());
            },
        };
        let tag = packet.tag;
        let ghost q0 = self.packet_queue@;
        match packet.data {
            UnixRequestData::RequestToConnectDevice { esp_id, .. } => {
                self.connect_device(esp_id, tag);
                Ok(())
            },
            UnixRequestData::PersonInfo { card_id, .. } => self.person_info(&card_id, tag),
            UnixRequestData::EnterAttempt { esp_id, .. } => {
                self.record_attempt(packet.data, esp_id, now, tag);
                Ok(())
            },
            UnixRequestData::TestAck { esp_id, snapshot } => {
                self.record_ack(esp_id, snapshot, now);
                Ok(())
            },
            _ => {
                self.send_resp(UnixResponseData::Empty, tag, false);
                proof {
                    assert(self.packet_queue@.take(q0.len() as int) =~= q0);
                }
                Ok(())
            },
        }
    }

    fn connect_device(&mut self, esp_id: u32, tag: Option<u32>)
        requires
            old(self).wf(),
        ensures
            final(self).wf(),
            final(self).tests == old(self).tests,
            final(self).status == old(self).status,
            feed_effect(
                *old(self),
                Some(UnixRequest { tag, data: UnixRequestData::RequestToConnectDevice { esp_id, device_type: arbitrary() } }),
                0,
                *final(self),
                Ok(()),
            ),
    {
        let ghost q0 = self.packet_queue@;
        let ghost d0 = self.devices@;
        if self.find_device(esp_id).is_some() {
            return;
        }
        self.devices.push(HilDevice::new(esp_id));
        self.send_status_resp();
        self.send_resp(UnixResponseData::Empty, tag, false);
        self.send_resp(
            UnixResponseData::TestPacket { esp_id, data: TestPacketData::HardStateReset },
            None,
            false,
        );
        proof {
            assert(self.packet_queue@.take(q0.len() as int) =~= q0);
            assert(self.devices@.drop_last() =~= d0);
            assert(self.wf()) by {
                assert forall|k: int| 0 <= k < self.devices@.len() implies device_fits(
                    #[trigger] self.devices@[k],
                    self.tests.tests@.len(),
                ) by {
                    if k < d0.len() {
                        assert(self.devices@[k] == d0[k]);
                    }
                }
            }
        }
    }

    #[verifier::rlimit(50)]
    fn record_attempt(&mut self, data: UnixRequestData, esp_id: u32, now: u64, tag: Option<u32>)
        requires
            old(self).wf(),
            data is EnterAttempt,
        ensures
            final(self).wf(),
            final(self).tests == old(self).tests,
            final(self).status == old(self).status,
            final(self).should_send_status == old(self).should_send_status,
            final(self).completed_count == old(self).completed_count,
            final(self).error_log == old(self).error_log,
            final(self).packet_queue@ == old(self).packet_queue@.push(final(self).packet_queue@.last()),
            empty_renders(final(self).packet_queue@.last(), tag),
            match device_index(old(self).devices@, esp_id) {
                None => final(self).devices@ == old(self).devices@,
                Some(i) => {
                    let d = old(self).devices@[i as int];
                    &&& final(self).devices@.len() == old(self).devices@.len()
                    &&& forall|k: int|
                        0 <= k < old(self).devices@.len() && k != i ==> #[trigger] final(self).devices@[k]
                            == old(self).devices@[k]
                    &&& final(self).devices@[i as int] == (HilDevice {
                        back_packet: Some(data),
                        next_step_time: now,
                        ..d
                    })
                },
            },
    {
        let ghost d0 = self.devices@;
        if let Some(i) = self.find_device(esp_id) {
            let mut dev = self.devices.remove(i);
            dev.back_packet = Some(data);
            dev.next_step_time = now;
            self.devices.insert(i, dev);
            proof {
                assert forall|k: int| 0 <= k < d0.len() && k != i implies #[trigger] self.devices@[k]
                    == d0[k] by {
                    if k < i {
                        assert(self.devices@[k] == d0[k]);
                    } else {
                        assert(self.devices@[k] == d0[k]);
                    }
                }
                assert(self.wf()) by {
                    assert forall|k: int| 0 <= k < self.devices@.len() implies device_fits(
                        #[trigger] self.devices@[k],
                        self.tests.tests@.len(),
                    ) by {
                        if k != i {
                            assert(self.devices@[k] == d0[k]);
                        }
                    }
                }
            }
        }
        self.send_resp(UnixResponseData::Empty, tag, false);
    }

    #[verifier::rlimit(50)]
    fn record_ack(&mut self, esp_id: u32, snapshot: SnapshotData, now: u64)
        requires
            old(self).wf(),
        ensures
            final(self).wf(),
            final(self).tests == old(self).tests,
            final(self).status == old(self).status,
            final(self).should_send_status == old(self).should_send_status,
            final(self).completed_count == old(self).completed_count,
            final(self).error_log == old(self).error_log,
            final(self).packet_queue == old(self).packet_queue,
            match device_index(old(self).devices@, esp_id) {
                None => final(self).devices@ == old(self).devices@,
                Some(i) => final(self).devices@ == old(self).devices@.update(
                    i as int,
                    HilDevice {
                        last_snapshot: Some(snapshot),
                        wait_for_ack: false,
                        next_step_time: sat_add(now, ACK_SETTLE_MS),
                        ..old(self).devices@[i as int]
                    },
                ),
            },
    {
        let ghost d0 = self.devices@;
        if let Some(i) = self.find_device(esp_id) {
            let mut dev = self.devices.remove(i);
            dev.last_snapshot = Some(snapshot);
            dev.wait_for_ack = false;
            dev.next_step_time = now.saturating_add(ACK_SETTLE_MS);
            self.devices.insert(i, dev);
            proof {
                assert(self.devices@ =~= d0.update(i as int, dev));
                assert(self.wf()) by {
                    assert forall|k: int| 0 <= k < self.devices@.len() implies device_fits(
                        #[trigger] self.devices@[k],
                        self.tests.tests@.len(),
                    ) by {
                        if k != i {
                            assert(self.devices@[k] == d0[k]);
                        }
                    }
                }
            }
        }
    }
}

/// Two ticks from the same engine state, at the same clock reading and with
/// the same random draws, step the devices alike and send records that stand
/// for the same events, in the same order.
pub proof fn lemma_process_deterministic(
    a: HilState,
    a2: HilState,
    out_a: Seq<UnixResponse>,
    b: HilState,
    b2: HilState,
    out_b: Seq<UnixResponse>,
    now: u64,
    draws: Seq<(usize, u64)>,
)
    requires
        a.tests == b.tests,
        a.devices@ == b.devices@,
        a.should_send_status == b.should_send_status,
        a.packet_queue@ == b.packet_queue@,
        a.completed_count == b.completed_count,
        tick_result(a, now, draws, a2, out_a),
        tick_result(b, now, draws, b2, out_b),
    ensures
        ({
            let run = run_devices(a.tests, a.devices@, a.devices@.len() as int, now, draws);
            let pre = a.packet_queue@.len() + if a.should_send_status {
                1int
            } else {
                0int
            };
            &&& a2.devices@ == b2.devices@
            &&& a2.should_send_status == b2.should_send_status
            &&& a2.completed_count == b2.completed_count
            &&& out_a.len() == out_b.len()
            &&& out_a.take(a.packet_queue@.len() as int) == out_b.take(a.packet_queue@.len() as int)
            &&& forall|k: int|
                pre <= k < pre + run.events.len() ==> event_renders(#[trigger] out_a[k], run.events[k - pre])
                    && event_renders(out_b[k], run.events[k - pre])
        }),
{
    let run = run_devices(a.tests, a.devices@, a.devices@.len() as int, now, draws);
    assert(run == run_devices(b.tests, b.devices@, b.devices@.len() as int, now, draws));
    let q = a.packet_queue@.len() as int;
    let pre = q + if a.should_send_status {
        1int
    } else {
        0int
    };
    assert(out_a.take(q) == a.packet_queue@);
    assert(out_b.take(q) == b.packet_queue@);
    assert forall|k: int| pre <= k < pre + run.events.len() implies event_renders(
        #[trigger] out_a[k],
        run.events[k - pre],
    ) && event_renders(out_b[k], run.events[k - pre]) by {
        assert(event_renders(out_a[k], run.events[k - pre]));
        assert(event_renders(out_b[k], run.events[k - pre]));
    }
}

} // verus!
