//! Records of the back-end control protocol: requests the gateway sends,
//! responses and events the back-end sends, and what they carry.

use vstd::prelude::*;

verus! {

/// An error the back-end reported, or a failed exchange.
#[derive(Debug)]
pub struct UnixError {
    pub message: String,
    pub should_reset_time: bool,
}

/// A command for a virtual device under test.
#[derive(Debug, Clone, Copy, PartialEq, Eq, Structural)]
pub enum TestPacketData {
    HardStateReset,
    ResetState,
    ScanCard(u64),
    ButtonPress { pin: u8, press_time: u64 },
    StackmatTime(u64),
    StackmatReset,
}

/// A device's report of its screen and timer state.
#[derive(Debug, Clone, Copy, PartialEq, Eq, Structural)]
pub struct SnapshotData {
    pub scene: usize,
    pub inspection_time: Option<u64>,
    pub solve_time: Option<u64>,
    pub penalty: Option<i8>,
    pub time_confirmed: bool,
    pub possible_groups: usize,
    pub group_selected_idx: usize,
    pub current_competitor: Option<u64>,
    pub current_judge: Option<u64>,
}

/// A request to the back-end, tagged when a response is awaited.
#[derive(Debug)]
pub struct UnixRequest {
    pub tag: Option<u32>,
    pub data: UnixRequestData,
}

#[derive(Debug)]
pub enum UnixRequestData {
    PersonInfo { card_id: String, esp_id: u32 },
    AutoSetupSettings,
    CreateAttendance { card_id: String, esp_id: u32 },
    EnterAttempt {
        value: u64,
        value_ms: u64,
        penalty: i64,
        solved_at: String,
        esp_id: u32,
        judge_id: String,
        competitor_id: String,
        is_delegate: bool,
        session_id: String,
        inspection_time: i64,
        group_id: String,
    },
    UpdateBatteryPercentage { esp_id: u32, battery_percentage: u8 },
    RequestToConnectDevice { esp_id: u32, device_type: String },
    TestAck { esp_id: u32, snapshot: SnapshotData },
}

/// A record from the back-end: a response when tagged, an event otherwise.
#[derive(Debug)]
pub struct UnixResponse {
    pub error: Option<bool>,
    pub tag: Option<u32>,
    pub data: Option<UnixResponseData>,
}

#[derive(Debug, Clone)]
pub struct AutoSetupSettings {
    pub ssid: String,
    pub psk: String,
    pub data: AutoSetupData,
}

#[derive(Debug, Clone)]
pub struct AutoSetupData {
    pub mdns: bool,
    pub ws_url: String,
}

#[derive(Debug)]
pub enum UnixResponseData {
    AutoSetupSettingsResp(AutoSetupSettings),
    ServerStatus(CompetitionStatusResp),
    PersonInfoResp {
        id: String,
        registrant_id: Option<i64>,
        name: String,
        wca_id: Option<String>,
        country_iso2: Option<String>,
        gender: String,
        can_compete: bool,
        possible_groups: Option<Vec<PossibleGroup>>,
    },
    CustomMessage { esp_id: u32, line1: String, line2: String },
    Error { message: String, should_reset_time: bool },
    Success { message: String },
    IncidentResolved { esp_id: u32, should_scan_cards: bool, attempt: IncidentAttempt },
    TestPacket { esp_id: u32, data: TestPacketData },
    Empty,
    UploadFirmware { file_name: String, file_data: String },
}

#[derive(Debug)]
pub struct TranslationLocale {
    pub locale: String,
    pub translations: Vec<TranslationRecord>,
}

#[derive(Debug)]
pub struct TranslationRecord {
    pub key: String,
    pub translation: String,
}

/// The competition state that the back-end announces.
#[derive(Debug)]
pub struct CompetitionStatusResp {
    pub should_update: bool,
    pub devices: Vec<CompetitionStatusDevice>,
    pub translations: Vec<TranslationLocale>,
    pub default_locale: String,
    pub fkm_token: i32,
}

#[derive(Debug, Clone, Copy, PartialEq, Eq, Structural)]
pub struct CompetitionStatusDevice {
    pub esp_id: u32,
    pub sign_key: Option<u32>,
}

#[derive(Debug)]
pub struct PossibleGroup {
    pub group_id: String,
    pub use_inspection: bool,
    pub secondary_text: String,
}

#[derive(Debug, Clone)]
pub struct WifiSettings {
    pub wifi_ssid: String,
    pub wifi_password: String,
}

#[derive(Debug)]
pub struct IncidentAttempt {
    pub session_id: String,
    pub penalty: Option<i64>,
    pub value: Option<u64>,
}

impl Clone for TranslationRecord {
    fn clone(&self) -> (r: Self)
        ensures
            r == *self,
    {
        TranslationRecord { key: self.key.clone(), translation: self.translation.clone() }
    }
}

impl Clone for TranslationLocale {
    fn clone(&self) -> (r: Self)
        ensures
            r.locale == self.locale,
            r.translations@ == self.translations@,
    {
        TranslationLocale { locale: self.locale.clone(), translations: self.translations.clone() }
    }
}

impl Clone for PossibleGroup {
    fn clone(&self) -> (r: Self)
        ensures
            r == *self,
    {
        PossibleGroup {
            group_id: self.group_id.clone(),
            use_inspection: self.use_inspection,
            secondary_text: self.secondary_text.clone(),
        }
    }
}

impl CompetitionStatusResp {
    /// The status assumed before the back-end has sent one.
    pub fn default_status() -> (r: Self)
        ensures
            r.should_update,
            r.devices@.len() == 0,
            r.translations@.len() == 0,
            r.default_locale@ == seq!['e', 'n'],
            r.fkm_token == 0,
    {
        let loc = String::from_str("en");
        proof {
            reveal_strlit("en");
        }
        CompetitionStatusResp {
            should_update: true,
            devices: Vec::new(),
            translations: Vec::new(),
            default_locale: loc,
            fkm_token: 0,
        }
    }
}

} // verus!
