//! The gateway's shared state as the back-end's status announcements set it.

use vstd::prelude::*;
use std::collections::HashMap;
use crate::outside::{ascii_of, transliterate};
use crate::unix::{CompetitionStatusDevice, CompetitionStatusResp, TranslationLocale, TranslationRecord};

verus! {

broadcast use vstd::std_specs::hash::group_hash_axioms;

/// Settings the back-end holds for one device.
#[derive(Debug, Clone, Copy, PartialEq, Eq, Structural)]
pub struct DeviceSettings {
    pub sign_key: Option<u32>,
}

/// The state that sessions read.
#[derive(Debug)]
pub struct AppState {
    pub should_update: bool,
    pub devices_settings: HashMap<u32, DeviceSettings>,
    pub locales: Vec<TranslationLocale>,
    pub default_locale: String,
    pub fkm_token: i32,
    pub secure_rfid: bool,
}

/// A locale table as text: each locale with its (key, translation) pairs.
pub open spec fn locales_view(ls: Seq<TranslationLocale>) -> Seq<(Seq<char>, Seq<(Seq<char>, Seq<char>)>)> {
    ls.map_values(
        |l: TranslationLocale|
            (l.locale@, l.translations@.map_values(|t: TranslationRecord| (t.key@, t.translation@))),
    )
}

/// The table with every translation transliterated to ASCII.
pub open spec fn ascii_locales(ls: Seq<TranslationLocale>) -> Seq<(Seq<char>, Seq<(Seq<char>, Seq<char>)>)> {
    ls.map_values(
        |l: TranslationLocale|
            (
                l.locale@,
                l.translations@.map_values(|t: TranslationRecord| (t.key@, ascii_of(t.translation@))),
            ),
    )
}

/// The settings map that a list of status devices describes; of two entries
/// for one device the later counts.
pub open spec fn settings_of(devs: Seq<CompetitionStatusDevice>) -> Map<u32, DeviceSettings>
    decreases devs.len(),
{
    if devs.len() == 0 {
        Map::empty()
    } else {
        settings_of(devs.drop_last()).insert(
            devs.last().esp_id,
            DeviceSettings { sign_key: devs.last().sign_key },
        )
    }
}

proof fn lemma_settings_dom(devs: Seq<CompetitionStatusDevice>)
    ensures
        settings_of(devs).dom() == devs.map_values(|d: CompetitionStatusDevice| d.esp_id).to_set(),
    decreases devs.len(),
{
    if devs.len() > 0 {
        lemma_settings_dom(devs.drop_last());
        let ids = devs.map_values(|d: CompetitionStatusDevice| d.esp_id);
        let prev = devs.drop_last().map_values(|d: CompetitionStatusDevice| d.esp_id);
        assert(ids =~= prev.push(devs.last().esp_id));
        assert(ids.to_set() =~= prev.to_set().insert(devs.last().esp_id)) by {
            assert forall|x: u32| ids.to_set().contains(x) implies prev.to_set().insert(
                devs.last().esp_id,
            ).contains(x) by {
                let k = choose|k: int| 0 <= k < ids.len() && ids[k] == x;
                if k < prev.len() {
                    assert(prev[k] == x);
                }
            }
            assert forall|x: u32| prev.to_set().insert(devs.last().esp_id).contains(x) implies ids.to_set().contains(
                x,
            ) by {
                if x != devs.last().esp_id {
                    let k = choose|k: int| 0 <= k < prev.len() && prev[k] == x;
                    assert(ids[k] == x);
                } else {
                    assert(ids[ids.len() - 1] == x);
                }
            }
        }
    } else {
        assert(devs.map_values(|d: CompetitionStatusDevice| d.esp_id).to_set() =~= Set::empty());
    }
}

/// The state after a status announcement: flags, token and default locale
/// copied, translations transliterated, device settings replaced.
pub open spec fn after_status(old: AppState, status: CompetitionStatusResp, new: AppState) -> bool {
    &&& new.should_update == status.should_update
    &&& new.fkm_token == status.fkm_token
    &&& new.default_locale@ == status.default_locale@
    &&& locales_view(new.locales@) == ascii_locales(status.translations@)
    &&& new.devices_settings@ == settings_of(status.devices@)
    &&& new.secure_rfid == old.secure_rfid
}

/// Whether a status announcement changes what devices are told.
pub open spec fn status_changes(old: AppState, status: CompetitionStatusResp) -> bool {
    ||| old.fkm_token != status.fkm_token
    ||| old.should_update != status.should_update
    ||| locales_view(old.locales@) != ascii_locales(status.translations@)
    ||| old.default_locale@ != status.default_locale@
    ||| old.devices_settings@ != settings_of(status.devices@)
}

fn ascii_table(ls: &Vec<TranslationLocale>) -> (r: Vec<TranslationLocale>)
    ensures
        locales_view(r@) == ascii_locales(ls@),
{
    let mut out: Vec<TranslationLocale> = Vec::new();
    let mut i: usize = 0;
    while i < ls.len()
        invariant
            i <= ls@.len(),
            out@.len() == i,
            locales_view(out@) == ascii_locales(ls@.take(i as int)),
        decreases ls@.len() - i,
    {
        let l = &ls[i];
        let mut recs: Vec<TranslationRecord> = Vec::new();
        let mut k: usize = 0;
        while k < l.translations.len()
            invariant
                k <= l.translations@.len(),
                recs@.len() == k,
                recs@.map_values(|t: TranslationRecord| (t.key@, t.translation@)) == l.translations@.take(
                    k as int,
                ).map_values(|t: TranslationRecord| (t.key@, ascii_of(t.translation@))),
            decreases l.translations@.len() - k,
        {
            let t = &l.translations[k];
            let rec = TranslationRecord {
                key: t.key.clone(),
                translation: transliterate(t.translation.as_str()),
            };
            let ghost old_recs = recs@;
            recs.push(rec);
            proof {
                assert(l.translations@.take(k + 1) =~= l.translations@.take(k as int).push(*t));
                let lhs = recs@.map_values(|t: TranslationRecord| (t.key@, t.translation@));
                let rhs = l.translations@.take(k + 1).map_values(
                    |t: TranslationRecord| (t.key@, ascii_of(t.translation@)),
                );
                assert forall|j: int| 0 <= j < k + 1 implies lhs[j] == rhs[j] by {
                    if j < k {
                        assert(recs@[j] == old_recs[j]);
                        assert(old_recs.map_values(|t: TranslationRecord| (t.key@, t.translation@))[j] == lhs[j]);
                        assert(l.translations@.take(k as int).map_values(
                            |t: TranslationRecord| (t.key@, ascii_of(t.translation@)),
                        )[j] == rhs[j]);
                    }
                }
                assert(recs@.map_values(|t: TranslationRecord| (t.key@, t.translation@)) =~= l.translations@.take(
                    k + 1,
                ).map_values(|t: TranslationRecord| (t.key@, ascii_of(t.translation@))));
            }
            k = k + 1;
        }
        assert(l.translations@.take(k as int) =~= l.translations@);
        let ghost old_out = out@;
        out.push(TranslationLocale { locale: l.locale.clone(), translations: recs });
        proof {
            assert(ls@.take(i + 1) =~= ls@.take(i as int).push(*l));
            assert forall|j: int| 0 <= j < i + 1 implies locales_view(out@)[j] == ascii_locales(
                ls@.take(i + 1),
            )[j] by {
                if j < i {
                    assert(out@[j] == old_out[j]);
                    assert(locales_view(old_out)[j] == locales_view(out@)[j]);
                    assert(ascii_locales(ls@.take(i as int))[j] == ascii_locales(ls@.take(i + 1))[j]);
                }
            }
            assert(locales_view(out@) =~= ascii_locales(ls@.take(i + 1)));
        }
        i = i + 1;
    }
    assert(ls@.take(i as int) =~= ls@);
    out
}

fn same_records(a: &Vec<TranslationRecord>, b: &Vec<TranslationRecord>) -> (r: bool)
    ensures
        r == (a@.map_values(|t: TranslationRecord| (t.key@, t.translation@)) == b@.map_values(
            |t: TranslationRecord| (t.key@, t.translation@),
        )),
{
    let ghost va = a@.map_values(|t: TranslationRecord| (t.key@, t.translation@));
    let ghost vb = b@.map_values(|t: TranslationRecord| (t.key@, t.translation@));
    if a.len() != b.len() {
        assert(va.len() != vb.len());
        return false;
    }
    let mut i: usize = 0;
    while i < a.len()
        invariant
            a@.len() == b@.len(),
            i <= a@.len(),
            va == a@.map_values(|t: TranslationRecord| (t.key@, t.translation@)),
            vb == b@.map_values(|t: TranslationRecord| (t.key@, t.translation@)),
            forall|j: int| 0 <= j < i ==> va[j] == vb[j],
        decreases a@.len() - i,
    {
        if a[i].key != b[i].key || a[i].translation != b[i].translation {
            assert(va[i as int] != vb[i as int]);
            return false;
        }
        i = i + 1;
    }
    assert(va =~= vb);
    true
}

fn same_locales(a: &Vec<TranslationLocale>, b: &Vec<TranslationLocale>) -> (r: bool)
    ensures
        r == (locales_view(a@) == locales_view(b@)),
{
    if a.len() != b.len() {
        assert(locales_view(a@).len() != locales_view(b@).len());
        return false;
    }
    let mut i: usize = 0;
    while i < a.len()
        invariant
            a@.len() == b@.len(),
            i <= a@.len(),
            forall|j: int| 0 <= j < i ==> locales_view(a@)[j] == locales_view(b@)[j],
        decreases a@.len() - i,
    {
        if a[i].locale != b[i].locale || !same_records(&a[i].translations, &b[i].translations) {
            assert(locales_view(a@)[i as int] != locales_view(b@)[i as int]);
            return false;
        }
        i = i + 1;
    }
    assert(locales_view(a@) =~= locales_view(b@));
    true
}

fn settings_map(devs: &Vec<CompetitionStatusDevice>) -> (r: HashMap<u32, DeviceSettings>)
    ensures
        r@ == settings_of(devs@),
{
    let mut m: HashMap<u32, DeviceSettings> = HashMap::new();
    let mut i: usize = 0;
    while i < devs.len()
        invariant
            i <= devs@.len(),
            m@ == settings_of(devs@.take(i as int)),
        decreases devs@.len() - i,
    {
        m.insert(devs[i].esp_id, DeviceSettings { sign_key: devs[i].sign_key });
        assert(devs@.take(i + 1).drop_last() =~= devs@.take(i as int));
        i = i + 1;
    }
    assert(devs@.take(i as int) =~= devs@);
    m
}

fn same_settings(a: &HashMap<u32, DeviceSettings>, b: &HashMap<u32, DeviceSettings>, keys: &Vec<CompetitionStatusDevice>) -> (r: bool)
    requires
        b@.dom() == keys@.map_values(|d: CompetitionStatusDevice| d.esp_id).to_set(),
    ensures
        r == (a@ == b@),
{
    let ghost ids = keys@.map_values(|d: CompetitionStatusDevice| d.esp_id);
    if a.len() != b.len() {
        assert(a@.dom().len() != b@.dom().len());
        return false;
    }
    let mut i: usize = 0;
    while i < keys.len()
        invariant
            i <= keys@.len(),
            ids == keys@.map_values(|d: CompetitionStatusDevice| d.esp_id),
            b@.dom() == ids.to_set(),
            a@.dom().len() == b@.dom().len(),
            forall|j: int| 0 <= j < i ==> a@.contains_key(#[trigger] ids[j]) && a@[ids[j]] == b@[ids[j]],
        decreases keys@.len() - i,
    {
        let k = keys[i].esp_id;
        assert(ids[i as int] == k);
        assert(b@.contains_key(k));
        match (a.get(&k), b.get(&k)) {
            (Some(x), Some(y)) => {
                if *x != *y {
                    return false;
                }
                assert(a@.contains_key(k) && a@[k] == *x);
                assert(b@[k] == *y);
            },
            _ => {
                return false;
            },
        }
        i = i + 1;
    }
    proof {
        assert(b@.dom().subset_of(a@.dom())) by {
            assert forall|x: u32| b@.dom().contains(x) implies a@.dom().contains(x) by {
                let j = choose|j: int| 0 <= j < ids.len() && ids[j] == x;
                assert(a@.contains_key(ids[j]));
            }
        }
        assert(b@.dom().finite());
        vstd::set_lib::lemma_subset_equality(b@.dom(), a@.dom());
        assert forall|x: u32| #[trigger] a@.contains_key(x) implies a@[x] == b@[x] by {
            let j = choose|j: int| 0 <= j < ids.len() && ids[j] == x;
            assert(a@.contains_key(ids[j]));
        }
        assert(a@ =~= b@);
    }
    true
}

impl AppState {
    /// The state before any announcement: no updates, no devices, English.
    pub fn new() -> (r: AppState)
        ensures
            !r.should_update,
            r.devices_settings@ == Map::<u32, DeviceSettings>::empty(),
            r.locales@.len() == 0,
            r.default_locale@ == "en"@,
            r.fkm_token == 0,
            !r.secure_rfid,
    {
        AppState {
            should_update: false,
            devices_settings: HashMap::new(),
            locales: Vec::new(),
            default_locale: String::from_str("en"),
            fkm_token: 0,
            secure_rfid: false,
        }
    }

    /// Takes a status announcement from the back-end and reports whether what
    /// devices are told changed (sessions then re-send their settings and
    /// re-check for firmware).
    pub fn apply_server_status(&mut self, status: CompetitionStatusResp) -> (changed: bool)
        ensures
            after_status(*old(self), status, *final(self)),
            changed == status_changes(*old(self), status),
    {
        let translations = ascii_table(&status.translations);
        let settings = settings_map(&status.devices);
        proof {
            lemma_settings_dom(status.devices@);
        }
        let changed = self.fkm_token != status.fkm_token || self.should_update != status.should_update
            || !same_locales(&self.locales, &translations) || self.default_locale
            != status.default_locale || !same_settings(
            &self.devices_settings,
            &settings,
            &status.devices,
        );
        self.fkm_token = status.fkm_token;
        self.should_update = status.should_update;
        self.locales = translations;
        self.default_locale = status.default_locale;
        self.devices_settings = settings;
        changed
    }
}

/// After a status announcement the devices with settings are exactly the
/// devices the announcement lists.
pub proof fn lemma_status_sets_devices(old: AppState, status: CompetitionStatusResp, new: AppState)
    requires
        after_status(old, status, new),
    ensures
        new.devices_settings@.dom() == status.devices@.map_values(|d: CompetitionStatusDevice| d.esp_id).to_set(),
{
    lemma_settings_dom(status.devices@);
}

} // verus!
