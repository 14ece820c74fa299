//! Firmware files: their names, choosing the image a device should get, and
//! the chunked transfer of an image to a device.

use vstd::prelude::*;
use crate::outside::{crc32, crc32_of, string_of};
use crate::packets::{Firmware, TimerPacket, TimerPacketInner};
use crate::text::{chars_of, same_chars, split_chars, split_on};
use crate::version::{
    lemma_newer_antisymmetric, lemma_newer_transitive, newer, parse_version, same_kind, stable_agree,
    version_text, Version, VersionView,
};

verus! {

/// Bytes per transfer chunk.
pub const UPDATE_CHUNK_SIZE: usize = 4096;

/// What a firmware file name states.
#[derive(Debug)]
pub struct FirmwareName {
    pub hardware: String,
    pub firmware: String,
    pub version: Version,
}

/// The name without its `.bin` suffix; `None` when it has none.
pub open spec fn bin_stem(name: Seq<char>) -> Option<Seq<char>> {
    if name.len() >= 4 && name.skip(name.len() - 4) == ".bin"@ {
        Some(name.take(name.len() - 4))
    } else {
        None
    }
}

/// The hardware, firmware kind and version text of `<hw>_<firmware>_<version>.bin`.
pub open spec fn name_parts(name: Seq<char>) -> Option<(Seq<char>, Seq<char>, Seq<char>)> {
    match bin_stem(name) {
        Some(stem) => {
            let p = split_on(stem, '_');
            if p.len() == 3 {
                Some((p[0], p[1], p[2]))
            } else {
                None
            }
        },
        None => None,
    }
}

/// Whether a file may be offered to a device with this hardware and kind in
/// this mode: dev builds only in dev mode, stable ones only outside it.
pub open spec fn candidate(name: Seq<char>, hw: Seq<char>, fw: Seq<char>, dev_mode: bool) -> bool {
    match name_parts(name) {
        Some((h, f, v)) => h == hw && f == fw && !(dev_mode && parse_version(v) is Stable) && !(!dev_mode
            && parse_version(v) is Dev),
        None => false,
    }
}

/// The version text of a well-formed file name.
pub open spec fn version_part(name: Seq<char>) -> Seq<char> {
    match name_parts(name) {
        Some((_, _, v)) => v,
        None => Seq::empty(),
    }
}

/// The version a file name states (for candidates only).
pub open spec fn name_version(name: Seq<char>) -> VersionView {
    parse_version(version_part(name))
}

/// Walking the first `k` names in order, the newest candidate so far (against
/// the device's own version) and its index.
pub open spec fn select_upto(
    names: Seq<Seq<char>>,
    k: int,
    current: VersionView,
    hw: Seq<char>,
    fw: Seq<char>,
    dev_mode: bool,
) -> (VersionView, Option<usize>)
    decreases k,
{
    if k <= 0 {
        (current, None)
    } else {
        let (best, idx) = select_upto(names, k - 1, current, hw, fw, dev_mode);
        let n = names[k - 1];
        if candidate(n, hw, fw, dev_mode) && newer(best, name_version(n)) {
            (name_version(n), Some((k - 1) as usize))
        } else {
            (best, idx)
        }
    }
}

/// Whether the stable versions among the device's own and the candidates'
/// write equal components alike.
pub open spec fn versions_agree(
    names: Seq<Seq<char>>,
    current: VersionView,
    hw: Seq<char>,
    fw: Seq<char>,
    dev_mode: bool,
) -> bool {
    &&& forall|j: int|
        0 <= j < names.len() && candidate(#[trigger] names[j], hw, fw, dev_mode) ==> stable_agree(
            current,
            name_version(names[j]),
        )
    &&& forall|j1: int, j2: int|
        0 <= j1 < names.len() && 0 <= j2 < names.len() && candidate(#[trigger] names[j1], hw, fw, dev_mode)
            && candidate(#[trigger] names[j2], hw, fw, dev_mode) ==> stable_agree(
            name_version(names[j1]),
            name_version(names[j2]),
        )
}

/// The image picked from the first `k` names is the newest: no candidate
/// among them is newer than it, and it is a candidate itself (or nothing was
/// picked and the device's version stands). This needs equal version
/// components to be written alike (`1` and `01` compare equal as numbers but
/// not as text).
pub proof fn lemma_select_newest(
    names: Seq<Seq<char>>,
    k: int,
    current: VersionView,
    hw: Seq<char>,
    fw: Seq<char>,
    dev_mode: bool,
)
    requires
        0 <= k <= names.len(),
        names.len() <= usize::MAX,
        versions_agree(names, current, hw, fw, dev_mode),
    ensures
        ({
            let (best, idx) = select_upto(names, k, current, hw, fw, dev_mode);
            &&& forall|j: int|
                0 <= j < k && candidate(#[trigger] names[j], hw, fw, dev_mode) ==> !newer(
                    best,
                    name_version(names[j]),
                )
            &&& idx is None ==> best == current
            &&& idx matches Some(i) ==> i < k && candidate(names[i as int], hw, fw, dev_mode) && best
                == name_version(names[i as int])
        }),
    decreases k,
{
    if k > 0 {
        lemma_select_newest(names, k - 1, current, hw, fw, dev_mode);
        let (b, i) = select_upto(names, k - 1, current, hw, fw, dev_mode);
        let n = names[k - 1];
        let v = name_version(n);
        if candidate(n, hw, fw, dev_mode) && newer(b, v) {
            assert forall|j: int| 0 <= j < k && candidate(#[trigger] names[j], hw, fw, dev_mode) implies !newer(
                v,
                name_version(names[j]),
            ) by {
                let w = name_version(names[j]);
                if j == k - 1 {
                    lemma_newer_antisymmetric(v, v);
                } else if newer(v, w) {
                    assert(same_kind(v, w));
                    assert(stable_agree(b, v));
                    assert(stable_agree(b, w));
                    lemma_newer_transitive(b, v, w);
                }
            }
            assert(select_upto(names, k, current, hw, fw, dev_mode) == (v, Some((k - 1) as usize)));
        } else {
            assert(select_upto(names, k, current, hw, fw, dev_mode) == (b, i));
            assert forall|j: int| 0 <= j < k && candidate(#[trigger] names[j], hw, fw, dev_mode) implies !newer(
                b,
                name_version(names[j]),
            ) by {
                if j == k - 1 {
                    assert(!newer(b, v));
                }
            }
        }
    }
}

/// The number of chunks an image of `size` bytes is sent in.
pub open spec fn chunk_count(size: nat) -> nat {
    (size + 4095) / 4096
}

fn bin_stem_of(name: &Vec<char>) -> (r: Option<Vec<char>>)
    ensures
        r matches Some(s) ==> bin_stem(name@) == Some(s@),
        r is None ==> bin_stem(name@) is None,
{
    let n = name.len();
    if n < 4 {
        return None;
    }
    let ok = name[n - 4] == '.' && name[n - 3] == 'b' && name[n - 2] == 'i' && name[n - 1] == 'n';
    proof {
        reveal_strlit(".bin");
        if ok {
            assert(name@.skip(n - 4) =~= ".bin"@);
        } else {
            assert(".bin"@[0] == '.' && ".bin"@[1] == 'b' && ".bin"@[2] == 'i' && ".bin"@[3] == 'n');
            assert(name@.skip(n - 4) != ".bin"@) by {
                if name@.skip(n - 4) == ".bin"@ {
                    assert(name@.skip(n - 4)[0] == name@[n - 4]);
                    assert(name@.skip(n - 4)[1] == name@[n - 3]);
                    assert(name@.skip(n - 4)[2] == name@[n - 2]);
                    assert(name@.skip(n - 4)[3] == name@[n - 1]);
                }
            }
        }
    }
    if !ok {
        return None;
    }
    let mut stem: Vec<char> = Vec::new();
    let mut k: usize = 0;
    while k < n - 4
        invariant
            n == name@.len(),
            n >= 4,
            k <= n - 4,
            stem@ == name@.take(k as int),
        decreases n - 4 - k,
    {
        stem.push(name[k]);
        assert(name@.take(k + 1) =~= name@.take(k as int).push(name@[k as int]));
        k = k + 1;
    }
    Some(stem)
}

/// Reads `<hardware>_<firmware>_<version>.bin`.
pub fn parse_firmware_name(name: &str) -> (r: Option<FirmwareName>)
    ensures
        r is None <==> name_parts(name@) is None,
        r matches Some(f) ==> name_parts(name@) == Some((f.hardware@, f.firmware@, version_part(name@)))
            && f.version@ == parse_version(version_part(name@)),
{
    let stem = match bin_stem_of(&chars_of(name)) {
        Some(s) => s,
        None => {
            return None;
        },
    };
    let parts = split_chars(&stem, '_');
    if parts.len() != 3 {
        return None;
    }
    let version_text = string_of(&parts[2]);
    Some(
        FirmwareName {
            hardware: string_of(&parts[0]),
            firmware: string_of(&parts[1]),
            version: Version::from_str(version_text.as_str()),
        },
    )
}

/// Picks, among the file names, the image to offer a device that runs
/// `current` on hardware `hw` with firmware kind `fw`: walking the names in
/// order, each candidate newer than the best so far becomes the best.
pub fn select_firmware(current: &Version, hw: &str, fw: &str, dev_mode: bool, names: &Vec<String>) -> (r:
    Option<usize>)
    ensures
        r == select_upto(
            names@.map_values(|s: String| s@),
            names@.len() as int,
            current@,
            hw@,
            fw@,
            dev_mode,
        ).1,
{
    let ghost ns = names@.map_values(|s: String| s@);
    let hwc = chars_of(hw);
    let fwc = chars_of(fw);
    let mut best: Option<Version> = None;
    let mut idx: Option<usize> = None;
    let mut k: usize = 0;
    while k < names.len()
        invariant
            k <= names@.len(),
            ns == names@.map_values(|s: String| s@),
            hwc@ == hw@,
            fwc@ == fw@,
            select_upto(ns, k as int, current@, hw@, fw@, dev_mode) == (
                match best {
                    Some(b) => b@,
                    None => current@,
                },
                idx,
            ),
        decreases names@.len() - k,
    {
        assert(ns[k as int] == names@[k as int]@);
        match parse_firmware_name(names[k].as_str()) {
            Some(f) => {
                let h_ok = same_chars(&chars_of(f.hardware.as_str()), &hwc);
                let f_ok = same_chars(&chars_of(f.firmware.as_str()), &fwc);
                let mode_ok = !(dev_mode && f.version.is_stable()) && !(!dev_mode && f.version.is_dev());
                if h_ok && f_ok && mode_ok {
                    let is_newer = match &best {
                        Some(b) => b.is_newer(&f.version),
                        None => current.is_newer(&f.version),
                    };
                    if is_newer {
                        best = Some(f.version);
                        idx = Some(k);
                    }
                }
            },
            None => {},
        }
        k = k + 1;
    }
    idx
}

/// The byte range `[start, end)` of chunk `i` of an image of `size` bytes.
pub fn chunk_bounds(size: usize, i: usize) -> (r: (usize, usize))
    requires
        i < chunk_count(size as nat),
    ensures
        r.0 == i * 4096,
        r.1 == if size - r.0 < 4096 {
            size as int
        } else {
            r.0 + 4096
        },
        r.0 < r.1 <= size,
{
    assert(i * 4096 < size) by (nonlinear_arith)
        requires
            i < (size + 4095) / 4096,
    ;
    let start = i * UPDATE_CHUNK_SIZE;
    let end = if size - start < UPDATE_CHUNK_SIZE {
        size
    } else {
        start + UPDATE_CHUNK_SIZE
    };
    (start, end)
}

/// The number of chunks an image of `size` bytes is sent in.
pub fn chunks_in(size: usize) -> (r: usize)
    ensures
        r == chunk_count(size as nat),
{
    size / UPDATE_CHUNK_SIZE + if size % UPDATE_CHUNK_SIZE == 0 {
        0
    } else {
        1
    }
}

/// The offer that starts a transfer: version, build time, size, the image's
/// CRC-32 and the firmware kind.
pub fn start_update_packet(fw: &Firmware) -> (r: TimerPacket)
    requires
        fw.data@.len() <= u32::MAX,
    ensures
        r.tag is None,
        r.data matches TimerPacketInner::StartUpdate { version, build_time, size, crc, firmware } && version@
            == version_text(fw.version@) && build_time == fw.build_time && size == fw.data@.len()
            && crc == crc32_of(fw.data@) && firmware@ == fw.firmware@,
{
    let crc = crc32(fw.data.as_slice());
    TimerPacket {
        tag: None,
        data: TimerPacketInner::StartUpdate {
            version: fw.version.inner_version(),
            build_time: fw.build_time,
            size: fw.data.len() as u32,
            crc,
            firmware: fw.firmware.clone(),
        },
    }
}

/// What the device did while a transfer waits on it.
#[derive(Debug, Clone, Copy, PartialEq, Eq, Structural)]
pub enum OtaEvent {
    /// Any frame but a close: an acknowledgement.
    Frame,
    /// The device closed the socket.
    Close,
    /// No frame came in time.
    Timeout,
    /// The pause after the last chunk is over.
    Drained,
}

/// What the session does next in a transfer.
#[derive(Debug, Clone, Copy, PartialEq, Eq, Structural)]
pub enum OtaStep {
    /// Send bytes `start..end` as a binary frame; then wait for an
    /// acknowledgement, or, after the last chunk, pause so the device can commit.
    Send { start: usize, end: usize, then_drain: bool },
    /// The transfer is over; `updated` when the whole image went out.
    Finished { updated: bool },
    /// The device did not answer in time: the session ends.
    Failed,
}

/// A transfer in progress: the offer has been sent and `next` chunks have gone out.
#[derive(Debug, Clone, Copy, PartialEq, Eq, Structural)]
pub struct OtaTransfer {
    pub size: usize,
    pub next: usize,
    pub draining: bool,
    pub over: bool,
}

/// The transfer's answer to an event.
pub open spec fn ota_next(t: OtaTransfer, ev: OtaEvent) -> (OtaTransfer, OtaStep) {
    let n = chunk_count(t.size as nat);
    if t.over {
        (t, OtaStep::Failed)
    } else if t.draining {
        match ev {
            OtaEvent::Drained => (OtaTransfer { over: true, ..t }, OtaStep::Finished { updated: true }),
            _ => (OtaTransfer { over: true, ..t }, OtaStep::Failed),
        }
    } else {
        match ev {
            OtaEvent::Frame => if t.next >= n {
                (OtaTransfer { over: true, ..t }, OtaStep::Finished { updated: true })
            } else {
                let start = t.next * 4096;
                let end = if t.size - start < 4096 {
                    t.size as int
                } else {
                    start + 4096
                };
                let last = t.next + 1 == n;
                (
                    OtaTransfer { next: (t.next + 1) as usize, draining: last, ..t },
                    OtaStep::Send { start: start as usize, end: end as usize, then_drain: last },
                )
            },
            OtaEvent::Close => (OtaTransfer { over: true, ..t }, OtaStep::Finished { updated: false }),
            _ => (OtaTransfer { over: true, ..t }, OtaStep::Failed),
        }
    }
}

impl OtaTransfer {
    /// A transfer of `size` bytes whose offer has just been sent.
    pub fn start(size: usize) -> (r: OtaTransfer)
        ensures
            r == (OtaTransfer { size, next: 0, draining: false, over: false }),
    {
        OtaTransfer { size, next: 0, draining: false, over: false }
    }

    /// Whether the transfer is in a state that `start` and `on_event` reach.
    pub open spec fn wf(&self) -> bool {
        self.next <= chunk_count(self.size as nat)
    }

    /// Advances the transfer on what the device did.
    pub fn on_event(&mut self, ev: OtaEvent) -> (r: OtaStep)
        requires
            old(self).wf(),
        ensures
            final(self).wf(),
            (*final(self), r) == ota_next(*old(self), ev),
    {
        if self.over {
            return OtaStep::Failed;
        }
        if self.draining {
            self.over = true;
            return match ev {
                OtaEvent::Drained => OtaStep::Finished { updated: true },
                _ => OtaStep::Failed,
            };
        }
        match ev {
            OtaEvent::Frame => {
                let n = chunks_in(self.size);
                if self.next >= n {
                    self.over = true;
                    OtaStep::Finished { updated: true }
                } else {
                    let (start, end) = chunk_bounds(self.size, self.next);
                    let last = self.next + 1 == n;
                    self.next = self.next + 1;
                    self.draining = last;
                    OtaStep::Send { start, end, then_drain: last }
                }
            },
            OtaEvent::Close => {
                self.over = true;
                OtaStep::Finished { updated: false }
            },
            _ => {
                self.over = true;
                OtaStep::Failed
            },
        }
    }
}

/// Sends of chunks `from..` that a run of acknowledgements produces, each
/// but the last followed by waiting and the last by the pause.
pub open spec fn ack_run(t: OtaTransfer, k: nat) -> Seq<OtaStep>
    decreases k,
{
    if k == 0 {
        Seq::empty()
    } else {
        let (t2, s) = ota_next(t, OtaEvent::Frame);
        seq![s] + ack_run(t2, (k - 1) as nat)
    }
}

/// When the device accepts the offer and acknowledges every chunk, an image
/// of `size > 0` bytes goes out as `ceil(size / 4096)` consecutive chunks
/// covering it, the last one followed by the pause and no other.
pub proof fn lemma_ota_chunks(size: usize, from: usize)
    requires
        size > 0,
        from < chunk_count(size as nat),
    ensures
        ({
            let n = chunk_count(size as nat);
            let run = ack_run(
                OtaTransfer { size, next: from, draining: false, over: false },
                (n - from) as nat,
            );
            &&& run.len() == n - from
            &&& forall|j: int|
                0 <= j < n - from ==> {
                    let i = from + j;
                    #[trigger] run[j] == OtaStep::Send {
                        start: (i * 4096) as usize,
                        end: (if size - i * 4096 < 4096 {
                            size as int
                        } else {
                            i * 4096 + 4096
                        }) as usize,
                        then_drain: i + 1 == n,
                    }
                }
        }),
    decreases chunk_count(size as nat) - from,
{
    let n = chunk_count(size as nat);
    let t = OtaTransfer { size, next: from, draining: false, over: false };
    let (t2, s) = ota_next(t, OtaEvent::Frame);
    if from + 1 < n {
        lemma_ota_chunks(size, (from + 1) as usize);
        assert(t2 == OtaTransfer { size, next: (from + 1) as usize, draining: false, over: false });
        let rest = ack_run(t2, (n - from - 1) as nat);
        let run = ack_run(t, (n - from) as nat);
        assert(run == seq![s] + rest);
        assert forall|j: int| 0 <= j < n - from implies #[trigger] run[j] == OtaStep::Send {
            start: ((from + j) * 4096) as usize,
            end: (if size - (from + j) * 4096 < 4096 {
                size as int
            } else {
                (from + j) * 4096 + 4096
            }) as usize,
            then_drain: from + j + 1 == n,
        } by {
            if j > 0 {
                assert(run[j] == rest[j - 1]);
            }
        }
    } else {
        let run = ack_run(t, (n - from) as nat);
        assert(n - from == 1);
        assert(ack_run(t2, 0) == Seq::<OtaStep>::empty());
        assert(run =~= seq![s]);
    }
}

} // verus!
