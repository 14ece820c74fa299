//! The back-end multiplexer's bookkeeping: outstanding request tags, how a
//! response settles a request, and NUL-delimited record framing.

use vstd::prelude::*;
use std::collections::HashSet;
use crate::unix::{UnixError, UnixResponseData};

verus! {

broadcast use vstd::std_specs::hash::group_hash_axioms;

/// How long a tagged request waits for its response, in ms.
pub const UNIX_TIMEOUT_MS: u64 = 7500;
/// The pause before the socket is dialled again, in ms.
pub const RECONNECT_DELAY_MS: u64 = 500;

/// The tags of requests that await a response.
#[derive(Debug)]
pub struct PendingTags {
    pub tags: HashSet<u32>,
}

impl View for PendingTags {
    type V = Set<u32>;

    open spec fn view(&self) -> Set<u32> {
        self.tags@
    }
}

impl PendingTags {
    pub fn new() -> (r: PendingTags)
        ensures
            r@ == Set::<u32>::empty(),
    {
        PendingTags { tags: HashSet::new() }
    }

    /// Registers a request's tag; `false`, with nothing changed, when a request
    /// with that tag is already outstanding.
    pub fn register(&mut self, tag: u32) -> (r: bool)
        ensures
            r == !old(self)@.contains(tag),
            final(self)@ == old(self)@.insert(tag),
    {
        self.tags.insert(tag)
    }

    /// Settles the request with this tag, by its response or by its timeout;
    /// `true` only when it was outstanding, and then it no longer is.
    pub fn settle(&mut self, tag: u32) -> (r: bool)
        ensures
            r == old(self)@.contains(tag),
            final(self)@ == old(self)@.remove(tag),
    {
        self.tags.remove(&tag)
    }
}

/// How many of `k` attempts to settle `tag` succeed, starting from `s`.
pub open spec fn settled_count(s: Set<u32>, tag: u32, k: nat) -> nat
    decreases k,
{
    if k == 0 {
        0
    } else {
        (if s.contains(tag) {
            1nat
        } else {
            0nat
        }) + settled_count(s.remove(tag), tag, (k - 1) as nat)
    }
}

proof fn lemma_settled_absent(s: Set<u32>, tag: u32, k: nat)
    requires
        !s.contains(tag),
    ensures
        settled_count(s, tag, k) == 0,
    decreases k,
{
    if k > 0 {
        assert(s.remove(tag) =~= s);
        lemma_settled_absent(s, tag, (k - 1) as nat);
    }
}

/// A registered request is settled exactly once: of any number of
/// completions and timeouts that follow, exactly one takes effect.
pub proof fn lemma_single_settlement(s: Set<u32>, tag: u32, k: nat)
    requires
        k >= 1,
    ensures
        settled_count(s.insert(tag), tag, k) == 1,
{
    let t = s.insert(tag);
    lemma_settled_absent(t.remove(tag), tag, (k - 1) as nat);
}

/// What a request gets from its response: the back-end's error as an error,
/// an absent payload as `Empty`, any other payload as it is.
pub fn resolve_response(resp: Option<UnixResponseData>) -> (r: Result<UnixResponseData, UnixError>)
    ensures
        match resp {
            Some(UnixResponseData::Error { message, should_reset_time }) => r matches Err(e) && e.message
                == message && e.should_reset_time == should_reset_time,
            Some(d) => r == Ok::<UnixResponseData, UnixError>(d),
            None => r matches Ok(UnixResponseData::Empty),
        },
{
    match resp {
        Some(UnixResponseData::Error { message, should_reset_time }) => Err(
            UnixError { message, should_reset_time },
        ),
        Some(d) => Ok(d),
        None => Ok(UnixResponseData::Empty),
    }
}

/// The error a request gets when its record could not be queued.
pub fn send_failed() -> (r: UnixError)
    ensures
        r.message@ == "Send failed"@,
        !r.should_reset_time,
{
    UnixError { message: String::from_str("Send failed"), should_reset_time: false }
}

/// A record on the wire: the encoded record, then one NUL byte.
pub open spec fn framed(body: Seq<u8>) -> Seq<u8> {
    body.push(0u8)
}

/// The index of the first NUL byte.
pub open spec fn first_nul(b: Seq<u8>) -> Option<int> {
    if exists|i: int| 0 <= i < b.len() && b[i] == 0 {
        Some(choose|i: int| 0 <= i < b.len() && b[i] == 0 && forall|j: int| 0 <= j < i ==> b[j] != 0)
    } else {
        None
    }
}

/// Frames an encoded record for the socket.
pub fn frame_record(body: &Vec<u8>) -> (r: Vec<u8>)
    ensures
        r@ == framed(body@),
{
    let mut out: Vec<u8> = Vec::new();
    let mut i: usize = 0;
    while i < body.len()
        invariant
            i <= body@.len(),
            out@ == body@.take(i as int),
        decreases body@.len() - i,
    {
        out.push(body[i]);
        assert(body@.take(i + 1) =~= body@.take(i as int).push(body@[i as int]));
        i = i + 1;
    }
    assert(body@.take(i as int) =~= body@);
    out.push(0);
    out
}

/// Takes the first complete record out of the bytes read so far: the bytes
/// before the first NUL, with the NUL dropped and the rest kept; `None`, with
/// nothing taken, while no NUL has arrived.
pub fn take_record(buf: &mut Vec<u8>) -> (r: Option<Vec<u8>>)
    ensures
        match first_nul(old(buf)@) {
            Some(i) => r matches Some(rec) && rec@ == old(buf)@.take(i) && final(buf)@ == old(buf)@.skip(
                i + 1,
            ),
            None => r is None && final(buf)@ == old(buf)@,
        },
{
    let mut i: usize = 0;
    while i < buf.len()
        invariant
            i <= buf@.len(),
            buf@ == old(buf)@,
            forall|j: int| 0 <= j < i ==> buf@[j] != 0,
        decreases buf@.len() - i,
    {
        if buf[i] == 0 {
            let mut rec = buf.split_off(i + 1);
            core::mem::swap(buf, &mut rec);
            rec.pop();
            proof {
                let b = old(buf)@;
                assert(first_nul(b) == Some(i as int)) by {
                    let c = choose|c: int| 0 <= c < b.len() && b[c] == 0 && forall|j: int| 0 <= j < c ==> b[j] != 0;
                    assert(c == i);
                }
                assert(rec@ =~= b.take(i as int));
            }
            return Some(rec);
        }
        i = i + 1;
    }
    None
}

/// A framed record is read back as itself, and the bytes after it stay.
pub proof fn lemma_frame_round_trip(body: Seq<u8>, rest: Seq<u8>)
    requires
        forall|j: int| 0 <= j < body.len() ==> body[j] != 0,
    ensures
        first_nul(framed(body) + rest) == Some(body.len() as int),
        (framed(body) + rest).take(body.len() as int) == body,
        (framed(body) + rest).skip(body.len() as int + 1) == rest,
{
    let b = framed(body) + rest;
    assert(b[body.len() as int] == 0);
    let c = choose|c: int| 0 <= c < b.len() && b[c] == 0 && forall|j: int| 0 <= j < c ==> b[j] != 0;
    if c < body.len() {
        assert(b[c] == body[c]);
    }
    if c > body.len() {
        assert(b[body.len() as int] == 0);
    }
    assert(b.take(body.len() as int) =~= body);
    assert(b.skip(body.len() as int + 1) =~= rest);
}

} // verus!
