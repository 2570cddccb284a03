//! The frame of a persisted graph snapshot.
//!
//! A snapshot on disk starts with a fixed header: four magic bytes and the
//! version of the layout, as a 32-bit number in little-endian order. What
//! follows is the payload. A file with another header is no snapshot of
//! this version: it is refused, and the caller goes on as if there were no
//! cache.

use crate::dependency::{DependencyGraph, Timestamp};
use vstd::prelude::*;

verus! {

/// The version of the snapshot layout.
pub const SNAPSHOT_VERSION: u8 = 1;

/// The header of a snapshot: `BALD` and the version.
pub open spec fn header() -> Seq<u8> {
    seq![0x42u8, 0x41u8, 0x4cu8, 0x44u8, SNAPSHOT_VERSION, 0u8, 0u8, 0u8]
}

/// The payload of a framed snapshot, if the bytes start with the header.
pub open spec fn unframe_spec(bytes: Seq<u8>) -> Option<Seq<u8>> {
    if bytes.len() >= 8 && bytes.subrange(0, 8) == header() {
        Some(bytes.subrange(8, bytes.len() as int))
    } else {
        None
    }
}

/// The header, as bytes to write.
fn header_bytes() -> (h: Vec<u8>)
    ensures
        h@ == header(),
{
    let mut h: Vec<u8> = Vec::new();
    h.push(0x42);
    h.push(0x41);
    h.push(0x4c);
    h.push(0x44);
    h.push(SNAPSHOT_VERSION);
    h.push(0);
    h.push(0);
    h.push(0);
    h
}

/// Puts the header in front of a payload.
pub fn frame_snapshot(payload: &Vec<u8>) -> (framed: Vec<u8>)
    ensures
        framed@ == header() + payload@,
{
    let mut framed = header_bytes();
    let mut i: usize = 0;
    while i < payload.len()
        invariant
            i <= payload@.len(),
            framed@ == header() + payload@.subrange(0, i as int),
        decreases payload@.len() - i,
    {
        framed.push(payload[i]);
        i += 1;
    }
    framed
}

/// Takes the header off a framed snapshot. Bytes that do not start with
/// the header of this version are refused.
pub fn unframe_snapshot(bytes: &Vec<u8>) -> (payload: Option<Vec<u8>>)
    ensures
        match payload {
            Some(p) => unframe_spec(bytes@) == Some(p@),
            None => unframe_spec(bytes@) is None,
        },
{
    let h = header_bytes();
    if bytes.len() < 8 {
        return None;
    }
    let mut i: usize = 0;
    while i < 8
        invariant
            i <= 8,
            h@ == header(),
            bytes@.len() >= 8,
            forall|j: int| 0 <= j < i ==> bytes@[j] == h@[j],
        decreases 8 - i,
    {
        if bytes[i] != h[i] {
            return None;
        }
        i += 1;
    }
    assert(bytes@.subrange(0, 8) =~= header());
    let mut payload: Vec<u8> = Vec::new();
    let mut k: usize = 8;
    while k < bytes.len()
        invariant
            8 <= k <= bytes@.len(),
            payload@ == bytes@.subrange(8, k as int),
        decreases bytes@.len() - k,
    {
        payload.push(bytes[k]);
        k += 1;
    }
    Some(payload)
}

/// A framed payload is read back as it was written.
pub proof fn law_frame_round_trip(payload: Seq<u8>)
    ensures
        unframe_spec(header() + payload) == Some(payload),
{
    let framed = header() + payload;
    assert(framed.subrange(0, 8) =~= header());
}

/// A snapshot of another version, or with other magic bytes, is refused.
pub proof fn law_foreign_header_refused(bytes: Seq<u8>, i: int)
    requires
        0 <= i < 8,
        bytes.len() < 8 || bytes[i] != header()[i],
    ensures
        unframe_spec(bytes) is None,
{
}

/// Decides whether a graph that was read from a snapshot may be used: it
/// may, if the modification times observed now are the recorded ones.
pub fn accept_snapshot(graph: DependencyGraph, observed: &Vec<Option<Timestamp>>) -> (r: Option<
    DependencyGraph,
>)
    ensures
        r is Some <==> graph.up_to_date(observed@),
        r matches Some(g) ==> g == graph,
{
    if graph.is_up_to_date(observed) {
        Some(graph)
    } else {
        None
    }
}

} // verus!
