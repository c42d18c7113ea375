//! Choosing the encoding in which a file is read.

use crate::charset::{bom_encoding, detected_encoding, labelled_encoding, Charset};
use vstd::prelude::*;
use vstd::slice::slice_subrange;

verus! {

/// How many bytes from the start of a file are looked at, at most, to find
/// its encoding.
pub const ENCODING_PROBE_BYTES: usize = 24 * 1024 * 1024;

/// The part of `probe` that is looked at.
pub open spec fn probed(probe: Seq<u8>) -> Seq<u8> {
    if probe.len() > ENCODING_PROBE_BYTES {
        probe.take(ENCODING_PROBE_BYTES as int)
    } else {
        probe
    }
}

/// The name of the encoding in which a file that starts with `probe` is read.
///
/// An encoding that the caller gives is taken as it is. Without one, a
/// byte-order mark decides; without a mark, content detection does, and it is
/// told that it saw the whole file when the probe is shorter than the cap.
pub open spec fn resolved_encoding(probe: Seq<u8>, given: Option<Seq<char>>) -> Seq<char> {
    match given {
        Some(name) => name,
        None => match bom_encoding(probed(probe)) {
            Some(name) => name,
            None => detected_encoding(probed(probe), probe.len() < ENCODING_PROBE_BYTES),
        },
    }
}

/// The encoding in which a file that starts with `probe` is read. There is
/// always one.
pub fn resolve_encoding(probe: &[u8], given: Option<Charset>) -> (c: Charset)
    ensures
        c.label() == resolved_encoding(
            probe@,
            match given {
                Some(g) => Some(g.label()),
                None => None,
            },
        ),
{
    match given {
        Some(c) => c,
        None => {
            let seen = if probe.len() > ENCODING_PROBE_BYTES {
                slice_subrange(probe, 0, ENCODING_PROBE_BYTES)
            } else {
                probe
            };
            match Charset::for_bom(seen) {
                Some(c) => c,
                None => Charset::detect(seen, probe.len() < ENCODING_PROBE_BYTES),
            }
        },
    }
}

/// The encoding that `label` stands for; `None` if it stands for none.
pub fn encoding_for_label(label: &str) -> (r: Option<Charset>)
    ensures
        match r {
            Some(c) => labelled_encoding(label@) == Some(c.label()),
            None => labelled_encoding(label@) is None,
        },
{
    Charset::for_label(label)
}

/// A byte-order mark decides the encoding, whatever the rest of the file
/// holds: content detection has no say.
pub proof fn lemma_bom_decides(probe: Seq<u8>)
    requires
        bom_encoding(probed(probe)) is Some,
    ensures
        Some(resolved_encoding(probe, None)) == bom_encoding(probed(probe)),
{
}

/// An encoding given by the caller is used as it is, whatever the file holds.
pub proof fn lemma_given_encoding_decides(probe: Seq<u8>, name: Seq<char>)
    ensures
        resolved_encoding(probe, Some(name)) == name,
{
}

} // verus!
