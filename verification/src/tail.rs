//! The tail planner: where reading of a file starts.
//!
//! A file larger than the threshold is read whole only if the caller says so.
//! Otherwise reading starts a little more than the threshold before the end of
//! the file, and what stands before the first newline found there is thrown
//! away, so that no line comes out cut in the middle.

use crate::charset::{decode_limit, Charset};
use crate::reader::{
    decoded_records, lemma_line_end, lemma_records_are_stretches, line_end, read_pass,
    records, records_from, window, NEWLINE,
};
use crate::search::texts;
use vstd::prelude::*;
use vstd::slice::slice_subrange;

verus! {

/// The size above which a file is not read whole without asking: 4 GiB.
pub const MAX_FILE_SIZE: u64 = 4 * 1024 * 1024 * 1024;

/// How far before the threshold a tail read starts, so that a newline close
/// to the boundary is not missed.
pub const TAIL_SLACK: u64 = 512;

/// Whether the caller has to be asked before a file of `size` bytes is read.
pub open spec fn needs_decision(size: u64, threshold: u64) -> bool {
    size > threshold
}

/// The size to put before the caller, if the caller has to be asked how a
/// file of `size` bytes is to be read.
pub fn size_gate(size: u64, threshold: u64) -> (request: Option<u64>)
    ensures
        request == if needs_decision(size, threshold) {
            Some(size)
        } else {
            None
        },
{
    if size > threshold {
        Some(size)
    } else {
        None
    }
}

/// Where reading starts, and whether a cut line has to be thrown away there.
#[derive(Clone, Copy, Debug, PartialEq, Eq, Structural)]
pub struct TailPlan {
    pub offset: u64,
    pub discard_partial_line: bool,
}

/// The offset at which reading of a file of `size` bytes starts.
pub open spec fn tail_offset(size: int, threshold: int, restricted: bool) -> int {
    if restricted && size > threshold && size - (threshold + TAIL_SLACK) > 0 {
        size - (threshold + TAIL_SLACK)
    } else {
        0
    }
}

/// The plan for a file of `size` bytes.
pub open spec fn tail_plan(size: u64, threshold: u64, restricted: bool) -> TailPlan {
    TailPlan {
        offset: tail_offset(size as int, threshold as int, restricted) as u64,
        discard_partial_line: restricted && size > threshold,
    }
}

/// Plans the first read of a file of `size` bytes. A file within the
/// threshold, or one the caller wants unrestricted, is read from its start.
pub fn plan_tail(size: u64, threshold: u64, restricted: bool) -> (plan: TailPlan)
    ensures
        plan == tail_plan(size, threshold, restricted),
{
    if restricted && size > threshold {
        let offset = match threshold.checked_add(TAIL_SLACK) {
            Some(window) => if size > window {
                size - window
            } else {
                0
            },
            None => 0,
        };
        TailPlan { offset, discard_partial_line: true }
    } else {
        TailPlan { offset: 0, discard_partial_line: false }
    }
}

/// How many bytes at the start of `data` belong to a line that began before
/// it: those up to and including the first newline, all of them if there is
/// no newline.
pub open spec fn partial_line_len(data: Seq<u8>) -> int {
    if line_end(data, 0) < data.len() {
        line_end(data, 0) + 1
    } else {
        data.len() as int
    }
}

/// How many bytes at the start of `data` are thrown away after a seek.
pub fn skip_partial_line(data: &[u8]) -> (skip: usize)
    ensures
        skip == partial_line_len(data@),
        skip <= data@.len(),
{
    let mut end: usize = 0;
    while end < data.len() && data[end] != NEWLINE
        invariant
            end <= data@.len(),
            line_end(data@, 0) == line_end(data@, end as int),
        decreases data@.len() - end,
    {
        end += 1;
    }
    if end < data.len() {
        end + 1
    } else {
        end
    }
}

/// The bytes of `data` that the first pass reads lines from.
pub open spec fn first_pass_bytes(data: Seq<u8>, plan: TailPlan) -> Seq<u8> {
    if plan.discard_partial_line {
        data.skip(partial_line_len(data))
    } else {
        data
    }
}

/// The lines of the first pass over a file, of which `data` holds the bytes
/// from the planned offset on.
pub fn read_first_pass(data: &[u8], plan: TailPlan, charset: &Charset, limit: Option<usize>) -> (lines:
    Vec<String>)
    requires
        data@.len() <= decode_limit(),
    ensures
        texts(lines@) == window(
            decoded_records(first_pass_bytes(data@, plan), charset.label()),
            limit,
        ),
{
    if plan.discard_partial_line {
        let skip = skip_partial_line(data);
        let rest = slice_subrange(data, skip, data.len());
        read_pass(rest, charset, limit)
    } else {
        read_pass(data, charset, limit)
    }
}

/// A restricted read of a file above the threshold starts no more than the
/// threshold and the slack before the end of the file, and never before its
/// start.
pub proof fn lemma_tail_offset_bounds(size: u64, threshold: u64)
    requires
        size > threshold,
    ensures
        tail_offset(size as int, threshold as int, true) >= size - (threshold + TAIL_SLACK),
        0 <= tail_offset(size as int, threshold as int, true) < size - threshold,
        tail_plan(size, threshold, true).offset == tail_offset(size as int, threshold as int, true),
        tail_plan(size, threshold, true).discard_partial_line,
{
}

/// After a seek nothing is emitted from before the first newline: the bytes
/// thrown away end with that newline, or are all there is, and every record
/// of the first pass is a stretch of what follows them.
pub proof fn lemma_partial_line_never_emitted(data: Seq<u8>, plan: TailPlan)
    requires
        plan.discard_partial_line,
    ensures
        0 <= partial_line_len(data) <= data.len(),
        forall|k: int| 0 <= k < partial_line_len(data) - 1 ==> data[k] != NEWLINE,
        partial_line_len(data) < data.len() ==> data[partial_line_len(data) - 1] == NEWLINE,
        forall|i: int|
            0 <= i < records(first_pass_bytes(data, plan)).len() ==> exists|a: int, b: int|
                partial_line_len(data) <= a <= b <= data.len() && #[trigger] records(
                    first_pass_bytes(data, plan),
                )[i] == data.subrange(a, b),
{
    lemma_line_end(data, 0);
    let skip = partial_line_len(data);
    let rest = first_pass_bytes(data, plan);
    lemma_records_are_stretches(rest, 0);
    assert forall|i: int| 0 <= i < records(rest).len() implies exists|a: int, b: int|
        skip <= a <= b <= data.len() && #[trigger] records(rest)[i] == data.subrange(a, b) by {
        let (a, b) = choose|a: int, b: int|
            0 <= a <= b <= rest.len() && records_from(rest, 0)[i] == rest.subrange(a, b);
        assert(rest.subrange(a, b) =~= data.subrange(skip + a, skip + b));
    }
}

} // verus!
