//! The incremental line reader: from the bytes that a pass found to the lines
//! it hands on.
//!
//! A pass takes the bytes between the read cursor and the end of what the file
//! holds at that moment. Each newline byte ends a record; bytes after the last
//! newline are a record too, so a line that is still being written comes out as
//! a fragment, and what is written later comes out as a record of its own in
//! the next pass. A record is decoded without its newline byte.

use crate::charset::{decode_limit, decoded_text, Charset};
use crate::search::texts;
use std::collections::VecDeque;
use vstd::prelude::*;
use vstd::slice::slice_subrange;

verus! {

/// The byte that ends a record.
pub const NEWLINE: u8 = 10;

/// How many rows are kept, at most, of a file read in restricted mode.
pub const MAX_ROWS: usize = 120_000_000;

/// The index of the first newline byte of `data` at or after `from`; the
/// length of `data` if there is none.
pub open spec fn line_end(data: Seq<u8>, from: int) -> int
    decreases data.len() - from,
{
    if from < 0 || from >= data.len() {
        data.len() as int
    } else if data[from] == NEWLINE {
        from
    } else {
        line_end(data, from + 1)
    }
}

/// The records of `data` from the byte at `from` on.
pub open spec fn records_from(data: Seq<u8>, from: int) -> Seq<Seq<u8>>
    decreases data.len() - from,
{
    if from < 0 || from >= data.len() {
        Seq::empty()
    } else {
        let end = line_end(data, from);
        if from <= end < data.len() {
            seq![data.subrange(from, end)] + records_from(data, end + 1)
        } else {
            seq![data.subrange(from, data.len() as int)]
        }
    }
}

/// The records of `data`, in file order.
pub open spec fn records(data: Seq<u8>) -> Seq<Seq<u8>> {
    records_from(data, 0)
}

/// The records of `data`, each decoded in the encoding named `encoding`.
pub open spec fn decoded_records(data: Seq<u8>, encoding: Seq<char>) -> Seq<Seq<char>> {
    records(data).map_values(|record: Seq<u8>| decoded_text(encoding, record))
}

/// The last `limit` rows of `rows`; all of them where there is no limit.
pub open spec fn window<A>(rows: Seq<A>, limit: Option<usize>) -> Seq<A> {
    match limit {
        Some(cap) if rows.len() > cap => rows.skip(rows.len() - cap),
        _ => rows,
    }
}

/// The end of a line lies at or after the place the search started from, and
/// no newline byte stands between the two.
pub proof fn lemma_line_end(data: Seq<u8>, from: int)
    requires
        0 <= from <= data.len(),
    ensures
        from <= line_end(data, from) <= data.len(),
        line_end(data, from) < data.len() ==> data[line_end(data, from)] == NEWLINE,
        forall|k: int| from <= k < line_end(data, from) ==> data[k] != NEWLINE,
    decreases data.len() - from,
{
    if from < data.len() && data[from] != NEWLINE {
        lemma_line_end(data, from + 1);
    }
}

/// Every record is a stretch of the data it was cut from, and none reaches
/// back before the place the cutting started.
pub proof fn lemma_records_are_stretches(data: Seq<u8>, from: int)
    requires
        0 <= from <= data.len(),
    ensures
        forall|i: int|
            0 <= i < records_from(data, from).len() ==> exists|a: int, b: int|
                from <= a <= b <= data.len() && #[trigger] records_from(data, from)[i]
                    == data.subrange(a, b),
    decreases data.len() - from,
{
    if from < data.len() {
        lemma_line_end(data, from);
        let end = line_end(data, from);
        let all = records_from(data, from);
        if end < data.len() {
            lemma_records_are_stretches(data, end + 1);
            let rest = records_from(data, end + 1);
            assert forall|i: int| 0 <= i < all.len() implies exists|a: int, b: int|
                from <= a <= b <= data.len() && #[trigger] all[i] == data.subrange(a, b) by {
                if i == 0 {
                    assert(from <= from <= end <= data.len() && all[0] == data.subrange(from, end));
                } else {
                    assert(all[i] == rest[i - 1]);
                    let (a, b) = choose|a: int, b: int|
                        end + 1 <= a <= b <= data.len() && rest[i - 1] == data.subrange(a, b);
                    assert(from <= a <= b <= data.len() && all[i] == data.subrange(a, b));
                }
            }
        } else {
            assert(from <= from <= data.len() <= data.len() && all[0] == data.subrange(
                from,
                data.len() as int,
            ));
        }
    }
}

/// Keeping the last rows as rows arrive one by one gives the last rows of
/// all that arrived.
pub proof fn lemma_window_push<A>(rows: Seq<A>, row: A, limit: Option<usize>)
    ensures
        window(window(rows, limit).push(row), limit) == window(rows.push(row), limit),
{
}

/// A window never holds more rows than its limit.
pub proof fn lemma_window_len<A>(rows: Seq<A>, limit: Option<usize>)
    ensures
        window(rows, limit).len() <= rows.len(),
        limit is Some ==> window(rows, limit).len() <= limit.unwrap(),
{
}

/// The bytes of each of `records`.
pub open spec fn contents(records: Seq<&[u8]>) -> Seq<Seq<u8>> {
    records.map_values(|record: &[u8]| record@)
}

/// Cuts `data` into its records, in file order.
pub fn split_records<'a>(data: &'a [u8]) -> (found: Vec<&'a [u8]>)
    ensures
        contents(found@) == records(data@),
        forall|i: int| 0 <= i < found@.len() ==> (#[trigger] found@[i])@.len() <= data@.len(),
{
    let mut found: Vec<&'a [u8]> = Vec::new();
    let mut pos: usize = 0;
    while pos < data.len()
        invariant
            pos <= data@.len(),
            contents(found@) + records_from(data@, pos as int) == records(data@),
            forall|i: int| 0 <= i < found@.len() ==> (#[trigger] found@[i])@.len() <= data@.len(),
        decreases data@.len() - pos,
    {
        let mut end: usize = pos;
        while end < data.len() && data[end] != NEWLINE
            invariant
                pos <= end <= data@.len(),
                line_end(data@, pos as int) == line_end(data@, end as int),
            decreases data@.len() - end,
        {
            end += 1;
        }
        proof {
            lemma_line_end(data@, pos as int);
        }
        let record = slice_subrange(data, pos, end);
        assert(contents(found@.push(record)) =~= contents(found@).push(record@));
        found.push(record);
        pos = if end < data.len() {
            end + 1
        } else {
            end
        };
    }
    found
}

/// Decodes `records` in `charset`, one line for each; with a limit, only the
/// last `limit` of the lines are kept.
pub fn decode_records(records: &Vec<&[u8]>, charset: &Charset, limit: Option<usize>) -> (lines: Vec<
    String,
>)
    requires
        forall|i: int| 0 <= i < records@.len() ==> (#[trigger] records@[i])@.len() <= decode_limit(),
    ensures
        texts(lines@) == window(
            contents(records@).map_values(|record: Seq<u8>| decoded_text(charset.label(), record)),
            limit,
        ),
{
    let ghost decode = |record: Seq<u8>| decoded_text(charset.label(), record);
    let ghost all = contents(records@).map_values(decode);
    let mut kept: VecDeque<String> = VecDeque::new();
    let mut i: usize = 0;
    while i < records.len()
        invariant
            i <= records@.len(),
            forall|i: int|
                0 <= i < records@.len() ==> (#[trigger] records@[i])@.len() <= decode_limit(),
            decode == (|record: Seq<u8>| decoded_text(charset.label(), record)),
            all == contents(records@).map_values(decode),
            texts(kept@) == window(all.take(i as int), limit),
        decreases records@.len() - i,
    {
        let line = charset.decode(records[i]);
        proof {
            lemma_window_push(all.take(i as int), line@, limit);
            assert(all.take(i + 1) =~= all.take(i as int).push(line@));
            assert(texts(kept@.push(line)) =~= texts(kept@).push(line@));
        }
        kept.push_back(line);
        let ghost pushed = kept@;
        match limit {
            Some(cap) => {
                if kept.len() > cap {
                    let _ = kept.pop_front();
                    assert(texts(kept@) =~= texts(pushed).skip(1));
                }
            },
            None => {},
        }
        i += 1;
    }
    assert(all.take(i as int) =~= all);
    let ghost rows = kept@;
    let mut lines: Vec<String> = Vec::new();
    while kept.len() > 0
        invariant
            lines@ + kept@ == rows,
        decreases kept@.len(),
    {
        match kept.pop_front() {
            Some(line) => lines.push(line),
            None => {},
        }
    }
    lines
}

/// The lines of one pass over `data`, decoded in `charset`; with a limit,
/// only the last `limit` of them.
pub fn read_pass(data: &[u8], charset: &Charset, limit: Option<usize>) -> (lines: Vec<String>)
    requires
        data@.len() <= decode_limit(),
    ensures
        texts(lines@) == window(decoded_records(data@, charset.label()), limit),
{
    let records = split_records(data);
    decode_records(&records, charset, limit)
}

} // verus!
