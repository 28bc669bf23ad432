//! Splitting of record messages: first at every newline, then into runs
//! of at most a configured number of Unicode characters.
//!
//! The character-level behaviour is pinned down by `spec_split_lines` and
//! `spec_chunk_line`; the executable functions are proved to match them
//! exactly.

use vstd::prelude::*;
use vstd::seq_lib::lemma_flatten_concat;
use vstd::string::StrSliceExecFns;

use crate::log_data::{LogData, LogDataView};

verus! {

/// The lines of `s`, split at every `'\n'` (the separators removed).
/// There is always at least one line: an empty text yields one empty
/// line, and a text ending in `'\n'` yields a trailing empty line.
pub open spec fn spec_split_lines(s: Seq<char>) -> Seq<Seq<char>>
    decreases s.len(),
{
    if s.len() == 0 {
        seq![Seq::<char>::empty()]
    } else if s[0] == '\n' {
        seq![Seq::<char>::empty()] + spec_split_lines(s.skip(1))
    } else {
        let rest = spec_split_lines(s.skip(1));
        seq![seq![s[0]] + rest[0]] + rest.skip(1)
    }
}

/// The runs of at most `max` characters of a single line, in order.  An
/// empty line yields exactly one empty run.
pub open spec fn spec_chunk_line(line: Seq<char>, max: nat) -> Seq<Seq<char>>
    recommends
        max >= 1,
    decreases line.len(),
{
    if line.len() <= max || max == 0 {
        seq![line]
    } else {
        seq![line.take(max as int)] + spec_chunk_line(line.skip(max as int), max)
    }
}

/// All chunks of a message: its lines in order, each split into runs.
pub open spec fn spec_chunks_of_message(s: Seq<char>, max: nat) -> Seq<Seq<char>> {
    spec_split_lines(s).flat_map(|l: Seq<char>| spec_chunk_line(l, max))
}

/// The records that one record becomes: one per chunk of its message,
/// all other fields kept.
pub open spec fn spec_chunk_record(d: LogDataView, max: nat) -> Seq<LogDataView> {
    spec_chunks_of_message(d.message, max).map_values(|m: Seq<char>| d.with_message(m))
}

/// The records that a drained batch becomes, in batch order.
pub open spec fn spec_chunk_batch(batch: Seq<LogDataView>, max: nat) -> Seq<LogDataView> {
    batch.flat_map(|d: LogDataView| spec_chunk_record(d, max))
}

/// The chunk cap actually applied: a zero setting saturates to one.
pub open spec fn spec_effective_max(max: nat) -> nat {
    if max == 0 {
        1
    } else {
        max
    }
}

pub proof fn lemma_split_lines_len(s: Seq<char>)
    ensures
        spec_split_lines(s).len() >= 1,
    decreases s.len(),
{
    if s.len() == 0 {
    } else if s[0] == '\n' {
        lemma_split_lines_len(s.skip(1));
    } else {
        lemma_split_lines_len(s.skip(1));
    }
}

/// A text without newlines is a single line.
pub proof fn lemma_split_lines_no_newline(s: Seq<char>)
    requires
        forall|j: int| 0 <= j < s.len() ==> s[j] != '\n',
    ensures
        spec_split_lines(s) == seq![s],
    decreases s.len(),
{
    if s.len() == 0 {
        assert(s =~= Seq::<char>::empty());
    } else {
        lemma_split_lines_no_newline(s.skip(1));
        lemma_split_lines_len(s.skip(1));
        assert(seq![s[0]] + s.skip(1) =~= s);
        assert(spec_split_lines(s) =~= seq![s]);
    }
}

/// Splitting at the first newline: the prefix is the first line, the
/// rest of the lines are those of the text after that newline.
pub proof fn lemma_split_lines_first_newline(s: Seq<char>, i: int)
    requires
        0 <= i < s.len(),
        s[i] == '\n',
        forall|j: int| 0 <= j < i ==> s[j] != '\n',
    ensures
        spec_split_lines(s) == seq![s.take(i)] + spec_split_lines(s.skip(i + 1)),
    decreases i,
{
    if i == 0 {
        assert(s.take(0) =~= Seq::<char>::empty());
        assert(s.skip(1) =~= s.skip(i + 1));
        assert(spec_split_lines(s) =~= seq![s.take(i)] + spec_split_lines(s.skip(i + 1)));
    } else {
        let t = s.skip(1);
        assert(t[i - 1] == '\n');
        assert(forall|j: int| 0 <= j < i - 1 ==> t[j] != '\n');
        lemma_split_lines_first_newline(t, i - 1);
        lemma_split_lines_len(t.skip(i));
        assert(t.skip(i) =~= s.skip(i + 1));
        assert(seq![s[0]] + t.take(i - 1) =~= s.take(i));
        assert((seq![s.take(i)] + spec_split_lines(s.skip(i + 1))).skip(1) =~= spec_split_lines(
            s.skip(i + 1),
        ));
        assert(spec_split_lines(s) =~= seq![s.take(i)] + spec_split_lines(s.skip(i + 1)));
    }
}

/// Every line yields at least one chunk.
pub proof fn lemma_chunk_line_len(line: Seq<char>, max: nat)
    ensures
        spec_chunk_line(line, max).len() >= 1,
    decreases line.len(),
{
    if line.len() <= max || max == 0 {
    } else {
        lemma_chunk_line_len(line.skip(max as int), max);
    }
}

/// Every message yields at least one chunk, even an empty one.
pub proof fn lemma_chunks_of_message_len(s: Seq<char>, max: nat)
    ensures
        spec_chunks_of_message(s, max).len() >= 1,
{
    let g = |l: Seq<char>| spec_chunk_line(l, max);
    let mapped = spec_split_lines(s).map_values(g);
    lemma_split_lines_len(s);
    lemma_chunk_line_len(spec_split_lines(s)[0], max);
    mapped.lemma_flatten_and_flatten_alt_are_equivalent();
    mapped.lemma_flatten_length_ge_single_element_length(0);
}

/// No record is lost by chunking: every record of a batch yields at
/// least one output record, so the chunked batch is at least as long.
pub proof fn lemma_chunk_batch_no_loss(batch: Seq<LogDataView>, max: nat)
    ensures
        spec_chunk_batch(batch, max).len() >= batch.len(),
    decreases batch.len(),
{
    let f = |d: LogDataView| spec_chunk_record(d, max);
    if batch.len() == 0 {
    } else {
        let prefix = batch.drop_last();
        lemma_chunk_batch_no_loss(prefix, max);
        prefix.lemma_flat_map_push(f, batch.last());
        assert(prefix.push(batch.last()) =~= batch);
        lemma_chunks_of_message_len(batch.last().message, max);
        assert(f(batch.last()).len() >= 1);
    }
}

/// Chunking idempotence: a record whose message has no newline and fits
/// within the cap passes through chunking unchanged, as the one record
/// it already is.
pub proof fn lemma_chunking_idempotent(d: LogDataView, max: nat)
    requires
        max >= 1,
        d.message.len() <= max,
        forall|j: int| 0 <= j < d.message.len() ==> d.message[j] != '\n',
    ensures
        spec_chunk_record(d, max) == seq![d],
{
    let g = |l: Seq<char>| spec_chunk_line(l, max);
    lemma_split_lines_no_newline(d.message);
    spec_split_lines(d.message).lemma_flat_map_singleton(g);
    assert(spec_chunks_of_message(d.message, max) == seq![d.message]);
    assert(d.with_message(d.message) =~= d);
    assert(seq![d.message].map_values(|m: Seq<char>| d.with_message(m)) =~= seq![d]);
}

/// Chunking keeps batch order: the chunks of the first `k` records come
/// first, followed by the chunks of the rest.  In particular the chunks
/// of an earlier record all precede those of a later one.
pub proof fn lemma_chunk_batch_order(batch: Seq<LogDataView>, max: nat, k: int)
    requires
        0 <= k <= batch.len(),
    ensures
        spec_chunk_batch(batch, max) == spec_chunk_batch(batch.take(k), max) + spec_chunk_batch(
            batch.skip(k),
            max,
        ),
{
    let f = |d: LogDataView| spec_chunk_record(d, max);
    assert(batch.take(k).map_values(f) + batch.skip(k).map_values(f) =~= batch.map_values(f));
    lemma_flatten_concat(batch.take(k).map_values(f), batch.skip(k).map_values(f));
}

/// When every record of a batch fits within the cap and has no newline,
/// the batch passes through chunking exactly as it is: no record lost,
/// none duplicated, order kept.
pub proof fn lemma_chunk_batch_all_fit(batch: Seq<LogDataView>, max: nat)
    requires
        max >= 1,
        forall|i: int| 0 <= i < batch.len() ==> #[trigger] batch[i].message.len() <= max,
        forall|i: int, j: int|
            0 <= i < batch.len() && 0 <= j < batch[i].message.len()
                ==> #[trigger] batch[i].message[j] != '\n',
    ensures
        spec_chunk_batch(batch, max) == batch,
    decreases batch.len(),
{
    let f = |d: LogDataView| spec_chunk_record(d, max);
    if batch.len() == 0 {
        assert(spec_chunk_batch(batch, max) =~= batch);
    } else {
        let prefix = batch.drop_last();
        lemma_chunk_batch_all_fit(prefix, max);
        prefix.lemma_flat_map_push(f, batch.last());
        assert(prefix.push(batch.last()) =~= batch);
        lemma_chunking_idempotent(batch.last(), max);
        assert(spec_chunk_batch(batch, max) =~= prefix + seq![batch.last()]);
        assert(prefix + seq![batch.last()] =~= batch);
    }
}

/// The lines joined back together with a newline between each pair.
pub open spec fn spec_join_lines(ls: Seq<Seq<char>>) -> Seq<char>
    decreases ls.len(),
{
    if ls.len() == 0 {
        Seq::<char>::empty()
    } else if ls.len() == 1 {
        ls[0]
    } else {
        ls[0] + seq!['\n'] + spec_join_lines(ls.drop_first())
    }
}

/// Splitting loses nothing: the lines of a text, rejoined with
/// newlines, are the text itself.
pub proof fn lemma_split_lines_join(s: Seq<char>)
    ensures
        spec_join_lines(spec_split_lines(s)) == s,
    decreases s.len(),
{
    if s.len() == 0 {
        assert(spec_join_lines(spec_split_lines(s)) =~= s);
    } else if s[0] == '\n' {
        lemma_split_lines_join(s.skip(1));
        lemma_split_lines_len(s.skip(1));
        let ls = spec_split_lines(s);
        assert(ls.drop_first() =~= spec_split_lines(s.skip(1)));
        assert(spec_join_lines(ls) =~= s);
    } else {
        lemma_split_lines_join(s.skip(1));
        lemma_split_lines_len(s.skip(1));
        let rest = spec_split_lines(s.skip(1));
        let ls = spec_split_lines(s);
        assert(seq![s[0]] + s.skip(1) =~= s);
        if rest.len() == 1 {
            assert(ls =~= seq![seq![s[0]] + rest[0]]);
            assert(spec_join_lines(rest) == rest[0]);
            assert(spec_join_lines(ls) == ls[0]);
            assert(spec_join_lines(ls) =~= s);
        } else {
            assert(ls.len() == rest.len());
            assert(ls[0] == seq![s[0]] + rest[0]);
            assert(ls.drop_first() =~= rest.drop_first());
            assert(spec_join_lines(rest) == rest[0] + seq!['\n'] + spec_join_lines(
                rest.drop_first(),
            ));
            assert(spec_join_lines(ls) == ls[0] + seq!['\n'] + spec_join_lines(ls.drop_first()));
            assert(spec_join_lines(ls.drop_first()) == spec_join_lines(rest.drop_first()));
            assert(spec_join_lines(ls) =~= s);
        }
    }
}

/// Chunking a line loses nothing: its chunks, concatenated, are the
/// line itself.
pub proof fn lemma_chunk_line_concat(line: Seq<char>, max: nat)
    requires
        max >= 1,
    ensures
        spec_chunk_line(line, max).flatten() == line,
    decreases line.len(),
{
    if line.len() <= max {
        let cs = spec_chunk_line(line, max);
        cs.lemma_flatten_one_element();
        assert(cs.flatten() == line);
    } else {
        lemma_chunk_line_concat(line.skip(max as int), max);
        let first = seq![line.take(max as int)];
        let rest = spec_chunk_line(line.skip(max as int), max);
        lemma_flatten_concat(first, rest);
        first.lemma_flatten_one_element();
        assert(spec_chunk_line(line, max) == first + rest);
        assert((first + rest).flatten() =~= first.flatten() + rest.flatten());
        assert(first.flatten() + rest.flatten() =~= line.take(max as int) + line.skip(
            max as int,
        ));
        assert(line.take(max as int) + line.skip(max as int) =~= line);
    }
}

/// Every chunk respects the cap: no chunk of a line is longer than
/// `max` characters.
pub proof fn lemma_chunk_line_sizes(line: Seq<char>, max: nat)
    requires
        max >= 1,
    ensures
        forall|i: int|
            0 <= i < spec_chunk_line(line, max).len() ==> #[trigger] spec_chunk_line(line, max)[i].len()
                <= max,
    decreases line.len(),
{
    if line.len() <= max {
    } else {
        lemma_chunk_line_sizes(line.skip(max as int), max);
        assert forall|i: int|
            0 <= i < spec_chunk_line(line, max).len() implies #[trigger] spec_chunk_line(
            line,
            max,
        )[i].len() <= max by {
            if i > 0 {
                assert(spec_chunk_line(line, max)[i] == spec_chunk_line(line.skip(max as int), max)[
                    i - 1]);
            }
        }
    }
}

proof fn lemma_lines_chunks_sizes(ls: Seq<Seq<char>>, max: nat, cs: Seq<Seq<char>>)
    requires
        max >= 1,
        cs == ls.flat_map(|l: Seq<char>| spec_chunk_line(l, max)),
    ensures
        forall|i: int| 0 <= i < cs.len() ==> #[trigger] cs[i].len() <= max,
    decreases ls.len(),
{
    let g = |l: Seq<char>| spec_chunk_line(l, max);
    if ls.len() == 0 {
        assert(ls.map_values(g) =~= Seq::<Seq<Seq<char>>>::empty());
    } else {
        lemma_lines_chunks_sizes(ls.drop_first(), max, ls.drop_first().flat_map(g));
        lemma_chunk_line_sizes(ls[0], max);
        let mapped = ls.map_values(g);
        assert(mapped.first() == g(ls[0]));
        assert(mapped.drop_first() =~= ls.drop_first().map_values(g));
        assert(cs == g(ls[0]) + ls.drop_first().flat_map(g));
        let head = g(ls[0]);
        let tail = ls.drop_first().flat_map(g);
        assert forall|i: int| 0 <= i < cs.len() implies #[trigger] cs[i].len() <= max by {
            if i < head.len() {
                assert(cs[i] == head[i]);
            } else {
                assert(cs[i] == tail[i - head.len()]);
            }
        }
    }
}

/// Every chunk of a message respects the cap: no emitted message is
/// longer than `max` characters.
pub proof fn lemma_chunks_of_message_sizes(s: Seq<char>, max: nat)
    requires
        max >= 1,
    ensures
        forall|i: int|
            0 <= i < spec_chunks_of_message(s, max).len() ==> #[trigger] spec_chunks_of_message(
                s,
                max,
            )[i].len() <= max,
{
    lemma_lines_chunks_sizes(spec_split_lines(s), max, spec_chunks_of_message(s, max));
}

/// A record's message is unbounded on input and bounded after
/// chunking: every record emitted for a batch carries a message of at
/// most `max` characters.
pub proof fn lemma_chunk_batch_sizes(batch: Seq<LogDataView>, max: nat)
    requires
        max >= 1,
    ensures
        forall|i: int|
            0 <= i < spec_chunk_batch(batch, max).len() ==> #[trigger] spec_chunk_batch(
                batch,
                max,
            )[i].message.len() <= max,
    decreases batch.len(),
{
    let f = |d: LogDataView| spec_chunk_record(d, max);
    if batch.len() == 0 {
        assert(batch.map_values(f) =~= Seq::<Seq<LogDataView>>::empty());
    } else {
        lemma_chunk_batch_sizes(batch.drop_first(), max);
        lemma_chunks_of_message_sizes(batch[0].message, max);
        let mapped = batch.map_values(f);
        assert(mapped.first() == f(batch[0]));
        assert(mapped.drop_first() =~= batch.drop_first().map_values(f));
        assert(spec_chunk_batch(batch, max) == f(batch[0]) + spec_chunk_batch(
            batch.drop_first(),
            max,
        ));
        let head = f(batch[0]);
        let tail = spec_chunk_batch(batch.drop_first(), max);
        assert forall|i: int| 0 <= i < spec_chunk_batch(batch, max).len() implies #[trigger] spec_chunk_batch(
            batch,
            max,
        )[i].message.len() <= max by {
            if i < head.len() {
                assert(spec_chunk_batch(batch, max)[i] == head[i]);
                assert(head[i] == batch[0].with_message(
                    spec_chunks_of_message(batch[0].message, max)[i],
                ));
            } else {
                assert(spec_chunk_batch(batch, max)[i] == tail[i - head.len()]);
            }
        }
    }
}

/// Splits `msg` at every newline, keeping line order.
pub fn split_lines_exec(msg: &str) -> (r: Vec<String>)
    ensures
        r@.map_values(|x: String| x@) == spec_split_lines(msg@),
{
    let n = msg.unicode_len();
    let mut lines: Vec<String> = Vec::new();
    let mut start: usize = 0;
    let mut i: usize = 0;
    proof {
        assert(msg@.skip(0) =~= msg@);
        assert(lines@.map_values(|x: String| x@) + spec_split_lines(msg@) =~= spec_split_lines(
            msg@,
        ));
    }
    while i < n
        invariant
            start <= i <= n,
            n == msg@.len(),
            forall|j: int| start <= j < i ==> msg@[j] != '\n',
            spec_split_lines(msg@) == lines@.map_values(|x: String| x@) + spec_split_lines(
                msg@.skip(start as int),
            ),
        decreases n - i,
    {
        let c = msg.get_char(i);
        if c == '\n' {
            let line = msg.substring_char(start, i).to_owned();
            proof {
                let rem = msg@.skip(start as int);
                let k = i - start;
                assert(rem[k] == '\n');
                assert(forall|j: int| 0 <= j < k ==> rem[j] != '\n');
                lemma_split_lines_first_newline(rem, k);
                assert(rem.take(k) =~= msg@.subrange(start as int, i as int));
                assert(rem.skip(k + 1) =~= msg@.skip(i + 1));
                assert(lines@.push(line).map_values(|x: String| x@) =~= lines@.map_values(
                    |x: String| x@,
                ).push(line@));
                assert(lines@.map_values(|x: String| x@).push(line@) + spec_split_lines(
                    msg@.skip(i + 1),
                ) =~= lines@.map_values(|x: String| x@) + (seq![rem.take(k)] + spec_split_lines(
                    rem.skip(k + 1),
                )));
            }
            lines.push(line);
            start = i + 1;
        }
        i += 1;
    }
    let tail = msg.substring_char(start, n).to_owned();
    proof {
        let rem = msg@.skip(start as int);
        lemma_split_lines_no_newline(rem);
        assert(tail@ =~= rem);
        assert(lines@.push(tail).map_values(|x: String| x@) =~= lines@.map_values(
            |x: String| x@,
        ).push(tail@));
        assert(lines@.map_values(|x: String| x@).push(rem) =~= lines@.map_values(|x: String| x@)
            + seq![rem]);
    }
    lines.push(tail);
    lines
}

/// Splits one line into runs of at most `max` characters.
pub fn chunk_line_exec(line: &str, max: usize) -> (r: Vec<String>)
    requires
        max >= 1,
    ensures
        r@.map_values(|x: String| x@) == spec_chunk_line(line@, max as nat),
{
    let n = line.unicode_len();
    let mut chunks: Vec<String> = Vec::new();
    if n == 0 {
        let empty = String::new();
        proof {
            assert(line@ =~= Seq::<char>::empty());
            assert(chunks@.push(empty).map_values(|x: String| x@) =~~= seq![line@]);
        }
        chunks.push(empty);
        return chunks;
    }
    let mut i: usize = 0;
    proof {
        assert(line@.skip(0) =~= line@);
        assert(chunks@.map_values(|x: String| x@) + spec_chunk_line(line@, max as nat)
            =~= spec_chunk_line(line@, max as nat));
    }
    while i < n
        invariant
            max >= 1,
            i <= n,
            n == line@.len(),
            i < n ==> spec_chunk_line(line@, max as nat) == chunks@.map_values(|x: String| x@)
                + spec_chunk_line(line@.skip(i as int), max as nat),
            i == n ==> spec_chunk_line(line@, max as nat) == chunks@.map_values(|x: String| x@),
        decreases n - i,
    {
        let end = if n - i > max {
            i + max
        } else {
            n
        };
        let chunk = line.substring_char(i, end).to_owned();
        proof {
            let rem = line@.skip(i as int);
            if n - i > max {
                assert(rem.len() > max);
                assert(rem.take(max as int) =~= line@.subrange(i as int, end as int));
                assert(rem.skip(max as int) =~= line@.skip(end as int));
                assert(chunks@.push(chunk).map_values(|x: String| x@) =~= chunks@.map_values(
                    |x: String| x@,
                ).push(chunk@));
                assert(chunks@.map_values(|x: String| x@).push(chunk@) + spec_chunk_line(
                    line@.skip(end as int),
                    max as nat,
                ) =~= chunks@.map_values(|x: String| x@) + (seq![rem.take(max as int)]
                    + spec_chunk_line(rem.skip(max as int), max as nat)));
            } else {
                assert(rem.len() <= max);
                assert(spec_chunk_line(rem, max as nat) == seq![rem]);
                assert(rem =~= line@.subrange(i as int, end as int));
                assert(chunks@.push(chunk).map_values(|x: String| x@) =~= chunks@.map_values(
                    |x: String| x@,
                ).push(chunk@));
                assert(chunks@.map_values(|x: String| x@).push(rem) =~= chunks@.map_values(
                    |x: String| x@,
                ) + seq![rem]);
            }
        }
        chunks.push(chunk);
        i = end;
    }
    chunks
}

/// Splits a message into its chunks: by newline first, then by length.
/// A `max` of zero saturates to one.
pub fn split_message_into_chunks(msg: &str, max: usize) -> (r: Vec<String>)
    ensures
        r@.map_values(|x: String| x@) == spec_chunks_of_message(
            msg@,
            spec_effective_max(max as nat),
        ),
{
    let m: usize = if max == 0 {
        1
    } else {
        max
    };
    let ghost g = |l: Seq<char>| spec_chunk_line(l, m as nat);
    let lines = split_lines_exec(msg);
    let mut out: Vec<String> = Vec::new();
    let ghost line_views = lines@.map_values(|x: String| x@);
    let mut k: usize = 0;
    proof {
        assert(line_views.take(0).map_values(g) =~= Seq::<Seq<Seq<char>>>::empty());
        assert(out@.map_values(|x: String| x@) =~= line_views.take(0).flat_map(g));
    }
    while k < lines.len()
        invariant
            m >= 1,
            m as nat == spec_effective_max(max as nat),
            g == (|l: Seq<char>| spec_chunk_line(l, m as nat)),
            line_views == lines@.map_values(|x: String| x@),
            k <= lines.len(),
            out@.map_values(|x: String| x@) == line_views.take(k as int).flat_map(g),
        decreases lines.len() - k,
    {
        let mut cs = chunk_line_exec(lines[k].as_str(), m);
        proof {
            line_views.lemma_flat_map_take_append(g, k as int);
            assert(line_views[k as int] == lines@[k as int]@);
            assert((out@ + cs@).map_values(|x: String| x@) =~= out@.map_values(|x: String| x@)
                + cs@.map_values(|x: String| x@));
        }
        out.append(&mut cs);
        k += 1;
    }
    proof {
        assert(line_views.take(lines@.len() as int) =~= line_views);
        assert(spec_split_lines(msg@).flat_map(g) == spec_chunks_of_message(
            msg@,
            spec_effective_max(max as nat),
        ));
    }
    out
}

/// Splits one record into the records it becomes after chunking.
pub fn split_record_into_chunks(log: &LogData, max: usize) -> (r: Vec<LogData>)
    ensures
        r@.map_values(|d: LogData| d@) == spec_chunk_record(log@, spec_effective_max(max as nat)),
{
    let chunks = split_message_into_chunks(log.message.as_str(), max);
    let ghost chunk_views = chunks@.map_values(|x: String| x@);
    let mut out: Vec<LogData> = Vec::new();
    let mut k: usize = 0;
    proof {
        assert(out@.map_values(|d: LogData| d@) =~= chunk_views.take(0).map_values(
            |m: Seq<char>| log@.with_message(m),
        ));
    }
    while k < chunks.len()
        invariant
            chunk_views == chunks@.map_values(|x: String| x@),
            chunk_views == spec_chunks_of_message(log@.message, spec_effective_max(max as nat)),
            k <= chunks.len(),
            out@.map_values(|d: LogData| d@) == chunk_views.take(k as int).map_values(
                |m: Seq<char>| log@.with_message(m),
            ),
        decreases chunks.len() - k,
    {
        let rec = log.with_message(crate::log_data::clone_string(&chunks[k]));
        proof {
            assert(chunk_views.take(k + 1) =~= chunk_views.take(k as int).push(
                chunk_views[k as int],
            ));
            assert(chunk_views.take(k + 1).map_values(|m: Seq<char>| log@.with_message(m))
                =~= chunk_views.take(k as int).map_values(|m: Seq<char>| log@.with_message(m)).push(
                log@.with_message(chunk_views[k as int]),
            ));
            assert(out@.push(rec).map_values(|d: LogData| d@) =~= out@.map_values(
                |d: LogData| d@,
            ).push(rec@));
        }
        out.push(rec);
        k += 1;
    }
    proof {
        assert(chunk_views.take(chunks@.len() as int) =~= chunk_views);
    }
    out
}

/// Splits every record of a drained batch, keeping batch order.
/// A `max_str_len` of zero saturates to one.
pub fn split_str_into_chunks(queue: Vec<LogData>, max_str_len: usize) -> (r: Vec<LogData>)
    ensures
        r@.map_values(|d: LogData| d@) == spec_chunk_batch(
            queue@.map_values(|d: LogData| d@),
            spec_effective_max(max_str_len as nat),
        ),
{
    let ghost mx = spec_effective_max(max_str_len as nat);
    let ghost f = |d: LogDataView| spec_chunk_record(d, mx);
    let ghost batch_views = queue@.map_values(|d: LogData| d@);
    let mut out: Vec<LogData> = Vec::new();
    let mut k: usize = 0;
    proof {
        assert(batch_views.take(0).map_values(f) =~= Seq::<Seq<LogDataView>>::empty());
        assert(out@.map_values(|d: LogData| d@) =~= batch_views.take(0).flat_map(f));
    }
    while k < queue.len()
        invariant
            mx == spec_effective_max(max_str_len as nat),
            f == (|d: LogDataView| spec_chunk_record(d, mx)),
            batch_views == queue@.map_values(|d: LogData| d@),
            k <= queue.len(),
            out@.map_values(|d: LogData| d@) == batch_views.take(k as int).flat_map(f),
        decreases queue.len() - k,
    {
        let mut recs = split_record_into_chunks(&queue[k], max_str_len);
        proof {
            batch_views.lemma_flat_map_take_append(f, k as int);
            assert(batch_views[k as int] == queue@[k as int]@);
            assert((out@ + recs@).map_values(|d: LogData| d@) =~= out@.map_values(|d: LogData| d@)
                + recs@.map_values(|d: LogData| d@));
        }
        out.append(&mut recs);
        k += 1;
    }
    proof {
        assert(batch_views.take(queue@.len() as int) =~= batch_views);
    }
    out
}

} // verus!
