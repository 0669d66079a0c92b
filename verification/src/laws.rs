//! Properties that hold across the library's operations.
use vstd::prelude::*;
use crate::crypto_utils::{iv_for, sequence_iv};
use crate::download::{
    backoff_of, download_queue_of, init_file_name, merge_strategy_of, segment_file_name,
    MergeStrategy,
};
use crate::jobs::{
    completed_ids, distinct_ids, find_job, lemma_find_job, paused, resume_data_of, update_job,
    without_job, without_jobs, JobModel,
};
use crate::playlist::{
    master_apply, master_line_check, MasterModel,
    media_run, media_step, resolution_options_of, LineCheck, MediaState, Outcome, SegmentModel,
    VariantModel,
};
use crate::download::{strip_feed, strip_finish, StripState};
use crate::services::{
    is_merge_output, merge_inputs_of, monitor_run, monitor_step, progress_kind, MonitorState,
    ProgressKind,
};
use crate::download::finish_report;
use crate::m3u8_utils::{first_sync_from, ts_scan_limit, ts_sync_offset};
use crate::numbers::{digits_of_width, lemma_zero_padded_digits, pow10, zero_padded};
use crate::sorting::{
    lemma_lex_antisym, lemma_lex_common_prefix, lemma_lex_lt_extend, lex_le, lex_lt, sorted_texts,
};
use crate::types::{status_can_pause, status_can_resume, status_is_ongoing, StatusModel};

verus! {

/// A job that can be paused is still running; it cannot be resumed at the
/// same time; a finished job can be resumed exactly when it failed.
pub proof fn status_laws(s: StatusModel)
    ensures
        status_can_pause(s) ==> status_is_ongoing(s),
        !(status_can_pause(s) && status_can_resume(s)),
        !status_is_ongoing(s) ==> (status_can_resume(s) <==> s is CompletedError),
        status_is_ongoing(s) ==> (status_can_pause(s) || status_can_resume(s)),
{
}

/// Pausing a job that can be paused makes it resumable, keeps everything
/// it has downloaded, and resuming it then hands back its URL, folder,
/// file name and headers.
pub proof fn pause_then_resume(jobs: Seq<JobModel>, id: Seq<char>)
    requires
        find_job(jobs, id) matches Some(i) && status_can_pause(jobs[i].status),
    ensures
        ({
            let i = find_job(jobs, id).unwrap();
            let after = update_job(jobs, id, |j: JobModel| paused(j));
            &&& after.len() == jobs.len()
            &&& status_can_resume(after[i].status)
            &&& after[i].downloaded_bytes == jobs[i].downloaded_bytes
            &&& after[i].downloaded_segments == jobs[i].downloaded_segments
            &&& after[i].total_segments == jobs[i].total_segments
            &&& after[i].id == jobs[i].id
            &&& forall|k: int| 0 <= k < jobs.len() && k != i ==> after[k] == jobs[k]
            &&& resume_data_of(after, id) == Ok::<
                Option<(Seq<char>, Seq<char>, Seq<char>, Seq<(Seq<char>, Seq<char>)>)>,
                Seq<char>,
            >(
                Some(
                    (jobs[i].m3u8_url, jobs[i].save_folder, jobs[i].file_name, jobs[i].http_headers),
                ),
            )
        }),
{
    let i = find_job(jobs, id).unwrap();
    let after = update_job(jobs, id, |j: JobModel| paused(j));
    lemma_find_job(jobs, id);
    lemma_find_job(after, id);
    assert(after[i].id == id);
    if find_job(after, id) != Some(i) {
        let j = find_job(after, id);
        match j {
            Some(j) => {
                if j < i {
                    assert(after[j] == jobs[j]);
                }
            },
            None => {
                assert(after[i].id == id);
            },
        }
    }
}

/// The wait between retries starts at one second, doubles, and never
/// exceeds eight seconds; there is none after the last attempt.
pub proof fn backoff_laws(attempt: nat, max_retries: nat)
    requires
        attempt >= 1,
    ensures
        attempt >= max_retries ==> backoff_of(attempt, max_retries) is None,
        attempt < max_retries ==> (backoff_of(attempt, max_retries) matches Some(s) && 1 <= s
            <= 8),
        attempt + 1 < max_retries ==> backoff_of(attempt, max_retries).unwrap() <= backoff_of(
            attempt + 1,
            max_retries,
        ).unwrap(),
        attempt == 1 && max_retries > 1 ==> backoff_of(attempt, max_retries) == Some(1nat),
        attempt >= 4 && attempt < max_retries ==> backoff_of(attempt, max_retries) == Some(8nat),
{
    lemma_pow2_pos((attempt - 1) as nat);
    crate::download::lemma_pow2_monotone((attempt - 1) as nat, attempt as nat);
    if attempt >= 4 {
        crate::download::lemma_pow2_monotone(3, (attempt - 1) as nat);
        assert(crate::download::pow2(3) == 8) by {
            reveal_with_fuel(crate::download::pow2, 4);
        }
    }
}

proof fn lemma_pow2_pos(n: nat)
    ensures
        crate::download::pow2(n) >= 1,
    decreases n,
{
    if n > 0 {
        lemma_pow2_pos((n - 1) as nat);
    }
}

/// The big-endian value of four bytes.
pub open spec fn be_u32(b: Seq<u8>) -> int {
    b[0] as int * 0x1000000 + b[1] as int * 0x10000 + b[2] as int * 0x100 + b[3] as int
}

/// Every IV is sixteen bytes; without an `IV` attribute it is twelve zero
/// bytes followed by the segment's sequence number in big-endian order.
pub proof fn iv_laws(iv_str: Option<Seq<char>>, sequence: u32)
    ensures
        iv_for(iv_str, sequence) matches Ok(iv) ==> iv.len() == 16,
        iv_for(None, sequence) matches Ok(iv) && (be_u32(iv.subrange(12, 16)) == sequence as int
            && forall|k: int| 0 <= k < 12 ==> iv[k] == 0),
{
    let iv = sequence_iv(sequence);
    let s = sequence as int;
    assert(iv.subrange(12, 16)[0] == (s / 0x1000000) as u8);
    assert(iv.subrange(12, 16)[1] == ((s / 0x10000) % 256) as u8);
    assert(iv.subrange(12, 16)[2] == ((s / 0x100) % 256) as u8);
    assert(iv.subrange(12, 16)[3] == (s % 256) as u8);
    assert(be_u32(iv.subrange(12, 16)) == s) by (nonlinear_arith)
        requires
            0 <= s < 0x1_0000_0000,
            iv.subrange(12, 16)[0] == (s / 0x1000000) as u8,
            iv.subrange(12, 16)[1] == ((s / 0x10000) % 256) as u8,
            iv.subrange(12, 16)[2] == ((s / 0x100) % 256) as u8,
            iv.subrange(12, 16)[3] == (s % 256) as u8,
    ;
}

/// The resolution choices of a master playlist are its variant streams, in
/// order, numbered from 0.
pub proof fn resolution_options_laws(variants: Seq<VariantModel>)
    requires
        variants.len() <= usize::MAX,
    ensures
        resolution_options_of(variants).len() == variants.len(),
        forall|i: int|
            0 <= i < variants.len() ==> {
                let o = #[trigger] resolution_options_of(variants)[i];
                &&& o.id == i
                &&& o.uri == variants[i].uri
                &&& o.bandwidth_kbps == variants[i].bandwidth / 1000
                &&& (variants[i].resolution matches Some(r) ==> o.resolution == r)
            },
{
}

/// The segments of a media playlist keep the order of their `EXTINF`
/// tags: their sequence numbers strictly increase and stay below the
/// number of tags read.
pub open spec fn segments_ordered(st: MediaState) -> bool {
    &&& forall|a: int, b: int|
        0 <= a < b < st.segments.len() ==> #[trigger] st.segments[a].sequence
            < #[trigger] st.segments[b].sequence
    &&& forall|a: int| 0 <= a < st.segments.len() ==> #[trigger] st.segments[a].sequence < st.index
    &&& st.current matches Some(c) ==> c.sequence == st.index - 1 && forall|a: int|
        0 <= a < st.segments.len() ==> #[trigger] st.segments[a].sequence < c.sequence
}

proof fn lemma_step_keeps_order(st: MediaState, l: Seq<char>, base: Seq<char>)
    requires
        segments_ordered(st),
    ensures
        media_step(st, l, base) matches Outcome::Done(next) ==> segments_ordered(next),
{
}

/// Whatever a media playlist holds, the segments that its parse has read
/// after any number of lines come in the order of their sequence numbers.
pub proof fn media_segments_ordered(lines: Seq<Seq<char>>, base: Seq<char>, n: nat)
    ensures
        media_run(lines, base, n) matches Outcome::Done(st) ==> segments_ordered(st),
    decreases n,
{
    if n > 0 {
        media_segments_ordered(lines, base, (n - 1) as nat);
        match media_run(lines, base, (n - 1) as nat) {
            Outcome::Done(st) => lemma_step_keeps_order(st, lines[n - 1], base),
            _ => {},
        }
    }
}

/// A job's download queue has one entry per segment, plus one for the
/// initialisation segment first; and the merge picks the byte-wise
/// strategy for the files of that queue exactly when there is an
/// initialisation segment.
pub proof fn queue_and_merge_strategy(init_map: Option<SegmentModel>, segments: Seq<SegmentModel>)
    ensures
        download_queue_of(init_map, segments).len() == segments.len() + (if init_map is Some {
            1int
        } else {
            0int
        }),
        merge_strategy_of(download_queue_of(init_map, segments).map_values(
            |p: (Seq<char>, Seq<char>)| p.1,
        )) == if init_map is Some {
            MergeStrategy::Binary
        } else {
            MergeStrategy::Concat
        },
{
    let q = download_queue_of(init_map, segments);
    let names = q.map_values(|p: (Seq<char>, Seq<char>)| p.1);
    let is_ts = init_map is None;
    assert forall|i: int| 0 <= i < segments.len() implies #[trigger] segment_file_name(
        i as nat,
        is_ts,
    ) != init_file_name() by {
        assert(segment_file_name(i as nat, is_ts)[0] == 's');
        assert(init_file_name()[0] == 'i');
    }
    match init_map {
        Some(s) => {
            assert(names[0] == init_file_name());
        },
        None => {
            assert forall|i: int| 0 <= i < names.len() implies names[i] != init_file_name() by {
                assert(names[i] == segment_file_name(i as nat, is_ts));
            }
        },
    }
}

/// The bytes of a sequence of chunks, in order.
pub open spec fn concat_all(chunks: Seq<Seq<u8>>) -> Seq<u8>
    decreases chunks.len(),
{
    if chunks.len() == 0 {
        seq![]
    } else {
        concat_all(chunks.drop_last()) + chunks.last()
    }
}

/// The stripper's state and output after feeding `chunks`.
pub open spec fn strip_run(is_ts: bool, chunks: Seq<Seq<u8>>) -> (StripState, Seq<u8>)
    decreases chunks.len(),
{
    if chunks.len() == 0 {
        (StripState { processed: false, buffer: seq![] }, seq![])
    } else {
        let (st, out) = strip_run(is_ts, chunks.drop_last());
        let (st2, more) = strip_feed(is_ts, st, chunks.last());
        (st2, out + more)
    }
}

/// All the bytes written for a download that arrived in `chunks`.
pub open spec fn strip_total(is_ts: bool, chunks: Seq<Seq<u8>>) -> Seq<u8> {
    let (st, out) = strip_run(is_ts, chunks);
    out + strip_finish(is_ts, st)
}

proof fn lemma_first_sync_bound(data: Seq<u8>, i: int, end: int)
    requires
        0 <= i,
    ensures
        0 <= first_sync_from(data, i, end),
        first_sync_from(data, i, end) == 0 || first_sync_from(data, i, end) < end,
    decreases end - i,
{
    if i < end && !crate::m3u8_utils::ts_sync_at(data, i) {
        lemma_first_sync_bound(data, i + 1, end);
    }
}

proof fn lemma_offset_bound(b: Seq<u8>)
    ensures
        0 <= ts_sync_offset(b) < 4096,
        ts_sync_offset(b) <= b.len(),
{
    if ts_scan_limit(b) >= 377 {
        lemma_first_sync_bound(b, 0, ts_scan_limit(b) - 376);
    }
}

proof fn lemma_strip_run(is_ts: bool, chunks: Seq<Seq<u8>>)
    ensures
        ({
            let (st, out) = strip_run(is_ts, chunks);
            &&& !is_ts ==> !st.processed && st.buffer == Seq::<u8>::empty() && out == concat_all(
                chunks,
            )
            &&& is_ts && !st.processed ==> out == Seq::<u8>::empty() && st.buffer == concat_all(
                chunks,
            )
            &&& is_ts && st.processed ==> st.buffer == Seq::<u8>::empty() && exists|k: int|
                0 <= k < 4096 && k <= concat_all(chunks).len() && out == concat_all(chunks).skip(
                    k,
                )
        }),
    decreases chunks.len(),
{
    if chunks.len() > 0 {
        let prev = chunks.drop_last();
        let c = chunks.last();
        lemma_strip_run(is_ts, prev);
        let (st, out) = strip_run(is_ts, prev);
        let cat = concat_all(prev);
        assert(concat_all(chunks) == cat + c);
        if !is_ts {
            assert(out + c =~= cat + c);
        } else if !st.processed {
            let b = st.buffer + c;
            assert(b =~= cat + c);
            if b.len() >= 1024 {
                lemma_offset_bound(b);
                let k = ts_sync_offset(b);
                assert(out + b.skip(k) =~= concat_all(chunks).skip(k));
            } else {
                assert(out + Seq::<u8>::empty() =~= Seq::<u8>::empty());
            }
        } else {
            let k = choose|k: int| 0 <= k < 4096 && k <= cat.len() && out == cat.skip(k);
            assert(out + c =~= (cat + c).skip(k));
        }
    }
}

/// Stripping junk only ever drops a prefix of the stream shorter than
/// 4096 bytes, and nothing from a stream that is no transport stream: the
/// bytes written are the bytes downloaded, from some point on.
pub proof fn strip_drops_only_a_prefix(is_ts: bool, chunks: Seq<Seq<u8>>)
    ensures
        exists|k: int|
            0 <= k < 4096 && (!is_ts ==> k == 0) && k <= concat_all(chunks).len() && strip_total(
                is_ts,
                chunks,
            ) == #[trigger] concat_all(chunks).skip(k),
{
    lemma_strip_run(is_ts, chunks);
    let (st, out) = strip_run(is_ts, chunks);
    let cat = concat_all(chunks);
    if !is_ts {
        assert(strip_total(is_ts, chunks) =~= cat.skip(0));
    } else if !st.processed {
        if st.buffer.len() > 0 {
            lemma_offset_bound(st.buffer);
            let k = ts_sync_offset(st.buffer);
            assert(strip_total(is_ts, chunks) =~= cat.skip(k));
        } else {
            assert(strip_total(is_ts, chunks) =~= cat.skip(0));
        }
    } else {
        let k = choose|k: int| 0 <= k < 4096 && k <= cat.len() && out == cat.skip(k);
        assert(strip_total(is_ts, chunks) =~= cat.skip(k));
    }
}

/// The position of a job after one more job is put in front of the list.
proof fn lemma_find_job_prepend(j: JobModel, rest: Seq<JobModel>, id: Seq<char>)
    ensures
        find_job(seq![j] + rest, id) == (if j.id == id {
            Some(0int)
        } else {
            match find_job(rest, id) {
                Some(i) => Some(i + 1),
                None => None,
            }
        }),
{
    assert((seq![j] + rest).drop_first() =~= rest);
}

/// Removing jobs whose ids differ from that of the first job leaves the
/// first job in front.
proof fn lemma_without_jobs_prepend(j: JobModel, rest: Seq<JobModel>, ids: Seq<Seq<char>>)
    requires
        forall|k: int| 0 <= k < ids.len() ==> ids[k] != j.id,
    ensures
        without_jobs(seq![j] + rest, ids) == seq![j] + without_jobs(rest, ids),
    decreases ids.len(),
{
    if ids.len() > 0 {
        lemma_find_job_prepend(j, rest, ids[0]);
        lemma_find_job(rest, ids[0]);
        assert(without_job(seq![j] + rest, ids[0]) =~= seq![j] + without_job(rest, ids[0])) by {
            match find_job(rest, ids[0]) {
                Some(i) => {
                    assert((seq![j] + rest).remove(i + 1) =~= seq![j] + rest.remove(i));
                },
                None => {},
            }
        }
        lemma_without_jobs_prepend(j, without_job(rest, ids[0]), ids.drop_first());
    }
}

/// Deleting the finished jobs one id at a time, as the list of finished ids
/// gives them, leaves exactly the unfinished jobs, in their order.
pub proof fn delete_completed_leaves_ongoing(jobs: Seq<JobModel>)
    requires
        distinct_ids(jobs),
    ensures
        without_jobs(jobs, completed_ids(jobs)) == jobs.filter(
            |j: JobModel| status_is_ongoing(j.status),
        ),
    decreases jobs.len(),
{
    let live = |j: JobModel| status_is_ongoing(j.status);
    let done = |j: JobModel| !status_is_ongoing(j.status);
    if jobs.len() == 0 {
        assert(jobs.filter(done) =~= Seq::<JobModel>::empty()) by {
            reveal(Seq::filter);
        }
        assert(jobs.filter(live) =~= Seq::<JobModel>::empty()) by {
            reveal(Seq::filter);
        }
        assert(completed_ids(jobs) =~= Seq::<Seq<char>>::empty());
    } else {
        let j = jobs[0];
        let rest = jobs.drop_first();
        assert(jobs =~= seq![j] + rest);
        assert(distinct_ids(rest)) by {
            assert forall|a: int, b: int| 0 <= a < b < rest.len() implies #[trigger] rest[a].id
                != #[trigger] rest[b].id by {
                assert(rest[a] == jobs[a + 1] && rest[b] == jobs[b + 1]);
            }
        }
        rest.lemma_filter_prepend(j, done);
        rest.lemma_filter_prepend(j, live);
        delete_completed_leaves_ongoing(rest);
        if done(j) {
            let ids = completed_ids(jobs);
            assert(ids =~= seq![j.id] + completed_ids(rest));
            lemma_find_job_prepend(j, rest, j.id);
            assert(without_job(jobs, ids[0]) =~= rest);
            assert(ids.drop_first() =~= completed_ids(rest));
            assert(jobs.filter(live) =~= rest.filter(live));
        } else {
            assert(completed_ids(jobs) =~= completed_ids(rest));
            assert forall|k: int| 0 <= k < completed_ids(rest).len() implies completed_ids(rest)[k]
                != j.id by {
                let e = rest.filter(done)[k];
                assert(rest.filter(done).contains(e));
                rest.lemma_filter_contains_rev(done, e);
                let m = choose|m: int| 0 <= m < rest.len() && rest[m] == e;
                assert(jobs[m + 1] == e);
                assert(jobs[0].id != jobs[m + 1].id);
            }
            lemma_without_jobs_prepend(j, rest, completed_ids(rest));
            assert(jobs.filter(live) =~= seq![j] + rest.filter(live));
        }
    }
}

proof fn lemma_digits_len(n: nat, w: nat)
    ensures
        digits_of_width(n, w).len() == w,
    decreases w,
{
    if w > 0 {
        lemma_digits_len(n / 10, (w - 1) as nat);
    }
}

/// Fixed-width digit strings are in the order of the numbers they write.
proof fn lemma_digits_order(n: nat, k: nat, w: nat)
    requires
        n < k < pow10(w),
    ensures
        lex_lt(digits_of_width(n, w), digits_of_width(k, w)),
    decreases w,
{
    let w1 = (w - 1) as nat;
    let cn = ((n % 10) + '0' as nat) as char;
    let ck = ((k % 10) + '0' as nat) as char;
    let pn = digits_of_width(n / 10, w1);
    let pk = digits_of_width(k / 10, w1);
    lemma_digits_len(n / 10, w1);
    lemma_digits_len(k / 10, w1);
    assert(n / 10 <= k / 10 && k / 10 < pow10(w1)) by (nonlinear_arith)
        requires
            n < k,
            k < 10 * pow10(w1),
    ;
    if n / 10 == k / 10 {
        assert(n % 10 < k % 10) by (nonlinear_arith)
            requires
                n / 10 == k / 10,
                n < k,
        ;
        lemma_lex_common_prefix(pn, seq![cn], seq![ck]);
        assert(pn.push(cn) =~= pn + seq![cn]);
        assert(pk.push(ck) =~= pn + seq![ck]);
        assert(pn.push(cn)[w1 as int] != pk.push(ck)[w1 as int]);
    } else {
        lemma_digits_order(n / 10, k / 10, w1);
        lemma_lex_lt_extend(pn, pk, seq![cn], seq![ck]);
        assert(pn.push(cn) =~= pn + seq![cn]);
        assert(pk.push(ck) =~= pk + seq![ck]);
    }
}

/// The names of segments `a < b` of one stream, below 100000, are in order.
proof fn lemma_segment_names_order(a: nat, b: nat, is_ts: bool)
    requires
        a < b < 100000,
    ensures
        lex_lt(segment_file_name(a, is_ts), segment_file_name(b, is_ts)),
{
    assert(pow10(5) == 100000) by {
        reveal_with_fuel(pow10, 6);
    }
    lemma_zero_padded_digits(a, 5);
    lemma_zero_padded_digits(b, 5);
    lemma_digits_order(a, b, 5);
    let pre = seq!['s', 'e', 'q', '_'];
    let tail = seq!['.'] + if is_ts {
        seq!['t', 's']
    } else {
        seq!['m', '4', 's']
    };
    let da = zero_padded(a, 5);
    let db = zero_padded(b, 5);
    lemma_lex_lt_extend(da, db, tail, tail);
    lemma_lex_common_prefix(pre, da + tail, db + tail);
    assert(segment_file_name(a, is_ts) =~= pre + (da + tail));
    assert(segment_file_name(b, is_ts) =~= pre + (db + tail));
    assert((pre + (da + tail)).skip(4) =~= da + tail);
    assert((pre + (db + tail)).skip(4) =~= db + tail);
}

/// With fewer than 100000 segments the files of a job are named in strictly
/// increasing order, the initialisation segment first: sorting the
/// downloaded files by name puts them back in playlist order.
pub proof fn queue_names_in_order(init_map: Option<SegmentModel>, segments: Seq<SegmentModel>)
    requires
        segments.len() <= 100000,
    ensures
        ({
            let q = download_queue_of(init_map, segments);
            forall|a: int, b: int| 0 <= a < b < q.len() ==> lex_lt(#[trigger] q[a].1, #[trigger] q[b].1)
        }),
{
    let is_ts = init_map is None;
    let q = download_queue_of(init_map, segments);
    let off: int = if init_map is Some { 1 } else { 0 };
    assert forall|a: int, b: int| 0 <= a < b < q.len() implies lex_lt(#[trigger] q[a].1, #[trigger] q[b].1) by {
        if off == 1 && a == 0 {
            let nb = segment_file_name((b - 1) as nat, is_ts);
            assert(q[a].1 == init_file_name());
            assert(q[b].1 == nb);
            assert(init_file_name()[0] == 'i');
            assert(nb[0] == 's');
        } else {
            assert(q[a].1 == segment_file_name((a - off) as nat, is_ts));
            assert(q[b].1 == segment_file_name((b - off) as nat, is_ts));
            lemma_segment_names_order((a - off) as nat, (b - off) as nat, is_ts);
        }
    }
}

/// Each text comes strictly before the ones after it.
pub open spec fn strictly_increasing(t: Seq<Seq<char>>) -> bool {
    forall|i: int, j: int| 0 <= i < j < t.len() ==> lex_lt(#[trigger] t[i], #[trigger] t[j])
}

/// A sorted sequence holding the same texts as a strictly increasing one
/// is that sequence.
proof fn lemma_sorted_is_unique(s: Seq<Seq<char>>, t: Seq<Seq<char>>)
    requires
        sorted_texts(s),
        strictly_increasing(t),
        s.to_multiset() == t.to_multiset(),
    ensures
        s == t,
    decreases s.len(),
{
    broadcast use vstd::seq_lib::group_to_multiset_ensures;

    assert(s.len() == t.len()) by {
        assert(s.len() == s.to_multiset().len());
        assert(t.len() == t.to_multiset().len());
    }
    if s.len() > 0 {
        assert(t.to_multiset().count(s[0]) > 0);
        assert(t.contains(s[0]));
        let k = choose|k: int| 0 <= k < t.len() && t[k] == s[0];
        assert(s.to_multiset().count(t[0]) > 0);
        assert(s.contains(t[0]));
        let m = choose|m: int| 0 <= m < s.len() && s[m] == t[0];
        if k > 0 {
            assert(lex_lt(t[0], t[k]));
        }
        if m > 0 {
            assert(lex_le(s[0], s[m]));
        }
        if k > 0 && m > 0 {
            lemma_lex_antisym(s[0], t[0]);
        }
        assert(s[0] == t[0]);
        let s1 = s.remove(0);
        let t1 = t.remove(0);
        assert(s1.to_multiset() =~= s.to_multiset().remove(s[0]));
        assert(t1.to_multiset() =~= t.to_multiset().remove(t[0]));
        assert(sorted_texts(s1)) by {
            assert forall|i: int, j: int| 0 <= i < j < s1.len() implies lex_le(
                #[trigger] s1[i],
                #[trigger] s1[j],
            ) by {
                assert(s1[i] == s[i + 1] && s1[j] == s[j + 1]);
            }
        }
        assert(strictly_increasing(t1)) by {
            assert forall|i: int, j: int| 0 <= i < j < t1.len() implies lex_lt(
                #[trigger] t1[i],
                #[trigger] t1[j],
            ) by {
                assert(t1[i] == t[i + 1] && t1[j] == t[j + 1]);
            }
        }
        lemma_sorted_is_unique(s1, t1);
        assert forall|i: int| 0 <= i < s.len() implies s[i] == t[i] by {
            if i > 0 {
                assert(s[i] == s1[i - 1]);
                assert(t[i] == t1[i - 1]);
            }
        }
    }
    assert(s =~= t);
}

/// The paths of a job's files in a folder: the folder's prefix `p`, then
/// each file name of the download queue, in queue order.
pub open spec fn queue_paths(
    p: Seq<char>,
    init_map: Option<SegmentModel>,
    segments: Seq<SegmentModel>,
) -> Seq<Seq<char>> {
    download_queue_of(init_map, segments).map_values(|e: (Seq<char>, Seq<char>)| p + e.1)
}

/// With fewer than 100000 segments, the files of a job, listed in any
/// order and then sorted as the merge sorts them, come back in playlist
/// order: the initialisation segment, then segment 0, 1, 2, ...
pub proof fn merge_order_is_playlist_order(
    p: Seq<char>,
    init_map: Option<SegmentModel>,
    segments: Seq<SegmentModel>,
    listed: Seq<Seq<char>>,
)
    requires
        segments.len() <= 100000,
        sorted_texts(listed),
        listed.to_multiset() == queue_paths(p, init_map, segments).to_multiset(),
    ensures
        listed == queue_paths(p, init_map, segments),
{
    let q = download_queue_of(init_map, segments);
    let t = queue_paths(p, init_map, segments);
    queue_names_in_order(init_map, segments);
    assert forall|i: int, j: int| 0 <= i < j < t.len() implies lex_lt(#[trigger] t[i], #[trigger] t[j]) by {
        assert(lex_lt(q[i].1, q[j].1));
        lemma_lex_common_prefix(p, q[i].1, q[j].1);
        assert(t[i] == p + q[i].1);
        assert(t[j] == p + q[j].1);
        assert((p + q[i].1).skip(p.len() as int) =~= q[i].1);
        assert((p + q[j].1).skip(p.len() as int) =~= q[j].1);
    }
    lemma_sorted_is_unique(listed, t);
}

/// Leaving texts out of a sorted sequence keeps it sorted.
proof fn lemma_filter_sorted(s: Seq<Seq<char>>, keep: spec_fn(Seq<char>) -> bool)
    requires
        sorted_texts(s),
    ensures
        sorted_texts(s.filter(keep)),
    decreases s.len(),
{
    reveal(Seq::filter);
    if s.len() > 0 {
        let t = s.drop_last();
        assert(sorted_texts(t)) by {
            assert forall|i: int, j: int| 0 <= i < j < t.len() implies lex_le(
                #[trigger] t[i],
                #[trigger] t[j],
            ) by {
                assert(t[i] == s[i] && t[j] == s[j]);
            }
        }
        lemma_filter_sorted(t, keep);
        if keep(s.last()) {
            let f = t.filter(keep);
            assert(s.filter(keep) == f.push(s.last()));
            assert forall|i: int, j: int| 0 <= i < j < f.len() + 1 implies lex_le(
                #[trigger] f.push(s.last())[i],
                #[trigger] f.push(s.last())[j],
            ) by {
                if j == f.len() {
                    assert(f.contains(f[i]));
                    t.lemma_filter_contains_rev(keep, f[i]);
                    let m = choose|m: int| 0 <= m < t.len() && t[m] == f[i];
                    assert(s[m] == f[i]);
                    assert(lex_le(s[m], s[s.len() - 1]));
                } else {
                    assert(f.push(s.last())[i] == f[i] && f.push(s.last())[j] == f[j]);
                }
            }
        } else {
            assert(s.filter(keep) == t.filter(keep));
        }
    }
}

/// Whatever merge outputs an interrupted merge left in the job's folder
/// (a `temp_merged.mp4`, the output file), a merge reads exactly the job's
/// downloaded files, each once and in playlist order, and no merge output,
/// when the other files of the folder are exactly the job's files (fewer
/// than 100000 segments).
pub proof fn resumed_merge_reads_the_playlist(
    p: Seq<char>,
    init_map: Option<SegmentModel>,
    segments: Seq<SegmentModel>,
    listed: Seq<Seq<char>>,
    base_folder: Seq<char>,
    save_to_file: Seq<char>,
)
    requires
        segments.len() <= 100000,
        sorted_texts(listed),
        merge_inputs_of(listed, base_folder, save_to_file).to_multiset() == queue_paths(
            p,
            init_map,
            segments,
        ).to_multiset(),
    ensures
        merge_inputs_of(listed, base_folder, save_to_file) == queue_paths(p, init_map, segments),
        forall|k: int|
            0 <= k < merge_inputs_of(listed, base_folder, save_to_file).len() ==> !is_merge_output(
                #[trigger] merge_inputs_of(listed, base_folder, save_to_file)[k],
                base_folder,
                save_to_file,
            ),
{
    let keep = |x: Seq<char>| !is_merge_output(x, base_folder, save_to_file);
    lemma_filter_sorted(listed, keep);
    merge_order_is_playlist_order(p, init_map, segments, merge_inputs_of(listed, base_folder, save_to_file));
    assert forall|k: int|
        0 <= k < listed.filter(keep).len() implies !is_merge_output(
        #[trigger] listed.filter(keep)[k],
        base_folder,
        save_to_file,
    ) by {
        listed.lemma_filter_pred(keep, k);
    }
}

/// How the monitor sees the report that queued file `name` ended well.
pub open spec fn finish_kind(name: Seq<char>) -> ProgressKind {
    progress_kind(finish_report(name, true))
}

/// The reports that every file of the download queue ended well, in queue
/// order.
pub open spec fn queue_finishes(init_map: Option<SegmentModel>, segments: Seq<SegmentModel>) -> Seq<
    ProgressKind,
> {
    download_queue_of(init_map, segments).map_values(|p: (Seq<char>, Seq<char>)| finish_kind(p.1))
}

/// A report that a file ended, well or not.
pub open spec fn is_finish(k: ProgressKind) -> bool {
    k is Segment || k is Init
}

/// The number of successful media-segment reports.
pub open spec fn segment_count(ks: Seq<ProgressKind>) -> nat {
    ks.to_multiset().count(ProgressKind::Segment(true))
}

proof fn lemma_count_push(s: Seq<ProgressKind>, a: ProgressKind)
    ensures
        segment_count(s.push(a)) == segment_count(s) + if a == ProgressKind::Segment(true) {
            1nat
        } else {
            0nat
        },
{
    broadcast use vstd::seq_lib::group_to_multiset_ensures;

    assert(s.push(a).to_multiset() =~= s.to_multiset().insert(a));
}

proof fn lemma_count_prefix(s: Seq<ProgressKind>, k: int)
    requires
        0 <= k <= s.len(),
    ensures
        segment_count(s.take(k)) <= segment_count(s),
    decreases s.len() - k,
{
    if k < s.len() {
        assert(s.take(k + 1) =~= s.take(k).push(s[k]));
        lemma_count_push(s.take(k), s[k]);
        lemma_count_prefix(s, k + 1);
    } else {
        assert(s.take(k) =~= s);
    }
}

proof fn lemma_count_filter(s: Seq<ProgressKind>)
    ensures
        segment_count(s.filter(|k: ProgressKind| is_finish(k))) == segment_count(s),
    decreases s.len(),
{
    let f = |k: ProgressKind| is_finish(k);
    reveal(Seq::filter);
    if s.len() == 0 {
        assert(s.filter(f) =~= s);
    } else {
        let t = s.drop_last();
        lemma_count_filter(t);
        assert(s =~= t.push(s.last()));
        lemma_count_push(t, s.last());
        if f(s.last()) {
            assert(s.filter(f) == t.filter(f).push(s.last()));
            lemma_count_push(t.filter(f), s.last());
        } else {
            assert(s.filter(f) == t.filter(f));
        }
    }
}

proof fn lemma_count_run(st: MonitorState, ks: Seq<ProgressKind>)
    requires
        st.finished_segments + segment_count(ks) <= u32::MAX,
    ensures
        monitor_run(st, ks).finished_segments == st.finished_segments + segment_count(ks),
    decreases ks.len(),
{
    broadcast use vstd::seq_lib::group_to_multiset_ensures;

    if ks.len() > 0 {
        let t = ks.drop_last();
        assert(ks =~= t.push(ks.last()));
        lemma_count_push(t, ks.last());
        lemma_count_run(st, t);
        let prev = monitor_run(st, t);
        assert(monitor_run(st, ks) == monitor_step(prev, ks.last()));
        match ks.last() {
            ProgressKind::Segment(ok) => {
                if ok {
                    assert(ks.last() == ProgressKind::Segment(true));
                } else {
                    assert(ks.last() != ProgressKind::Segment(true));
                }
            },
            _ => {
                assert(ks.last() != ProgressKind::Segment(true));
            },
        }
    } else {
        assert(!ks.contains(ProgressKind::Segment(true)));
    }
}

proof fn lemma_count_all_segments(n: nat)
    ensures
        segment_count(Seq::new(n, |i: int| ProgressKind::Segment(true))) == n,
    decreases n,
{
    if n > 0 {
        let s = Seq::new(n, |i: int| ProgressKind::Segment(true));
        let t = Seq::new((n - 1) as nat, |i: int| ProgressKind::Segment(true));
        assert(s =~= t.push(ProgressKind::Segment(true)));
        lemma_count_push(t, ProgressKind::Segment(true));
        lemma_count_all_segments((n - 1) as nat);
    } else {
        broadcast use vstd::seq_lib::group_to_multiset_ensures;

        let s = Seq::new(n, |i: int| ProgressKind::Segment(true));
        assert(!s.contains(ProgressKind::Segment(true)));
    }
}

proof fn lemma_queue_segment_count(init_map: Option<SegmentModel>, segments: Seq<SegmentModel>)
    ensures
        segment_count(queue_finishes(init_map, segments)) == segments.len(),
{
    broadcast use vstd::seq_lib::group_to_multiset_ensures;

    let is_ts = init_map is None;
    let segs = Seq::new(segments.len(), |i: int| ProgressKind::Segment(true));
    let q = queue_finishes(init_map, segments);
    assert forall|i: int| 0 <= i < segments.len() implies #[trigger] segment_file_name(
        i as nat,
        is_ts,
    ) != init_file_name() by {
        assert(segment_file_name(i as nat, is_ts)[0] == 's');
        assert(init_file_name()[0] == 'i');
    }
    lemma_count_all_segments(segments.len());
    match init_map {
        Some(s) => {
            let rest = q.remove(0);
            assert(rest =~= segs);
            assert(q[0] == ProgressKind::Init(true));
            assert(q.remove(0).to_multiset() =~= q.to_multiset().remove(q[0]));
        },
        None => {
            assert(q =~= segs);
        },
    }
}

/// The monitor counts media segments only: when every file of a job's
/// download queue is reported to have ended well, once each and in any
/// order among other reports, the count of finished segments never
/// exceeds the playlist's segments and ends equal to their number, the
/// initialisation segment not counted.
pub proof fn finished_segments_match_playlist(
    init_map: Option<SegmentModel>,
    segments: Seq<SegmentModel>,
    reports: Seq<ProgressKind>,
)
    requires
        segments.len() <= u32::MAX,
        reports.filter(|k: ProgressKind| is_finish(k)).to_multiset() == queue_finishes(
            init_map,
            segments,
        ).to_multiset(),
    ensures
        forall|k: int|
            0 <= k <= reports.len() ==> #[trigger] monitor_run(
                MonitorState { session_bytes: 0, finished_segments: 0 },
                reports.take(k),
            ).finished_segments <= segments.len(),
        monitor_run(
            MonitorState { session_bytes: 0, finished_segments: 0 },
            reports,
        ).finished_segments == segments.len(),
{
    let st0 = MonitorState { session_bytes: 0, finished_segments: 0 };
    lemma_count_filter(reports);
    lemma_queue_segment_count(init_map, segments);
    assert(segment_count(reports) == segments.len());
    assert forall|k: int| 0 <= k <= reports.len() implies #[trigger] monitor_run(
        st0,
        reports.take(k),
    ).finished_segments <= segments.len() by {
        lemma_count_prefix(reports, k);
        lemma_count_run(st0, reports.take(k));
    }
    lemma_count_run(st0, reports);
}

// ------------------------------------------------------------ media playlist lines

/// A `#` line that is none of the tags the media parse reads (such as
/// `#EXT-X-PROGRAM-DATE-TIME` or a comment) changes nothing: a segment
/// begun by `EXTINF` still waits for its URI line.
pub proof fn unhandled_media_tags_change_nothing(
    st: MediaState,
    l: Seq<char>,
    base: Seq<char>,
)
    requires
        unhandled_media_tag(l),
    ensures
        media_step(st, l, base) == Outcome::Done(st),
{
    assert(crate::text::starts_with(l, seq!['#'])) by {
        assert(l.take(1) =~= seq!['#']);
    }
}

/// A line that starts with `#` and is none of the tags a media playlist
/// reader acts on.
pub open spec fn unhandled_media_tag(l: Seq<char>) -> bool {
    &&& l.len() > 0 && l[0] == '#'
    &&& !crate::text::starts_with(l, "#EXT-X-VERSION"@)
    &&& !crate::text::starts_with(l, "#EXT-X-TARGETDURATION"@)
    &&& !crate::text::starts_with(l, "#EXT-X-MEDIA-SEQUENCE"@)
    &&& !crate::text::starts_with(l, "#EXT-X-PLAYLIST-TYPE"@)
    &&& !crate::text::starts_with(l, "#EXT-X-MAP"@)
    &&& !crate::text::starts_with(l, "#EXT-X-KEY"@)
    &&& !crate::text::starts_with(l, "#EXTINF"@)
    &&& !crate::text::starts_with(l, "#EXT-X-DISCONTINUITY"@)
    &&& !crate::text::starts_with(l, "#EXT-X-ENDLIST"@)
}

proof fn lemma_run_before_removed(lines: Seq<Seq<char>>, base: Seq<char>, p: int, n: nat)
    requires
        0 <= p < lines.len(),
        n <= p,
    ensures
        media_run(lines.remove(p), base, n) == media_run(lines, base, n),
    decreases n,
{
    if n > 0 {
        lemma_run_before_removed(lines, base, p, (n - 1) as nat);
        assert(lines.remove(p)[n - 1] == lines[n - 1]);
    }
}

proof fn lemma_run_after_removed(lines: Seq<Seq<char>>, base: Seq<char>, p: int, n: nat)
    requires
        0 <= p < n <= lines.len(),
        unhandled_media_tag(lines[p]),
    ensures
        media_run(lines.remove(p), base, (n - 1) as nat) == media_run(lines, base, n),
    decreases n,
{
    if n == p + 1 {
        lemma_run_before_removed(lines, base, p, p as nat);
        match media_run(lines, base, p as nat) {
            Outcome::Done(st) => {
                unhandled_media_tags_change_nothing(st, lines[p], base);
            },
            _ => {},
        }
    } else {
        lemma_run_after_removed(lines, base, p, (n - 1) as nat);
        assert(lines.remove(p)[n - 2] == lines[n - 1]);
    }
}

/// A media playlist reads the same with any tag line it does not act on
/// left out: such a line, even between an `#EXTINF` and its URI, neither
/// drops nor changes the segment waiting for its URI.
pub proof fn unhandled_media_tags_can_be_left_out(lines: Seq<Seq<char>>, base: Seq<char>, p: int)
    requires
        0 <= p < lines.len(),
        unhandled_media_tag(lines[p]),
    ensures
        media_run(lines.remove(p), base, lines.remove(p).len()) == media_run(lines, base, lines.len()),
{
    lemma_run_after_removed(lines, base, p, lines.len());
}

/// A line that is no tag completes the segment waiting for its URI: the
/// segment, with the line resolved against the playlist URL as its URL, is
/// added after the others and nothing waits any more; everything else
/// stays.
pub proof fn uri_line_completes_pending_segment(
    st: MediaState,
    l: Seq<char>,
    base: Seq<char>,
    u: Seq<char>,
)
    requires
        l.len() > 0 && l[0] != '#',
        st.current is Some,
        crate::string_utils::url_join_outcome(base, l) == Ok::<Seq<char>, Seq<char>>(u),
    ensures
        media_step(st, l, base) == Outcome::Done(
            MediaState {
                segments: st.segments.push(SegmentModel { url: u, ..st.current.unwrap() }),
                current: None,
                ..st
            },
        ),
{
    reveal_strlit("#EXT-X-VERSION");
    reveal_strlit("#EXT-X-TARGETDURATION");
    reveal_strlit("#EXT-X-MEDIA-SEQUENCE");
    reveal_strlit("#EXT-X-PLAYLIST-TYPE");
    reveal_strlit("#EXT-X-MAP");
    reveal_strlit("#EXT-X-KEY");
    reveal_strlit("#EXTINF");
    reveal_strlit("#EXT-X-DISCONTINUITY");
    reveal_strlit("#EXT-X-ENDLIST");
    assert(!crate::text::starts_with(l, "#EXT-X-VERSION"@)) by {
        if crate::text::starts_with(l, "#EXT-X-VERSION"@) {
            assert(l.take(14)[0] == l[0]);
        }
    }
    assert(!crate::text::starts_with(l, "#EXT-X-TARGETDURATION"@)) by {
        if crate::text::starts_with(l, "#EXT-X-TARGETDURATION"@) {
            assert(l.take(21)[0] == l[0]);
        }
    }
    assert(!crate::text::starts_with(l, "#EXT-X-MEDIA-SEQUENCE"@)) by {
        if crate::text::starts_with(l, "#EXT-X-MEDIA-SEQUENCE"@) {
            assert(l.take(21)[0] == l[0]);
        }
    }
    assert(!crate::text::starts_with(l, "#EXT-X-PLAYLIST-TYPE"@)) by {
        if crate::text::starts_with(l, "#EXT-X-PLAYLIST-TYPE"@) {
            assert(l.take(20)[0] == l[0]);
        }
    }
    assert(!crate::text::starts_with(l, "#EXT-X-MAP"@)) by {
        if crate::text::starts_with(l, "#EXT-X-MAP"@) {
            assert(l.take(10)[0] == l[0]);
        }
    }
    assert(!crate::text::starts_with(l, "#EXT-X-KEY"@)) by {
        if crate::text::starts_with(l, "#EXT-X-KEY"@) {
            assert(l.take(10)[0] == l[0]);
        }
    }
    assert(!crate::text::starts_with(l, "#EXTINF"@)) by {
        if crate::text::starts_with(l, "#EXTINF"@) {
            assert(l.take(7)[0] == l[0]);
        }
    }
    assert(!crate::text::starts_with(l, "#EXT-X-DISCONTINUITY"@)) by {
        if crate::text::starts_with(l, "#EXT-X-DISCONTINUITY"@) {
            assert(l.take(20)[0] == l[0]);
        }
    }
    assert(!crate::text::starts_with(l, "#EXT-X-ENDLIST"@)) by {
        if crate::text::starts_with(l, "#EXT-X-ENDLIST"@) {
            assert(l.take(14)[0] == l[0]);
        }
    }
    assert(!crate::text::starts_with(l, seq!['#'])) by {
        if crate::text::starts_with(l, seq!['#']) {
            assert(l.take(1)[0] == l[0]);
        }
    }
}

// ------------------------------------------------------------ master playlist lines

/// The attribute `key` of an attribute list read as an unsigned number.
pub open spec fn attribute_number(a: Seq<(Seq<char>, Seq<char>)>, key: Seq<char>, max: nat) -> Option<nat> {
    match crate::string_utils::lookup(a, key) {
        Some(t) => match crate::numbers::parse_unsigned(t, max) {
            Ok(v) => Some(v),
            Err(_) => None,
        },
        None => None,
    }
}

/// An `EXT-X-STREAM-INF` line that is read without error adds one variant
/// stream after the others, each field the attribute of the same name:
/// `BANDWIDTH` as a number, `RESOLUTION`, `AUDIO`, `VIDEO` and `SUBTITLES`
/// as given, `CODECS` as its codec name; its URI is the next line resolved
/// against the playlist URL.
pub proof fn stream_inf_fields(pl: MasterModel, lines: Seq<Seq<char>>, i: int, url: Seq<char>)
    requires
        0 <= i < lines.len(),
        crate::text::starts_with(lines[i], "#EXT-X-STREAM-INF"@),
        master_line_check(lines, i) is Fine,
    ensures
        ({
            let a = crate::string_utils::attribute_pairs(lines[i]).unwrap();
            let after = master_apply(pl, lines, i, url);
            let v = after.variants.last();
            &&& crate::string_utils::attribute_pairs(lines[i]) is Some
            &&& after.variants.len() == pl.variants.len() + 1
            &&& after.variants.drop_last() == pl.variants
            &&& after.renditions == pl.renditions
            &&& after.iframes == pl.iframes
            &&& after.version == pl.version
            &&& attribute_number(a, "BANDWIDTH"@, u32::MAX as nat) == Some(v.bandwidth as nat)
            &&& v.resolution == crate::string_utils::lookup(a, "RESOLUTION"@)
            &&& v.audio_group == crate::string_utils::lookup(a, "AUDIO"@)
            &&& v.video_group == crate::string_utils::lookup(a, "VIDEO"@)
            &&& v.subtitles_group == crate::string_utils::lookup(a, "SUBTITLES"@)
            &&& v.codecs == match crate::string_utils::lookup(a, "CODECS"@) {
                Some(c) => Some(crate::string_utils::codec_name(Some(c))),
                None => None,
            }
            &&& v.uri == crate::string_utils::resolved_url(url, lines[i + 1])
        }),
{
    let l = lines[i];
    reveal_strlit("#EXT-X-STREAM-INF");
    reveal_strlit("#EXT-X-VERSION");
    assert(!crate::text::starts_with(l, "#EXT-X-VERSION"@)) by {
        if crate::text::starts_with(l, "#EXT-X-VERSION"@) {
            assert(l.take(14)[7] == l[7]);
            assert(l.take(17)[7] == l[7]);
        }
    }
    let b = crate::string_utils::lookup(crate::string_utils::attribute_pairs(l).unwrap(), "BANDWIDTH"@).unwrap();
    if b.len() > 0 && b[0] == '+' {
        crate::numbers::lemma_read_digits_bound(b.drop_first(), 0, u32::MAX as nat);
    } else {
        crate::numbers::lemma_read_digits_bound(b, 0, u32::MAX as nat);
    }
    let after = master_apply(pl, lines, i, url);
    assert(after.variants.drop_last() =~= pl.variants);
}

/// An `EXT-X-MEDIA` line that is read without error adds one rendition
/// after the others, each field the attribute of the same name (`DEFAULT`
/// and `AUTOSELECT` true exactly when `YES`).
pub proof fn media_rendition_fields(pl: MasterModel, lines: Seq<Seq<char>>, i: int, url: Seq<char>)
    requires
        0 <= i < lines.len(),
        crate::text::starts_with(lines[i], "#EXT-X-MEDIA"@),
        master_line_check(lines, i) is Fine,
    ensures
        ({
            let a = crate::string_utils::attribute_pairs(lines[i]).unwrap();
            let after = master_apply(pl, lines, i, url);
            let r = after.renditions.last();
            &&& after.renditions.len() == pl.renditions.len() + 1
            &&& after.renditions.drop_last() == pl.renditions
            &&& after.variants == pl.variants
            &&& after.iframes == pl.iframes
            &&& Some(r.media_type) == crate::string_utils::lookup(a, "TYPE"@)
            &&& Some(r.group_id) == crate::string_utils::lookup(a, "GROUP-ID"@)
            &&& Some(r.name) == crate::string_utils::lookup(a, "NAME"@)
            &&& r.default == (crate::string_utils::lookup(a, "DEFAULT"@) == Some("YES"@))
            &&& r.autoselect == (crate::string_utils::lookup(a, "AUTOSELECT"@) == Some("YES"@))
            &&& r.language == crate::string_utils::lookup(a, "LANGUAGE"@)
            &&& r.uri == crate::string_utils::lookup(a, "URI"@)
        }),
{
    let l = lines[i];
    reveal_strlit("#EXT-X-MEDIA");
    reveal_strlit("#EXT-X-STREAM-INF");
    reveal_strlit("#EXT-X-VERSION");
    assert(!crate::text::starts_with(l, "#EXT-X-VERSION"@)) by {
        if crate::text::starts_with(l, "#EXT-X-VERSION"@) {
            assert(l.take(14)[7] == l[7]);
            assert(l.take(12)[7] == l[7]);
        }
    }
    assert(!crate::text::starts_with(l, "#EXT-X-STREAM-INF"@)) by {
        if crate::text::starts_with(l, "#EXT-X-STREAM-INF"@) {
            assert(l.take(17)[7] == l[7]);
            assert(l.take(12)[7] == l[7]);
        }
    }
    let after = master_apply(pl, lines, i, url);
    assert(after.renditions.drop_last() =~= pl.renditions);
}

/// An `EXT-X-I-FRAME-STREAM-INF` line that is read without error adds one
/// I-frame stream after the others: `BANDWIDTH` as a number, `RESOLUTION`
/// and `URI` as given, `CODECS` as its codec name.
pub proof fn iframe_stream_fields(pl: MasterModel, lines: Seq<Seq<char>>, i: int, url: Seq<char>)
    requires
        0 <= i < lines.len(),
        crate::text::starts_with(lines[i], "#EXT-X-I-FRAME-STREAM-INF"@),
        master_line_check(lines, i) is Fine,
    ensures
        ({
            let a = crate::string_utils::attribute_pairs(lines[i]).unwrap();
            let after = master_apply(pl, lines, i, url);
            let f = after.iframes.last();
            &&& after.iframes.len() == pl.iframes.len() + 1
            &&& after.iframes.drop_last() == pl.iframes
            &&& after.variants == pl.variants
            &&& after.renditions == pl.renditions
            &&& attribute_number(a, "BANDWIDTH"@, u32::MAX as nat) == Some(f.bandwidth as nat)
            &&& f.resolution == crate::string_utils::lookup(a, "RESOLUTION"@)
            &&& Some(f.uri) == crate::string_utils::lookup(a, "URI"@)
            &&& f.codecs == match crate::string_utils::lookup(a, "CODECS"@) {
                Some(c) => Some(crate::string_utils::codec_name(Some(c))),
                None => None,
            }
        }),
{
    let l = lines[i];
    reveal_strlit("#EXT-X-I-FRAME-STREAM-INF");
    reveal_strlit("#EXT-X-MEDIA");
    reveal_strlit("#EXT-X-STREAM-INF");
    reveal_strlit("#EXT-X-VERSION");
    assert(!crate::text::starts_with(l, "#EXT-X-VERSION"@)) by {
        if crate::text::starts_with(l, "#EXT-X-VERSION"@) {
            assert(l.take(14)[7] == l[7]);
            assert(l.take(25)[7] == l[7]);
        }
    }
    assert(!crate::text::starts_with(l, "#EXT-X-STREAM-INF"@)) by {
        if crate::text::starts_with(l, "#EXT-X-STREAM-INF"@) {
            assert(l.take(17)[7] == l[7]);
            assert(l.take(25)[7] == l[7]);
        }
    }
    assert(!crate::text::starts_with(l, "#EXT-X-MEDIA"@)) by {
        if crate::text::starts_with(l, "#EXT-X-MEDIA"@) {
            assert(l.take(12)[7] == l[7]);
            assert(l.take(25)[7] == l[7]);
        }
    }
    let b = crate::string_utils::lookup(crate::string_utils::attribute_pairs(l).unwrap(), "BANDWIDTH"@).unwrap();
    if b.len() > 0 && b[0] == '+' {
        crate::numbers::lemma_read_digits_bound(b.drop_first(), 0, u32::MAX as nat);
    } else {
        crate::numbers::lemma_read_digits_bound(b, 0, u32::MAX as nat);
    }
    let after = master_apply(pl, lines, i, url);
    assert(after.iframes.drop_last() =~= pl.iframes);
}

// ------------------------------------------------------------ file names

proof fn lemma_last_dot(s: Seq<char>)
    ensures
        match crate::fs_utils::last_dot(s) {
            Some(i) => 0 <= i < s.len() && s[i] == '.' && forall|j: int| i < j < s.len() ==> s[j] != '.',
            None => forall|j: int| 0 <= j < s.len() ==> s[j] != '.',
        },
    decreases s.len(),
{
    if s.len() > 0 && s.last() != '.' {
        lemma_last_dot(s.drop_last());
        assert forall|j: int| 0 <= j < s.len() - 1 implies s[j] == s.drop_last()[j] by {}
    }
}

/// A file name's stem keeps everything before its last dot, inner dots
/// included (`a.b.m3u8` gives `a.b`); a name without a dot, or whose only
/// dot leads it (`.hidden`), is its own stem.
pub proof fn stem_cuts_at_last_dot(name: Seq<char>)
    ensures
        (forall|j: int| 0 < j < name.len() ==> name[j] != '.') ==> crate::fs_utils::stem_of(name)
            == name,
        forall|i: int|
            0 < i < name.len() && name[i] == '.' && (forall|j: int| i < j < name.len() ==> name[j]
                != '.') ==> #[trigger] crate::fs_utils::stem_of(name) == name.take(i),
{
    lemma_last_dot(name);
    assert forall|i: int|
        0 < i < name.len() && name[i] == '.' && (forall|j: int| i < j < name.len() ==> name[j]
            != '.') implies #[trigger] crate::fs_utils::stem_of(name) == name.take(i) by {
        match crate::fs_utils::last_dot(name) {
            Some(k) => {
                if k < i {
                } else if k > i {
                }
            },
            None => {},
        }
    }
}

// ------------------------------------------------------------ job statuses

/// The statuses in full: a job is unfinished when queued, downloading,
/// merging or paused; it can be resumed when paused or failed; it can be
/// paused when queued, downloading or merging.
pub proof fn status_meanings(s: StatusModel)
    ensures
        status_is_ongoing(s) <==> (s is Queued || s is Downloading || s is Merging || s is Paused),
        status_can_resume(s) <==> (s is Paused || s is CompletedError),
        status_can_pause(s) <==> (s is Queued || s is Downloading || s is Merging),
{
}

/// A target file is busy exactly when some unfinished job (queued,
/// downloading, merging or paused) writes to that file name in that
/// folder; a job that has finished does not hold it.
pub proof fn busy_targets(jobs: Seq<JobModel>, folder: Seq<char>, file_name: Seq<char>, exists_on_disk: bool)
    ensures
        crate::jobs::target_busy(jobs, folder, file_name) <==> exists|k: int|
            0 <= k < jobs.len() && #[trigger] jobs[k].save_folder == folder && jobs[k].file_name
                == file_name && (jobs[k].status is Queued || jobs[k].status is Downloading
                || jobs[k].status is Merging || jobs[k].status is Paused),
        crate::jobs::file_status_of(jobs, folder, file_name, exists_on_disk) == if exists|k: int|
            0 <= k < jobs.len() && #[trigger] jobs[k].save_folder == folder && jobs[k].file_name
                == file_name && (jobs[k].status is Queued || jobs[k].status is Downloading
                || jobs[k].status is Merging || jobs[k].status is Paused) {
            crate::types::TargetFileStatus::Busy
        } else if exists_on_disk {
            crate::types::TargetFileStatus::Exists
        } else {
            crate::types::TargetFileStatus::Ready
        },
{
}

/// A download counts as active exactly when some job is downloading
/// segments: queued, merging, paused and finished jobs do not count.
pub proof fn active_download_meaning(jobs: Seq<JobModel>)
    ensures
        crate::jobs::any_downloading(jobs) <==> exists|k: int|
            0 <= k < jobs.len() && #[trigger] jobs[k].status == StatusModel::Downloading,
        (forall|k: int| 0 <= k < jobs.len() ==> !(#[trigger] jobs[k].status is Downloading))
            ==> !crate::jobs::any_downloading(jobs),
{
    if crate::jobs::any_downloading(jobs) {
        let k = choose|k: int| 0 <= k < jobs.len() && #[trigger] jobs[k].status is Downloading;
        assert(jobs[k].status == StatusModel::Downloading);
    }
}

} // verus!
