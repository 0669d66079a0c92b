//! The decisions of the download engine: which files a job downloads and
//! under which names, how long to wait between retries, how segments are
//! merged and what ffmpeg is told and answers.
use vstd::prelude::*;
use crate::numbers::{decimal, decimal_chars, zero_padded, zero_padded_chars};
use crate::playlist::{opt_segment, M3U8MediaPlaylist, MediaSegment, SegmentModel};
use crate::crypto_utils::{opt_text, segment_plaintext, segment_plaintext_of};
use crate::types::DownloadProgress;
use crate::text::{chars_of, contains_text, same_chars, string_from};
use crate::m3u8_utils::{detect_ts_sync_offset, ts_sync_offset};

verus! {

// ------------------------------------------------------------ download queue

/// The name under which segment `index` is stored: `.ts` for a transport
/// stream (no initialisation segment), `.m4s` for fragmented MP4.
pub open spec fn segment_file_name(index: nat, is_ts: bool) -> Seq<char> {
    seq!['s', 'e', 'q', '_'] + zero_padded(index, 5) + seq!['.'] + if is_ts {
        seq!['t', 's']
    } else {
        seq!['m', '4', 's']
    }
}

/// The name under which the initialisation segment is stored.
pub open spec fn init_file_name() -> Seq<char> {
    seq!['i', 'n', 'i', 't', '.', 'm', 'p', '4']
}

/// The files a job downloads, as (URL, file name) pairs in order: the
/// initialisation segment first when there is one, then every segment.
pub open spec fn download_queue_of(
    init_map: Option<SegmentModel>,
    segments: Seq<SegmentModel>,
) -> Seq<(Seq<char>, Seq<char>)> {
    let is_ts = init_map is None;
    let seg_items = Seq::new(
        segments.len(),
        |i: int| (segments[i].url, segment_file_name(i as nat, is_ts)),
    );
    match init_map {
        Some(s) => seq![(s.url, init_file_name())] + seg_items,
        None => seg_items,
    }
}

fn segment_file_name_exec(index: usize, is_ts: bool) -> (r: String)
    ensures
        r@ == segment_file_name(index as nat, is_ts),
{
    let mut v: Vec<char> = vec!['s', 'e', 'q', '_'];
    let digits = zero_padded_chars(index as u64, 5);
    let ghost p = v@;
    let mut i: usize = 0;
    while i < digits.len()
        invariant
            i <= digits@.len(),
            v@ == p + digits@.take(i as int),
        decreases digits@.len() - i,
    {
        v.push(digits[i]);
        i = i + 1;
        assert(v@ =~= p + digits@.take(i as int));
    }
    assert(digits@.take(digits@.len() as int) =~= digits@);
    v.push('.');
    if is_ts {
        v.push('t');
        v.push('s');
    } else {
        v.push('m');
        v.push('4');
        v.push('s');
    }
    assert(v@ =~= segment_file_name(index as nat, is_ts));
    string_from(&v)
}

/// The (URL, file name) pairs of the files a job downloads; see
/// `download_queue_of`.
pub fn build_download_queue(media: &M3U8MediaPlaylist) -> (r: Vec<(String, String)>)
    ensures
        r@.map_values(|p: (String, String)| (p.0@, p.1@)) == download_queue_of(
            opt_segment(media.init_map_file),
            media.segments@.map_values(|s: MediaSegment| s@),
        ),
{
    let ghost segs = media.segments@.map_values(|s: MediaSegment| s@);
    let is_ts = media.init_map_file.is_none();
    let mut r: Vec<(String, String)> = Vec::new();
    match &media.init_map_file {
        Some(s) => {
            let name = string_from(&vec!['i', 'n', 'i', 't', '.', 'm', 'p', '4']);
            r.push((s.url.clone(), name));
        },
        None => {},
    }
    let ghost head = r@.map_values(|p: (String, String)| (p.0@, p.1@));
    let ghost items = Seq::new(
        segs.len(),
        |i: int| (segs[i].url, segment_file_name(i as nat, is_ts)),
    );
    let mut i: usize = 0;
    while i < media.segments.len()
        invariant
            i <= media.segments@.len(),
            segs == media.segments@.map_values(|s: MediaSegment| s@),
            is_ts == (media.init_map_file is None),
            items == Seq::new(
                segs.len(),
                |i: int| (segs[i].url, segment_file_name(i as nat, is_ts)),
            ),
            r@.map_values(|p: (String, String)| (p.0@, p.1@)) == head + items.take(i as int),
        decreases media.segments@.len() - i,
    {
        let name = segment_file_name_exec(i, is_ts);
        let item = (media.segments[i].url.clone(), name);
        let ghost before = r@.map_values(|p: (String, String)| (p.0@, p.1@));
        r.push(item);
        assert(r@.map_values(|p: (String, String)| (p.0@, p.1@)) =~= before.push(
            (item.0@, item.1@),
        ));
        i = i + 1;
        assert(r@.map_values(|p: (String, String)| (p.0@, p.1@)) =~= head + items.take(i as int));
    }
    assert(items.take(segs.len() as int) =~= items);
    proof {
        match &media.init_map_file {
            Some(s) => {
                assert(head =~= seq![(s.url@, init_file_name())]);
            },
            None => {
                assert(head =~= Seq::<(Seq<char>, Seq<char>)>::empty());
                assert(head + items =~= items);
            },
        }
    }
    r
}

/// The report that a queued file ended: the initialisation segment is
/// reported apart from the media segments.
pub open spec fn finish_report(file_name: Seq<char>, success: bool) -> DownloadProgress {
    if file_name == init_file_name() {
        DownloadProgress::InitSegmentFinished(success)
    } else {
        DownloadProgress::SegmentFinished(success)
    }
}

/// The report a worker sends when the queued file `file_name` ended.
pub fn finished_report(file_name: &str, success: bool) -> (r: DownloadProgress)
    ensures
        r == finish_report(file_name@, success),
{
    let n = chars_of(file_name);
    let init = vec!['i', 'n', 'i', 't', '.', 'm', 'p', '4'];
    assert(init@ =~= init_file_name());
    if same_chars(n.as_slice(), init.as_slice()) {
        DownloadProgress::InitSegmentFinished(success)
    } else {
        DownloadProgress::SegmentFinished(success)
    }
}

// ------------------------------------------------------------ decryption

/// How a queued file is decrypted, as plain data.
pub struct DecryptionModel {
    pub key_uri: Seq<char>,
    pub iv: Option<Seq<char>>,
    pub sequence: u32,
}

/// How a queued file is decrypted: the URI of its AES-128 key, the `IV`
/// attribute if any, and the sequence number an IV is made of otherwise.
#[derive(Debug, Clone)]
pub struct Decryption {
    pub key_uri: String,
    pub iv: Option<String>,
    pub sequence: u32,
}

impl View for Decryption {
    type V = DecryptionModel;

    open spec fn view(&self) -> DecryptionModel {
        DecryptionModel { key_uri: self.key_uri@, iv: opt_text(self.iv), sequence: self.sequence }
    }
}

pub open spec fn opt_decryption(o: Option<Decryption>) -> Option<DecryptionModel> {
    match o {
        Some(d) => Some(d@),
        None => None,
    }
}

/// The media sequence number of the segment at `index`: the playlist's
/// `EXT-X-MEDIA-SEQUENCE` (0 when absent) plus the index, modulo 2^32.
pub open spec fn iv_sequence(media_sequence: Option<u32>, index: u32) -> u32 {
    ((match media_sequence {
        Some(m) => m as int,
        None => 0int,
    } + index) % 0x1_0000_0000) as u32
}

/// How a segment is decrypted: only segments under an `AES-128` key are;
/// other methods and unencrypted segments are written as received.
pub open spec fn decryption_of(seg: SegmentModel, media_sequence: Option<u32>) -> Option<
    DecryptionModel,
> {
    match seg.key {
        Some(k) => if k.method == "AES-128"@ {
            Some(
                DecryptionModel {
                    key_uri: k.uri,
                    iv: k.iv,
                    sequence: iv_sequence(media_sequence, seg.sequence),
                },
            )
        } else {
            None
        },
        None => None,
    }
}

/// The decryption of each file of the download queue, in queue order.
pub open spec fn decryption_queue_of(
    init_map: Option<SegmentModel>,
    segments: Seq<SegmentModel>,
    media_sequence: Option<u32>,
) -> Seq<Option<DecryptionModel>> {
    let seg_items = Seq::new(segments.len(), |i: int| decryption_of(segments[i], media_sequence));
    match init_map {
        Some(s) => seq![decryption_of(s, media_sequence)] + seg_items,
        None => seg_items,
    }
}

fn decryption_exec(seg: &MediaSegment, media_sequence: Option<u32>) -> (r: Option<Decryption>)
    ensures
        opt_decryption(r) == decryption_of(seg@, media_sequence),
{
    match &seg.key {
        Some(k) => {
            let m = chars_of(k.method.as_str());
            let aes = chars_of("AES-128");
            if same_chars(m.as_slice(), aes.as_slice()) {
                let ms: u64 = match media_sequence {
                    Some(v) => v as u64,
                    None => 0,
                };
                let sequence = ((ms + seg.sequence as u64) % 0x1_0000_0000) as u32;
                let iv = match &k.iv {
                    Some(v) => Some(v.clone()),
                    None => None,
                };
                Some(Decryption { key_uri: k.uri.clone(), iv, sequence })
            } else {
                None
            }
        },
        None => None,
    }
}

/// The decryption of each file that `build_download_queue` lists, in the
/// same order.
pub fn queue_decryption(media: &M3U8MediaPlaylist) -> (r: Vec<Option<Decryption>>)
    ensures
        r@.map_values(|d: Option<Decryption>| opt_decryption(d)) == decryption_queue_of(
            opt_segment(media.init_map_file),
            media.segments@.map_values(|s: MediaSegment| s@),
            media.media_sequence,
        ),
        r@.len() == download_queue_of(
            opt_segment(media.init_map_file),
            media.segments@.map_values(|s: MediaSegment| s@),
        ).len(),
{
    let ghost segs = media.segments@.map_values(|s: MediaSegment| s@);
    let ghost ms = media.media_sequence;
    let mut r: Vec<Option<Decryption>> = Vec::new();
    match &media.init_map_file {
        Some(s) => {
            r.push(decryption_exec(s, media.media_sequence));
        },
        None => {},
    }
    let ghost head = r@.map_values(|d: Option<Decryption>| opt_decryption(d));
    let ghost items = Seq::new(segs.len(), |i: int| decryption_of(segs[i], ms));
    let mut i: usize = 0;
    while i < media.segments.len()
        invariant
            i <= media.segments@.len(),
            segs == media.segments@.map_values(|s: MediaSegment| s@),
            ms == media.media_sequence,
            items == Seq::new(segs.len(), |i: int| decryption_of(segs[i], ms)),
            r@.map_values(|d: Option<Decryption>| opt_decryption(d)) == head + items.take(i as int),
        decreases media.segments@.len() - i,
    {
        let d = decryption_exec(&media.segments[i], media.media_sequence);
        let ghost before = r@.map_values(|d: Option<Decryption>| opt_decryption(d));
        r.push(d);
        assert(r@.map_values(|d: Option<Decryption>| opt_decryption(d)) =~= before.push(
            opt_decryption(d),
        ));
        i = i + 1;
        assert(r@.map_values(|d: Option<Decryption>| opt_decryption(d)) =~= head + items.take(
            i as int,
        ));
    }
    assert(items.take(segs.len() as int) =~= items);
    proof {
        match &media.init_map_file {
            Some(s) => {
                assert(head =~= seq![decryption_of(s@, ms)]);
            },
            None => {
                assert(head =~= Seq::<Option<DecryptionModel>>::empty());
                assert(head + items =~= items);
            },
        }
    }
    r
}

// ------------------------------------------------------------ retries

/// How many times a segment download is tried.
pub const MAX_RETRIES: u32 = 5;

/// Two to the power `n`.
pub open spec fn pow2(n: nat) -> nat
    decreases n,
{
    if n == 0 {
        1
    } else {
        2 * pow2((n - 1) as nat)
    }
}

/// The seconds to wait after failed attempt `attempt` of `max_retries`:
/// none after the last attempt, else twice as long as before, starting at
/// one second and capped at eight.
pub open spec fn backoff_of(attempt: nat, max_retries: nat) -> Option<nat> {
    if attempt < max_retries {
        let b = pow2((attempt - 1) as nat);
        Some(
            if b < 8 {
                b
            } else {
                8
            },
        )
    } else {
        None
    }
}

/// The wait before the next attempt after attempt `attempt` failed (1s,
/// 2s, 4s, then 8s), or none after the last attempt.
pub fn retry_backoff(attempt: u32, max_retries: u32) -> (r: Option<u64>)
    requires
        1 <= attempt,
        attempt < max_retries ==> attempt <= 64,
    ensures
        match r {
            Some(s) => backoff_of(attempt as nat, max_retries as nat) == Some(s as nat),
            None => backoff_of(attempt as nat, max_retries as nat) is None,
        },
{
    if attempt >= max_retries {
        return None;
    }
    assert(attempt <= 64);
    let mut b: u64 = 1;
    let mut k: u32 = 1;
    while k < attempt && b < 8
        invariant
            1 <= k <= attempt,
            attempt <= 64,
            b == pow2((k - 1) as nat),
            b == 1 || b == 2 || b == 4 || b == 8,
        decreases attempt - k,
    {
        b = b * 2;
        k = k + 1;
    }
    proof {
        lemma_pow2_monotone((k - 1) as nat, (attempt - 1) as nat);
    }
    Some(
        if b < 8 {
            b
        } else {
            8
        },
    )
}

pub proof fn lemma_pow2_monotone(a: nat, b: nat)
    requires
        a <= b,
    ensures
        pow2(a) <= pow2(b),
    decreases b,
{
    if a < b {
        lemma_pow2_monotone(a, (b - 1) as nat);
    }
}

/// A file that is already there and not empty is not downloaded again.
pub fn already_downloaded(existing_size: Option<u64>) -> (r: bool)
    ensures
        r == (existing_size matches Some(s) && s > 0),
{
    match existing_size {
        Some(s) => s > 0,
        None => false,
    }
}

/// The retry loop of one segment: attempts `1..=max_retries`, each followed
/// by success (the file is complete) or failure; after a failure the loop
/// waits `backoff_of` and tries again until the attempts run out.
pub enum RetryStep {
    /// The download succeeded: rename the partial file and stop.
    Finish,
    /// Wait this many seconds, then make attempt `next`.
    Wait { seconds: u64, next: u32 },
    /// All attempts failed.
    GiveUp,
}

/// What follows attempt `attempt` of a segment download.
pub fn after_attempt(attempt: u32, max_retries: u32, succeeded: bool) -> (r: RetryStep)
    requires
        1 <= attempt <= max_retries,
        attempt < max_retries ==> attempt <= 64,
    ensures
        succeeded ==> r is Finish,
        !succeeded && attempt == max_retries ==> r is GiveUp,
        !succeeded && attempt < max_retries ==> (r matches RetryStep::Wait { seconds, next }
            && next == attempt + 1 && backoff_of(attempt as nat, max_retries as nat) == Some(
            seconds as nat,
        )),
{
    if succeeded {
        return RetryStep::Finish;
    }
    match retry_backoff(attempt, max_retries) {
        Some(s) => RetryStep::Wait { seconds: s, next: attempt + 1 },
        None => RetryStep::GiveUp,
    }
}

// ------------------------------------------------------------ merging

/// How downloaded segments become one file.
#[derive(PartialEq, Eq, Structural, Clone, Copy, Debug)]
pub enum MergeStrategy {
    /// Fragmented MP4: concatenate the bytes, then let ffmpeg remux.
    Binary,
    /// Transport stream: ffmpeg's concat demuxer over a list of files.
    Concat,
}

/// Segments with an initialisation segment (`init.mp4`) are merged
/// byte-wise, the others with the concat demuxer.
pub open spec fn merge_strategy_of(file_names: Seq<Seq<char>>) -> MergeStrategy {
    if exists|i: int| 0 <= i < file_names.len() && #[trigger] file_names[i] == init_file_name() {
        MergeStrategy::Binary
    } else {
        MergeStrategy::Concat
    }
}

/// The merge strategy for the downloaded files, by their file names.
pub fn choose_merge_strategy(file_names: &Vec<String>) -> (r: MergeStrategy)
    ensures
        r == merge_strategy_of(file_names@.map_values(|s: String| s@)),
{
    let ghost names = file_names@.map_values(|s: String| s@);
    let init = vec!['i', 'n', 'i', 't', '.', 'm', 'p', '4'];
    assert(init@ =~= init_file_name());
    let mut i: usize = 0;
    while i < file_names.len()
        invariant
            i <= file_names@.len(),
            names == file_names@.map_values(|s: String| s@),
            init@ == init_file_name(),
            forall|k: int| 0 <= k < i ==> #[trigger] names[k] != init_file_name(),
        decreases file_names@.len() - i,
    {
        let c = chars_of(file_names[i].as_str());
        if same_chars(c.as_slice(), init.as_slice()) {
            assert(names[i as int] == init_file_name());
            return MergeStrategy::Binary;
        }
        i = i + 1;
    }
    MergeStrategy::Concat
}

/// `s` with every backslash turned into a forward slash.
pub open spec fn forward_slashes(s: Seq<char>) -> Seq<char> {
    s.map_values(|c: char| if c == '\\' { '/' } else { c })
}

/// The line of the concat list for one file.
pub open spec fn concat_line(path: Seq<char>) -> Seq<char> {
    seq!['f', 'i', 'l', 'e', ' ', '\''] + forward_slashes(path) + seq!['\'', '\n']
}

/// The concat demuxer's list: one `file '<path>'` line per file, in order,
/// with forward slashes.
pub open spec fn concat_list_of(paths: Seq<Seq<char>>) -> Seq<char>
    decreases paths.len(),
{
    if paths.len() == 0 {
        seq![]
    } else {
        concat_list_of(paths.drop_last()) + concat_line(paths.last())
    }
}

fn push_all(out: &mut Vec<char>, s: &[char])
    ensures
        final(out)@ == old(out)@ + s@,
{
    let ghost start = out@;
    let mut i: usize = 0;
    while i < s.len()
        invariant
            i <= s@.len(),
            out@ == start + s@.take(i as int),
        decreases s@.len() - i,
    {
        out.push(s[i]);
        i = i + 1;
        assert(out@ =~= start + s@.take(i as int));
    }
    assert(s@.take(s@.len() as int) =~= s@);
}

/// The list file that ffmpeg's concat demuxer reads for these segments.
pub fn concat_list_content(paths: &Vec<String>) -> (r: String)
    ensures
        r@ == concat_list_of(paths@.map_values(|s: String| s@)),
{
    let ghost ps = paths@.map_values(|s: String| s@);
    let mut out: Vec<char> = Vec::new();
    let mut i: usize = 0;
    while i < paths.len()
        invariant
            i <= paths@.len(),
            ps == paths@.map_values(|s: String| s@),
            out@ == concat_list_of(ps.take(i as int)),
        decreases paths@.len() - i,
    {
        let p = chars_of(paths[i].as_str());
        let mut line: Vec<char> = vec!['f', 'i', 'l', 'e', ' ', '\''];
        let ghost head = line@;
        let mut k: usize = 0;
        while k < p.len()
            invariant
                k <= p@.len(),
                line@ == head + forward_slashes(p@.take(k as int)),
            decreases p@.len() - k,
        {
            let c = if p[k] == '\\' {
                '/'
            } else {
                p[k]
            };
            line.push(c);
            k = k + 1;
            assert(line@ =~= head + forward_slashes(p@.take(k as int)));
        }
        assert(p@.take(p@.len() as int) =~= p@);
        line.push('\'');
        line.push('\n');
        assert(line@ =~= concat_line(ps[i as int]));
        push_all(&mut out, line.as_slice());
        assert(ps.take(i + 1).drop_last() =~= ps.take(i as int));
        i = i + 1;
    }
    assert(ps.take(paths@.len() as int) =~= ps);
    string_from(&out)
}

/// Arguments of ffmpeg for the byte-wise merge: remux the concatenated
/// file into an MP4 with its index at the front.
pub open spec fn binary_merge_args_of(merged: Seq<char>, output: Seq<char>) -> Seq<Seq<char>> {
    seq![
        "-hide_banner"@,
        "-y"@,
        "-i"@,
        merged,
        "-c"@,
        "copy"@,
        "-movflags"@,
        "+faststart"@,
        output,
    ]
}

/// Arguments of ffmpeg for the concat-demuxer merge of a list file.
pub open spec fn concat_merge_args_of(list: Seq<char>, output: Seq<char>) -> Seq<Seq<char>> {
    seq![
        "-hide_banner"@,
        "-f"@,
        "concat"@,
        "-safe"@,
        "0"@,
        "-i"@,
        list,
        "-c"@,
        "copy"@,
        "-movflags"@,
        "+faststart"@,
        "-y"@,
        output,
    ]
}

/// ffmpeg's arguments for the byte-wise merge of `merged` into `output`.
pub fn binary_merge_args(merged: &str, output: &str) -> (r: Vec<String>)
    ensures
        r@.map_values(|s: String| s@) == binary_merge_args_of(merged@, output@),
{
    let r = vec![
        String::from_str("-hide_banner"),
        String::from_str("-y"),
        String::from_str("-i"),
        String::from_str(merged),
        String::from_str("-c"),
        String::from_str("copy"),
        String::from_str("-movflags"),
        String::from_str("+faststart"),
        String::from_str(output),
    ];
    assert(r@.map_values(|s: String| s@) =~= binary_merge_args_of(merged@, output@));
    r
}

/// ffmpeg's arguments for the concat merge of the list `list` into `output`.
pub fn concat_merge_args(list: &str, output: &str) -> (r: Vec<String>)
    ensures
        r@.map_values(|s: String| s@) == concat_merge_args_of(list@, output@),
{
    let r = vec![
        String::from_str("-hide_banner"),
        String::from_str("-f"),
        String::from_str("concat"),
        String::from_str("-safe"),
        String::from_str("0"),
        String::from_str("-i"),
        String::from_str(list),
        String::from_str("-c"),
        String::from_str("copy"),
        String::from_str("-movflags"),
        String::from_str("+faststart"),
        String::from_str("-y"),
        String::from_str(output),
    ];
    assert(r@.map_values(|s: String| s@) =~= concat_merge_args_of(list@, output@));
    r
}

/// An argument as the command line shown in the log writes it: in double
/// quotes when it holds a space.
pub open spec fn shown_arg(a: Seq<char>) -> Seq<char> {
    if contains_text(a, seq![' ']) {
        seq!['"'] + a + seq!['"']
    } else {
        a
    }
}

/// Arguments joined by single spaces.
pub open spec fn joined_args(args: Seq<Seq<char>>) -> Seq<char>
    decreases args.len(),
{
    if args.len() == 0 {
        seq![]
    } else if args.len() == 1 {
        shown_arg(args[0])
    } else {
        joined_args(args.drop_last()) + seq![' '] + shown_arg(args.last())
    }
}

/// The ffmpeg command line shown in the merge log.
pub open spec fn command_line_of(args: Seq<Seq<char>>) -> Seq<char> {
    seq!['f', 'f', 'm', 'p', 'e', 'g', ' '] + joined_args(args)
}

/// The ffmpeg command line for the log, quoting arguments with spaces.
pub fn ffmpeg_command_line(args: &Vec<String>) -> (r: String)
    ensures
        r@ == command_line_of(args@.map_values(|s: String| s@)),
{
    let ghost xs = args@.map_values(|s: String| s@);
    let mut out: Vec<char> = vec!['f', 'f', 'm', 'p', 'e', 'g', ' '];
    let ghost head = out@;
    let space = vec![' '];
    let mut i: usize = 0;
    while i < args.len()
        invariant
            i <= args@.len(),
            xs == args@.map_values(|s: String| s@),
            space@ == seq![' '],
            out@ == head + joined_args(xs.take(i as int)),
        decreases args@.len() - i,
    {
        let a = chars_of(args[i].as_str());
        if i > 0 {
            out.push(' ');
        }
        if crate::text::contains_chars(a.as_slice(), space.as_slice()) {
            out.push('"');
            push_all(&mut out, a.as_slice());
            out.push('"');
        } else {
            push_all(&mut out, a.as_slice());
        }
        assert(xs.take(i + 1).drop_last() =~= xs.take(i as int));
        if i == 0 {
            assert(joined_args(xs.take(0)) =~= Seq::<char>::empty());
        }
        i = i + 1;
        assert(out@ =~= head + joined_args(xs.take(i as int)));
    }
    assert(xs.take(args@.len() as int) =~= xs);
    string_from(&out)
}

/// What ffmpeg reports while it runs.
pub enum FfmpegEvent {
    Stdout(String),
    Stderr(String),
    Error(String),
    Terminated(Option<i32>),
    Other,
}

/// What the merge does with an event of ffmpeg.
pub enum FfmpegStep {
    /// Write this line to the merge log and wait for the next event.
    Log(String),
    /// ffmpeg is done: the merge succeeded or failed with this message.
    Finished(Result<(), String>),
    /// Wait for the next event.
    Ignore,
}

/// A number as `{:?}` writes an `i32`.
pub open spec fn signed_decimal(n: int) -> Seq<char> {
    if n < 0 {
        seq!['-'] + decimal((-n) as nat)
    } else {
        decimal(n as nat)
    }
}

/// An exit code as `{:?}` writes an `Option<i32>`.
pub open spec fn exit_code_text(code: Option<i32>) -> Seq<char> {
    match code {
        Some(c) => seq!['S', 'o', 'm', 'e', '('] + signed_decimal(c as int) + seq![')'],
        None => seq!['N', 'o', 'n', 'e'],
    }
}

/// The outcome of a finished ffmpeg: success exactly for exit code 0.
pub open spec fn exit_outcome(code: Option<i32>) -> Result<(), Seq<char>> {
    if code == Some(0i32) {
        Ok(())
    } else {
        Err("FFmpeg exited with error code: "@ + exit_code_text(code))
    }
}

/// The step that an ffmpeg event leads to: output lines are logged,
/// an execution error or a non-zero exit fails the merge, exit code 0
/// ends it successfully.
pub open spec fn ffmpeg_step_of(e: FfmpegEvent) -> (Option<Seq<char>>, Option<Result<(), Seq<char>>>) {
    match e {
        FfmpegEvent::Stdout(l) => (Some("[FFmpeg] "@ + l@), None),
        FfmpegEvent::Stderr(l) => (Some("[FFmpeg] "@ + l@), None),
        FfmpegEvent::Error(m) => (None, Some(Err("FFmpeg execution error: "@ + m@))),
        FfmpegEvent::Terminated(code) => (None, Some(exit_outcome(code))),
        FfmpegEvent::Other => (None, None),
    }
}

fn signed_decimal_string(n: i32) -> (r: Vec<char>)
    ensures
        r@ == signed_decimal(n as int),
{
    if n < 0 {
        let m: u64 = (-(n as i64)) as u64;
        let d = decimal_chars(m);
        let mut out = vec!['-'];
        push_all(&mut out, d.as_slice());
        out
    } else {
        decimal_chars(n as u64)
    }
}

/// What the merge does with one event of ffmpeg; see `ffmpeg_step_of`.
pub fn on_ffmpeg_event(e: FfmpegEvent) -> (r: FfmpegStep)
    ensures
        match r {
            FfmpegStep::Log(l) => ffmpeg_step_of(e) == (
                Some(l@),
                None::<Result<(), Seq<char>>>,
            ),
            FfmpegStep::Finished(Ok(())) => ffmpeg_step_of(e) == (
                None::<Seq<char>>,
                Some(Ok::<(), Seq<char>>(())),
            ),
            FfmpegStep::Finished(Err(m)) => ffmpeg_step_of(e) == (
                None::<Seq<char>>,
                Some(Err::<(), Seq<char>>(m@)),
            ),
            FfmpegStep::Ignore => ffmpeg_step_of(e) == (
                None::<Seq<char>>,
                None::<Result<(), Seq<char>>>,
            ),
        },
{
    match e {
        FfmpegEvent::Stdout(l) => FfmpegStep::Log(
            String::from_str("[FFmpeg] ").concat(l.as_str()),
        ),
        FfmpegEvent::Stderr(l) => FfmpegStep::Log(
            String::from_str("[FFmpeg] ").concat(l.as_str()),
        ),
        FfmpegEvent::Error(m) => FfmpegStep::Finished(
            Err(String::from_str("FFmpeg execution error: ").concat(m.as_str())),
        ),
        FfmpegEvent::Terminated(code) => {
            match code {
                Some(0) => FfmpegStep::Finished(Ok(())),
                Some(c) => {
                    let mut t = vec!['S', 'o', 'm', 'e', '('];
                    let d = signed_decimal_string(c);
                    push_all(&mut t, d.as_slice());
                    t.push(')');
                    assert(t@ =~= exit_code_text(code));
                    let ts = string_from(&t);
                    FfmpegStep::Finished(
                        Err(String::from_str("FFmpeg exited with error code: ").concat(ts.as_str())),
                    )
                },
                None => {
                    let t = vec!['N', 'o', 'n', 'e'];
                    assert(t@ =~= exit_code_text(code));
                    let ts = string_from(&t);
                    FfmpegStep::Finished(
                        Err(String::from_str("FFmpeg exited with error code: ").concat(ts.as_str())),
                    )
                },
            }
        },
        FfmpegEvent::Other => FfmpegStep::Ignore,
    }
}

// ------------------------------------------------------------ TS headers

/// The number of bytes gathered before junk in front of a transport
/// stream is looked for.
pub const TS_PROBE_LEN: usize = 1024;

/// The state of the junk stripper: whether the start of the stream was
/// dealt with, and the bytes held back until then.
pub struct StripState {
    pub processed: bool,
    pub buffer: Seq<u8>,
}

/// What feeding a chunk does. Streams that are no transport stream, and
/// a transport stream once its start was dealt with, pass through. Before
/// that, chunks are held back until at least 1024 bytes are there; then
/// everything before the first sync pattern is dropped.
pub open spec fn strip_feed(is_ts: bool, st: StripState, chunk: Seq<u8>) -> (StripState, Seq<u8>) {
    if !is_ts || st.processed {
        (st, chunk)
    } else {
        let b = st.buffer + chunk;
        if b.len() >= TS_PROBE_LEN {
            (StripState { processed: true, buffer: seq![] }, b.skip(ts_sync_offset(b)))
        } else {
            (StripState { processed: false, buffer: b }, seq![])
        }
    }
}

/// What ending the stream releases: a short transport stream held back
/// in full, without the junk in front of it.
pub open spec fn strip_finish(is_ts: bool, st: StripState) -> Seq<u8> {
    if is_ts && !st.processed && st.buffer.len() > 0 {
        st.buffer.skip(ts_sync_offset(st.buffer))
    } else {
        seq![]
    }
}

/// Removes junk in front of an MPEG-TS stream as it is downloaded.
pub struct TsHeaderStripper {
    is_ts: bool,
    header_processed: bool,
    buffer: Vec<u8>,
}

impl TsHeaderStripper {
    /// Whether the stream is treated as a transport stream.
    pub closed spec fn ts(&self) -> bool {
        self.is_ts
    }

    /// The stripper's state.
    pub closed spec fn state(&self) -> StripState {
        StripState { processed: self.header_processed, buffer: self.buffer@ }
    }

    /// A stripper for a new download.
    pub fn new(is_ts: bool) -> (r: Self)
        ensures
            r.ts() == is_ts,
            r.state() == (StripState { processed: false, buffer: seq![] }),
    {
        TsHeaderStripper { is_ts, header_processed: false, buffer: Vec::new() }
    }

    /// Takes in a chunk of the download and gives the bytes to write.
    pub fn feed(&mut self, chunk: &[u8]) -> (out: Vec<u8>)
        ensures
            final(self).ts() == old(self).ts(),
            (final(self).state(), out@) == strip_feed(old(self).ts(), old(self).state(), chunk@),
    {
        if !self.is_ts || self.header_processed {
            let mut out: Vec<u8> = Vec::new();
            out.extend_from_slice(chunk);
            assert(out@ =~= chunk@);
            return out;
        }
        self.buffer.extend_from_slice(chunk);
        let ghost b = old(self).buffer@ + chunk@;
        assert(self.buffer@ =~= b);
        if self.buffer.len() >= TS_PROBE_LEN {
            let offset = detect_ts_sync_offset(self.buffer.as_slice());
            let mut out: Vec<u8> = Vec::new();
            let mut i = offset;
            while i < self.buffer.len()
                invariant
                    offset <= i <= self.buffer@.len(),
                    out@ == self.buffer@.subrange(offset as int, i as int),
                decreases self.buffer@.len() - i,
            {
                out.push(self.buffer[i]);
                i = i + 1;
                assert(out@ =~= self.buffer@.subrange(offset as int, i as int));
            }
            assert(out@ =~= b.skip(offset as int));
            self.header_processed = true;
            self.buffer = Vec::new();
            assert(self.state() == (StripState { processed: true, buffer: seq![] }));
            out
        } else {
            Vec::new()
        }
    }

    /// Ends the download and gives the bytes still held back.
    pub fn finish(&self) -> (out: Vec<u8>)
        ensures
            out@ == strip_finish(self.ts(), self.state()),
    {
        if self.is_ts && !self.header_processed && self.buffer.len() > 0 {
            let offset = detect_ts_sync_offset(self.buffer.as_slice());
            let mut out: Vec<u8> = Vec::new();
            let mut i = offset;
            while i < self.buffer.len()
                invariant
                    offset <= i <= self.buffer@.len(),
                    out@ == self.buffer@.subrange(offset as int, i as int),
                decreases self.buffer@.len() - i,
            {
                out.push(self.buffer[i]);
                i = i + 1;
                assert(out@ =~= self.buffer@.subrange(offset as int, i as int));
            }
            assert(out@ =~= self.buffer@.skip(offset as int));
            out
        } else {
            Vec::new()
        }
    }
}

/// Everything the stripper writes for a stream received in one piece.
pub open spec fn strip_whole(is_ts: bool, data: Seq<u8>) -> Seq<u8> {
    let (st, out) = strip_feed(is_ts, StripState { processed: false, buffer: seq![] }, data);
    out + strip_finish(is_ts, st)
}

/// What is written for an encrypted segment: its plaintext, junk in front
/// of a transport stream dropped; or why it cannot be decrypted.
pub open spec fn decrypted_output_of(
    body: Seq<u8>,
    is_ts: bool,
    key: Seq<u8>,
    d: DecryptionModel,
) -> Result<Seq<u8>, Seq<char>> {
    match segment_plaintext_of(body, key, d.iv, d.sequence) {
        Ok(p) => Ok(strip_whole(is_ts, p)),
        Err(e) => Err(e),
    }
}

/// Decrypts a whole encrypted segment with its key, then strips junk in
/// front of a transport stream: the bytes to write for it.
pub fn decrypted_segment(body: &[u8], is_ts: bool, key: &[u8], d: &Decryption) -> (r: Result<
    Vec<u8>,
    String,
>)
    ensures
        match r {
            Ok(out) => decrypted_output_of(body@, is_ts, key@, d@) == Ok::<Seq<u8>, Seq<char>>(
                out@,
            ),
            Err(e) => decrypted_output_of(body@, is_ts, key@, d@) == Err::<Seq<u8>, Seq<char>>(
                e@,
            ),
        },
{
    let plain = match segment_plaintext(body, key, &d.iv, d.sequence) {
        Ok(p) => p,
        Err(e) => {
            return Err(e);
        },
    };
    let mut stripper = TsHeaderStripper::new(is_ts);
    let mut out = stripper.feed(plain.as_slice());
    let rest = stripper.finish();
    let ghost first = out@;
    let mut i: usize = 0;
    while i < rest.len()
        invariant
            i <= rest@.len(),
            out@ == first + rest@.take(i as int),
        decreases rest@.len() - i,
    {
        out.push(rest[i]);
        i = i + 1;
        assert(out@ =~= first + rest@.take(i as int));
    }
    assert(rest@.take(rest@.len() as int) =~= rest@);
    Ok(out)
}

// ------------------------------------------------------------ file names

/// The partial file a segment is written to before it is complete.
pub fn partial_path(final_path: &str) -> (r: String)
    ensures
        r@ == final_path@ + ".part"@,
{
    String::from_str(final_path).concat(".part")
}

/// The message when a segment could not be downloaded in any attempt.
pub fn download_failure_message(path: &str, attempts: u32) -> (r: String)
    ensures
        r@ == "Failed to download "@ + path@ + " after "@ + decimal(attempts as nat)
            + " attempts"@,
{
    let d = decimal_chars(attempts as u64);
    let ds = string_from(&d);
    String::from_str("Failed to download ").concat(path).concat(" after ").concat(ds.as_str()).concat(
        " attempts",
    )
}

/// The warning logged after a failed attempt.
pub fn attempt_failure_message(path: &str, attempt: u32, max_retries: u32, error: &str) -> (r:
    String)
    ensures
        r@ == "Error on "@ + path@ + " (Attempt "@ + decimal(attempt as nat) + "/"@ + decimal(
            max_retries as nat,
        ) + "): "@ + error@,
{
    let a = string_from(&decimal_chars(attempt as u64));
    let m = string_from(&decimal_chars(max_retries as u64));
    String::from_str("Error on ").concat(path).concat(" (Attempt ").concat(a.as_str()).concat(
        "/",
    ).concat(m.as_str()).concat("): ").concat(error)
}

} // verus!
