//! HLS playlists: the master playlist (variant streams, renditions,
//! I-frame streams) and the media playlist (segments), parsed line by line
//! from their text.
use vstd::prelude::*;
use crate::numbers::{
    float_error_message, float_error_text, int_error_message, int_error_text, is_float_literal,
    is_float_literal_chars, parse_unsigned, parse_unsigned_chars, IntError,
};
use crate::string_utils::{
    attribute_pairs, codec_name, lookup, map_codec_chars, parse_attribute_chars, resolved_url,
    url_check, url_join, url_join_outcome, url_parse_error, Attributes,
};
use crate::text::{
    after_first, before_first, chars_of, content_lines, find_char, lemma_first_index_is,
    lemma_first_index_none, lines_of, same_chars, second_piece, starts_with, starts_with_chars,
    string_from, sub_chars, views,
};
use crate::types::ResolutionOption;

verus! {

/// The text of an optional string.
pub open spec fn opt_view(o: Option<String>) -> Option<Seq<char>> {
    match o {
        Some(s) => Some(s@),
        None => None,
    }
}

/// What a line of a playlist does to the parse: nothing wrong, a failure
/// with a message, or a panic of the parser (a tag whose value is read
/// without the `:` that it needs).
pub enum LineCheck {
    Fine,
    Fails(Seq<char>),
    Panics,
}

/// The result of parsing a whole playlist.
pub enum Outcome<T> {
    Done(T),
    Failed(Seq<char>),
    Panicked,
}

/// The value of an unsigned number text known to parse.
pub open spec fn uint_value(s: Seq<char>, max: nat) -> nat {
    match parse_unsigned(s, max) {
        Ok(v) => v,
        Err(_) => 0,
    }
}

/// Checks an unsigned number text: fine, or the `ParseIntError` message.
pub open spec fn uint_check(s: Seq<char>, max: nat) -> LineCheck {
    match parse_unsigned(s, max) {
        Ok(_) => LineCheck::Fine,
        Err(e) => LineCheck::Fails(int_error_text(e)),
    }
}

/// A tag value `TAG:value` read as an unsigned number: a panic when the
/// line has no `:`.
pub open spec fn tag_number_check(line: Seq<char>, max: nat) -> LineCheck {
    match second_piece(line, ':') {
        Some(p) => uint_check(p, max),
        None => LineCheck::Panics,
    }
}

pub open spec fn tag_number(line: Seq<char>, max: nat) -> nat {
    uint_value(second_piece(line, ':').unwrap(), max)
}

/// The `BANDWIDTH` attribute checked: present and a `u32`.
pub open spec fn bandwidth_check(a: Seq<(Seq<char>, Seq<char>)>) -> LineCheck {
    match lookup(a, "BANDWIDTH"@) {
        Some(b) => uint_check(b, u32::MAX as nat),
        None => LineCheck::Fails("BANDWIDTH missing"@),
    }
}

pub open spec fn bandwidth_of(a: Seq<(Seq<char>, Seq<char>)>) -> u32 {
    uint_value(lookup(a, "BANDWIDTH"@).unwrap(), u32::MAX as nat) as u32
}

/// The codec name of the `CODECS` attribute, if there is one.
pub open spec fn codecs_of(a: Seq<(Seq<char>, Seq<char>)>) -> Option<Seq<char>> {
    match lookup(a, "CODECS"@) {
        Some(c) => Some(codec_name(Some(c))),
        None => None,
    }
}

// ------------------------------------------------------------ master playlist

/// A variant stream as its fields' texts.
pub struct VariantModel {
    pub bandwidth: u32,
    pub resolution: Option<Seq<char>>,
    pub codecs: Option<Seq<char>>,
    pub uri: Seq<char>,
    pub audio_group: Option<Seq<char>>,
    pub video_group: Option<Seq<char>>,
    pub subtitles_group: Option<Seq<char>>,
}

/// A media rendition as its fields' texts.
pub struct RenditionModel {
    pub media_type: Seq<char>,
    pub group_id: Seq<char>,
    pub name: Seq<char>,
    pub default: bool,
    pub autoselect: bool,
    pub language: Option<Seq<char>>,
    pub uri: Option<Seq<char>>,
}

/// An I-frame stream as its fields' texts.
pub struct IFrameModel {
    pub bandwidth: u32,
    pub resolution: Option<Seq<char>>,
    pub codecs: Option<Seq<char>>,
    pub uri: Seq<char>,
}

/// A resolution choice offered to the user, as its fields' texts.
pub struct ResolutionModel {
    pub id: usize,
    pub resolution: Seq<char>,
    pub bandwidth_kbps: u32,
    pub uri: Seq<char>,
}

/// The entries of a master playlist read so far.
pub struct MasterModel {
    pub version: Option<u8>,
    pub variants: Seq<VariantModel>,
    pub renditions: Seq<RenditionModel>,
    pub iframes: Seq<IFrameModel>,
}

/// An `EXT-X-STREAM-INF` entry (one quality of the stream).
#[derive(Debug)]
pub struct VariantStream {
    pub bandwidth: u32,
    pub resolution: Option<String>,
    pub codecs: Option<String>,
    pub uri: String,
    pub audio_group: Option<String>,
    pub video_group: Option<String>,
    pub subtitles_group: Option<String>,
}

impl View for VariantStream {
    type V = VariantModel;

    open spec fn view(&self) -> VariantModel {
        VariantModel {
            bandwidth: self.bandwidth,
            resolution: opt_view(self.resolution),
            codecs: opt_view(self.codecs),
            uri: self.uri@,
            audio_group: opt_view(self.audio_group),
            video_group: opt_view(self.video_group),
            subtitles_group: opt_view(self.subtitles_group),
        }
    }
}

/// An `EXT-X-MEDIA` entry (an alternative audio, video or subtitle track).
#[derive(Debug)]
pub struct MediaRendition {
    pub media_type: String,
    pub group_id: String,
    pub name: String,
    pub default: bool,
    pub autoselect: bool,
    pub language: Option<String>,
    pub uri: Option<String>,
}

impl View for MediaRendition {
    type V = RenditionModel;

    open spec fn view(&self) -> RenditionModel {
        RenditionModel {
            media_type: self.media_type@,
            group_id: self.group_id@,
            name: self.name@,
            default: self.default,
            autoselect: self.autoselect,
            language: opt_view(self.language),
            uri: opt_view(self.uri),
        }
    }
}

/// An `EXT-X-I-FRAME-STREAM-INF` entry.
#[derive(Debug)]
pub struct IFrameStream {
    pub bandwidth: u32,
    pub resolution: Option<String>,
    pub codecs: Option<String>,
    pub uri: String,
}

impl View for IFrameStream {
    type V = IFrameModel;

    open spec fn view(&self) -> IFrameModel {
        IFrameModel {
            bandwidth: self.bandwidth,
            resolution: opt_view(self.resolution),
            codecs: opt_view(self.codecs),
            uri: self.uri@,
        }
    }
}

/// What a master-playlist line does: `EXT-X-VERSION` needs a number after
/// its `:`; `EXT-X-STREAM-INF` needs attributes, a next line (its URI) and a
/// `BANDWIDTH`; `EXT-X-MEDIA` needs `TYPE`, `GROUP-ID` and `NAME`;
/// `EXT-X-I-FRAME-STREAM-INF` needs `BANDWIDTH` and `URI`. Tags are told
/// apart by prefix, in that order.
pub open spec fn master_line_check(lines: Seq<Seq<char>>, i: int) -> LineCheck {
    let l = lines[i];
    if starts_with(l, "#EXT-X-VERSION"@) {
        tag_number_check(l, 255)
    } else if starts_with(l, "#EXT-X-STREAM-INF"@) {
        match attribute_pairs(l) {
            None => LineCheck::Fails("Invalid attribute line"@),
            Some(a) => if i + 1 >= lines.len() {
                LineCheck::Fails("Missing URI for EXT-X-STREAM-INF"@)
            } else {
                bandwidth_check(a)
            },
        }
    } else if starts_with(l, "#EXT-X-MEDIA"@) {
        match attribute_pairs(l) {
            None => LineCheck::Fails("Invalid attribute line"@),
            Some(a) => if lookup(a, "TYPE"@) is None {
                LineCheck::Fails("TYPE missing"@)
            } else if lookup(a, "GROUP-ID"@) is None {
                LineCheck::Fails("GROUP-ID missing"@)
            } else if lookup(a, "NAME"@) is None {
                LineCheck::Fails("NAME missing"@)
            } else {
                LineCheck::Fine
            },
        }
    } else if starts_with(l, "#EXT-X-I-FRAME-STREAM-INF"@) {
        match attribute_pairs(l) {
            None => LineCheck::Fails("Invalid attribute line"@),
            Some(a) => match bandwidth_check(a) {
                LineCheck::Fine => if lookup(a, "URI"@) is None {
                    LineCheck::Fails("URI missing"@)
                } else {
                    LineCheck::Fine
                },
                other => other,
            },
        }
    } else {
        LineCheck::Fine
    }
}

/// The variant stream that line `i` (an `EXT-X-STREAM-INF` tag) describes;
/// its URI is the next line, resolved against the playlist URL.
pub open spec fn variant_of(lines: Seq<Seq<char>>, i: int, url: Seq<char>) -> VariantModel {
    let a = attribute_pairs(lines[i]).unwrap();
    VariantModel {
        bandwidth: bandwidth_of(a),
        resolution: lookup(a, "RESOLUTION"@),
        codecs: codecs_of(a),
        uri: resolved_url(url, lines[i + 1]),
        audio_group: lookup(a, "AUDIO"@),
        video_group: lookup(a, "VIDEO"@),
        subtitles_group: lookup(a, "SUBTITLES"@),
    }
}

/// The rendition that an `EXT-X-MEDIA` line describes.
pub open spec fn rendition_of(l: Seq<char>) -> RenditionModel {
    let a = attribute_pairs(l).unwrap();
    RenditionModel {
        media_type: lookup(a, "TYPE"@).unwrap(),
        group_id: lookup(a, "GROUP-ID"@).unwrap(),
        name: lookup(a, "NAME"@).unwrap(),
        default: lookup(a, "DEFAULT"@) == Some("YES"@),
        autoselect: lookup(a, "AUTOSELECT"@) == Some("YES"@),
        language: lookup(a, "LANGUAGE"@),
        uri: lookup(a, "URI"@),
    }
}

/// The I-frame stream that an `EXT-X-I-FRAME-STREAM-INF` line describes.
pub open spec fn iframe_of(l: Seq<char>) -> IFrameModel {
    let a = attribute_pairs(l).unwrap();
    IFrameModel {
        bandwidth: bandwidth_of(a),
        resolution: lookup(a, "RESOLUTION"@),
        codecs: codecs_of(a),
        uri: lookup(a, "URI"@).unwrap(),
    }
}

/// The entries after line `i`, a line that checks fine, is taken in.
pub open spec fn master_apply(
    pl: MasterModel,
    lines: Seq<Seq<char>>,
    i: int,
    url: Seq<char>,
) -> MasterModel {
    let l = lines[i];
    if starts_with(l, "#EXT-X-VERSION"@) {
        MasterModel { version: Some(tag_number(l, 255) as u8), ..pl }
    } else if starts_with(l, "#EXT-X-STREAM-INF"@) {
        MasterModel { variants: pl.variants.push(variant_of(lines, i, url)), ..pl }
    } else if starts_with(l, "#EXT-X-MEDIA"@) {
        MasterModel { renditions: pl.renditions.push(rendition_of(l)), ..pl }
    } else if starts_with(l, "#EXT-X-I-FRAME-STREAM-INF"@) {
        MasterModel { iframes: pl.iframes.push(iframe_of(l)), ..pl }
    } else {
        pl
    }
}

pub open spec fn empty_master() -> MasterModel {
    MasterModel { version: None, variants: seq![], renditions: seq![], iframes: seq![] }
}

/// The master playlist read from the first `n` lines.
pub open spec fn master_run(lines: Seq<Seq<char>>, url: Seq<char>, n: nat) -> Outcome<MasterModel>
    decreases n,
{
    if n == 0 {
        Outcome::Done(empty_master())
    } else {
        match master_run(lines, url, (n - 1) as nat) {
            Outcome::Done(pl) => match master_line_check(lines, n - 1) {
                LineCheck::Fine => Outcome::Done(master_apply(pl, lines, n - 1, url)),
                LineCheck::Fails(m) => Outcome::Failed(m),
                LineCheck::Panics => Outcome::Panicked,
            },
            other => other,
        }
    }
}

/// The first of the first `n` lines that does not check fine, as its check.
pub open spec fn master_first_problem(lines: Seq<Seq<char>>, n: nat) -> LineCheck
    decreases n,
{
    if n == 0 {
        LineCheck::Fine
    } else {
        match master_first_problem(lines, (n - 1) as nat) {
            LineCheck::Fine => master_line_check(lines, n - 1),
            other => other,
        }
    }
}

/// Parsing the master playlist `content` would panic.
pub open spec fn master_panics(content: Seq<char>) -> bool {
    let lines = content_lines(content);
    master_first_problem(lines, lines.len()) is Panics
}

/// The resolution choices: one per variant stream, numbered in order,
/// `"Unknown"` where the stream gives no resolution, bandwidth in kbit/s.
pub open spec fn resolution_options_of(variants: Seq<VariantModel>) -> Seq<ResolutionModel> {
    Seq::new(
        variants.len(),
        |i: int|
            ResolutionModel {
                id: i as usize,
                resolution: match variants[i].resolution {
                    Some(r) => r,
                    None => "Unknown"@,
                },
                bandwidth_kbps: variants[i].bandwidth / 1000,
                uri: variants[i].uri,
            },
    )
}

/// A parsed master playlist as its parts' texts.
pub struct MasterPlaylistModel {
    pub version: Option<u8>,
    pub variants: Seq<VariantModel>,
    pub renditions: Seq<RenditionModel>,
    pub iframes: Seq<IFrameModel>,
    pub resolution_options: Seq<ResolutionModel>,
}

/// What parsing the master playlist `content` fetched from `url` gives.
pub open spec fn master_parse(content: Seq<char>, url: Seq<char>) -> Outcome<MasterPlaylistModel> {
    let lines = content_lines(content);
    match master_run(lines, url, lines.len()) {
        Outcome::Done(pl) => Outcome::Done(
            MasterPlaylistModel {
                version: pl.version,
                variants: pl.variants,
                renditions: pl.renditions,
                iframes: pl.iframes,
                resolution_options: resolution_options_of(pl.variants),
            },
        ),
        Outcome::Failed(m) => Outcome::Failed(m),
        Outcome::Panicked => Outcome::Panicked,
    }
}

/// Once the parse has failed or panicked, later lines change nothing.
pub proof fn lemma_master_run_stops(lines: Seq<Seq<char>>, url: Seq<char>, k: nat, n: nat)
    requires
        k <= n,
        !(master_run(lines, url, k) is Done),
    ensures
        master_run(lines, url, n) == master_run(lines, url, k),
    decreases n - k,
{
    if k < n {
        lemma_master_run_stops(lines, url, k, (n - 1) as nat);
    }
}

pub proof fn lemma_master_panics(lines: Seq<Seq<char>>, url: Seq<char>, n: nat)
    ensures
        (master_run(lines, url, n) is Panicked) <==> (master_first_problem(lines, n) is Panics),
        (master_run(lines, url, n) is Done) <==> (master_first_problem(lines, n) is Fine),
    decreases n,
{
    if n > 0 {
        lemma_master_panics(lines, url, (n - 1) as nat);
    }
}

/// A master playlist: the streams and tracks it offers.
#[derive(Debug)]
pub struct M3U8MasterPlaylist {
    pub version: Option<u8>,
    pub variant_streams: Vec<VariantStream>,
    pub media_renditions: Vec<MediaRendition>,
    pub iframe_streams: Vec<IFrameStream>,
    pub resolution_options: Vec<ResolutionOption>,
}

impl View for M3U8MasterPlaylist {
    type V = MasterPlaylistModel;

    open spec fn view(&self) -> MasterPlaylistModel {
        MasterPlaylistModel {
            version: self.version,
            variants: self.variant_streams@.map_values(|v: VariantStream| v@),
            renditions: self.media_renditions@.map_values(|r: MediaRendition| r@),
            iframes: self.iframe_streams@.map_values(|f: IFrameStream| f@),
            resolution_options: self.resolution_options@.map_values(|o: ResolutionOption| o@),
        }
    }
}

/// The result of one line or of a whole playlist in executable form.
pub enum Parsed<T> {
    Value(T),
    Failed(String),
    Malformed,
}

/// The outcome of a parse, matched against its model.
pub open spec fn parsed_matches<T, M>(p: Parsed<T>, o: Outcome<M>, view: spec_fn(T) -> M) -> bool {
    match p {
        Parsed::Value(v) => o == Outcome::Done(view(v)),
        Parsed::Failed(m) => o == Outcome::<M>::Failed(m@),
        Parsed::Malformed => o is Panicked,
    }
}

fn opt_string(o: Option<Vec<char>>) -> (r: Option<String>)
    ensures
        opt_view(r) == match o {
            Some(v) => Some(v@),
            None => None::<Seq<char>>,
        },
{
    match o {
        Some(v) => Some(string_from(&v)),
        None => None,
    }
}

fn lit(s: &str) -> (r: Vec<char>)
    ensures
        r@ == s@,
{
    chars_of(s)
}

/// The number after `TAG:` in a line, or why there is none.
fn tag_number_exec(l: &[char], max: u32) -> (r: Parsed<u32>)
    ensures
        r matches Parsed::Value(v) ==> v <= max,
        match r {
            Parsed::Value(v) => tag_number_check(l@, max as nat) is Fine && v == tag_number(
                l@,
                max as nat,
            ),
            Parsed::Failed(m) => tag_number_check(l@, max as nat) == LineCheck::Fails(m@),
            Parsed::Malformed => tag_number_check(l@, max as nat) is Panics,
        },
{
    match second_piece_range(l, ':') {
        None => Parsed::Malformed,
        Some((a, b)) => {
            let p = sub_chars(l, a, b);
            match parse_unsigned_chars(p.as_slice(), 0, max) {
                Ok(v) => {
                    assert(p@.skip(0) =~= p@);
                    Parsed::Value(v)
                },
                Err(e) => {
                    assert(p@.skip(0) =~= p@);
                    Parsed::Failed(int_error_message(e))
                },
            }
        },
    }
}

/// Where the second `sep`-separated piece of `l` lies, if there is one.
pub fn second_piece_range(l: &[char], sep: char) -> (r: Option<(usize, usize)>)
    ensures
        match r {
            Some((a, b)) => a <= b <= l@.len() && second_piece(l@, sep) == Some(
                l@.subrange(a as int, b as int),
            ),
            None => second_piece(l@, sep) is None,
        },
{
    match find_char(l, sep, 0) {
        None => {
            proof {
                lemma_first_index_none(l@, sep);
            }
            None
        },
        Some(i) => {
            proof {
                lemma_first_index_is(l@, sep, i as int);
            }
            let ghost rest = l@.skip(i + 1);
            match find_char(l, sep, i + 1) {
                None => {
                    proof {
                        lemma_first_index_none(rest, sep);
                        assert(rest =~= l@.subrange(i + 1, l@.len() as int));
                    }
                    Some((i + 1, l.len()))
                },
                Some(j) => {
                    proof {
                        lemma_first_index_is(rest, sep, j - i - 1);
                        assert(rest.take(j - i - 1) =~= l@.subrange(i + 1, j as int));
                    }
                    Some((i + 1, j))
                },
            }
        },
    }
}

/// The `BANDWIDTH` attribute read, or why it cannot be.
fn bandwidth_exec(a: &Attributes) -> (r: Parsed<u32>)
    requires
        a.wf(),
    ensures
        match r {
            Parsed::Value(v) => bandwidth_check(a@) is Fine && v == bandwidth_of(a@),
            Parsed::Failed(m) => bandwidth_check(a@) == LineCheck::Fails(m@),
            Parsed::Malformed => false,
        },
{
    let key = lit("BANDWIDTH");
    match a.get_chars(key.as_slice()) {
        None => Parsed::Failed(String::from_str("BANDWIDTH missing")),
        Some(b) => match parse_unsigned_chars(b.as_slice(), 0, u32::MAX) {
            Ok(v) => {
                assert(b@.skip(0) =~= b@);
                Parsed::Value(v)
            },
            Err(e) => {
                assert(b@.skip(0) =~= b@);
                Parsed::Failed(int_error_message(e))
            },
        },
    }
}

fn lookup_string(a: &Attributes, key: &str) -> (r: Option<String>)
    requires
        a.wf(),
    ensures
        opt_view(r) == lookup(a@, key@),
{
    let k = lit(key);
    opt_string(a.get_chars(k.as_slice()))
}

fn codecs_exec(a: &Attributes) -> (r: Option<String>)
    requires
        a.wf(),
    ensures
        opt_view(r) == codecs_of(a@),
{
    let k = lit("CODECS");
    match a.get_chars(k.as_slice()) {
        Some(c) => {
            let n = map_codec_chars(Some(c.as_slice()));
            Some(string_from(&n))
        },
        None => None,
    }
}

fn is_yes(o: Option<Vec<char>>) -> (r: bool)
    ensures
        r == (match o {
            Some(v) => Some(v@),
            None => None::<Seq<char>>,
        } == Some("YES"@)),
{
    let yes = lit("YES");
    match o {
        Some(v) => same_chars(v.as_slice(), yes.as_slice()),
        None => false,
    }
}

fn parse_stream_inf(lines: &Vec<Vec<char>>, i: usize, master_url: &str) -> (r: Parsed<
    VariantStream,
>)
    requires
        i < lines@.len(),
        starts_with(lines@[i as int]@, "#EXT-X-STREAM-INF"@),
        !starts_with(lines@[i as int]@, "#EXT-X-VERSION"@),
    ensures
        match r {
            Parsed::Value(v) => master_line_check(views(lines@), i as int) is Fine && v@
                == variant_of(views(lines@), i as int, master_url@),
            Parsed::Failed(m) => master_line_check(views(lines@), i as int) == LineCheck::Fails(
                m@,
            ),
            Parsed::Malformed => false,
        },
{
    let ghost ls = views(lines@);
    let n = lines.len();
    let l = &lines[i];
    let a = match parse_attribute_chars(l.as_slice()) {
        Some(a) => a,
        None => {
            return Parsed::Failed(String::from_str("Invalid attribute line"));
        },
    };
    if i + 1 >= n {
        return Parsed::Failed(String::from_str("Missing URI for EXT-X-STREAM-INF"));
    }
    let next = string_from(&lines[i + 1]);
    let uri = crate::string_utils::resolve_m3u8_url(master_url, next);
    let bandwidth = match bandwidth_exec(&a) {
        Parsed::Value(v) => v,
        Parsed::Failed(m) => {
            return Parsed::Failed(m);
        },
        Parsed::Malformed => {
            return Parsed::Malformed;
        },
    };
    let v = VariantStream {
        bandwidth,
        resolution: lookup_string(&a, "RESOLUTION"),
        codecs: codecs_exec(&a),
        uri,
        audio_group: lookup_string(&a, "AUDIO"),
        video_group: lookup_string(&a, "VIDEO"),
        subtitles_group: lookup_string(&a, "SUBTITLES"),
    };
    Parsed::Value(v)
}

fn parse_media(l: &Vec<char>) -> (r: Parsed<MediaRendition>)
    ensures
        match r {
            Parsed::Value(v) => {
                &&& attribute_pairs(l@) matches Some(a)
                &&& lookup(a, "TYPE"@) is Some
                &&& lookup(a, "GROUP-ID"@) is Some
                &&& lookup(a, "NAME"@) is Some
                &&& v@ == rendition_of(l@)
            },
            Parsed::Failed(m) => match attribute_pairs(l@) {
                None => m@ == "Invalid attribute line"@,
                Some(a) => if lookup(a, "TYPE"@) is None {
                    m@ == "TYPE missing"@
                } else if lookup(a, "GROUP-ID"@) is None {
                    m@ == "GROUP-ID missing"@
                } else {
                    lookup(a, "NAME"@) is None && m@ == "NAME missing"@
                },
            },
            Parsed::Malformed => false,
        },
{
    let a = match parse_attribute_chars(l.as_slice()) {
        Some(a) => a,
        None => {
            return Parsed::Failed(String::from_str("Invalid attribute line"));
        },
    };
    let media_type = match lookup_string(&a, "TYPE") {
        Some(t) => t,
        None => {
            return Parsed::Failed(String::from_str("TYPE missing"));
        },
    };
    let group_id = match lookup_string(&a, "GROUP-ID") {
        Some(t) => t,
        None => {
            return Parsed::Failed(String::from_str("GROUP-ID missing"));
        },
    };
    let name = match lookup_string(&a, "NAME") {
        Some(t) => t,
        None => {
            return Parsed::Failed(String::from_str("NAME missing"));
        },
    };
    let kd = lit("DEFAULT");
    let ka = lit("AUTOSELECT");
    let default = is_yes(a.get_chars(kd.as_slice()));
    let autoselect = is_yes(a.get_chars(ka.as_slice()));
    Parsed::Value(
        MediaRendition {
            media_type,
            group_id,
            name,
            default,
            autoselect,
            language: lookup_string(&a, "LANGUAGE"),
            uri: lookup_string(&a, "URI"),
        },
    )
}

fn parse_iframe_stream_inf(l: &Vec<char>) -> (r: Parsed<IFrameStream>)
    ensures
        match r {
            Parsed::Value(v) => {
                &&& attribute_pairs(l@) matches Some(a)
                &&& bandwidth_check(a) is Fine
                &&& lookup(a, "URI"@) is Some
                &&& v@ == iframe_of(l@)
            },
            Parsed::Failed(m) => match attribute_pairs(l@) {
                None => m@ == "Invalid attribute line"@,
                Some(a) => match bandwidth_check(a) {
                    LineCheck::Fine => lookup(a, "URI"@) is None && m@ == "URI missing"@,
                    other => other == LineCheck::Fails(m@),
                },
            },
            Parsed::Malformed => false,
        },
{
    let a = match parse_attribute_chars(l.as_slice()) {
        Some(a) => a,
        None => {
            return Parsed::Failed(String::from_str("Invalid attribute line"));
        },
    };
    let bandwidth = match bandwidth_exec(&a) {
        Parsed::Value(v) => v,
        Parsed::Failed(m) => {
            return Parsed::Failed(m);
        },
        Parsed::Malformed => {
            return Parsed::Malformed;
        },
    };
    let resolution = lookup_string(&a, "RESOLUTION");
    let codecs = codecs_exec(&a);
    let uri = match lookup_string(&a, "URI") {
        Some(u) => u,
        None => {
            return Parsed::Failed(String::from_str("URI missing"));
        },
    };
    Parsed::Value(IFrameStream { bandwidth, resolution, codecs, uri })
}

/// The entries read so far, matched against the model of the lines read.
spec fn master_acc_view(
    version: Option<u8>,
    variants: Seq<VariantStream>,
    renditions: Seq<MediaRendition>,
    iframes: Seq<IFrameStream>,
) -> MasterModel {
    MasterModel {
        version,
        variants: variants.map_values(|v: VariantStream| v@),
        renditions: renditions.map_values(|r: MediaRendition| r@),
        iframes: iframes.map_values(|f: IFrameStream| f@),
    }
}

fn resolution_options(variants: &Vec<VariantStream>) -> (r: Vec<ResolutionOption>)
    ensures
        r@.map_values(|o: ResolutionOption| o@) == resolution_options_of(
            variants@.map_values(|v: VariantStream| v@),
        ),
{
    let ghost vs = variants@.map_values(|v: VariantStream| v@);
    let mut r: Vec<ResolutionOption> = Vec::new();
    let mut i: usize = 0;
    while i < variants.len()
        invariant
            i <= variants@.len(),
            vs == variants@.map_values(|v: VariantStream| v@),
            r@.map_values(|o: ResolutionOption| o@) == resolution_options_of(vs).take(i as int),
        decreases variants@.len() - i,
    {
        let v = &variants[i];
        let resolution = match &v.resolution {
            Some(s) => s.clone(),
            None => String::from_str("Unknown"),
        };
        let o = ResolutionOption {
            id: i,
            resolution,
            bandwidth_kbps: v.bandwidth / 1000,
            uri: v.uri.clone(),
        };
        let ghost before = r@.map_values(|o: ResolutionOption| o@);
        r.push(o);
        assert(r@.map_values(|o: ResolutionOption| o@) =~= before.push(o@));
        i = i + 1;
        assert(r@.map_values(|o: ResolutionOption| o@) =~= resolution_options_of(vs).take(
            i as int,
        ));
    }
    assert(resolution_options_of(vs).take(variants@.len() as int) =~= resolution_options_of(vs));
    r
}

/// Parses a master playlist whatever it holds: `Malformed` where parsing
/// it the usual way would panic.
pub fn parse_master_outcome(content: &str, master_url: &str) -> (r: Parsed<M3U8MasterPlaylist>)
    ensures
        parsed_matches(
            r,
            master_parse(content@, master_url@),
            |p: M3U8MasterPlaylist| p@,
        ),
{
    let cs = chars_of(content);
    let lines = lines_of(cs.as_slice());
    let ghost ls = views(lines@);
    let version_tag = lit("#EXT-X-VERSION");
    let stream_tag = lit("#EXT-X-STREAM-INF");
    let media_tag = lit("#EXT-X-MEDIA");
    let iframe_tag = lit("#EXT-X-I-FRAME-STREAM-INF");
    let mut version: Option<u8> = None;
    let mut variants: Vec<VariantStream> = Vec::new();
    let mut renditions: Vec<MediaRendition> = Vec::new();
    let mut iframes: Vec<IFrameStream> = Vec::new();
    let mut i: usize = 0;
    assert(variants@.map_values(|v: VariantStream| v@) =~= Seq::<VariantModel>::empty());
    assert(renditions@.map_values(|r: MediaRendition| r@) =~= Seq::<RenditionModel>::empty());
    assert(iframes@.map_values(|f: IFrameStream| f@) =~= Seq::<IFrameModel>::empty());
    while i < lines.len()
        invariant
            i <= lines@.len(),
            ls == views(lines@),
            ls == content_lines(content@),
            version_tag@ == "#EXT-X-VERSION"@,
            stream_tag@ == "#EXT-X-STREAM-INF"@,
            media_tag@ == "#EXT-X-MEDIA"@,
            iframe_tag@ == "#EXT-X-I-FRAME-STREAM-INF"@,
            master_run(ls, master_url@, i as nat) == Outcome::Done(
                master_acc_view(version, variants@, renditions@, iframes@),
            ),
        decreases lines@.len() - i,
    {
        let l = &lines[i];
        let ghost before = master_acc_view(version, variants@, renditions@, iframes@);
        assert(ls[i as int] == l@);
        // A line that ends the parse: its failure, or `Malformed`.
        let mut stop: Option<Parsed<M3U8MasterPlaylist>> = None;
        if starts_with_chars(l.as_slice(), version_tag.as_slice()) {
            match tag_number_exec(l.as_slice(), 255) {
                Parsed::Value(v) => {
                    version = Some(v as u8);
                },
                Parsed::Failed(m) => {                    stop = Some(Parsed::Failed(m));                },
                Parsed::Malformed => {                    stop = Some(Parsed::Malformed);                },
            }
        } else if starts_with_chars(l.as_slice(), stream_tag.as_slice()) {
            match parse_stream_inf(&lines, i, master_url) {
                Parsed::Value(v) => {
                    variants.push(v);
                    assert(variants@.map_values(|v: VariantStream| v@) =~= before.variants.push(
                        v@,
                    ));
                },
                Parsed::Failed(m) => {                    stop = Some(Parsed::Failed(m));                },
                Parsed::Malformed => {                    stop = Some(Parsed::Malformed);                },
            }
        } else if starts_with_chars(l.as_slice(), media_tag.as_slice()) {
            match parse_media(l) {
                Parsed::Value(v) => {
                    renditions.push(v);
                    assert(renditions@.map_values(|r: MediaRendition| r@)
                        =~= before.renditions.push(v@));
                },
                Parsed::Failed(m) => {                    stop = Some(Parsed::Failed(m));                },
                Parsed::Malformed => {                    stop = Some(Parsed::Malformed);                },
            }
        } else if starts_with_chars(l.as_slice(), iframe_tag.as_slice()) {
            match parse_iframe_stream_inf(l) {
                Parsed::Value(v) => {
                    iframes.push(v);
                    assert(iframes@.map_values(|f: IFrameStream| f@) =~= before.iframes.push(
                        v@,
                    ));
                },
                Parsed::Failed(m) => {                    stop = Some(Parsed::Failed(m));                },
                Parsed::Malformed => {                    stop = Some(Parsed::Malformed);                },
            }
        }
        match stop {
            Some(p) => {
                proof {
                    lemma_master_run_stops(ls, master_url@, (i + 1) as nat, ls.len());
                }
                return p;
            },
            None => {},
        }
        i = i + 1;
        assert(master_acc_view(version, variants@, renditions@, iframes@) =~= master_apply(
            before,
            ls,
            i - 1,
            master_url@,
        ));
    }
    let resolution_options = resolution_options(&variants);
    let pl = M3U8MasterPlaylist {
        version,
        variant_streams: variants,
        media_renditions: renditions,
        iframe_streams: iframes,
        resolution_options,
    };
    Parsed::Value(pl)
}

impl M3U8MasterPlaylist {
    /// Parses a master playlist fetched from `master_url`: the
    /// `EXT-X-VERSION`, `EXT-X-STREAM-INF` (URI on the next line, resolved
    /// against `master_url`), `EXT-X-MEDIA` and `EXT-X-I-FRAME-STREAM-INF`
    /// tags of its trimmed, non-empty lines, then one resolution option per
    /// variant stream. Fails with the message of the first line that cannot
    /// be read.
    pub fn parse(content: &str, master_url: &str) -> (r: Result<Self, String>)
        requires
            !master_panics(content@),
        ensures
            match r {
                Ok(p) => master_parse(content@, master_url@) == Outcome::Done(p@),
                Err(m) => master_parse(content@, master_url@) == Outcome::<
                    MasterPlaylistModel,
                >::Failed(m@),
            },
    {
        proof {
            let ls = content_lines(content@);
            lemma_master_panics(ls, master_url@, ls.len());
        }
        match parse_master_outcome(content, master_url) {
            Parsed::Value(p) => Ok(p),
            Parsed::Failed(m) => Err(m),
            Parsed::Malformed => Err(String::new()),
        }
    }
}

// ------------------------------------------------------------ media playlist

/// The encryption of a segment (`EXT-X-KEY`) as its texts: the method,
/// the key's URI resolved against the playlist URL, and the IV if given.
pub struct KeyModel {
    pub method: Seq<char>,
    pub uri: Seq<char>,
    pub iv: Option<Seq<char>>,
}

/// A media segment as its fields' texts; `duration` is the text of the
/// `EXTINF` duration, a float literal; `key` is the encryption in effect
/// for it, if any.
pub struct SegmentModel {
    pub url: Seq<char>,
    pub sequence: u32,
    pub duration: Seq<char>,
    pub is_discontinuity: bool,
    pub downloaded: bool,
    pub size_bytes: u64,
    pub key: Option<KeyModel>,
}

/// The state of a media playlist parse after some lines: what was read, the
/// segment whose URI line is awaited, and the number of segments begun.
pub struct MediaState {
    pub version: Option<u8>,
    pub target_duration: u32,
    pub media_sequence: Option<u32>,
    pub playlist_type: Option<Seq<char>>,
    pub is_end_list: bool,
    pub segments: Seq<SegmentModel>,
    pub init_map: Option<SegmentModel>,
    pub current: Option<SegmentModel>,
    pub index: nat,
    pub key: Option<KeyModel>,
}

/// A parsed media playlist as its parts' texts.
pub struct MediaPlaylistModel {
    pub version: Option<u8>,
    pub target_duration: u32,
    pub media_sequence: Option<u32>,
    pub playlist_type: Option<Seq<char>>,
    pub is_end_list: bool,
    pub segments: Seq<SegmentModel>,
    pub init_map: Option<SegmentModel>,
    pub first_segment_url: Seq<char>,
    pub total_segments: nat,
}

/// `s` without trailing commas (`trim_end_matches(',')`).
pub open spec fn strip_trailing_commas(s: Seq<char>) -> Seq<char>
    decreases s.len(),
{
    if s.len() > 0 && s.last() == ',' {
        strip_trailing_commas(s.drop_last())
    } else {
        s
    }
}

/// A segment that the parse starts: no URL yet, not downloaded.
pub open spec fn new_segment(
    url: Seq<char>,
    sequence: u32,
    duration: Seq<char>,
    key: Option<KeyModel>,
) -> SegmentModel {
    SegmentModel {
        url,
        sequence,
        duration,
        is_discontinuity: false,
        downloaded: false,
        size_bytes: 0,
        key,
    }
}

/// What an `EXT-X-KEY` attribute list sets for the segments that follow:
/// no encryption when it names no method or the method `NONE`; else the
/// method, the key's `URI` (required, resolved against the playlist URL)
/// and the `IV` if given.
pub open spec fn key_of(a: Seq<(Seq<char>, Seq<char>)>, base: Seq<char>) -> Result<
    Option<KeyModel>,
    Seq<char>,
> {
    match lookup(a, "METHOD"@) {
        None => Ok(None),
        Some(m) => if m == "NONE"@ {
            Ok(None)
        } else {
            match lookup(a, "URI"@) {
                None => Err("URI missing"@),
                Some(u) => match url_join_outcome(base, u) {
                    Ok(full) => Ok(Some(KeyModel { method: m, uri: full, iv: lookup(a, "IV"@) })),
                    Err(e) => Err(e),
                },
            }
        },
    }
}

/// The duration text given to the initialisation segment.
pub open spec fn zero_duration() -> Seq<char> {
    seq!['0']
}

/// What one line of a media playlist does to the parse, given the playlist
/// URL `base`: tags are told apart by prefix in this order; `EXT-X-MAP`
/// and URI lines are joined onto `base`; an `EXT-X-KEY` sets the
/// encryption of the segments (and initialisation segment) that follow;
/// an `EXTINF` duration must be a float literal and begins a segment, which
/// the next line that is no tag completes with its URL.
pub open spec fn media_step(st: MediaState, l: Seq<char>, base: Seq<char>) -> Outcome<MediaState> {
    if starts_with(l, "#EXT-X-VERSION"@) {
        match tag_number_check(l, 255) {
            LineCheck::Fine => Outcome::Done(
                MediaState { version: Some(tag_number(l, 255) as u8), ..st },
            ),
            LineCheck::Fails(m) => Outcome::Failed(m),
            LineCheck::Panics => Outcome::Panicked,
        }
    } else if starts_with(l, "#EXT-X-TARGETDURATION"@) {
        match tag_number_check(l, u32::MAX as nat) {
            LineCheck::Fine => Outcome::Done(
                MediaState { target_duration: tag_number(l, u32::MAX as nat) as u32, ..st },
            ),
            LineCheck::Fails(m) => Outcome::Failed(m),
            LineCheck::Panics => Outcome::Panicked,
        }
    } else if starts_with(l, "#EXT-X-MEDIA-SEQUENCE"@) {
        match tag_number_check(l, u32::MAX as nat) {
            LineCheck::Fine => Outcome::Done(
                MediaState { media_sequence: Some(tag_number(l, u32::MAX as nat) as u32), ..st },
            ),
            LineCheck::Fails(m) => Outcome::Failed(m),
            LineCheck::Panics => Outcome::Panicked,
        }
    } else if starts_with(l, "#EXT-X-PLAYLIST-TYPE"@) {
        match second_piece(l, ':') {
            Some(p) => Outcome::Done(MediaState { playlist_type: Some(p), ..st }),
            None => Outcome::Panicked,
        }
    } else if starts_with(l, "#EXT-X-MAP"@) {
        match attribute_pairs(l) {
            None => Outcome::Failed("Invalid attribute line"@),
            Some(a) => match lookup(a, "URI"@) {
                None => Outcome::Done(st),
                Some(u) => match url_join_outcome(base, u) {
                    Ok(full) => Outcome::Done(
                        MediaState {
                            init_map: Some(new_segment(full, 0, zero_duration(), st.key)),
                            ..st
                        },
                    ),
                    Err(e) => Outcome::Failed(e),
                },
            },
        }
    } else if starts_with(l, "#EXT-X-KEY"@) {
        match attribute_pairs(l) {
            None => Outcome::Failed("Invalid attribute line"@),
            Some(a) => match key_of(a, base) {
                Ok(k) => Outcome::Done(MediaState { key: k, ..st }),
                Err(e) => Outcome::Failed(e),
            },
        }
    } else if starts_with(l, "#EXTINF"@) {
        match second_piece(l, ':') {
            None => Outcome::Panicked,
            Some(p) => {
                let d = strip_trailing_commas(p);
                if !is_float_literal(d) {
                    Outcome::Failed(float_error_text(d))
                } else if st.index >= u32::MAX {
                    Outcome::Panicked
                } else {
                    Outcome::Done(
                        MediaState {
                            current: Some(new_segment(seq![], st.index as u32, d, st.key)),
                            index: st.index + 1,
                            ..st
                        },
                    )
                }
            },
        }
    } else if starts_with(l, "#EXT-X-DISCONTINUITY"@) {
        match st.current {
            Some(c) => Outcome::Done(
                MediaState { current: Some(SegmentModel { is_discontinuity: true, ..c }), ..st },
            ),
            None => Outcome::Done(st),
        }
    } else if starts_with(l, "#EXT-X-ENDLIST"@) {
        Outcome::Done(MediaState { is_end_list: true, ..st })
    } else if !starts_with(l, seq!['#']) {
        match st.current {
            Some(c) => match url_join_outcome(base, l) {
                Ok(u) => Outcome::Done(
                    MediaState {
                        segments: st.segments.push(SegmentModel { url: u, ..c }),
                        current: None,
                        ..st
                    },
                ),
                Err(e) => Outcome::Failed(e),
            },
            None => Outcome::Done(st),
        }
    } else {
        Outcome::Done(st)
    }
}

pub open spec fn empty_media_state() -> MediaState {
    MediaState {
        version: None,
        target_duration: 0,
        media_sequence: None,
        playlist_type: None,
        is_end_list: false,
        segments: seq![],
        init_map: None,
        current: None,
        index: 0,
        key: None,
    }
}

/// The media parse after the first `n` lines.
pub open spec fn media_run(lines: Seq<Seq<char>>, base: Seq<char>, n: nat) -> Outcome<MediaState>
    decreases n,
{
    if n == 0 {
        Outcome::Done(empty_media_state())
    } else {
        match media_run(lines, base, (n - 1) as nat) {
            Outcome::Done(st) => media_step(st, lines[n - 1], base),
            other => other,
        }
    }
}

/// The playlist a finished parse describes: segment count and first
/// segment URL (empty when there is none) added.
pub open spec fn media_finish(st: MediaState) -> MediaPlaylistModel {
    MediaPlaylistModel {
        version: st.version,
        target_duration: st.target_duration,
        media_sequence: st.media_sequence,
        playlist_type: st.playlist_type,
        is_end_list: st.is_end_list,
        segments: st.segments,
        init_map: st.init_map,
        first_segment_url: if st.segments.len() > 0 {
            st.segments[0].url
        } else {
            seq![]
        },
        total_segments: st.segments.len(),
    }
}

/// What parsing the media playlist `content` fetched from `url` gives: a
/// failure when `url` is no URL, else the parse of its trimmed, non-empty
/// lines.
pub open spec fn media_parse(content: Seq<char>, url: Seq<char>) -> Outcome<MediaPlaylistModel> {
    match url_parse_error(url) {
        Some(e) => Outcome::Failed("Invalid base URL: "@ + e),
        None => {
            let lines = content_lines(content);
            match media_run(lines, url, lines.len()) {
                Outcome::Done(st) => Outcome::Done(media_finish(st)),
                Outcome::Failed(m) => Outcome::Failed(m),
                Outcome::Panicked => Outcome::Panicked,
            }
        },
    }
}

/// Parsing the media playlist `content` from `url` would panic.
pub open spec fn media_panics(content: Seq<char>, url: Seq<char>) -> bool {
    media_parse(content, url) is Panicked
}

pub proof fn lemma_media_run_stops(lines: Seq<Seq<char>>, base: Seq<char>, k: nat, n: nat)
    requires
        k <= n,
        !(media_run(lines, base, k) is Done),
    ensures
        media_run(lines, base, n) == media_run(lines, base, k),
    decreases n - k,
{
    if k < n {
        lemma_media_run_stops(lines, base, k, (n - 1) as nat);
    }
}

/// The encryption of a segment: method (`AES-128`, ...), key URI and IV.
#[derive(Debug, Clone)]
pub struct SegmentKey {
    pub method: String,
    pub uri: String,
    pub iv: Option<String>,
}

impl View for SegmentKey {
    type V = KeyModel;

    open spec fn view(&self) -> KeyModel {
        KeyModel { method: self.method@, uri: self.uri@, iv: opt_view(self.iv) }
    }
}

pub open spec fn opt_key(o: Option<SegmentKey>) -> Option<KeyModel> {
    match o {
        Some(k) => Some(k@),
        None => None,
    }
}

/// A copy of a segment's encryption.
pub fn copy_key(k: &Option<SegmentKey>) -> (r: Option<SegmentKey>)
    ensures
        opt_key(r) == opt_key(*k),
{
    match k {
        Some(k) => Some(
            SegmentKey {
                method: k.method.clone(),
                uri: k.uri.clone(),
                iv: match &k.iv {
                    Some(v) => Some(v.clone()),
                    None => None,
                },
            },
        ),
        None => None,
    }
}

/// A media segment of the stream.
#[derive(Debug, Clone)]
pub struct MediaSegment {
    pub url: String,
    pub sequence: u32,
    pub duration: String,
    pub is_discontinuity: bool,
    pub downloaded: bool,
    pub size_bytes: u64,
    pub key: Option<SegmentKey>,
}

impl View for MediaSegment {
    type V = SegmentModel;

    open spec fn view(&self) -> SegmentModel {
        SegmentModel {
            url: self.url@,
            sequence: self.sequence,
            duration: self.duration@,
            is_discontinuity: self.is_discontinuity,
            downloaded: self.downloaded,
            size_bytes: self.size_bytes,
            key: opt_key(self.key),
        }
    }
}

pub open spec fn opt_segment(o: Option<MediaSegment>) -> Option<SegmentModel> {
    match o {
        Some(s) => Some(s@),
        None => None,
    }
}

/// A media playlist: the segments of one stream, in order.
#[derive(Debug)]
pub struct M3U8MediaPlaylist {
    pub version: Option<u8>,
    pub target_duration: u32,
    pub media_sequence: Option<u32>,
    pub playlist_type: Option<String>,
    pub is_end_list: bool,
    pub segments: Vec<MediaSegment>,
    pub init_map_file: Option<MediaSegment>,
    pub first_segment_url: String,
    pub total_segments: u32,
}

impl View for M3U8MediaPlaylist {
    type V = MediaPlaylistModel;

    open spec fn view(&self) -> MediaPlaylistModel {
        MediaPlaylistModel {
            version: self.version,
            target_duration: self.target_duration,
            media_sequence: self.media_sequence,
            playlist_type: opt_view(self.playlist_type),
            is_end_list: self.is_end_list,
            segments: self.segments@.map_values(|s: MediaSegment| s@),
            init_map: opt_segment(self.init_map_file),
            first_segment_url: self.first_segment_url@,
            total_segments: self.total_segments as nat,
        }
    }
}

/// The state of the executable parse, as its model.
spec fn media_acc_view(
    version: Option<u8>,
    target_duration: u32,
    media_sequence: Option<u32>,
    playlist_type: Option<String>,
    is_end_list: bool,
    segments: Seq<MediaSegment>,
    init_map: Option<MediaSegment>,
    current: Option<MediaSegment>,
    index: u32,
    key: Option<SegmentKey>,
) -> MediaState {
    MediaState {
        version,
        target_duration,
        media_sequence,
        playlist_type: opt_view(playlist_type),
        is_end_list,
        segments: segments.map_values(|s: MediaSegment| s@),
        init_map: opt_segment(init_map),
        current: opt_segment(current),
        index: index as nat,
        key: opt_key(key),
    }
}

fn strip_trailing_commas_range(s: &[char], a: usize, b: usize) -> (r: Vec<char>)
    requires
        a <= b <= s@.len(),
    ensures
        r@ == strip_trailing_commas(s@.subrange(a as int, b as int)),
{
    let mut j = b;
    while j > a && s[j - 1] == ','
        invariant
            a <= j <= b,
            b <= s@.len(),
            strip_trailing_commas(s@.subrange(a as int, b as int)) == strip_trailing_commas(
                s@.subrange(a as int, j as int),
            ),
        decreases j - a,
    {
        assert(s@.subrange(a as int, j as int).drop_last() =~= s@.subrange(a as int, j - 1));
        j = j - 1;
    }
    sub_chars(s, a, j)
}

fn segment_with_url(c: &MediaSegment, url: String) -> (r: MediaSegment)
    ensures
        r@ == (SegmentModel { url: url@, ..c@ }),
{
    MediaSegment {
        url,
        sequence: c.sequence,
        duration: c.duration.clone(),
        is_discontinuity: c.is_discontinuity,
        downloaded: c.downloaded,
        size_bytes: c.size_bytes,
        key: copy_key(&c.key),
    }
}

/// The encryption that an `EXT-X-KEY` attribute list sets; see `key_of`.
fn key_from_attributes(a: &Attributes, base: &str) -> (r: Result<Option<SegmentKey>, String>)
    requires
        a.wf(),
        url_parse_error(base@) is None,
    ensures
        match r {
            Ok(k) => key_of(a@, base@) == Ok::<Option<KeyModel>, Seq<char>>(opt_key(k)),
            Err(e) => key_of(a@, base@) == Err::<Option<KeyModel>, Seq<char>>(e@),
        },
{
    let method_key = lit("METHOD");
    let uri_key = lit("URI");
    let iv_key = lit("IV");
    let none_word = lit("NONE");
    match a.get_chars(method_key.as_slice()) {
        None => Ok(None),
        Some(m) => {
            if same_chars(m.as_slice(), none_word.as_slice()) {
                return Ok(None);
            }
            match a.get_chars(uri_key.as_slice()) {
                None => Err(String::from_str("URI missing")),
                Some(u) => {
                    let us = string_from(&u);
                    match url_join(base, us.as_str()) {
                        Ok(full) => {
                            let iv = opt_string(a.get_chars(iv_key.as_slice()));
                            Ok(Some(SegmentKey { method: string_from(&m), uri: full, iv }))
                        },
                        Err(e) => Err(e),
                    }
                },
            }
        },
    }
}

/// Parses a media playlist whatever it holds: `Malformed` where parsing it
/// the usual way would panic.
pub fn parse_media_outcome(content: &str, m3u8_url: &str) -> (r: Parsed<M3U8MediaPlaylist>)
    ensures
        parsed_matches(r, media_parse(content@, m3u8_url@), |p: M3U8MediaPlaylist| p@),
{
    match url_check(m3u8_url) {
        Some(e) => {
            let m = String::from_str("Invalid base URL: ").concat(e.as_str());
            return Parsed::Failed(m);
        },
        None => {},
    }
    let cs = chars_of(content);
    let lines = lines_of(cs.as_slice());
    let ghost ls = views(lines@);
    let version_tag = lit("#EXT-X-VERSION");
    let target_tag = lit("#EXT-X-TARGETDURATION");
    let sequence_tag = lit("#EXT-X-MEDIA-SEQUENCE");
    let type_tag = lit("#EXT-X-PLAYLIST-TYPE");
    let map_tag = lit("#EXT-X-MAP");
    let key_tag = lit("#EXT-X-KEY");
    let inf_tag = lit("#EXTINF");
    let disc_tag = lit("#EXT-X-DISCONTINUITY");
    let end_tag = lit("#EXT-X-ENDLIST");
    let hash = vec!['#'];
    let uri_key = lit("URI");
    let mut version: Option<u8> = None;
    let mut target_duration: u32 = 0;
    let mut media_sequence: Option<u32> = None;
    let mut playlist_type: Option<String> = None;
    let mut is_end_list = false;
    let mut segments: Vec<MediaSegment> = Vec::new();
    let mut init_map: Option<MediaSegment> = None;
    let mut current: Option<MediaSegment> = None;
    let mut index: u32 = 0;
    let mut key: Option<SegmentKey> = None;
    let mut i: usize = 0;
    assert(segments@.map_values(|s: MediaSegment| s@) =~= Seq::<SegmentModel>::empty());
    while i < lines.len()
        invariant
            i <= lines@.len(),
            ls == views(lines@),
            ls == content_lines(content@),
            url_parse_error(m3u8_url@) is None,
            version_tag@ == "#EXT-X-VERSION"@,
            target_tag@ == "#EXT-X-TARGETDURATION"@,
            sequence_tag@ == "#EXT-X-MEDIA-SEQUENCE"@,
            type_tag@ == "#EXT-X-PLAYLIST-TYPE"@,
            map_tag@ == "#EXT-X-MAP"@,
            key_tag@ == "#EXT-X-KEY"@,
            inf_tag@ == "#EXTINF"@,
            disc_tag@ == "#EXT-X-DISCONTINUITY"@,
            end_tag@ == "#EXT-X-ENDLIST"@,
            hash@ == seq!['#'],
            uri_key@ == "URI"@,
            segments@.len() + (if current is Some {
                1int
            } else {
                0int
            }) <= index,
            media_run(ls, m3u8_url@, i as nat) == Outcome::Done(
                media_acc_view(
                    version,
                    target_duration,
                    media_sequence,
                    playlist_type,
                    is_end_list,
                    segments@,
                    init_map,
                    current,
                    index,
                    key,
                ),
            ),
        decreases lines@.len() - i,
    {
        let l = &lines[i];
        assert(ls[i as int] == l@);
        // A line that ends the parse: its failure, or `Malformed`.
        let mut stop: Option<Parsed<M3U8MediaPlaylist>> = None;
        if starts_with_chars(l.as_slice(), version_tag.as_slice()) {
            match tag_number_exec(l.as_slice(), 255) {
                Parsed::Value(v) => {
                    version = Some(v as u8);
                },
                Parsed::Failed(m) => {
                    stop = Some(Parsed::Failed(m));
                },
                Parsed::Malformed => {
                    stop = Some(Parsed::Malformed);
                },
            }
        } else if starts_with_chars(l.as_slice(), target_tag.as_slice()) {
            match tag_number_exec(l.as_slice(), u32::MAX) {
                Parsed::Value(v) => {
                    target_duration = v;
                },
                Parsed::Failed(m) => {
                    stop = Some(Parsed::Failed(m));
                },
                Parsed::Malformed => {
                    stop = Some(Parsed::Malformed);
                },
            }
        } else if starts_with_chars(l.as_slice(), sequence_tag.as_slice()) {
            match tag_number_exec(l.as_slice(), u32::MAX) {
                Parsed::Value(v) => {
                    media_sequence = Some(v);
                },
                Parsed::Failed(m) => {
                    stop = Some(Parsed::Failed(m));
                },
                Parsed::Malformed => {
                    stop = Some(Parsed::Malformed);
                },
            }
        } else if starts_with_chars(l.as_slice(), type_tag.as_slice()) {
            match second_piece_range(l.as_slice(), ':') {
                Some((a, b)) => {
                    let p = sub_chars(l.as_slice(), a, b);
                    playlist_type = Some(string_from(&p));
                },
                None => {
                    stop = Some(Parsed::Malformed);
                },
            }
        } else if starts_with_chars(l.as_slice(), map_tag.as_slice()) {
            match parse_attribute_chars(l.as_slice()) {
                None => {
                    stop = Some(Parsed::Failed(String::from_str("Invalid attribute line")));
                },
                Some(a) => match a.get_chars(uri_key.as_slice()) {
                    None => {},
                    Some(u) => {
                        let us = string_from(&u);
                        match url_join(m3u8_url, us.as_str()) {
                            Ok(full) => {
                                let seg = MediaSegment {
                                    url: full,
                                    sequence: 0,
                                    duration: String::from_str("0"),
                                    is_discontinuity: false,
                                    downloaded: false,
                                    size_bytes: 0,
                                    key: copy_key(&key),
                                };
                                proof {
                                    reveal_strlit("0");
                                }
                                assert(seg.duration@ =~= zero_duration());
                                init_map = Some(seg);
                            },
                            Err(e) => {
                                stop = Some(Parsed::Failed(e));
                            },
                        }
                    },
                },
            }
        } else if starts_with_chars(l.as_slice(), key_tag.as_slice()) {
            match parse_attribute_chars(l.as_slice()) {
                None => {
                    stop = Some(Parsed::Failed(String::from_str("Invalid attribute line")));
                },
                Some(a) => match key_from_attributes(&a, m3u8_url) {
                    Ok(k) => {
                        key = k;
                    },
                    Err(e) => {
                        stop = Some(Parsed::Failed(e));
                    },
                },
            }
        } else if starts_with_chars(l.as_slice(), inf_tag.as_slice()) {
            match second_piece_range(l.as_slice(), ':') {
                None => {
                    stop = Some(Parsed::Malformed);
                },
                Some((a, b)) => {
                    let d = strip_trailing_commas_range(l.as_slice(), a, b);
                    if !is_float_literal_chars(d.as_slice()) {
                        stop = Some(Parsed::Failed(float_error_message(d.as_slice())));
                    } else if index == u32::MAX {
                        stop = Some(Parsed::Malformed);
                    } else {
                        let seg = MediaSegment {
                            url: String::new(),
                            sequence: index,
                            duration: string_from(&d),
                            is_discontinuity: false,
                            downloaded: false,
                            size_bytes: 0,
                            key: copy_key(&key),
                        };
                        assert(seg@ == new_segment(seq![], index, d@, opt_key(key)));
                        current = Some(seg);
                        index = index + 1;
                    }
                },
            }
        } else if starts_with_chars(l.as_slice(), disc_tag.as_slice()) {
            match current {
                Some(c) => {
                    current = Some(
                        MediaSegment {
                            url: c.url,
                            sequence: c.sequence,
                            duration: c.duration,
                            is_discontinuity: true,
                            downloaded: c.downloaded,
                            size_bytes: c.size_bytes,
                            key: c.key,
                        },
                    );
                },
                None => {
                    current = None;
                },
            }
        } else if starts_with_chars(l.as_slice(), end_tag.as_slice()) {
            is_end_list = true;
        } else if !starts_with_chars(l.as_slice(), hash.as_slice()) {
            match current {
                Some(c) => {
                    let ls_text = string_from(l);
                    match url_join(m3u8_url, ls_text.as_str()) {
                        Ok(u) => {
                            let seg = segment_with_url(&c, u);
                            let ghost before = segments@.map_values(|s: MediaSegment| s@);
                            segments.push(seg);
                            assert(segments@.map_values(|s: MediaSegment| s@) =~= before.push(
                                seg@,
                            ));
                            current = None;
                        },
                        Err(e) => {
                            current = Some(c);
                            stop = Some(Parsed::Failed(e));
                        },
                    }
                },
                None => {
                    current = None;
                },
            }
        }
        match stop {
            Some(p) => {
                proof {
                    lemma_media_run_stops(ls, m3u8_url@, (i + 1) as nat, ls.len());
                }
                return p;
            },
            None => {},
        }
        i = i + 1;
        assert(media_run(ls, m3u8_url@, i as nat) == Outcome::Done(
            media_acc_view(
                version,
                target_duration,
                media_sequence,
                playlist_type,
                is_end_list,
                segments@,
                init_map,
                current,
                index,
                key,
            ),
        ));
    }
    let total_segments = segments.len() as u32;
    let first_segment_url = if segments.len() > 0 {
        segments[0].url.clone()
    } else {
        String::new()
    };
    let pl = M3U8MediaPlaylist {
        version,
        target_duration,
        media_sequence,
        playlist_type,
        is_end_list,
        segments,
        init_map_file: init_map,
        first_segment_url,
        total_segments,
    };
    Parsed::Value(pl)
}

impl M3U8MediaPlaylist {
    /// Parses a media playlist fetched from `m3u8_url`: version, target
    /// duration, media sequence, playlist type, `EXT-X-MAP` (initialisation
    /// segment), `EXT-X-KEY` (the encryption of the segments that follow),
    /// `EXTINF` durations each completed by the next URI line (resolved
    /// against `m3u8_url`), discontinuities and `EXT-X-ENDLIST`.
    /// Fails with the message of the first line that cannot be read.
    pub fn parse(content: &str, m3u8_url: &str) -> (r: Result<Self, String>)
        requires
            !media_panics(content@, m3u8_url@),
        ensures
            match r {
                Ok(p) => media_parse(content@, m3u8_url@) == Outcome::Done(p@),
                Err(m) => media_parse(content@, m3u8_url@) == Outcome::<
                    MediaPlaylistModel,
                >::Failed(m@),
            },
    {
        match parse_media_outcome(content, m3u8_url) {
            Parsed::Value(p) => Ok(p),
            Parsed::Failed(m) => Err(m),
            Parsed::Malformed => Err(String::new()),
        }
    }
}

} // verus!
