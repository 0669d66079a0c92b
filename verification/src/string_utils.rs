//! Helpers on playlist text: attribute lists, codec names, URL resolution
//! and path joining.
use vstd::prelude::*;
use crate::text::{
    after_first, before_first, chars_of, contains_chars, contains_text, find_char,
    lemma_first_index_is, lemma_first_index_none, same_chars, split_chars, split_on, string_from,
    sub_chars, views,
};

verus! {

// ------------------------------------------------------------ attribute lists

/// `s` without leading and trailing `"` characters (`trim_matches('"')`).
pub open spec fn strip_quotes_start(s: Seq<char>) -> Seq<char>
    decreases s.len(),
{
    if s.len() > 0 && s[0] == '"' {
        strip_quotes_start(s.drop_first())
    } else {
        s
    }
}

pub open spec fn strip_quotes_end(s: Seq<char>) -> Seq<char>
    decreases s.len(),
{
    if s.len() > 0 && s.last() == '"' {
        strip_quotes_end(s.drop_last())
    } else {
        s
    }
}

pub open spec fn strip_quotes(s: Seq<char>) -> Seq<char> {
    strip_quotes_end(strip_quotes_start(s))
}

/// The `KEY=VALUE` pairs among comma-separated parts, in order: the key is
/// what precedes the first `=`, the value what follows it, without quotes.
/// Parts without `=` are skipped.
pub open spec fn pairs_of(parts: Seq<Seq<char>>) -> Seq<(Seq<char>, Seq<char>)>
    decreases parts.len(),
{
    if parts.len() == 0 {
        seq![]
    } else {
        let rest = pairs_of(parts.drop_last());
        let p = parts.last();
        match after_first(p, '=') {
            Some(v) => rest.push((before_first(p, '='), strip_quotes(v))),
            None => rest,
        }
    }
}

/// The attribute pairs of a tag line: `None` when the line has no `:`,
/// else the pairs among the comma-separated parts after the first `:`.
pub open spec fn attribute_pairs(line: Seq<char>) -> Option<Seq<(Seq<char>, Seq<char>)>> {
    match after_first(line, ':') {
        Some(rest) => Some(pairs_of(split_on(rest, ','))),
        None => None,
    }
}

/// The value that a list of pairs gives a key; a later pair overrides an
/// earlier one with the same key.
pub open spec fn lookup(pairs: Seq<(Seq<char>, Seq<char>)>, key: Seq<char>) -> Option<Seq<char>>
    decreases pairs.len(),
{
    if pairs.len() == 0 {
        None
    } else if pairs.last().0 == key {
        Some(pairs.last().1)
    } else {
        lookup(pairs.drop_last(), key)
    }
}

/// The attributes of a playlist tag line, as `KEY=VALUE` pairs in the order
/// they appear.
pub struct Attributes {
    keys: Vec<Vec<char>>,
    values: Vec<Vec<char>>,
}

impl View for Attributes {
    type V = Seq<(Seq<char>, Seq<char>)>;

    closed spec fn view(&self) -> Seq<(Seq<char>, Seq<char>)> {
        Seq::new(self.keys@.len(), |i: int| (self.keys@[i]@, self.values@[i]@))
    }
}

impl Attributes {
    /// The list pairs each key with a value.
    pub closed spec fn wf(&self) -> bool {
        self.keys@.len() == self.values@.len()
    }

    /// The value of `key`, the last one given if the key occurs more than once.
    pub fn get_chars(&self, key: &[char]) -> (r: Option<Vec<char>>)
        requires
            self.wf(),
        ensures
            match r {
                Some(v) => lookup(self@, key@) == Some(v@),
                None => lookup(self@, key@) == None::<Seq<char>>,
            },
    {
        let mut i = self.keys.len();
        assert(self@.take(i as int) =~= self@);
        while i > 0
            invariant
                self.wf(),
                i <= self.keys@.len(),
                lookup(self@, key@) == lookup(self@.take(i as int), key@),
            decreases i,
        {
            let ghost t = self@.take(i as int);
            assert(t.drop_last() =~= self@.take(i - 1));
            if same_chars(self.keys[i - 1].as_slice(), key) {
                let v = self.values[i - 1].clone();
                assert(v@ == self.values@[i - 1]@);
                return Some(v);
            }
            i = i - 1;
        }
        None
    }

    /// The value of `key`, the last one given if the key occurs more than once.
    pub fn get(&self, key: &str) -> (r: Option<String>)
        requires
            self.wf(),
        ensures
            match r {
                Some(v) => lookup(self@, key@) == Some(v@),
                None => lookup(self@, key@) == None::<Seq<char>>,
            },
    {
        let k = chars_of(key);
        match self.get_chars(k.as_slice()) {
            Some(v) => Some(string_from(&v)),
            None => None,
        }
    }

    /// The number of distinct keys (a key given more than once counts once,
    /// as in a map).
    pub fn len(&self) -> (r: usize)
        requires
            self.wf(),
        ensures
            r == distinct_keys(self@),
    {
        let mut count: usize = 0;
        let mut i: usize = 0;
        while i < self.keys.len()
            invariant
                self.wf(),
                i <= self.keys@.len(),
                count <= i,
                count == distinct_keys(self@.take(i as int)),
            decreases self.keys@.len() - i,
        {
            let ghost t = self@.take(i + 1);
            assert(t.drop_last() =~= self@.take(i as int));
            let mut seen = false;
            let mut j: usize = 0;
            while j < i
                invariant
                    self.wf(),
                    i < self.keys@.len(),
                    j <= i,
                    seen == exists|k: int| 0 <= k < j && #[trigger] self@[k].0 == self@[i as int].0,
                decreases i - j,
            {
                if same_chars(self.keys[j].as_slice(), self.keys[i].as_slice()) {
                    assert(self@[j as int].0 == self@[i as int].0);
                    seen = true;
                }
                j = j + 1;
            }
            proof {
                if seen {
                    let k = choose|k: int| 0 <= k < i && #[trigger] self@[k].0 == self@[i as int].0;
                    assert(t.drop_last()[k].0 == t.last().0);
                }
                if key_seen(t.drop_last(), t.last().0) {
                    let k = choose|k: int| 0 <= k < t.drop_last().len() && #[trigger] t.drop_last()[k].0 == t.last().0;
                    assert(self@[k].0 == self@[i as int].0);
                }
            }
            if !seen {
                count = count + 1;
            }
            i = i + 1;
        }
        assert(self@.take(self.keys@.len() as int) =~= self@);
        count
    }
}

/// Some pair of the list has this key.
pub open spec fn key_seen(pairs: Seq<(Seq<char>, Seq<char>)>, key: Seq<char>) -> bool {
    exists|k: int| 0 <= k < pairs.len() && #[trigger] pairs[k].0 == key
}

/// The number of distinct keys of a pair list.
pub open spec fn distinct_keys(pairs: Seq<(Seq<char>, Seq<char>)>) -> nat
    decreases pairs.len(),
{
    if pairs.len() == 0 {
        0
    } else if key_seen(pairs.drop_last(), pairs.last().0) {
        distinct_keys(pairs.drop_last())
    } else {
        distinct_keys(pairs.drop_last()) + 1
    }
}

fn strip_quotes_range(s: &[char], a: usize, b: usize) -> (r: Vec<char>)
    requires
        a <= b <= s@.len(),
    ensures
        r@ == strip_quotes(s@.subrange(a as int, b as int)),
{
    let ghost t = s@.subrange(a as int, b as int);
    let mut i = a;
    while i < b && s[i] == '"'
        invariant
            a <= i <= b,
            b <= s@.len(),
            strip_quotes_start(t) == strip_quotes_start(s@.subrange(i as int, b as int)),
        decreases b - i,
    {
        assert(s@.subrange(i as int, b as int).drop_first() =~= s@.subrange(i + 1, b as int));
        i = i + 1;
    }
    assert(strip_quotes_start(s@.subrange(i as int, b as int)) == s@.subrange(i as int, b as int));
    let mut j = b;
    while j > i && s[j - 1] == '"'
        invariant
            a <= i <= j <= b,
            b <= s@.len(),
            strip_quotes(t) == strip_quotes_end(s@.subrange(i as int, j as int)),
        decreases j - i,
    {
        assert(s@.subrange(i as int, j as int).drop_last() =~= s@.subrange(i as int, j - 1));
        j = j - 1;
    }
    sub_chars(s, i, j)
}

/// The attributes of a tag line (`KEY=VALUE` pairs after the first `:`).
pub fn parse_attribute_chars(line: &[char]) -> (r: Option<Attributes>)
    ensures
        match r {
            Some(a) => a.wf() && attribute_pairs(line@) == Some(a@),
            None => attribute_pairs(line@) == None::<Seq<(Seq<char>, Seq<char>)>>,
        },
{
    let colon = match find_char(line, ':', 0) {
        Some(j) => j,
        None => {
            proof {
                lemma_first_index_none(line@, ':');
            }
            return None;
        },
    };
    proof {
        lemma_first_index_is(line@, ':', colon as int);
    }
    let rest = sub_chars(line, colon + 1, line.len());
    assert(rest@ =~= line@.skip(colon + 1));
    let parts = split_chars(rest.as_slice(), ',');
    let mut keys: Vec<Vec<char>> = Vec::new();
    let mut values: Vec<Vec<char>> = Vec::new();
    let mut i: usize = 0;
    while i < parts.len()
        invariant
            i <= parts@.len(),
            keys@.len() == values@.len(),
            views(parts@) == split_on(rest@, ','),
            (Attributes { keys, values })@ == pairs_of(views(parts@).take(i as int)),
        decreases parts@.len() - i,
    {
        let part = &parts[i];
        let ghost p = part@;
        assert(views(parts@).take(i + 1).drop_last() =~= views(parts@).take(i as int));
        assert(views(parts@).take(i + 1).last() == p);
        match find_char(part.as_slice(), '=', 0) {
            Some(eq) => {
                proof {
                    lemma_first_index_is(p, '=', eq as int);
                }
                let k = sub_chars(part.as_slice(), 0, eq);
                let v = strip_quotes_range(part.as_slice(), eq + 1, part.len());
                assert(p.skip(eq + 1) =~= p.subrange(eq + 1, p.len() as int));
                let ghost before = (Attributes { keys, values })@;
                keys.push(k);
                values.push(v);
                assert((Attributes { keys, values })@ =~= before.push((k@, v@)));
            },
            None => {
                proof {
                    lemma_first_index_none(p, '=');
                }
            },
        }
        i = i + 1;
    }
    assert(views(parts@).take(parts@.len() as int) =~= views(parts@));
    Some(Attributes { keys, values })
}

/// The attributes of a tag line such as
/// `#EXT-X-STREAM-INF:BANDWIDTH=1280000,RESOLUTION=1280x720`: the `KEY=VALUE`
/// pairs after the first `:`, split at commas, values without surrounding
/// quotes. Fails when the line has no `:`.
pub fn parse_attributes(line: &str) -> (r: Result<Attributes, String>)
    ensures
        match r {
            Ok(a) => a.wf() && attribute_pairs(line@) == Some(a@),
            Err(e) => attribute_pairs(line@) is None && e@ == "Invalid attribute line"@,
        },
{
    let cs = chars_of(line);
    match parse_attribute_chars(cs.as_slice()) {
        Some(a) => Ok(a),
        None => Err(String::from_str("Invalid attribute line")),
    }
}

// ------------------------------------------------------------ codecs

/// The short name of a codec string: `av1` for AV1 (`av01`), `h264` for
/// AVC (`avc1`), else the string itself; empty when there is none.
pub open spec fn codec_name(codecs: Option<Seq<char>>) -> Seq<char> {
    match codecs {
        Some(v) => if contains_text(v, seq!['a', 'v', '0', '1']) {
            seq!['a', 'v', '1']
        } else if contains_text(v, seq!['a', 'v', 'c', '1']) {
            seq!['h', '2', '6', '4']
        } else {
            v
        },
        None => seq![],
    }
}

/// Codec name for display; see `codec_name`.
pub fn map_codec_chars(codecs: Option<&[char]>) -> (r: Vec<char>)
    ensures
        r@ == codec_name(
            match codecs {
                Some(c) => Some(c@),
                None => None,
            },
        ),
{
    match codecs {
        Some(v) => {
            let av01 = ['a', 'v', '0', '1'];
            let avc1 = ['a', 'v', 'c', '1'];
            assert(av01@ =~= seq!['a', 'v', '0', '1']);
            assert(avc1@ =~= seq!['a', 'v', 'c', '1']);
            if contains_chars(v, &av01) {
                let r = vec!['a', 'v', '1'];
                assert(r@ =~= seq!['a', 'v', '1']);
                r
            } else if contains_chars(v, &avc1) {
                let r = vec!['h', '2', '6', '4'];
                assert(r@ =~= seq!['h', '2', '6', '4']);
                r
            } else {
                sub_chars(v, 0, v.len())
            }
        },
        None => Vec::new(),
    }
}

/// The short name of a codec string: `"av1"` when it mentions `av01`,
/// `"h264"` when it mentions `avc1`, else the string itself, and `""` when
/// there is none.
pub fn map_codec(codecs: Option<&str>) -> (r: String)
    ensures
        r@ == codec_name(
            match codecs {
                Some(c) => Some(c@),
                None => None,
            },
        ),
{
    match codecs {
        Some(c) => {
            let cs = chars_of(c);
            let r = map_codec_chars(Some(cs.as_slice()));
            string_from(&r)
        },
        None => String::new(),
    }
}

// ------------------------------------------------------------ URLs

/// What `url::Url::parse` says of a text: `None` when it is a URL, else the
/// text of the parse error.
pub uninterp spec fn url_parse_error(s: Seq<char>) -> Option<Seq<char>>;

/// What `url::Url::join` gives on the URL that `url::Url::parse(base)`
/// yields: the serialised joined URL, or the text of the error.
pub uninterp spec fn url_join_outcome(base: Seq<char>, reference: Seq<char>) -> Result<
    Seq<char>,
    Seq<char>,
>;

/// Calls `url::Url::parse` on `s`; trusted to report exactly what
/// `url_parse_error` names: nothing when `s` parses, else the error's text.
#[verifier::external_body]
pub(crate) fn url_check(s: &str) -> (r: Option<String>)
    ensures
        match r {
            Some(e) => url_parse_error(s@) == Some(e@),
            None => url_parse_error(s@) == None::<Seq<char>>,
        },
{
    match url::Url::parse(s) {
        Ok(_) => None,
        Err(e) => Some(e.to_string()),
    }
}

/// Calls `url::Url::parse` on `base` and `url::Url::join` on the result
/// with `reference`; trusted to return what `url_join_outcome` names: the
/// joined URL as `Url::to_string` writes it, or the join error's text.
#[verifier::external_body]
pub(crate) fn url_join(base: &str, reference: &str) -> (r: Result<String, String>)
    requires
        url_parse_error(base@) is None,
    ensures
        match r {
            Ok(u) => url_join_outcome(base@, reference@) == Ok::<Seq<char>, Seq<char>>(u@),
            Err(e) => url_join_outcome(base@, reference@) == Err::<Seq<char>, Seq<char>>(e@),
        },
{
    let b = url::Url::parse(base).unwrap();
    match b.join(reference) {
        Ok(u) => Ok(u.to_string()),
        Err(e) => Err(e.to_string()),
    }
}

/// A reference resolved against a playlist URL: the joined URL when the
/// playlist URL parses and the join succeeds, else the reference unchanged.
pub open spec fn resolved_url(master_url: Seq<char>, reference: Seq<char>) -> Seq<char> {
    if url_parse_error(master_url) is None {
        match url_join_outcome(master_url, reference) {
            Ok(u) => u,
            Err(_) => reference,
        }
    } else {
        reference
    }
}

/// Resolves `relative_uri` against `master_url`; falls back to
/// `relative_uri` itself when either URL is unusable.
pub fn resolve_m3u8_url(master_url: &str, relative_uri: String) -> (r: String)
    ensures
        r@ == resolved_url(master_url@, relative_uri@),
{
    match url_check(master_url) {
        Some(_) => relative_uri,
        None => match url_join(master_url, relative_uri.as_str()) {
            Ok(u) => u,
            Err(_) => relative_uri,
        },
    }
}

// ------------------------------------------------------------ paths

/// `append` joined onto the `/`-separated path `base`, as `Path::join`
/// does it: an absolute `append` replaces `base`; otherwise a separator is
/// put between them unless `base` is empty or already ends in one.
pub open spec fn path_join(base: Seq<char>, append: Seq<char>) -> Seq<char> {
    if append.len() > 0 && append[0] == '/' {
        append
    } else if base.len() == 0 {
        append
    } else if base.last() == '/' {
        base + append
    } else {
        base.push('/') + append
    }
}

/// Joins two path texts; see `path_join`.
pub fn join(base: &str, append: &str) -> (r: String)
    ensures
        r@ == path_join(base@, append@),
{
    let b = chars_of(base);
    let a = chars_of(append);
    let mut out: Vec<char> = Vec::new();
    if a.len() > 0 && a[0] == '/' {
        return string_from(&a);
    }
    if b.len() > 0 {
        out = sub_chars(b.as_slice(), 0, b.len());
        if b[b.len() - 1] != '/' {
            out.push('/');
        }
    }
    let ghost prefix = out@;
    let mut i: usize = 0;
    while i < a.len()
        invariant
            i <= a@.len(),
            out@ == prefix + a@.take(i as int),
        decreases a@.len() - i,
    {
        out.push(a[i]);
        i = i + 1;
        assert(out@ =~= prefix + a@.take(i as int));
    }
    assert(a@.take(a@.len() as int) =~= a@);
    assert(b@.len() > 0 ==> b@.subrange(0, b@.len() as int) =~= b@);
    assert(b@.len() > 0 ==> b@.last() == b@[b@.len() - 1]);
    assert(out@ =~= path_join(base@, append@));
    string_from(&out)
}

} // verus!
