//! Choosing the downloaded segment files to merge and putting them in
//! order.
use vstd::prelude::*;
use crate::fs_utils::{file_name_of, last_dot, path_parts};
use crate::text::{chars_of, same_chars, views};

verus! {

broadcast use vstd::seq_lib::group_to_multiset_ensures;

/// `a` comes before `b` or equals it, character by character, a prefix
/// first (the order of `str` and, within one folder, of paths).
pub open spec fn lex_le(a: Seq<char>, b: Seq<char>) -> bool
    decreases a.len(),
{
    if a.len() == 0 {
        true
    } else if b.len() == 0 {
        false
    } else if a[0] != b[0] {
        (a[0] as int) < (b[0] as int)
    } else {
        lex_le(a.drop_first(), b.drop_first())
    }
}

pub proof fn lemma_lex_total(a: Seq<char>, b: Seq<char>)
    ensures
        lex_le(a, b) || lex_le(b, a),
    decreases a.len(),
{
    if a.len() > 0 && b.len() > 0 && a[0] == b[0] {
        lemma_lex_total(a.drop_first(), b.drop_first());
    }
}

pub proof fn lemma_lex_trans(a: Seq<char>, b: Seq<char>, c: Seq<char>)
    requires
        lex_le(a, b),
        lex_le(b, c),
    ensures
        lex_le(a, c),
    decreases a.len(),
{
    if a.len() > 0 && b.len() > 0 && c.len() > 0 && a[0] == b[0] && b[0] == c[0] {
        lemma_lex_trans(a.drop_first(), b.drop_first(), c.drop_first());
    }
}

pub proof fn lemma_lex_antisym(a: Seq<char>, b: Seq<char>)
    requires
        lex_le(a, b),
        lex_le(b, a),
    ensures
        a == b,
    decreases a.len(),
{
    if a.len() > 0 && b.len() > 0 {
        lemma_lex_antisym(a.drop_first(), b.drop_first());
        assert forall|i: int| 0 <= i < a.len() implies a[i] == b[i] by {
            if i > 0 {
                assert(a[i] == a.drop_first()[i - 1]);
                assert(b[i] == b.drop_first()[i - 1]);
            }
        }
    }
    assert(a =~= b);
}

/// `a` comes strictly before `b`.
pub open spec fn lex_lt(a: Seq<char>, b: Seq<char>) -> bool {
    lex_le(a, b) && a != b
}

/// A common prefix does not change the order.
pub proof fn lemma_lex_common_prefix(p: Seq<char>, a: Seq<char>, b: Seq<char>)
    ensures
        lex_le(p + a, p + b) == lex_le(a, b),
    decreases p.len(),
{
    if p.len() == 0 {
        assert(p + a =~= a);
        assert(p + b =~= b);
    } else {
        assert((p + a).drop_first() =~= p.drop_first() + a);
        assert((p + b).drop_first() =~= p.drop_first() + b);
        lemma_lex_common_prefix(p.drop_first(), a, b);
    }
}

/// Of two texts of one length, the first stays first whatever follows them.
pub proof fn lemma_lex_lt_extend(p: Seq<char>, q: Seq<char>, x: Seq<char>, y: Seq<char>)
    requires
        p.len() == q.len(),
        lex_lt(p, q),
    ensures
        lex_lt(p + x, q + y),
    decreases p.len(),
{
    if p.len() == 0 {
        assert(p =~= q);
    } else if p[0] != q[0] {
        assert((p + x)[0] == p[0]);
        assert((q + y)[0] == q[0]);
    } else {
        if p.drop_first() =~= q.drop_first() {
            assert forall|i: int| 0 <= i < p.len() implies p[i] == q[i] by {
                if i > 0 {
                    assert(p[i] == p.drop_first()[i - 1]);
                    assert(q[i] == q.drop_first()[i - 1]);
                }
            }
            assert(p =~= q);
        }
        lemma_lex_lt_extend(p.drop_first(), q.drop_first(), x, y);
        assert((p + x).drop_first() =~= p.drop_first() + x);
        assert((q + y).drop_first() =~= q.drop_first() + y);
        assert((p + x)[0] == (q + y)[0]);
    }
}

/// The texts are in order.
pub open spec fn sorted_texts(s: Seq<Seq<char>>) -> bool {
    forall|i: int, j: int| 0 <= i < j < s.len() ==> lex_le(#[trigger] s[i], #[trigger] s[j])
}

fn lex_le_exec(a: &[char], b: &[char]) -> (r: bool)
    ensures
        r == lex_le(a@, b@),
{
    let mut i: usize = 0;
    assert(a@.skip(0) =~= a@);
    assert(b@.skip(0) =~= b@);
    while i < a.len() && i < b.len() && a[i] == b[i]
        invariant
            i <= a@.len(),
            i <= b@.len(),
            lex_le(a@, b@) == lex_le(a@.skip(i as int), b@.skip(i as int)),
        decreases a@.len() - i,
    {
        assert(a@.skip(i as int).drop_first() =~= a@.skip(i + 1));
        assert(b@.skip(i as int).drop_first() =~= b@.skip(i + 1));
        i = i + 1;
    }
    if i == a.len() {
        true
    } else if i == b.len() {
        false
    } else {
        assert(a@.skip(i as int)[0] == a@[i as int]);
        assert(b@.skip(i as int)[0] == b@[i as int]);
        a[i] < b[i]
    }
}

/// Puts texts in order (insertion sort; equal texts keep their order).
pub fn sort_texts(items: Vec<Vec<char>>) -> (r: Vec<Vec<char>>)
    ensures
        sorted_texts(views(r@)),
        views(r@).to_multiset() == views(items@).to_multiset(),
{
    let mut r: Vec<Vec<char>> = Vec::new();
    let mut i: usize = 0;
    let ghost all = views(items@);
    assert(views(r@) =~= all.take(0));
    while i < items.len()
        invariant
            i <= items@.len(),
            all == views(items@),
            sorted_texts(views(r@)),
            views(r@).to_multiset() == all.take(i as int).to_multiset(),
        decreases items@.len() - i,
    {
        let x = &items[i];
        let mut pos: usize = r.len();
        while pos > 0 && !lex_le_exec(r[pos - 1].as_slice(), x.as_slice())
            invariant
                pos <= r@.len(),
                forall|k: int| pos <= k < r@.len() ==> !lex_le(#[trigger] views(r@)[k], x@),
            decreases pos,
        {
            pos = pos - 1;
        }
        let ghost before = views(r@);
        let v = crate::text::sub_chars(x.as_slice(), 0, x.len());
        assert(v@ =~= x@);
        r.insert(pos, v);
        assert(views(r@) =~= before.insert(pos as int, x@));
        proof {
            let after = views(r@);
            assert forall|a: int, b: int| 0 <= a < b < after.len() implies lex_le(
                #[trigger] after[a],
                #[trigger] after[b],
            ) by {
                if b < pos {
                } else if b == pos {
                    if pos > 0 {
                        assert(lex_le(before[pos - 1], x@));
                        if a < pos - 1 {
                            lemma_lex_trans(before[a], before[pos - 1], x@);
                        }
                    }
                } else if a == pos {
                    lemma_lex_total(before[b - 1], x@);
                } else if a < pos {
                    lemma_lex_total(before[b - 1], x@);
                    if pos > 0 {
                        assert(lex_le(before[pos - 1], x@));
                        if a < pos - 1 {
                            lemma_lex_trans(before[a], before[pos - 1], x@);
                        }
                        lemma_lex_trans(before[a], x@, before[b - 1]);
                    }
                } else {
                }
            }
            before.to_multiset_ensures();
            assert(all.take(i + 1) =~= all.take(i as int).push(x@));
            vstd::seq_lib::to_multiset_insert(before, pos as int, x@);
        }
        i = i + 1;
    }
    assert(all.take(items@.len() as int) =~= all);
    r
}

/// The extension of a path's last part (`Path::extension`): what follows
/// its last `.`, unless there is none or it is the leading one.
pub open spec fn extension_of(p: Seq<char>) -> Option<Seq<char>> {
    match file_name_of(p) {
        None => None,
        Some(n) => match last_dot(n) {
            Some(i) => if i == 0 {
                None
            } else {
                Some(n.skip(i + 1))
            },
            None => None,
        },
    }
}

/// The path has one of the given extensions.
pub open spec fn has_extension(p: Seq<char>, extensions: Seq<Seq<char>>) -> bool {
    match extension_of(p) {
        Some(e) => extensions.contains(e),
        None => false,
    }
}

fn extension_exec(p: &[char]) -> (r: Option<Vec<char>>)
    ensures
        match r {
            Some(e) => extension_of(p@) == Some(e@),
            None => extension_of(p@) is None,
        },
{
    let s = crate::text::string_of(p);
    match crate::fs_utils::last_name_part(s.as_str()) {
        None => None,
        Some(n) => match crate::fs_utils::last_dot_position(n.as_slice()) {
            Some(i) => if i == 0 {
                None
            } else {
                let nl = n.len();
                let e = crate::text::sub_chars(n.as_slice(), i + 1, nl);
                assert(e@ =~= n@.skip(i + 1));
                Some(e)
            },
            None => None,
        },
    }
}

fn contains_text_in(list: &Vec<Vec<char>>, e: &[char]) -> (r: bool)
    ensures
        r == views(list@).contains(e@),
{
    let mut i: usize = 0;
    while i < list.len()
        invariant
            i <= list@.len(),
            forall|k: int| 0 <= k < i ==> views(list@)[k] != e@,
        decreases list@.len() - i,
    {
        if same_chars(list[i].as_slice(), e) {
            assert(views(list@)[i as int] == e@);
            return true;
        }
        i = i + 1;
    }
    false
}

/// The downloaded segment files to merge: the paths with one of the given
/// extensions, in order.
pub fn select_segment_files(paths: &Vec<String>, extensions: &Vec<String>) -> (r: Vec<String>)
    ensures
        sorted_texts(r@.map_values(|s: String| s@)),
        r@.map_values(|s: String| s@).to_multiset() == paths@.map_values(|s: String| s@).filter(
            |p: Seq<char>| has_extension(p, extensions@.map_values(|s: String| s@)),
        ).to_multiset(),
{
    let ghost ps = paths@.map_values(|s: String| s@);
    let ghost exts = extensions@.map_values(|s: String| s@);
    let ghost keep = |p: Seq<char>| has_extension(p, exts);
    let mut ext_chars: Vec<Vec<char>> = Vec::new();
    let mut j: usize = 0;
    while j < extensions.len()
        invariant
            j <= extensions@.len(),
            exts == extensions@.map_values(|s: String| s@),
            views(ext_chars@) == exts.take(j as int),
        decreases extensions@.len() - j,
    {
        let ghost before = views(ext_chars@);
        let c = chars_of(extensions[j].as_str());
        ext_chars.push(c);
        assert(views(ext_chars@) =~= before.push(c@));
        j = j + 1;
        assert(views(ext_chars@) =~= exts.take(j as int));
    }
    assert(exts.take(extensions@.len() as int) =~= exts);
    let mut chosen: Vec<Vec<char>> = Vec::new();
    let mut i: usize = 0;
    assert(ps.take(0).filter(keep) =~= Seq::<Seq<char>>::empty()) by {
        reveal(Seq::filter);
    }
    while i < paths.len()
        invariant
            i <= paths@.len(),
            ps == paths@.map_values(|s: String| s@),
            views(ext_chars@) == exts,
            keep == (|p: Seq<char>| has_extension(p, exts)),
            views(chosen@) == ps.take(i as int).filter(keep),
        decreases paths@.len() - i,
    {
        proof {
            assert(ps.take(i + 1) =~= ps.take(i as int).push(ps[i as int]));
            ps.take(i as int).lemma_filter_push(ps[i as int], keep);
        }
        let p = chars_of(paths[i].as_str());
        let ok = match extension_exec(p.as_slice()) {
            Some(e) => contains_text_in(&ext_chars, e.as_slice()),
            None => false,
        };
        if ok {
            let ghost before = views(chosen@);
            chosen.push(p);
            assert(views(chosen@) =~= before.push(ps[i as int]));
        }
        i = i + 1;
    }
    assert(ps.take(paths@.len() as int) =~= ps);
    let sorted = sort_texts(chosen);
    let mut r: Vec<String> = Vec::new();
    let mut k: usize = 0;
    while k < sorted.len()
        invariant
            k <= sorted@.len(),
            r@.map_values(|s: String| s@) == views(sorted@).take(k as int),
        decreases sorted@.len() - k,
    {
        let ghost before = r@.map_values(|s: String| s@);
        let s = crate::text::string_from(&sorted[k]);
        r.push(s);
        assert(r@.map_values(|s: String| s@) =~= before.push(sorted@[k as int]@));
        k = k + 1;
        assert(r@.map_values(|s: String| s@) =~= views(sorted@).take(k as int));
    }
    assert(views(sorted@).take(sorted@.len() as int) =~= views(sorted@));
    r
}

} // verus!
