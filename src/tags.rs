//! Tag lists: parsing a comma-separated text, and merging into a sorted set.
use vstd::prelude::*;
use crate::text::{chars_lt, chars_of, lemma_text_lt_total, lemma_text_lt_transitive, string_of, text_lt};

verus! {

/// The characters that `char::is_whitespace` accepts: Unicode `White_Space`.
pub open spec fn white(c: char) -> bool {
    let u = c as int;
    (9 <= u <= 13) || u == 32 || u == 0x85 || u == 0xA0 || u == 0x1680 || (0x2000 <= u <= 0x200A)
        || u == 0x2028 || u == 0x2029 || u == 0x202F || u == 0x205F || u == 0x3000
}

pub open spec fn trim_start(s: Seq<char>) -> Seq<char>
    decreases s.len(),
{
    if s.len() > 0 && white(s[0]) {
        trim_start(s.drop_first())
    } else {
        s
    }
}

pub open spec fn trim_end(s: Seq<char>) -> Seq<char>
    decreases s.len(),
{
    if s.len() > 0 && white(s.last()) {
        trim_end(s.drop_last())
    } else {
        s
    }
}

/// `s` without leading and trailing white space, as `str::trim` gives it.
pub open spec fn trimmed(s: Seq<char>) -> Seq<char> {
    trim_end(trim_start(s))
}

/// The pieces of `s` between commas, as `str::split(',')` gives them.
pub open spec fn pieces(s: Seq<char>) -> Seq<Seq<char>>
    decreases s.len(),
{
    if s.len() == 0 {
        seq![Seq::empty()]
    } else {
        let p = pieces(s.drop_last());
        if s.last() == ',' {
            p.push(Seq::empty())
        } else {
            p.update(p.len() - 1, p.last().push(s.last()))
        }
    }
}

/// The trimmed pieces of `ps`, empty ones dropped, each kept at its first
/// occurrence only.
pub open spec fn collect_tags(ps: Seq<Seq<char>>) -> Seq<Seq<char>>
    decreases ps.len(),
{
    if ps.len() == 0 {
        Seq::empty()
    } else {
        let r = collect_tags(ps.drop_last());
        let t = trimmed(ps.last());
        if t.len() == 0 || r.contains(t) {
            r
        } else {
            r.push(t)
        }
    }
}

/// The tags that a comma-separated text lists, in order of first occurrence.
pub open spec fn tag_list(s: Seq<char>) -> Seq<Seq<char>> {
    collect_tags(pieces(s))
}

/// The texts that a vector of strings holds.
pub open spec fn views(v: Seq<String>) -> Seq<Seq<char>> {
    v.map_values(|t: String| t@)
}

/// Strictly ascending in the order of `String`: sorted and free of repeats.
pub open spec fn sorted_strict(s: Seq<Seq<char>>) -> bool {
    forall|i: int, j: int| 0 <= i < j < s.len() ==> text_lt(#[trigger] s[i], #[trigger] s[j])
}

proof fn lemma_pieces_nonempty(s: Seq<char>)
    ensures
        pieces(s).len() >= 1,
    decreases s.len(),
{
    if s.len() > 0 {
        lemma_pieces_nonempty(s.drop_last());
    }
}

fn is_white(c: char) -> (r: bool)
    ensures
        r == white(c),
{
    let u = c as u32;
    (9 <= u && u <= 13) || u == 32 || u == 0x85 || u == 0xA0 || u == 0x1680 || (0x2000 <= u && u
        <= 0x200A) || u == 0x2028 || u == 0x2029 || u == 0x202F || u == 0x205F || u == 0x3000
}

/// `v` with leading and trailing white space removed.
fn trim_chars(v: &Vec<char>) -> (r: Vec<char>)
    ensures
        r@ == trimmed(v@),
{
    let n = v.len();
    let mut a: usize = 0;
    assert(v@.subrange(0, n as int) =~= v@);
    while a < n && is_white(v[a])
        invariant
            n == v.len(),
            a <= n,
            trim_start(v@) == trim_start(v@.subrange(a as int, n as int)),
        decreases n - a,
    {
        assert(v@.subrange(a as int, n as int).drop_first() =~= v@.subrange(a + 1, n as int));
        a = a + 1;
    }
    assert(trim_start(v@) == v@.subrange(a as int, n as int));
    let mut b: usize = n;
    while b > a && is_white(v[b - 1])
        invariant
            n == v.len(),
            a <= b <= n,
            trimmed(v@) == trim_end(v@.subrange(a as int, b as int)),
        decreases b - a,
    {
        assert(v@.subrange(a as int, b as int).drop_last() =~= v@.subrange(a as int, b - 1));
        b = b - 1;
    }
    let mut r: Vec<char> = Vec::new();
    let mut k: usize = a;
    while k < b
        invariant
            n == v.len(),
            a <= k <= b <= n,
            r@ == v@.subrange(a as int, k as int),
        decreases b - k,
    {
        r.push(v[k]);
        assert(r@ =~= v@.subrange(a as int, k + 1));
        k = k + 1;
    }
    r
}

/// Whether `v` holds a string with the characters `t`.
fn holds_text(v: &Vec<String>, t: &String) -> (r: bool)
    ensures
        r == views(v@).contains(t@),
{
    let mut j: usize = 0;
    while j < v.len()
        invariant
            j <= v.len(),
            forall|k: int| 0 <= k < j ==> v@[k]@ != t@,
        decreases v.len() - j,
    {
        if v[j] == *t {
            assert(views(v@)[j as int] == t@);
            return true;
        }
        j = j + 1;
    }
    false
}

/// Adds the trimmed `piece` to `out` unless it is empty or already there.
fn push_tag(out: &mut Vec<String>, piece: &Vec<char>)
    ensures
        views(final(out)@) == ({
            let t = trimmed(piece@);
            if t.len() == 0 || views(old(out)@).contains(t) {
                views(old(out)@)
            } else {
                views(old(out)@).push(t)
            }
        }),
{
    let t = trim_chars(piece);
    if t.len() == 0 {
        return;
    }
    let s = string_of(&t);
    if holds_text(out, &s) {
        return;
    }
    out.push(s);
    assert(views(final(out)@) =~= views(old(out)@).push(t@));
}

/// The tags of a comma-separated text: each piece trimmed, empty pieces
/// dropped, repeats dropped, in order of first occurrence.
pub fn parse_tags(csv: &str) -> (r: Vec<String>)
    ensures
        views(r@) == tag_list(csv@),
{
    let s = chars_of(csv);
    let mut out: Vec<String> = Vec::new();
    let mut cur: Vec<char> = Vec::new();
    let mut i: usize = 0;
    assert(s@.take(0) =~= Seq::<char>::empty());
    assert(views(out@) =~= collect_tags(pieces(s@.take(0)).drop_last()));
    while i < s.len()
        invariant
            s@ == csv@,
            i <= s.len(),
            pieces(s@.take(i as int)).len() >= 1,
            cur@ == pieces(s@.take(i as int)).last(),
            views(out@) == collect_tags(pieces(s@.take(i as int)).drop_last()),
        decreases s.len() - i,
    {
        let c = s[i];
        let ghost p = pieces(s@.take(i as int));
        assert(s@.take(i + 1).drop_last() =~= s@.take(i as int));
        proof {
            lemma_pieces_nonempty(s@.take(i + 1));
        }
        if c == ',' {
            assert(p.drop_last().push(p.last()) =~= p);
            push_tag(&mut out, &cur);
            cur = Vec::new();
            assert(pieces(s@.take(i + 1)).drop_last() =~= p);
        } else {
            cur.push(c);
            assert(pieces(s@.take(i + 1)).drop_last() =~= p.drop_last());
        }
        i = i + 1;
    }
    assert(s@.take(i as int) =~= s@);
    let ghost p = pieces(s@);
    assert(p.drop_last().push(p.last()) =~= p);
    push_tag(&mut out, &cur);
    out
}

/// Inserts `x` into the strictly ascending `v`, unless it is there already.
fn insert_sorted(v: &mut Vec<String>, x: String)
    requires
        sorted_strict(views(old(v)@)),
    ensures
        sorted_strict(views(final(v)@)),
        forall|t: Seq<char>|
            views(final(v)@).contains(t) <==> (views(old(v)@).contains(t) || t == x@),
{
    let xc = chars_of(x.as_str());
    let mut p: usize = 0;
    while p < v.len()
        invariant
            p <= v.len(),
            xc@ == x@,
            forall|k: int| 0 <= k < p ==> text_lt(#[trigger] v@[k]@, x@),
        ensures
            p <= v.len(),
            forall|k: int| 0 <= k < p ==> text_lt(#[trigger] v@[k]@, x@),
            p < v.len() ==> !text_lt(v@[p as int]@, x@),
        decreases v.len() - p,
    {
        let vc = chars_of(v[p].as_str());
        if !chars_lt(&vc, &xc) {
            break;
        }
        p = p + 1;
    }
    let ghost w = views(v@);
    if p < v.len() && v[p] == x {
        assert(w[p as int] == x@);
        assert(w.contains(x@));
        return;
    }
    proof {
        if p < v.len() {
            lemma_text_lt_total(w[p as int], x@);
            assert forall|j: int| p <= j < w.len() implies text_lt(x@, #[trigger] w[j]) by {
                if j > p {
                    lemma_text_lt_transitive(x@, w[p as int], w[j]);
                }
            }
        }
    }
    v.insert(p, x);
    assert(views(v@) =~= w.insert(p as int, x@));
    assert forall|t: Seq<char>|
        views(v@).contains(t) <==> (w.contains(t) || t == x@) by {
        if w.contains(t) {
            let k = choose|k: int| 0 <= k < w.len() && w[k] == t;
            if k < p {
                assert(views(v@)[k] == t);
            } else {
                assert(views(v@)[k + 1] == t);
            }
        }
        if t == x@ {
            assert(views(v@)[p as int] == t);
        }
        if views(v@).contains(t) {
            let k = choose|k: int| 0 <= k < views(v@).len() && views(v@)[k] == t;
            if k < p {
                assert(w[k] == t);
            } else if k > p {
                assert(w[k - 1] == t);
            }
        }
    }
}

/// `existing` and `extra` together, sorted in the order of `String` and free
/// of repeats.
pub fn merge_tags(existing: &Vec<String>, extra: &Vec<String>) -> (r: Vec<String>)
    ensures
        sorted_strict(views(r@)),
        forall|t: Seq<char>|
            views(r@).contains(t) <==> (views(existing@).contains(t) || views(extra@).contains(
                t,
            )),
{
    let mut r: Vec<String> = Vec::new();
    let mut i: usize = 0;
    while i < existing.len()
        invariant
            i <= existing.len(),
            sorted_strict(views(r@)),
            forall|t: Seq<char>|
                views(r@).contains(t) <==> exists|k: int| 0 <= k < i && #[trigger] existing@[k]@ == t,
        decreases existing.len() - i,
    {
        insert_sorted(&mut r, existing[i].clone());
        i = i + 1;
    }
    assert forall|t: Seq<char>|
        (exists|k: int| 0 <= k < existing.len() && #[trigger] existing@[k]@ == t) <==> views(existing@).contains(t) by {
        if views(existing@).contains(t) {
            let k = choose|k: int| 0 <= k < existing.len() && views(existing@)[k] == t;
            assert(existing@[k]@ == t);
        }
        if exists|k: int| 0 <= k < existing.len() && #[trigger] existing@[k]@ == t {
            let k = choose|k: int| 0 <= k < existing.len() && #[trigger] existing@[k]@ == t;
            assert(views(existing@)[k] == t);
        }
    }
    let mut j: usize = 0;
    while j < extra.len()
        invariant
            j <= extra.len(),
            sorted_strict(views(r@)),
            forall|t: Seq<char>|
                views(r@).contains(t) <==> (views(existing@).contains(t) || exists|k: int|
                    0 <= k < j && #[trigger] extra@[k]@ == t),
        decreases extra.len() - j,
    {
        insert_sorted(&mut r, extra[j].clone());
        j = j + 1;
    }
    assert forall|t: Seq<char>|
        (exists|k: int| 0 <= k < extra.len() && #[trigger] extra@[k]@ == t) <==> views(extra@).contains(t) by {
        if views(extra@).contains(t) {
            let k = choose|k: int| 0 <= k < extra.len() && views(extra@)[k] == t;
            assert(extra@[k]@ == t);
        }
        if exists|k: int| 0 <= k < extra.len() && #[trigger] extra@[k]@ == t {
            let k = choose|k: int| 0 <= k < extra.len() && #[trigger] extra@[k]@ == t;
            assert(views(extra@)[k] == t);
        }
    }
    r
}

} // verus!
