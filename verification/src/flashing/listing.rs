use vstd::prelude::*;
use crate::text::{
    chars_of, find, find_spec, lemma_find_from, lines, lines_spec, occurs_at, seqs_of, slice_of, words, words_spec,
};

verus! {

broadcast use vstd::string::group_string_axioms;

/// `a` comes before `b` in the order of `str`'s `<`: character by character
/// (UTF-8 byte order is code point order), a proper prefix first.
pub open spec fn lex_lt(a: Seq<char>, b: Seq<char>) -> bool
    decreases a.len(),
{
    if a.len() == 0 {
        b.len() > 0
    } else if b.len() == 0 {
        false
    } else if a[0] != b[0] {
        a[0] < b[0]
    } else {
        lex_lt(a.drop_first(), b.drop_first())
    }
}

pub proof fn lemma_lex_irrefl(a: Seq<char>)
    ensures
        !lex_lt(a, a),
    decreases a.len(),
{
    if a.len() > 0 {
        lemma_lex_irrefl(a.drop_first());
    }
}

pub proof fn lemma_lex_trans(a: Seq<char>, b: Seq<char>, c: Seq<char>)
    requires
        lex_lt(a, b),
        lex_lt(b, c),
    ensures
        lex_lt(a, c),
    decreases a.len(),
{
    if a.len() > 0 && b.len() > 0 && c.len() > 0 && a[0] == b[0] && b[0] == c[0] {
        lemma_lex_trans(a.drop_first(), b.drop_first(), c.drop_first());
    }
}

pub proof fn lemma_lex_total(a: Seq<char>, b: Seq<char>)
    ensures
        a == b || lex_lt(a, b) || lex_lt(b, a),
    decreases a.len(),
{
    if a.len() > 0 && b.len() > 0 && a[0] == b[0] {
        lemma_lex_total(a.drop_first(), b.drop_first());
        if a.drop_first() == b.drop_first() {
            assert(a =~= seq![a[0]] + a.drop_first());
            assert(b =~= seq![b[0]] + b.drop_first());
        }
    } else if a.len() > 0 && b.len() > 0 {
    } else if a.len() == 0 && b.len() == 0 {
        assert(a =~= b);
    }
}

/// Whether `a` comes before `b`, as `str`'s `<` orders them.
pub fn lex_less(a: &Vec<char>, b: &Vec<char>) -> (r: bool)
    ensures
        r == lex_lt(a@, b@),
{
    let mut i: usize = 0;
    assert(a@.skip(0) =~= a@);
    assert(b@.skip(0) =~= b@);
    while i < a.len() && i < b.len()
        invariant
            i <= a.len(),
            i <= b.len(),
            lex_lt(a@, b@) == lex_lt(a@.skip(i as int), b@.skip(i as int)),
        decreases a.len() - i,
    {
        assert(a@.skip(i as int)[0] == a@[i as int]);
        assert(b@.skip(i as int)[0] == b@[i as int]);
        if a[i] != b[i] {
            return a[i] < b[i];
        }
        assert(a@.skip(i as int).drop_first() =~= a@.skip(i + 1));
        assert(b@.skip(i as int).drop_first() =~= b@.skip(i + 1));
        i = i + 1;
    }
    a.len() < b.len()
}

/// `m` is a greatest element of `s` in `str` order.
pub open spec fn is_greatest(s: Seq<Seq<char>>, m: Seq<char>) -> bool {
    &&& s.contains(m)
    &&& forall|j: int| 0 <= j < s.len() ==> !lex_lt(m, #[trigger] s[j])
}

/// The index of a greatest element, if there is any element.
pub fn greatest(v: &Vec<Vec<char>>) -> (r: Option<usize>)
    ensures
        r is None <==> v.len() == 0,
        r matches Some(i) ==> i < v.len() && is_greatest(seqs_of(v@), v@[i as int]@),
{
    if v.len() == 0 {
        return None;
    }
    let ghost s = seqs_of(v@);
    let mut best: usize = 0;
    proof {
        lemma_lex_irrefl(s[0]);
    }
    for j in 1..v.len()
        invariant
            best < j <= v.len(),
            s == seqs_of(v@),
            forall|k: int| 0 <= k < j ==> !lex_lt(s[best as int], #[trigger] s[k]),
    {
        if lex_less(&v[best], &v[j]) {
            proof {
                assert forall|k: int| 0 <= k < j + 1 implies !lex_lt(s[j as int], #[trigger] s[k]) by {
                    if k == j {
                        lemma_lex_irrefl(s[k]);
                    } else if lex_lt(s[j as int], s[k]) {
                        lemma_lex_trans(s[best as int], s[j as int], s[k]);
                    }
                }
            }
            best = j;
        }
    }
    assert(s[best as int] == v@[best as int]@);
    Some(best)
}

/// The value of the `href="…"` attribute on a line, if it has a complete one.
pub open spec fn quoted_href(l: Seq<char>) -> Option<Seq<char>> {
    match find_spec(l, "href=\""@) {
        Some(s) => {
            let rest = l.skip(s + 6);
            match find_spec(rest, "\""@) {
                Some(e) => Some(rest.take(e)),
                None => None,
            }
        },
        None => None,
    }
}

/// The quoted `href` of each line that has one, in order.
pub open spec fn line_hrefs(ls: Seq<Seq<char>>) -> Seq<Seq<char>>
    decreases ls.len(),
{
    if ls.len() == 0 {
        seq![]
    } else {
        match quoted_href(ls.last()) {
            Some(h) => line_hrefs(ls.drop_last()).push(h),
            None => line_hrefs(ls.drop_last()),
        }
    }
}

/// The quoted `href` of one line.
pub fn href_of_line(l: &Vec<char>) -> (r: Option<Vec<char>>)
    ensures
        match r {
            Some(h) => quoted_href(l@) == Some(h@),
            None => quoted_href(l@) is None,
        },
{
    let pat = chars_of("href=\"");
    let q = chars_of("\"");
    proof {
        reveal_strlit("href=\"");
        reveal_strlit("\"");
        lemma_find_from(l@, pat@, 0);
    }
    assert(pat@.len() == 6);
    match find(l, &pat) {
        Some(s) => {
            assert(occurs_at(l@, pat@, s as int));
            assert(s + pat@.len() <= l@.len());
            assert(s + 6 <= l.len());
            let rest = slice_of(l, s + 6, l.len());
            assert(rest@ =~= l@.skip(s + 6));
            proof {
                lemma_find_from(rest@, q@, 0);
            }
            match find(&rest, &q) {
                Some(e) => {
                    assert(occurs_at(rest@, q@, e as int));
                    let h = slice_of(&rest, 0, e);
                    assert(h@ =~= rest@.take(e as int));
                    Some(h)
                },
                None => None,
            }
        },
        None => None,
    }
}

/// The quoted `href`s of the lines of an HTML listing, in order.
pub fn quoted_hrefs(html: &str) -> (r: Vec<Vec<char>>)
    ensures
        seqs_of(r@) == line_hrefs(lines_spec(html@)),
{
    let v = chars_of(html);
    let ls = lines(&v);
    let ghost all = lines_spec(html@);
    let mut r: Vec<Vec<char>> = Vec::new();
    for i in 0..ls.len()
        invariant
            all == lines_spec(html@),
            all.len() == ls.len(),
            forall|j: int| 0 <= j < ls.len() ==> (#[trigger] ls@[j])@ == all[j],
            seqs_of(r@) == line_hrefs(all.take(i as int)),
    {
        assert(all.take(i + 1).drop_last() =~= all.take(i as int));
        assert(all.take(i + 1).last() == all[i as int]);
        let ghost before = seqs_of(r@);
        match href_of_line(&ls[i]) {
            Some(h) => {
                let ghost hv = h@;
                r.push(h);
                assert(seqs_of(r@) =~= before.push(hv));
            },
            None => {},
        }
    }
    assert(all.take(ls.len() as int) =~= all);
    r
}

/// The first whitespace-separated word of a text, if any.
pub open spec fn first_word_spec(s: Seq<char>) -> Option<Seq<char>> {
    if words_spec(s).len() > 0 {
        Some(words_spec(s)[0])
    } else {
        None
    }
}

/// The first whitespace-separated word of a text (as in a `.sha256sum`
/// file: `hash  filename`, or just `hash`).
pub fn first_word(s: &str) -> (r: Option<String>)
    ensures
        match r {
            Some(w) => first_word_spec(s@) == Some(w@),
            None => first_word_spec(s@) is None,
        },
{
    let v = chars_of(s);
    let ws = words(&v);
    if ws.len() > 0 {
        assert(seqs_of(ws@)[0] == ws@[0]@);
        Some(crate::text::string_of(&ws[0]))
    } else {
        None
    }
}

} // verus!
