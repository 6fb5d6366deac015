use vstd::prelude::*;
use crate::text::seqs_of;

verus! {

/// One component of a `/`-separated path, as `std::path::Component` names them.
pub enum CompView {
    Root,
    Cur,
    Parent,
    Normal(Seq<char>),
}

/// The pieces of `s` between `/` separators, empty ones included: finished ones
/// and the one being read.
pub open spec fn pieces_state(s: Seq<char>) -> (Seq<Seq<char>>, Seq<char>)
    decreases s.len(),
{
    if s.len() == 0 {
        (seq![], seq![])
    } else {
        let (done, cur) = pieces_state(s.drop_last());
        if s.last() == '/' {
            (done.push(cur), seq![])
        } else {
            (done, cur.push(s.last()))
        }
    }
}

/// The pieces of `s` between `/` separators (there is always at least one).
pub open spec fn pieces(s: Seq<char>) -> Seq<Seq<char>> {
    let (done, cur) = pieces_state(s);
    done.push(cur)
}

pub open spec fn dot() -> Seq<char> {
    seq!['.']
}

pub open spec fn dot_dot() -> Seq<char> {
    seq!['.', '.']
}

/// The component a piece stands for, if any: empty pieces and `.` pieces give
/// none, except a `.` that begins a relative path.
pub open spec fn piece_comp(piece: Seq<char>, first_of_relative: bool) -> Option<CompView> {
    if piece.len() == 0 {
        None
    } else if piece == dot() {
        if first_of_relative {
            Some(CompView::Cur)
        } else {
            None
        }
    } else if piece == dot_dot() {
        Some(CompView::Parent)
    } else {
        Some(CompView::Normal(piece))
    }
}

/// The components of the pieces `ps[..n]`.
pub open spec fn comps_of_pieces(ps: Seq<Seq<char>>, n: int, relative: bool) -> Seq<CompView>
    decreases n,
{
    if n <= 0 {
        seq![]
    } else {
        let before = comps_of_pieces(ps, n - 1, relative);
        match piece_comp(ps[n - 1], relative && n - 1 == 0) {
            Some(c) => before.push(c),
            None => before,
        }
    }
}

/// The components of a path (`Path::components` on a Unix path): a leading `/`
/// gives `Root`, repeated separators and `.` inside the path vanish, `..` is
/// `Parent`.
pub open spec fn components(p: Seq<char>) -> Seq<CompView> {
    let root = p.len() > 0 && p[0] == '/';
    let ps = pieces(p);
    let rest = comps_of_pieces(ps, ps.len() as int, !root);
    if root {
        seq![CompView::Root] + rest
    } else {
        rest
    }
}

/// A path component held by the library.
pub enum Comp {
    Root,
    Cur,
    Parent,
    Normal(Vec<char>),
}

impl Comp {
    pub open spec fn view(&self) -> CompView {
        match self {
            Comp::Root => CompView::Root,
            Comp::Cur => CompView::Cur,
            Comp::Parent => CompView::Parent,
            Comp::Normal(n) => CompView::Normal(n@),
        }
    }
}

pub open spec fn comp_views(v: Seq<Comp>) -> Seq<CompView> {
    Seq::new(v.len(), |i: int| v[i].view())
}

proof fn lemma_take_last_pieces(s: Seq<char>, i: int)
    requires
        0 <= i < s.len(),
    ensures
        s.take(i + 1).drop_last() == s.take(i),
        s.take(i + 1).last() == s[i],
{
    assert(s.take(i + 1).drop_last() =~= s.take(i));
}

/// The pieces of `s` between `/` separators.
pub fn split_pieces(s: &Vec<char>) -> (r: Vec<Vec<char>>)
    ensures
        seqs_of(r@) == pieces(s@),
{
    let mut done: Vec<Vec<char>> = Vec::new();
    let mut cur: Vec<char> = Vec::new();
    for i in 0..s.len()
        invariant
            (seqs_of(done@), cur@) == pieces_state(s@.take(i as int)),
    {
        proof {
            lemma_take_last_pieces(s@, i as int);
        }
        let c = s[i];
        let ghost old_done = seqs_of(done@);
        if c == '/' {
            let ghost cv = cur@;
            done.push(cur);
            assert(seqs_of(done@) =~= old_done.push(cv));
            cur = Vec::new();
        } else {
            cur.push(c);
            assert(seqs_of(done@) =~= old_done);
        }
    }
    assert(s@.take(s.len() as int) == s@);
    let ghost old_done = seqs_of(done@);
    let ghost cv = cur@;
    done.push(cur);
    assert(seqs_of(done@) =~= old_done.push(cv));
    done
}

fn is_dot(p: &Vec<char>) -> (b: bool)
    ensures
        b == (p@ == dot()),
{
    let r = p.len() == 1 && p[0] == '.';
    if r {
        assert(p@ =~= dot());
    }
    r
}

fn is_dot_dot(p: &Vec<char>) -> (b: bool)
    ensures
        b == (p@ == dot_dot()),
{
    let r = p.len() == 2 && p[0] == '.' && p[1] == '.';
    if r {
        assert(p@ =~= dot_dot());
    }
    r
}

/// The components of a path (`Path::components`).
pub fn path_components(p: &Vec<char>) -> (r: Vec<Comp>)
    ensures
        comp_views(r@) == components(p@),
{
    let root = p.len() > 0 && p[0] == '/';
    let ps = split_pieces(p);
    let mut r: Vec<Comp> = Vec::new();
    if root {
        r.push(Comp::Root);
    }
    let ghost head: Seq<CompView> = if root {
        seq![CompView::Root]
    } else {
        seq![]
    };
    assert(comp_views(r@) =~= head + comps_of_pieces(seqs_of(ps@), 0, !root));
    for k in 0..ps.len()
        invariant
            comp_views(r@) == head + comps_of_pieces(seqs_of(ps@), k as int, !root),
            seqs_of(ps@) == pieces(p@),
    {
        let piece = &ps[k];
        let ghost before = comp_views(r@);
        assert(seqs_of(ps@)[k as int] == piece@);
        let ghost pc = piece_comp(piece@, !root && k == 0);
        assert(comps_of_pieces(seqs_of(ps@), k + 1, !root) == match pc {
            Some(c) => comps_of_pieces(seqs_of(ps@), k as int, !root).push(c),
            None => comps_of_pieces(seqs_of(ps@), k as int, !root),
        });
        if piece.len() == 0 {
            assert(pc is None);
        } else if is_dot(piece) {
            if !root && k == 0 {
                r.push(Comp::Cur);
                assert(comp_views(r@) =~= before.push(CompView::Cur));
            } else {
                assert(pc is None);
            }
        } else if is_dot_dot(piece) {
            r.push(Comp::Parent);
            assert(comp_views(r@) =~= before.push(CompView::Parent));
        } else {
            let n = piece.clone();
            assert(n@ == piece@);
            r.push(Comp::Normal(n));
            assert(comp_views(r@) =~= before.push(CompView::Normal(piece@)));
        }
        assert(comp_views(r@) =~= head + comps_of_pieces(seqs_of(ps@), k + 1, !root));
    }
    r
}

} // verus!

verus! {

/// `Path::join` on Unix: an absolute `part` replaces `base`; otherwise `part`
/// follows `base`, with one `/` between them unless `base` is empty or already
/// ends in one.
pub open spec fn join_spec(base: Seq<char>, part: Seq<char>) -> Seq<char> {
    if part.len() > 0 && part[0] == '/' {
        part
    } else if base.len() == 0 {
        part
    } else if base.last() == '/' {
        base + part
    } else {
        base + seq!['/'] + part
    }
}

/// The path `base` joined with `part`.
pub fn join_path(base: &str, part: &str) -> (r: String)
    ensures
        r@ == join_spec(base@, part@),
{
    let b = crate::text::chars_of(base);
    let p = crate::text::chars_of(part);
    if p.len() > 0 && p[0] == '/' {
        return crate::text::string_of(&p);
    }
    if b.len() == 0 {
        return crate::text::string_of(&p);
    }
    if b[b.len() - 1] == '/' {
        let v = crate::text::concat(&b, &p);
        return crate::text::string_of(&v);
    }
    let mut bs = b.clone();
    bs.push('/');
    assert(bs@ == b@ + seq!['/']);
    let v = crate::text::concat(&bs, &p);
    crate::text::string_of(&v)
}

} // verus!
