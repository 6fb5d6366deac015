use vstd::prelude::*;
use crate::paths::{
    Comp, CompView, comp_views, components, pieces, pieces_state, comps_of_pieces, piece_comp,
    dot, dot_dot, path_components,
};
use crate::text::{chars_of, push_char};
use crate::paths::join_spec;
use crate::flashing::archive::{ArchiveEntry, entries_view, tar_files, tar_listing};
use crate::flashing::decompressor::{Decompressor, gz_decoded};

verus! {

broadcast use vstd::string::group_string_axioms;

pub open spec fn data_name() -> Seq<char> {
    seq!['d', 'a', 't', 'a']
}

pub open spec fn devices_name() -> Seq<char> {
    seq!['d', 'e', 'v', 'i', 'c', 'e', 's']
}

/// What follows a leading `data/devices` in a component list, if it begins so.
pub open spec fn strip_data_devices(c: Seq<CompView>) -> Option<Seq<CompView>> {
    if c.len() >= 2 && c[0] == CompView::Normal(data_name()) && c[1] == CompView::Normal(
        devices_name(),
    ) {
        Some(c.skip(2))
    } else {
        None
    }
}

/// What lies under `data/devices`, either at the top of the archive or under
/// one top-level wrapper directory.
pub open spec fn device_rest(c: Seq<CompView>) -> Option<Seq<CompView>> {
    match strip_data_devices(c) {
        Some(r) => Some(r),
        None => if c.len() > 0 {
            strip_data_devices(c.drop_first())
        } else {
            None
        },
    }
}

/// A component that could lead outside the target directory.
pub open spec fn escapes(c: CompView) -> bool {
    c is Parent || c is Root
}

pub open spec fn comp_name(c: CompView) -> Seq<char> {
    match c {
        CompView::Normal(n) => n,
        _ => seq![],
    }
}

/// Path components joined by single `/` separators.
pub open spec fn join_names(ns: Seq<Seq<char>>) -> Seq<char>
    decreases ns.len(),
{
    if ns.len() == 0 {
        seq![]
    } else if ns.len() == 1 {
        ns[0]
    } else {
        join_names(ns.drop_last()) + seq!['/'] + ns.last()
    }
}

/// The path under `devices/` that a tarball entry maps to: `None` for an entry
/// outside `data/devices`, for the bare prefix, and for any entry whose
/// remainder holds a `..` or root component.
pub open spec fn device_subpath_spec(path: Seq<char>) -> Option<Seq<char>> {
    match device_rest(components(path)) {
        None => None,
        Some(r) => if r.len() == 0 || (exists|i: int| 0 <= i < r.len() && escapes(r[i])) {
            None
        } else {
            Some(join_names(Seq::new(r.len(), |i: int| comp_name(r[i]))))
        },
    }
}

proof fn lemma_skip_index(s: Seq<CompView>, start: int, i: int)
    requires
        0 <= start <= i < s.len(),
    ensures
        s.skip(start)[i - start] == s[i],
{
}

fn is_name(c: &Comp, lit: &str) -> (b: bool)
    ensures
        b == (c.view() == CompView::Normal(lit@)),
{
    match c {
        Comp::Normal(n) => {
            let l = chars_of(lit);
            let r = crate::text::chars_equal(n, &l);
            r
        },
        _ => false,
    }
}

/// Map a tarball entry path to its path under `devices/`, or `None` if it is not
/// inside `data/devices` (at the top or under one wrapper directory), is the
/// bare prefix, or would escape the target through `..` or a root component.
pub fn device_subpath(path: &str) -> (r: Option<String>)
    ensures
        r matches Some(s) ==> device_subpath_spec(path@) == Some(s@),
        r is None ==> device_subpath_spec(path@) is None,
{
    let chars = chars_of(path);
    let comps = path_components(&chars);
    let ghost cv = comp_views(comps@);
    proof {
        reveal_strlit("data");
        reveal_strlit("devices");
    }
    assert("data"@ == data_name());
    assert("devices"@ == devices_name());
    let start: usize = if comps.len() >= 2 && is_name(&comps[0], "data") && is_name(
        &comps[1],
        "devices",
    ) {
        assert(device_rest(cv) == Some(cv.skip(2)));
        2
    } else if comps.len() >= 3 && is_name(&comps[1], "data") && is_name(&comps[2], "devices") {
        assert(cv.drop_first().skip(2) =~= cv.skip(3));
        assert(device_rest(cv) == Some(cv.skip(3)));
        3
    } else {
        assert(device_rest(cv) is None);
        return None;
    };
    assert(device_rest(cv) == Some(cv.skip(start as int)));
    let ghost rest = cv.skip(start as int);
    assert(cv.len() == comps.len());
    if start == comps.len() {
        return None;
    }
    let mut out = String::new();
    let mut i = start;
    while i < comps.len()
        invariant
            start <= i <= comps.len(),
            start < comps.len(),
            rest == cv.skip(start as int),
            cv == comp_views(comps@),
            cv.len() == comps.len(),
            rest.len() == comps.len() - start,
            device_rest(components(path@)) == Some(rest),
            forall|j: int| 0 <= j < i - start ==> !escapes(rest[j]),
            out@ == join_names(Seq::new((i - start) as nat, |j: int| comp_name(rest[j]))),
        decreases comps.len() - i,
    {
        let ghost prev = Seq::new((i - start) as nat, |j: int| comp_name(rest[j]));
        let ghost next = Seq::new((i + 1 - start) as nat, |j: int| comp_name(rest[j]));
        assert(cv[i as int] == comps@[i as int].view());
        assert(start as int <= cv.len());
        assert(i < cv.len());
        assert(0 <= i - start < cv.len() - start);
        proof {
            lemma_skip_index(cv, start as int, i as int);
        }
        assert(rest[i - start] == cv[i as int]);
        assert(next.drop_last() =~= prev);
        match &comps[i] {
            Comp::Normal(n) => {
                if i > start {
                    push_char(&mut out, '/');
                }
                let mut k: usize = 0;
                let ghost base = out@;
                while k < n.len()
                    invariant
                        k <= n.len(),
                        out@ == base + n@.take(k as int),
                    decreases n.len() - k,
                {
                    push_char(&mut out, n[k]);
                    assert(n@.take(k as int).push(n@[k as int]) =~= n@.take(k + 1));
                    k = k + 1;
                }
                assert(n@.take(n.len() as int) =~= n@);
                if i == start {
                    assert(next.len() == 1);
                } else {
                    assert(next.len() > 1);
                }
            },
            Comp::Cur => {
                assert(!escapes(rest[i - start]));
                assert(next.len() >= 1);
                if i > start {
                    push_char(&mut out, '/');
                }
                assert(comp_name(rest[i - start]) =~= seq![]);
            },
            _ => {
                assert(escapes(rest[i - start]));
                assert(0 <= i - start < rest.len());
                return None;
            },
        }
        assert(out@ =~= join_names(next));
        i = i + 1;
    }
    assert(rest.len() == comps.len() - start);
    Some(out)
}

} // verus!

verus! {

/// A name that a path component can carry: non-empty, without `/`, and neither
/// `.` nor `..`.
pub open spec fn plain_name(n: Seq<char>) -> bool {
    &&& n.len() > 0
    &&& !n.contains('/')
    &&& n != dot()
    &&& n != dot_dot()
}

proof fn lemma_pieces_state_append(a: Seq<char>, t: Seq<char>)
    requires
        !t.contains('/'),
    ensures
        pieces_state(a + t) == (pieces_state(a).0, pieces_state(a).1 + t),
    decreases t.len(),
{
    if t.len() == 0 {
        assert(a + t =~= a);
        assert(pieces_state(a).1 + t =~= pieces_state(a).1);
    } else {
        let t0 = t.drop_last();
        assert(!t0.contains('/')) by {
            if t0.contains('/') {
                let k = choose|k: int| 0 <= k < t0.len() && t0[k] == '/';
                assert(t[k] == '/');
            }
        }
        lemma_pieces_state_append(a, t0);
        assert((a + t).drop_last() =~= a + t0);
        assert((a + t).last() == t.last());
        assert(t.last() != '/') by {
            assert(t[t.len() - 1] == t.last());
        }
        assert(pieces_state(a).1 + t0.push(t.last()) =~= pieces_state(a).1 + t);
        assert(t0.push(t.last()) =~= t);
    }
}

proof fn lemma_pieces_of_join(ns: Seq<Seq<char>>)
    requires
        ns.len() >= 1,
        forall|i: int| 0 <= i < ns.len() ==> !(#[trigger] ns[i]).contains('/'),
    ensures
        pieces(join_names(ns)) == ns,
    decreases ns.len(),
{
    if ns.len() == 1 {
        lemma_pieces_state_append(seq![], ns[0]);
        assert(seq![] + ns[0] =~= ns[0]);
        assert(pieces_state(Seq::<char>::empty()) == (Seq::<Seq<char>>::empty(), Seq::<char>::empty()));
        assert(Seq::<char>::empty() + ns[0] =~= ns[0]);
        assert(seq![ns[0]] =~= ns);
    } else {
        let init = ns.drop_last();
        assert forall|i: int| 0 <= i < init.len() implies !(#[trigger] init[i]).contains('/') by {
            assert(init[i] == ns[i]);
        }
        lemma_pieces_of_join(init);
        let j = join_names(init);
        let js = j + seq!['/'];
        assert(js.drop_last() =~= j);
        assert(pieces_state(js) == (pieces_state(j).0.push(pieces_state(j).1), Seq::<char>::empty()));
        assert(pieces_state(j).0.push(pieces_state(j).1) == init);
        assert(!ns[ns.len() - 1].contains('/'));
        lemma_pieces_state_append(js, ns.last());
        assert(Seq::<char>::empty() + ns.last() =~= ns.last());
        assert(init.push(ns.last()) =~= ns);
    }
}

proof fn lemma_comps_of_plain_pieces(ps: Seq<Seq<char>>, n: int, rel: bool)
    requires
        0 <= n <= ps.len(),
        forall|i: int| 0 <= i < ps.len() ==> plain_name(#[trigger] ps[i]),
    ensures
        comps_of_pieces(ps, n, rel) == Seq::new(n as nat, |i: int| CompView::Normal(ps[i])),
    decreases n,
{
    if n == 0 {
        assert(comps_of_pieces(ps, n, rel) =~= Seq::new(n as nat, |i: int| CompView::Normal(ps[i])));
    } else {
        lemma_comps_of_plain_pieces(ps, n - 1, rel);
        assert(plain_name(ps[n - 1]));
        assert(piece_comp(ps[n - 1], rel && n - 1 == 0) == Some(CompView::Normal(ps[n - 1])));
        assert(comps_of_pieces(ps, n, rel) =~= Seq::new(n as nat, |i: int| CompView::Normal(ps[i])));
    }
}

proof fn lemma_join_starts_with_first(ns: Seq<Seq<char>>)
    requires
        ns.len() >= 1,
    ensures
        join_names(ns).len() >= ns[0].len(),
        forall|k: int| 0 <= k < ns[0].len() ==> join_names(ns)[k] == ns[0][k],
    decreases ns.len(),
{
    if ns.len() > 1 {
        let init = ns.drop_last();
        lemma_join_starts_with_first(init);
        assert(init[0] == ns[0]);
    }
}

/// Joining plain names and reading the result back as a path gives one
/// `Normal` component per name, in order.
pub proof fn lemma_components_of_joined_names(ns: Seq<Seq<char>>)
    requires
        ns.len() >= 1,
        forall|i: int| 0 <= i < ns.len() ==> plain_name(#[trigger] ns[i]),
    ensures
        components(join_names(ns)) == Seq::new(ns.len(), |i: int| CompView::Normal(ns[i])),
{
    assert forall|i: int| 0 <= i < ns.len() implies !(#[trigger] ns[i]).contains('/') by {
        assert(plain_name(ns[i]));
    }
    lemma_pieces_of_join(ns);
    lemma_join_starts_with_first(ns);
    let p = join_names(ns);
    assert(plain_name(ns[0]));
    assert(p[0] == ns[0][0]);
    assert(ns[0][0] != '/') by {
        assert(!ns[0].contains('/'));
    }
    lemma_comps_of_plain_pieces(ns, ns.len() as int, true);
}

proof fn lemma_comps_of_pieces_shape(ps: Seq<Seq<char>>, n: int, rel: bool)
    requires
        0 <= n <= ps.len(),
        forall|i: int| 0 <= i < ps.len() ==> !(#[trigger] ps[i]).contains('/'),
    ensures
        forall|i: int|
            0 <= i < comps_of_pieces(ps, n, rel).len() ==> match #[trigger] comps_of_pieces(
                ps,
                n,
                rel,
            )[i] {
                CompView::Normal(m) => plain_name(m),
                CompView::Cur => i == 0 && rel,
                CompView::Root => false,
                CompView::Parent => true,
            },
    decreases n,
{
    if n > 0 {
        lemma_comps_of_pieces_shape(ps, n - 1, rel);
        let before = comps_of_pieces(ps, n - 1, rel);
        let pc = piece_comp(ps[n - 1], rel && n - 1 == 0);
        assert(!ps[n - 1].contains('/'));
        if rel && n - 1 == 0 {
            assert(before.len() == 0);
        }
    }
}

proof fn lemma_pieces_state_no_slash(s: Seq<char>)
    ensures
        !pieces_state(s).1.contains('/'),
        forall|i: int|
            0 <= i < pieces_state(s).0.len() ==> !(#[trigger] pieces_state(s).0[i]).contains('/'),
    decreases s.len(),
{
    if s.len() > 0 {
        lemma_pieces_state_no_slash(s.drop_last());
        let (done, cur) = pieces_state(s.drop_last());
        if s.last() != '/' {
            assert(!cur.push(s.last()).contains('/')) by {
                if cur.push(s.last()).contains('/') {
                    let k = choose|k: int| 0 <= k < cur.push(s.last()).len() && cur.push(s.last())[k] == '/';
                    if k < cur.len() {
                        assert(cur[k] == '/');
                    }
                }
            }
        } else {
            assert forall|i: int| 0 <= i < done.push(cur).len() implies !(#[trigger] done.push(cur)[i]).contains('/') by {
                if i < done.len() {
                    assert(done.push(cur)[i] == done[i]);
                }
            }
        }
    }
}

/// Every component of a path is one of: a plain `Normal` name, the `.` that
/// begins a relative path (at index 0 only), a root at index 0 only, or `..`.
pub proof fn lemma_components_shape(p: Seq<char>)
    ensures
        forall|i: int|
            0 <= i < components(p).len() ==> match #[trigger] components(p)[i] {
                CompView::Normal(m) => plain_name(m),
                CompView::Cur => i == 0,
                CompView::Root => i == 0,
                CompView::Parent => true,
            },
{
    lemma_pieces_state_no_slash(p);
    let ps = pieces(p);
    assert forall|i: int| 0 <= i < ps.len() implies !(#[trigger] ps[i]).contains('/') by {
        if i < pieces_state(p).0.len() {
            assert(ps[i] == pieces_state(p).0[i]);
        }
    }
    let root = p.len() > 0 && p[0] == '/';
    lemma_comps_of_pieces_shape(ps, ps.len() as int, !root);
    let rest = comps_of_pieces(ps, ps.len() as int, !root);
    if root {
        assert forall|i: int| 0 <= i < components(p).len() implies match #[trigger] components(p)[i] {
                CompView::Normal(m) => plain_name(m),
                CompView::Cur => i == 0,
                CompView::Root => i == 0,
                CompView::Parent => true,
            } by {
            if i > 0 {
                assert(components(p)[i] == rest[i - 1]);
                match rest[i - 1] {
                    CompView::Cur => {
                        assert(false);
                    },
                    _ => {},
                }
            }
        }
    }
}

/// A tarball entry never lands outside the target directory: whatever
/// `device_subpath_spec` maps an entry to reads back as one or more plain
/// `Normal` components, with no `..`, root or `.` among them, and the entry
/// is `data/devices` joined with it, at the top of the archive or under one
/// leading component.
pub proof fn lemma_device_subpath_confined(path: Seq<char>)
    ensures
        device_subpath_spec(path) matches Some(out) ==> {
            &&& components(out).len() > 0
            &&& forall|i: int|
                0 <= i < components(out).len() ==> (#[trigger] components(out)[i] matches CompView::Normal(
                    m,
                ) && plain_name(m))
            &&& components(path) == data_devices() + components(out) || (components(path).len() > 0
                && components(path).drop_first() == data_devices() + components(out))
        },
{
    let c = components(path);
    lemma_components_shape(path);
    match device_rest(c) {
        None => {},
        Some(r) => {
            if r.len() > 0 && !(exists|i: int| 0 <= i < r.len() && escapes(r[i])) {
                let off: int = if strip_data_devices(c) is Some {
                    2
                } else {
                    3
                };
                assert(r =~= c.skip(off)) by {
                    if strip_data_devices(c) is None {
                        assert(c.drop_first().skip(2) =~= c.skip(3));
                    }
                }
                let ns = Seq::new(r.len(), |i: int| comp_name(r[i]));
                assert forall|i: int| 0 <= i < ns.len() implies plain_name(#[trigger] ns[i]) by {
                    assert(r[i] == c[i + off]);
                    assert(!escapes(r[i]));
                    match c[i + off] {
                        CompView::Normal(m) => {},
                        CompView::Cur => {
                            assert(0 <= i + off < components(path).len());
                            assert(match components(path)[i + off] {
                                CompView::Normal(m) => plain_name(m),
                                CompView::Cur => i + off == 0,
                                CompView::Root => i + off == 0,
                                CompView::Parent => true,
                            });
                        },
                        _ => {
                            assert(escapes(r[i]));
                        },
                    }
                }
                lemma_components_of_joined_names(ns);
                assert(r =~= Seq::new(ns.len(), |i: int| CompView::Normal(ns[i]))) by {
                    assert forall|i: int| 0 <= i < r.len() implies r[i] == CompView::Normal(ns[i]) by {
                        assert(r[i] == c[i + off]);
                        assert(!escapes(r[i]));
                        assert(0 <= i + off < components(path).len());
                        assert(match components(path)[i + off] {
                            CompView::Normal(m) => plain_name(m),
                            CompView::Cur => i + off == 0,
                            CompView::Root => i + off == 0,
                            CompView::Parent => true,
                        });
                    }
                }
                if strip_data_devices(c) is Some {
                    assert(c =~= data_devices() + r);
                } else {
                    assert(c.drop_first() =~= data_devices() + r);
                }
            }
        },
    }
}

/// The components `data`, `devices`.
pub open spec fn data_devices() -> Seq<CompView> {
    seq![CompView::Normal(data_name()), CompView::Normal(devices_name())]
}

proof fn lemma_join_names_append(a: Seq<Seq<char>>, b: Seq<Seq<char>>)
    requires
        a.len() >= 1,
        b.len() >= 1,
    ensures
        join_names(a + b) == join_names(a) + seq!['/'] + join_names(b),
    decreases b.len(),
{
    assert((a + b).drop_last() =~= a + b.drop_last());
    assert((a + b).last() == b.last());
    if b.len() == 1 {
        assert(a + b.drop_last() =~= a);
    } else {
        lemma_join_names_append(a, b.drop_last());
        assert(join_names(a) + seq!['/'] + join_names(b.drop_last()) + seq!['/'] + b.last() =~= join_names(a)
            + seq!['/'] + (join_names(b.drop_last()) + seq!['/'] + b.last()));
    }
}

/// `data/devices` joined with plain names reads back as `data`, `devices`,
/// then those names.
proof fn lemma_join_data_devices(ns: Seq<Seq<char>>)
    requires
        ns.len() >= 1,
        forall|i: int| 0 <= i < ns.len() ==> plain_name(#[trigger] ns[i]),
    ensures
        components(join_spec("data/devices"@, join_names(ns))) == data_devices() + components(join_names(ns)),
{
    reveal_strlit("data/devices");
    let dd = seq![data_name(), devices_name()];
    assert(join_names(dd) =~= "data/devices"@) by {
        assert(dd.drop_last() =~= seq![data_name()]);
        assert(join_names(seq![data_name()]) == data_name());
        assert(join_names(dd) == data_name() + seq!['/'] + devices_name());
    }
    lemma_join_names_append(dd, ns);
    lemma_join_starts_with_first(ns);
    assert(plain_name(ns[0]));
    assert(join_names(ns)[0] == ns[0][0]);
    assert(ns[0][0] != '/') by {
        assert(!ns[0].contains('/'));
    }
    assert(join_spec("data/devices"@, join_names(ns)) == join_names(dd + ns));
    assert forall|i: int| 0 <= i < (dd + ns).len() implies plain_name(#[trigger] (dd + ns)[i]) by {
        if i >= 2 {
            assert((dd + ns)[i] == ns[i - 2]);
        } else {
            assert(!data_name().contains('/')) by {
                if data_name().contains('/') {
                    let k = choose|k: int| 0 <= k < data_name().len() && data_name()[k] == '/';
                }
            }
            assert(!devices_name().contains('/')) by {
                if devices_name().contains('/') {
                    let k = choose|k: int| 0 <= k < devices_name().len() && devices_name()[k] == '/';
                }
            }
            assert(data_name() != dot() && data_name() != dot_dot()) by {
                reveal_strlit(".");
                reveal_strlit("..");
                assert(data_name().len() != dot().len() || data_name()[0] != dot()[0]);
                assert(data_name().len() != dot_dot().len());
            }
            assert(devices_name() != dot() && devices_name() != dot_dot()) by {
                assert(devices_name().len() != dot().len() || devices_name()[0] != dot()[0]);
                assert(devices_name().len() != dot_dot().len());
            }
        }
    }
    lemma_components_of_joined_names(dd + ns);
    lemma_components_of_joined_names(ns);
    assert(Seq::new((dd + ns).len(), |i: int| CompView::Normal((dd + ns)[i])) =~= data_devices() + Seq::new(
        ns.len(),
        |i: int| CompView::Normal(ns[i]),
    ));
}

/// The entry path, read as a path, is `data/devices` joined with what it
/// maps to, at the top of the archive or under one leading component; and
/// what it maps to is made of plain names.
pub proof fn lemma_device_subpath_joins_back(path: Seq<char>)
    ensures
        device_subpath_spec(path) matches Some(out) ==> {
            &&& out.len() > 0
            &&& forall|i: int|
                0 <= i < components(out).len() ==> (#[trigger] components(out)[i] matches CompView::Normal(
                    m,
                ) && plain_name(m))
            &&& components(path) == components(join_spec("data/devices"@, out)) || (components(path).len() > 0
                && components(path).drop_first() == components(join_spec("data/devices"@, out)))
        },
{
    lemma_device_subpath_confined(path);
    if let Some(out) = device_subpath_spec(path) {
        let co = components(out);
        let ns = Seq::new(co.len(), |i: int| comp_name(co[i]));
        assert forall|i: int| 0 <= i < ns.len() implies plain_name(#[trigger] ns[i]) by {
            assert(co[i] matches CompView::Normal(m) && plain_name(m));
        }
        let r = device_rest(components(path))->0;
        assert(out == join_names(Seq::new(r.len(), |i: int| comp_name(r[i]))));
        lemma_device_subpath_rest_names(path);
        assert(ns =~= Seq::new(r.len(), |i: int| comp_name(r[i])));
        lemma_join_data_devices(ns);
        lemma_components_of_joined_names(ns);
        assert(out.len() > 0) by {
            lemma_join_starts_with_first(ns);
        }
    }
}

/// What an entry maps to has, one for one, the names of the components
/// after `data/devices`.
proof fn lemma_device_subpath_rest_names(path: Seq<char>)
    requires
        device_subpath_spec(path) is Some,
    ensures
        ({
            let r = device_rest(components(path))->0;
            let out = device_subpath_spec(path)->0;
            &&& components(out).len() == r.len()
            &&& forall|i: int| 0 <= i < r.len() ==> comp_name(#[trigger] components(out)[i]) == comp_name(r[i])
        }),
{
    lemma_device_subpath_confined(path);
    let c = components(path);
    let r = device_rest(c)->0;
    let out = device_subpath_spec(path)->0;
    let ns = Seq::new(r.len(), |i: int| comp_name(r[i]));
    lemma_components_shape(path);
    let off: int = if strip_data_devices(c) is Some {
        2
    } else {
        3
    };
    assert(r =~= c.skip(off)) by {
        if strip_data_devices(c) is None {
            assert(c.drop_first().skip(2) =~= c.skip(3));
        }
    }
    assert forall|i: int| 0 <= i < ns.len() implies plain_name(#[trigger] ns[i]) by {
        assert(r[i] == c[i + off]);
        assert(!escapes(r[i]));
        assert(0 <= i + off < components(path).len());
        assert(match components(path)[i + off] {
            CompView::Normal(m) => plain_name(m),
            CompView::Cur => i + off == 0,
            CompView::Root => i + off == 0,
            CompView::Parent => true,
        });
    }
    lemma_components_of_joined_names(ns);
}

/// A path written as `data/devices` joined with plain names maps to exactly
/// those names joined.
pub proof fn lemma_device_subpath_of_joined(path: Seq<char>, names: Seq<Seq<char>>)
    requires
        names.len() >= 1,
        forall|i: int| 0 <= i < names.len() ==> plain_name(#[trigger] names[i]),
        components(path) == components(join_spec("data/devices"@, join_names(names))),
    ensures
        device_subpath_spec(path) == Some(join_names(names)),
{
    lemma_join_data_devices(names);
    lemma_components_of_joined_names(names);
    let cs = Seq::new(names.len(), |i: int| CompView::Normal(names[i]));
    assert forall|i: int| 0 <= i < cs.len() implies (#[trigger] cs[i] matches CompView::Normal(m) && plain_name(m)) by {
        assert(plain_name(names[i]));
    }
    lemma_device_subpath_keeps_plain_entries(path, cs);
    let c = components(path);
    assert(c.skip(2) =~= cs);
    assert(strip_data_devices(c) == Some(cs));
    assert(!(exists|i: int| 0 <= i < cs.len() && escapes(cs[i])));
    assert(Seq::new(cs.len(), |i: int| comp_name(cs[i])) =~= names);
}

/// Every entry under `data/devices` made of plain names is kept: an entry
/// whose components are `data`, `devices` and then one or more plain
/// `Normal` names maps to a path with exactly those names.
pub proof fn lemma_device_subpath_keeps_plain_entries(path: Seq<char>, names: Seq<CompView>)
    requires
        names.len() > 0,
        forall|i: int| 0 <= i < names.len() ==> (#[trigger] names[i] matches CompView::Normal(m) && plain_name(m)),
        components(path) == data_devices() + names,
    ensures
        device_subpath_spec(path) matches Some(out) && components(out) == names,
{
    let c = components(path);
    assert(strip_data_devices(c) == Some(names)) by {
        assert(c[0] == CompView::Normal(data_name()));
        assert(c[1] == CompView::Normal(devices_name()));
        assert(c.skip(2) =~= names);
    }
    assert(!(exists|i: int| 0 <= i < names.len() && escapes(names[i]))) by {
        if exists|i: int| 0 <= i < names.len() && escapes(names[i]) {
            let i = choose|i: int| 0 <= i < names.len() && escapes(names[i]);
            assert(names[i] matches CompView::Normal(m) && plain_name(m));
        }
    }
    let ns = Seq::new(names.len(), |i: int| comp_name(names[i]));
    assert forall|i: int| 0 <= i < ns.len() implies plain_name(#[trigger] ns[i]) by {
        assert(names[i] matches CompView::Normal(m) && plain_name(m));
    }
    lemma_components_of_joined_names(ns);
    assert(Seq::new(ns.len(), |i: int| CompView::Normal(ns[i])) =~= names) by {
        assert forall|i: int| 0 <= i < names.len() implies names[i] == CompView::Normal(ns[i]) by {
            assert(names[i] matches CompView::Normal(m) && plain_name(m));
        }
    }
}

} // verus!

verus! {

/// The release version whose signed device bundle this build fetches.
pub const PKG_VERSION: &'static str = "0.3.0";

/// Minisign public key (base64) that signs the device bundle. While it is
/// empty, a bundle is accepted without a signature check.
pub const DEVICE_DB_PUBLIC_KEY: &'static str = "";

/// Base URL of the signed release assets of this build.
pub fn assets_base() -> (r: String)
    ensures
        r@ == "https://github.com/tobagin/Sidestep/releases/download/v"@ + PKG_VERSION@,
{
    let mut r = String::from_str("https://github.com/tobagin/Sidestep/releases/download/v");
    r.append(PKG_VERSION);
    r
}

/// URL of the device bundle.
pub fn tarball_url() -> (r: String)
    ensures
        r@ == "https://github.com/tobagin/Sidestep/releases/download/v"@ + PKG_VERSION@
            + "/devices.tar.gz"@,
{
    let mut r = assets_base();
    r.append("/devices.tar.gz");
    r
}

/// URL of the bundle's minisign signature.
pub fn signature_url() -> (r: String)
    ensures
        r@ == "https://github.com/tobagin/Sidestep/releases/download/v"@ + PKG_VERSION@
            + "/devices.tar.gz.minisig"@,
{
    let mut r = assets_base();
    r.append("/devices.tar.gz.minisig");
    r
}

/// Whether an automatic sync is overdue: never synced, or at least
/// `max(interval_hours, 1)` hours since the last sync (seconds since the epoch;
/// a clock behind the last sync counts as no time passed).
pub open spec fn is_due_spec(last_sync: Option<u64>, now: u64, interval_hours: i32) -> bool {
    match last_sync {
        None => true,
        Some(last) => {
            let elapsed: int = if now >= last {
                now - last
            } else {
                0
            };
            let hours: int = if interval_hours >= 1 {
                interval_hours as int
            } else {
                1
            };
            elapsed >= hours * 3600
        },
    }
}

/// True if a sync is overdue given the last sync time, the current time (both
/// Unix seconds) and the interval in hours.
pub fn is_due(last_sync: Option<u64>, now: u64, interval_hours: i32) -> (r: bool)
    ensures
        r == is_due_spec(last_sync, now, interval_hours),
{
    match last_sync {
        None => true,
        Some(last) => {
            let elapsed = now.saturating_sub(last);
            let hours: u64 = if interval_hours >= 1 {
                interval_hours as u64
            } else {
                1
            };
            elapsed >= hours * 3600
        },
    }
}

/// Why a device bundle was refused.
#[derive(Debug, Clone, Copy, PartialEq, Eq)]
pub enum SyncError {
    /// A key is configured but the bundle came without a signature.
    MissingSignature,
    /// The configured public key does not decode.
    InvalidPublicKey,
    /// The signature text does not decode.
    MalformedSignature,
    /// The signature does not verify against the bundle.
    VerificationFailed,
    /// The bundle is not a readable gzipped tarball.
    UnreadableBundle,
}

/// A decoded minisign public key, carried opaque.
#[verifier::external_type_specification]
#[verifier::external_body]
pub struct ExMinisignPublicKey(minisign_verify::PublicKey);

/// A decoded minisign signature, carried opaque.
#[verifier::external_type_specification]
#[verifier::external_body]
pub struct ExMinisignSignature(minisign_verify::Signature);

/// The error of a minisign decode or check, carried opaque.
#[verifier::external_type_specification]
#[verifier::external_body]
pub struct ExMinisignError(minisign_verify::Error);

/// Whether `minisign_verify::PublicKey::from_base64` accepts a key text.
pub uninterp spec fn minisign_key_decodes(b64: Seq<char>) -> bool;

/// Whether `minisign_verify::Signature::decode` accepts a signature text.
pub uninterp spec fn minisign_signature_decodes(text: Seq<char>) -> bool;

/// `minisign_verify::PublicKey::from_base64`: decodes a base64 public key. Its
/// success depends on the text alone (a 42-byte base64 payload with a known
/// algorithm tag); which key comes out is not stated.
#[verifier::external_body]
fn minisign_public_key(b64: &str) -> (r: Result<minisign_verify::PublicKey, minisign_verify::Error>)
    ensures
        r is Ok == minisign_key_decodes(b64@),
{
    minisign_verify::PublicKey::from_base64(b64)
}

/// `minisign_verify::Signature::decode`: parses the text of a `.minisig` file.
/// Its success depends on the text alone; what it holds is not stated.
#[verifier::external_body]
fn minisign_signature(text: &str) -> (r: Result<minisign_verify::Signature, minisign_verify::Error>)
    ensures
        r is Ok == minisign_signature_decodes(text@),
{
    minisign_verify::Signature::decode(text)
}

/// Whether a signature text verifies `bytes` under a base64 public key text,
/// as `minisign_verify` decides it (no legacy signatures).
pub uninterp spec fn minisign_verifies(key_b64: Seq<char>, bytes: Seq<u8>, sig_text: Seq<char>) -> bool;

/// `minisign_verify::PublicKey::verify` (no legacy signatures), on the key and
/// the signature decoded from their texts by `PublicKey::from_base64` and
/// `Signature::decode`. The outcome depends on the two texts and the bytes
/// alone and is named; a text that does not decode gives `false`.
#[verifier::external_body]
fn minisign_check(key_b64: &str, bytes: &[u8], sig_text: &str) -> (r: bool)
    ensures
        r == minisign_verifies(key_b64@, bytes@, sig_text@),
        !minisign_key_decodes(key_b64@) ==> !r,
        !minisign_signature_decodes(sig_text@) ==> !r,
{
    let key = match minisign_verify::PublicKey::from_base64(key_b64) {
        Ok(key) => key,
        Err(_) => return false,
    };
    match minisign_verify::Signature::decode(sig_text) {
        Ok(sig) => key.verify(bytes, &sig, false).is_ok(),
        Err(_) => false,
    }
}

/// Check a downloaded bundle against a public key. With no key configured (an
/// empty or blank key) the bundle is accepted; otherwise the signature must be
/// present and decode, the key must decode, and the signature must verify.
pub fn verify_signature_with_key(public_key: &str, bytes: &[u8], signature: Option<&str>) -> (r:
    Result<(), SyncError>)
    ensures
        crate::text::trim_spec(public_key@).len() == 0 ==> r is Ok,
        crate::text::trim_spec(public_key@).len() != 0 ==> {
            match signature {
                None => r == Err::<(), SyncError>(SyncError::MissingSignature),
                Some(sig) => if !minisign_key_decodes(crate::text::trim_spec(public_key@)) {
                    r == Err::<(), SyncError>(SyncError::InvalidPublicKey)
                } else if !minisign_signature_decodes(sig@) {
                    r == Err::<(), SyncError>(SyncError::MalformedSignature)
                } else if minisign_verifies(crate::text::trim_spec(public_key@), bytes@, sig@) {
                    r is Ok
                } else {
                    r == Err::<(), SyncError>(SyncError::VerificationFailed)
                },
            }
        },
{
    let key_chars = chars_of(public_key);
    let key = crate::text::trim(&key_chars);
    if key.len() == 0 {
        return Ok(());
    }
    let sig_text = match signature {
        None => {
            return Err(SyncError::MissingSignature);
        },
        Some(s) => s,
    };
    let key_str = crate::text::string_of(&key);
    if minisign_public_key(key_str.as_str()).is_err() {
        return Err(SyncError::InvalidPublicKey);
    }
    if minisign_signature(sig_text).is_err() {
        return Err(SyncError::MalformedSignature);
    }
    if minisign_check(key_str.as_str(), bytes, sig_text) {
        Ok(())
    } else {
        Err(SyncError::VerificationFailed)
    }
}

/// Check a downloaded device bundle against the embedded public key. While
/// that key is empty (as it is in this build), every bundle is accepted.
pub fn verify_signature(bytes: &[u8], signature: Option<&str>) -> (r: Result<(), SyncError>)
    ensures
        crate::text::trim_spec(DEVICE_DB_PUBLIC_KEY@).len() == 0 ==> r is Ok,
        crate::text::trim_spec(DEVICE_DB_PUBLIC_KEY@).len() != 0 ==> {
            match signature {
                None => r == Err::<(), SyncError>(SyncError::MissingSignature),
                Some(sig) => if !minisign_key_decodes(crate::text::trim_spec(DEVICE_DB_PUBLIC_KEY@)) {
                    r == Err::<(), SyncError>(SyncError::InvalidPublicKey)
                } else if !minisign_signature_decodes(sig@) {
                    r == Err::<(), SyncError>(SyncError::MalformedSignature)
                } else if minisign_verifies(crate::text::trim_spec(DEVICE_DB_PUBLIC_KEY@), bytes@, sig@) {
                    r is Ok
                } else {
                    r == Err::<(), SyncError>(SyncError::VerificationFailed)
                },
            }
        },
{
    verify_signature_with_key(DEVICE_DB_PUBLIC_KEY, bytes, signature)
}

/// The device files of a list of tarball entries, in order: each entry whose
/// path `device_subpath_spec` maps, under that mapped path.
pub open spec fn device_entries(es: Seq<(Seq<char>, bool, Seq<u8>)>) -> Seq<(Seq<char>, bool, Seq<u8>)>
    decreases es.len(),
{
    if es.len() == 0 {
        seq![]
    } else {
        let e = es.last();
        match device_subpath_spec(e.0) {
            Some(sub) => device_entries(es.drop_last()).push((sub, e.1, e.2)),
            None => device_entries(es.drop_last()),
        }
    }
}

/// How many of the entries are not directories.
pub open spec fn file_count(es: Seq<(Seq<char>, bool, Seq<u8>)>) -> nat
    decreases es.len(),
{
    if es.len() == 0 {
        0
    } else {
        file_count(es.drop_last()) + if es.last().1 {
            0nat
        } else {
            1nat
        }
    }
}

/// `v` and `count` are what a bundle holds: the bundle gunzips to a tarball
/// whose whole listing `es` maps to the device files `v`, of which `count`
/// are files.
pub open spec fn bundle_holds(bundle: Seq<u8>, v: Seq<(Seq<char>, bool, Seq<u8>)>, count: nat) -> bool {
    &&& gz_decoded(bundle) matches Some(t) && exists|es: Seq<(Seq<char>, bool, Seq<u8>)>|
        es.len() <= t.len() && tar_listing(t, es) && v == #[trigger] device_entries(es)
    &&& count == file_count(v)
}

/// A bundle that does not gunzip, or whose tarball has no complete listing.
pub open spec fn bundle_unreadable(bundle: Seq<u8>) -> bool {
    gz_decoded(bundle) matches Some(t) ==> forall|es: Seq<(Seq<char>, bool, Seq<u8>)>|
        es.len() <= t.len() ==> !#[trigger] tar_listing(t, es)
}

/// The device files of a bundle (a gzipped tarball): its entries under
/// `data/devices` (at the top or under one wrapper directory) with paths
/// that stay inside the devices directory, by their paths there, in order,
/// and how many of them are files.
pub fn device_files(bundle: &[u8]) -> (r: Result<(Vec<ArchiveEntry>, usize), SyncError>)
    ensures
        match r {
            Ok((v, count)) => bundle_holds(bundle@, entries_view(v@), count as nat),
            Err(e) => e == SyncError::UnreadableBundle && bundle_unreadable(bundle@),
        },
{
    let tarball = match Decompressor::decompress_gz_bytes(bundle) {
        Ok(t) => t,
        Err(_) => {
            return Err(SyncError::UnreadableBundle);
        },
    };
    let all = match tar_files(tarball.as_slice()) {
        Ok(all) => all,
        Err(_) => {
            return Err(SyncError::UnreadableBundle);
        },
    };
    let ghost es = entries_view(all@);
    let mut v: Vec<ArchiveEntry> = Vec::new();
    let mut count: usize = 0;
    for i in 0..all.len()
        invariant
            es == entries_view(all@),
            entries_view(v@) == device_entries(es.take(i as int)),
            count == file_count(entries_view(v@)),
            count <= v.len(),
            v.len() <= i,
    {
        assert(es.take(i + 1).drop_last() =~= es.take(i as int));
        assert(es.take(i + 1).last() == all@[i as int]@);
        let e = &all[i];
        match device_subpath(e.path.as_str()) {
            Some(sub) => {
                let ghost v0 = entries_view(v@);
                let data = e.data.clone();
                assert(data@ =~= e.data@);
                v.push(ArchiveEntry { path: sub, is_dir: e.is_dir, data });
                assert(entries_view(v@) =~= v0.push(v@[v.len() - 1]@));
                assert(entries_view(v@).drop_last() =~= v0);
                if !e.is_dir {
                    count = count + 1;
                }
            },
            None => {},
        }
    }
    assert(es.take(all.len() as int) =~= es);
    assert(gz_decoded(bundle@) == Some(tarball@));
    assert(es.len() <= tarball@.len() && tar_listing(tarball@, es) && entries_view(v@) == device_entries(es));
    Ok((v, count))
}

/// Check a downloaded bundle's signature against the embedded key, then take
/// out its device files: the files come only from a bundle that
/// `verify_signature` accepts.
pub fn accept_bundle(bytes: &[u8], signature: Option<&str>) -> (r: Result<(Vec<ArchiveEntry>, usize), SyncError>)
    ensures
        match r {
            Ok((v, count)) => {
                &&& (crate::text::trim_spec(DEVICE_DB_PUBLIC_KEY@).len() == 0 || (signature matches Some(sig)
                    && minisign_verifies(crate::text::trim_spec(DEVICE_DB_PUBLIC_KEY@), bytes@, sig@)))
                &&& bundle_holds(bytes@, entries_view(v@), count as nat)
            },
            Err(SyncError::UnreadableBundle) => bundle_unreadable(bytes@),
            Err(_) => crate::text::trim_spec(DEVICE_DB_PUBLIC_KEY@).len() != 0,
        },
{
    match verify_signature(bytes, signature) {
        Ok(()) => {},
        Err(e) => {
            return Err(e);
        },
    }
    device_files(bytes)
}

} // verus!

verus! {

/// The user-writable data directory: `sidestep` under the user's data
/// directory (`/tmp` when there is none); synced device data lands under
/// its `devices/`.
pub fn user_data_dir(data_dir: Option<&str>) -> (r: String)
    ensures
        r@ == crate::paths::join_spec(
            match data_dir {
                Some(d) => d@,
                None => "/tmp"@,
            },
            "sidestep"@,
        ),
{
    match data_dir {
        Some(d) => crate::paths::join_path(d, "sidestep"),
        None => crate::paths::join_path("/tmp", "sidestep"),
    }
}

/// The time of the last successful sync, from the text of the `last-sync`
/// file: a number of seconds, surrounded by whitespace or not.
pub fn parse_last_sync(content: &str) -> (r: Option<u64>)
    ensures
        r == (match crate::text::parse_unsigned_spec(crate::text::trim_spec(content@), u64::MAX as nat) {
            Some(n) => Some(n as u64),
            None => None,
        }),
{
    let t = crate::text::string_of(&crate::text::trim(&crate::text::chars_of(content)));
    crate::text::parse_unsigned(t.as_str(), u64::MAX)
}

/// How long ago the last sync was, for the preferences: `Never`, `Just now`
/// under a minute, then whole minutes, hours or days.
pub open spec fn last_sync_text_spec(last: Option<u64>, now: u64) -> Seq<char> {
    match last {
        None => "Never"@,
        Some(t) => {
            let secs: int = if now >= t { now - t } else { 0 };
            if secs < 60 {
                "Just now"@
            } else if secs < 3600 {
                crate::text::decimal_spec((secs / 60) as nat) + " minutes ago"@
            } else if secs < 86400 {
                crate::text::decimal_spec((secs / 3600) as nat) + " hours ago"@
            } else {
                crate::text::decimal_spec((secs / 86400) as nat) + " days ago"@
            }
        },
    }
}

pub fn last_sync_text(last: Option<u64>, now: u64) -> (r: String)
    ensures
        r@ == last_sync_text_spec(last, now),
{
    match last {
        None => crate::hardware::command::owned("Never"),
        Some(t) => {
            let secs = now.saturating_sub(t);
            if secs < 60 {
                crate::hardware::command::owned("Just now")
            } else if secs < 3600 {
                crate::text::chars_then(&crate::text::decimal(secs / 60), " minutes ago")
            } else if secs < 86400 {
                crate::text::chars_then(&crate::text::decimal(secs / 3600), " hours ago")
            } else {
                crate::text::chars_then(&crate::text::decimal(secs / 86400), " days ago")
            }
        },
    }
}

} // verus!
