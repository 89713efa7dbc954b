//! Paths as the bytes they are, read as `std::path::Path` reads them on Unix:
//! a root, then names separated by `/`, with repeated separators, trailing
//! separators and `.` after the start left out.

use vstd::prelude::*;

verus! {

/// One component of a path.
#[derive(Debug)]
pub enum Component {
    /// The leading `/`.
    Root,
    /// A `.` at the start of a relative path.
    Cur,
    /// `..`.
    Parent,
    /// A name.
    Normal(Vec<u8>),
}

/// A component, in specifications.
pub enum Comp {
    Root,
    Cur,
    Parent,
    Normal(Seq<u8>),
}

impl Component {
    pub open spec fn comp(&self) -> Comp {
        match self {
            Component::Root => Comp::Root,
            Component::Cur => Comp::Cur,
            Component::Parent => Comp::Parent,
            Component::Normal(name) => Comp::Normal(name@),
        }
    }
}

/// The components of `list`.
pub open spec fn comps(list: Seq<Component>) -> Seq<Comp> {
    list.map_values(|c: Component| c.comp())
}

/// The `/`-separated pieces of `path`, empty ones included.
pub open spec fn pieces(path: Seq<u8>) -> Seq<Seq<u8>>
    decreases path.len(),
{
    if path.len() == 0 {
        seq![Seq::empty()]
    } else {
        let front = pieces(path.drop_last());
        if path.last() == 0x2f {
            front.push(Seq::empty())
        } else {
            front.update(front.len() - 1, front.last().push(path.last()))
        }
    }
}

pub open spec fn dot() -> Seq<u8> {
    seq![0x2eu8]
}

pub open spec fn dot_dot() -> Seq<u8> {
    seq![0x2eu8, 0x2eu8]
}

/// The components the pieces after the first stand for: `..` a parent, a
/// name a name, and empty pieces and `.` nothing.
pub open spec fn piece_comps(pieces: Seq<Seq<u8>>) -> Seq<Comp>
    decreases pieces.len(),
{
    if pieces.len() == 0 {
        Seq::empty()
    } else {
        let last = pieces.last();
        let front = piece_comps(pieces.drop_last());
        if last.len() == 0 || last == dot() {
            front
        } else if last == dot_dot() {
            front.push(Comp::Parent)
        } else {
            front.push(Comp::Normal(last))
        }
    }
}

/// Whether `path` starts at the root.
pub open spec fn is_absolute(path: Seq<u8>) -> bool {
    path.len() > 0 && path[0] == 0x2f
}

/// The components of `path`, as `Path::components` gives them: the root, a
/// leading `.` of a relative path, then a component for each piece that is
/// neither empty nor `.`.
pub open spec fn components(path: Seq<u8>) -> Seq<Comp> {
    let p = pieces(path);
    if is_absolute(path) {
        seq![Comp::Root] + piece_comps(p)
    } else if p[0] == dot() {
        seq![Comp::Cur] + piece_comps(p)
    } else {
        piece_comps(p)
    }
}

/// The final name of `path`, when it ends in one.
pub open spec fn file_name(path: Seq<u8>) -> Option<Seq<u8>> {
    let c = components(path);
    if c.len() > 0 && c.last() is Normal {
        Some(c.last()->Normal_0)
    } else {
        None
    }
}

/// `components` with `..` and `.` collapsed lexically, as pushing each onto an
/// empty path and popping for `..` leaves it; `..` at the root, or with
/// nothing left to pop, is a no-op.
pub open spec fn normalized(c: Seq<Comp>) -> Seq<Comp>
    decreases c.len(),
{
    if c.len() == 0 {
        Seq::empty()
    } else {
        let front = normalized(c.drop_last());
        match c.last() {
            Comp::Parent => if front.len() > 0 && front.last() is Normal {
                front.drop_last()
            } else {
                front
            },
            Comp::Cur => front,
            Comp::Root => seq![Comp::Root],
            Comp::Normal(name) => front.push(Comp::Normal(name)),
        }
    }
}

/// Whether `c` is as collapsing leaves a path: names only, after the root
/// where there is one; no `.` and no `..`.
pub open spec fn is_collapsed(c: Seq<Comp>) -> bool {
    forall|i: int| 0 <= i < c.len() ==> (#[trigger] c[i] is Normal || (c[i] is Root && i == 0))
}

/// Collapsing leaves no `.` and no `..`: only names, after the root where
/// there is one.
pub proof fn collapsing_leaves_names_only(c: Seq<Comp>)
    ensures
        is_collapsed(normalized(c)),
    decreases c.len(),
{
    if c.len() > 0 {
        collapsing_leaves_names_only(c.drop_last());
        let front = normalized(c.drop_last());
        let out = normalized(c);
        assert forall|i: int| 0 <= i < out.len() implies (#[trigger] out[i] is Normal || (out[i] is Root
            && i == 0)) by {
            if i < front.len() {
                match c.last() {
                    Comp::Root => {},
                    _ => assert(out[i] == front[i]),
                }
            }
        }
    }
}

/// Collapsing what is already collapsed changes nothing.
proof fn collapsed_is_unchanged(c: Seq<Comp>)
    requires
        is_collapsed(c),
    ensures
        normalized(c) == c,
    decreases c.len(),
{
    if c.len() > 0 {
        let front = c.drop_last();
        assert(is_collapsed(front)) by {
            assert forall|i: int| 0 <= i < front.len() implies (#[trigger] front[i] is Normal || (
            front[i] is Root && i == 0)) by {
                assert(front[i] == c[i]);
            }
        }
        collapsed_is_unchanged(front);
        assert(c[c.len() - 1] is Normal || c.len() == 1);
        if c.last() is Root {
            assert(c =~= seq![Comp::Root]);
        } else {
            assert(normalized(c) =~= front.push(c.last()));
            assert(front.push(c.last()) =~= c);
        }
    }
}

/// Collapsing twice gives what collapsing once gives.
pub proof fn collapsing_twice_changes_nothing(c: Seq<Comp>)
    ensures
        normalized(normalized(c)) == normalized(c),
{
    collapsing_leaves_names_only(c);
    collapsed_is_unchanged(normalized(c));
}

/// Whether `name` can stand as one name of a path: not empty, not `.` or
/// `..`, and free of `/`.
pub open spec fn is_name(name: Seq<u8>) -> bool {
    name.len() > 0 && name != dot() && name != dot_dot() && forall|i: int|
        0 <= i < name.len() ==> #[trigger] name[i] != 0x2f
}

/// Whether every name in `c` can stand as one.
pub open spec fn has_names(c: Seq<Comp>) -> bool {
    forall|i: int| 0 <= i < c.len() && #[trigger] c[i] is Normal ==> is_name(c[i]->Normal_0)
}

proof fn lemma_pieces_len(path: Seq<u8>)
    ensures
        pieces(path).len() >= 1,
    decreases path.len(),
{
    if path.len() > 0 {
        lemma_pieces_len(path.drop_last());
    }
}

proof fn lemma_pieces_free_of_slash(path: Seq<u8>)
    ensures
        forall|k: int, j: int|
            0 <= k < pieces(path).len() && 0 <= j < pieces(path)[k].len() ==> #[trigger] pieces(
                path,
            )[k][j] != 0x2f,
    decreases path.len(),
{
    lemma_pieces_len(path);
    if path.len() > 0 {
        lemma_pieces_free_of_slash(path.drop_last());
        lemma_pieces_len(path.drop_last());
        let front = pieces(path.drop_last());
        if path.last() != 0x2f {
            let last = front.last().push(path.last());
            assert forall|k: int, j: int|
                0 <= k < pieces(path).len() && 0 <= j < pieces(path)[k].len() implies #[trigger] pieces(
                path,
            )[k][j] != 0x2f by {
                if k < front.len() - 1 {
                    assert(pieces(path)[k] == front[k]);
                } else {
                    assert(pieces(path)[k] == last);
                    if j < last.len() - 1 {
                        assert(last[j] == front.last()[j]);
                    }
                }
            }
        } else {
            assert forall|k: int, j: int|
                0 <= k < pieces(path).len() && 0 <= j < pieces(path)[k].len() implies #[trigger] pieces(
                path,
            )[k][j] != 0x2f by {
                if k < front.len() {
                    assert(pieces(path)[k] == front[k]);
                }
            }
        }
    }
}

proof fn lemma_piece_comps_names(ps: Seq<Seq<u8>>)
    requires
        forall|k: int, j: int| 0 <= k < ps.len() && 0 <= j < ps[k].len() ==> #[trigger] ps[k][j] != 0x2f,
    ensures
        has_names(piece_comps(ps)),
    decreases ps.len(),
{
    if ps.len() > 0 {
        let front = ps.drop_last();
        assert forall|k: int, j: int| 0 <= k < front.len() && 0 <= j < front[k].len() implies #[trigger] front[k][j]
            != 0x2f by {
            assert(front[k] == ps[k]);
        }
        lemma_piece_comps_names(front);
        let c = piece_comps(ps);
        let fc = piece_comps(front);
        let last = ps.last();
        assert(forall|j: int| 0 <= j < last.len() ==> #[trigger] last[j] != 0x2f) by {
            assert forall|j: int| 0 <= j < last.len() implies #[trigger] last[j] != 0x2f by {
                assert(ps[ps.len() - 1][j] != 0x2f);
            }
        }
        assert forall|i: int| 0 <= i < c.len() && #[trigger] c[i] is Normal implies is_name(
            c[i]->Normal_0,
        ) by {
            if i < fc.len() {
                assert(c[i] == fc[i]);
            }
        }
    }
}

/// The names `components` gives can each stand as one.
proof fn lemma_components_names(path: Seq<u8>)
    ensures
        has_names(components(path)),
{
    lemma_pieces_free_of_slash(path);
    lemma_piece_comps_names(pieces(path));
    let p = piece_comps(pieces(path));
    let c = components(path);
    if is_absolute(path) || pieces(path)[0] == dot() {
        assert forall|i: int| 0 <= i < c.len() && #[trigger] c[i] is Normal implies is_name(
            c[i]->Normal_0,
        ) by {
            assert(c[i] == p[i - 1]);
        }
    }
}

proof fn lemma_normalized_names(c: Seq<Comp>)
    requires
        has_names(c),
    ensures
        has_names(normalized(c)),
    decreases c.len(),
{
    if c.len() > 0 {
        let front = c.drop_last();
        assert forall|i: int| 0 <= i < front.len() && #[trigger] front[i] is Normal implies is_name(
            front[i]->Normal_0,
        ) by {
            assert(front[i] == c[i]);
        }
        lemma_normalized_names(front);
        let nf = normalized(front);
        let n = normalized(c);
        assert forall|i: int| 0 <= i < n.len() && #[trigger] n[i] is Normal implies is_name(
            n[i]->Normal_0,
        ) by {
            if i < nf.len() {
                match c.last() {
                    Comp::Root => {},
                    _ => assert(n[i] == nf[i]),
                }
            } else {
                assert(c[c.len() - 1] is Normal);
            }
        }
    }
}

/// Appending bytes free of `/` extends the last piece.
proof fn lemma_pieces_append(s: Seq<u8>, t: Seq<u8>)
    requires
        forall|i: int| 0 <= i < t.len() ==> #[trigger] t[i] != 0x2f,
    ensures
        pieces(s + t) == pieces(s).update(pieces(s).len() - 1, pieces(s).last() + t),
    decreases t.len(),
{
    lemma_pieces_len(s);
    if t.len() == 0 {
        assert(s + t =~= s);
        assert(pieces(s).last() + t =~= pieces(s).last());
        assert(pieces(s).update(pieces(s).len() - 1, pieces(s).last()) =~= pieces(s));
    } else {
        let u = t.drop_last();
        assert forall|i: int| 0 <= i < u.len() implies #[trigger] u[i] != 0x2f by {
            assert(u[i] == t[i]);
        }
        lemma_pieces_append(s, u);
        assert((s + t).drop_last() =~= s + u);
        assert((s + t).last() == t.last());
        assert(t[t.len() - 1] != 0x2f);
        assert(pieces(s).last() + u + seq![t.last()] =~= pieces(s).last() + t);
        assert((pieces(s).last() + u).push(t.last()) =~= pieces(s).last() + t);
    }
}

/// Appending `/` starts an empty piece.
proof fn lemma_pieces_slash(s: Seq<u8>)
    ensures
        pieces(s + seq![0x2fu8]) == pieces(s).push(Seq::<u8>::empty()),
{
    assert((s + seq![0x2fu8]).drop_last() =~= s);
}

/// Spelling what is collapsed, with names that can each stand as one, and
/// reading it back gives it again.
proof fn lemma_spelled_reads_back(c: Seq<Comp>)
    requires
        is_collapsed(c),
        has_names(c),
    ensures
        components(spelled(c)) == c,
    decreases c.len(),
{
    if c.len() == 0 {
        let one = seq![Seq::<u8>::empty()];
        assert(pieces(Seq::<u8>::empty()) == one);
        assert(one.drop_last() =~= Seq::<Seq<u8>>::empty());
        assert(one.last().len() == 0);
        assert(piece_comps(Seq::<Seq<u8>>::empty()) == Seq::<Comp>::empty());
        assert(piece_comps(one) == piece_comps(one.drop_last()));
    } else if c.last() is Root {
        assert(c.len() == 1);
        let slash = seq![0x2fu8];
        assert(c.drop_last() =~= Seq::<Comp>::empty());
        assert(spelled(c.drop_last()) =~= Seq::<u8>::empty());
        assert(spelled(c) =~= slash);
        lemma_pieces_slash(Seq::<u8>::empty());
        assert(Seq::<u8>::empty() + slash =~= slash);
        let ps = pieces(slash);
        assert(ps =~= seq![Seq::<u8>::empty(), Seq::<u8>::empty()]);
        assert(ps.drop_last() =~= seq![Seq::<u8>::empty()]);
        assert(ps.drop_last().drop_last() =~= Seq::<Seq<u8>>::empty());
        assert(piece_comps(Seq::<Seq<u8>>::empty()) == Seq::<Comp>::empty());
        assert(ps.drop_last().last().len() == 0);
        assert(piece_comps(ps.drop_last()) == piece_comps(ps.drop_last().drop_last()));
        assert(ps.last().len() == 0);
        assert(piece_comps(ps) == piece_comps(ps.drop_last()));
        assert(c =~= seq![Comp::Root]);
        assert(components(slash) =~= seq![Comp::Root]);
    } else {
        let front = c.drop_last();
        assert(is_collapsed(front)) by {
            assert forall|i: int| 0 <= i < front.len() implies (#[trigger] front[i] is Normal || (
            front[i] is Root && i == 0)) by {
                assert(front[i] == c[i]);
            }
        }
        assert(has_names(front)) by {
            assert forall|i: int| 0 <= i < front.len() && #[trigger] front[i] is Normal implies is_name(
                front[i]->Normal_0,
            ) by {
                assert(front[i] == c[i]);
            }
        }
        lemma_spelled_reads_back(front);
        assert(c[c.len() - 1] is Normal);
        let name = c.last()->Normal_0;
        assert(is_name(name));
        let sf = spelled(front);
        lemma_pieces_len(sf);
        if front.len() == 0 {
            assert(sf =~= Seq::<u8>::empty());
            assert(spelled(c) =~= name);
            lemma_pieces_append(Seq::<u8>::empty(), name);
            assert(Seq::<u8>::empty() + name =~= name);
            let ps = pieces(name);
            assert(ps =~= seq![name]);
            assert(ps.drop_last() =~= Seq::<Seq<u8>>::empty());
            assert(name[0] != 0x2f);
            assert(piece_comps(Seq::<Seq<u8>>::empty()) == Seq::<Comp>::empty());
            assert(ps.last() == name);
            assert(piece_comps(ps) == piece_comps(ps.drop_last()).push(Comp::Normal(name)));
            assert(ps[0] != dot());
            assert(components(name) == piece_comps(ps));
            assert(components(name) =~= seq![Comp::Normal(name)]);
            assert(c =~= seq![Comp::Normal(name)]);
        } else if front.last() is Root {
            assert(front.len() == 1);
            let slash = seq![0x2fu8];
            assert(front.drop_last() =~= Seq::<Comp>::empty());
            assert(spelled(front.drop_last()) =~= Seq::<u8>::empty());
            assert(sf =~= slash);
            assert(spelled(c) =~= slash + name);
            lemma_pieces_slash(Seq::<u8>::empty());
            assert(Seq::<u8>::empty() + slash =~= slash);
            lemma_pieces_append(slash, name);
            let ps = pieces(slash + name);
            assert(ps =~= seq![Seq::<u8>::empty(), name]);
            assert(ps.drop_last() =~= seq![Seq::<u8>::empty()]);
            assert(ps.drop_last().drop_last() =~= Seq::<Seq<u8>>::empty());
            assert(piece_comps(Seq::<Seq<u8>>::empty()) == Seq::<Comp>::empty());
            assert(ps.drop_last().last().len() == 0);
            assert(piece_comps(ps.drop_last()) == piece_comps(ps.drop_last().drop_last()));
            assert(ps.last() == name);
            assert(piece_comps(ps) == piece_comps(ps.drop_last()).push(Comp::Normal(name)));
            assert(piece_comps(ps) =~= seq![Comp::Normal(name)]);
            assert((slash + name)[0] == 0x2f);
            assert(c =~= seq![Comp::Root, Comp::Normal(name)]);
            assert(components(slash + name) =~= seq![Comp::Root] + seq![Comp::Normal(name)]);
        } else {
            assert(front[front.len() - 1] is Normal);
            let prev = front.last()->Normal_0;
            assert(is_name(prev));
            assert(sf.len() > 0 && sf.last() != 0x2f) by {
                let ff = spelled(front.drop_last());
                if ff.len() == 0 || ff.last() == 0x2f {
                    assert(sf =~= ff + prev);
                } else {
                    assert(sf =~= ff + seq![0x2fu8] + prev);
                }
                assert(sf.last() == prev.last());
                assert(prev[prev.len() - 1] != 0x2f);
            }
            let slash = seq![0x2fu8];
            assert(spelled(c) =~= sf + slash + name);
            lemma_pieces_slash(sf);
            lemma_pieces_append(sf + slash, name);
            let ps0 = pieces(sf);
            let ps = pieces(sf + slash + name);
            assert(ps =~= ps0.push(name));
            assert(ps.drop_last() =~= ps0);
            assert(ps[0] == ps0[0]);
            assert(is_absolute(sf + slash + name) == is_absolute(sf));
            let pc = piece_comps(ps0);
            assert(piece_comps(ps) =~= pc.push(Comp::Normal(name)));
            if is_absolute(sf) {
                assert(components(sf + slash + name) =~= (seq![Comp::Root] + pc).push(Comp::Normal(name)));
            } else if ps0[0] == dot() {
                assert(components(sf + slash + name) =~= (seq![Comp::Cur] + pc).push(Comp::Normal(name)));
            } else {
                assert(components(sf + slash + name) =~= pc.push(Comp::Normal(name)));
            }
            assert(c =~= front.push(Comp::Normal(name)));
        }
    }
}

/// Collapsing a path that was collapsed already gives it again.
pub proof fn collapsing_a_collapsed_path_changes_nothing(path: Seq<u8>)
    ensures
        ({
            let once = spelled(normalized(components(path)));
            spelled(normalized(components(once))) == once
        }),
{
    let n = normalized(components(path));
    collapsing_leaves_names_only(components(path));
    lemma_components_names(path);
    lemma_normalized_names(components(path));
    lemma_spelled_reads_back(n);
    collapsed_is_unchanged(n);
}

/// Whether `c` begins with all of `prefix`.
pub open spec fn starts_with(c: Seq<Comp>, prefix: Seq<Comp>) -> bool {
    prefix.len() <= c.len() && c.subrange(0, prefix.len() as int) == prefix
}

/// The bytes of the path `c` spells: `/` for the root, names joined by `/`.
pub open spec fn spelled(c: Seq<Comp>) -> Seq<u8>
    decreases c.len(),
{
    if c.len() == 0 {
        Seq::empty()
    } else {
        let front = spelled(c.drop_last());
        let piece = match c.last() {
            Comp::Root => seq![0x2fu8],
            Comp::Cur => dot(),
            Comp::Parent => dot_dot(),
            Comp::Normal(name) => name,
        };
        if front.len() == 0 || front.last() == 0x2f {
            front + piece
        } else {
            front + seq![0x2fu8] + piece
        }
    }
}

/// Whether two pieces are the same bytes.
fn same_bytes(a: &[u8], b: &[u8]) -> (r: bool)
    ensures
        r == (a@ == b@),
{
    if a.len() != b.len() {
        return false;
    }
    let mut i: usize = 0;
    while i < a.len()
        invariant
            a@.len() == b@.len(),
            i <= a@.len(),
            forall|k: int| 0 <= k < i ==> a@[k] == b@[k],
        decreases a@.len() - i,
    {
        if a[i] != b[i] {
            return false;
        }
        i = i + 1;
    }
    assert(a@ =~= b@);
    true
}

/// The component a piece after the first stands for, if any.
fn piece_component(piece: Vec<u8>) -> (c: Option<Component>)
    ensures
        match c {
            None => piece@.len() == 0 || piece@ == dot(),
            Some(c) => piece@.len() != 0 && piece@ != dot() && (if piece@ == dot_dot() {
                c.comp() == Comp::Parent
            } else {
                c.comp() == Comp::Normal(piece@)
            }),
        },
{
    if piece.len() == 0 {
        None
    } else if piece.len() == 1 && piece[0] == 0x2e {
        assert(piece@ =~= dot());
        None
    } else if piece.len() == 2 && piece[0] == 0x2e && piece[1] == 0x2e {
        assert(piece@ =~= dot_dot());
        Some(Component::Parent)
    } else {
        assert(piece@ != dot());
        assert(piece@ != dot_dot());
        Some(Component::Normal(piece))
    }
}

/// The components of `path`, as `Path::components` gives them.
pub fn components_of(path: &[u8]) -> (list: Vec<Component>)
    ensures
        comps(list@) == components(path@),
{
    let mut list: Vec<Component> = Vec::new();
    let absolute = path.len() > 0 && path[0] == 0x2f;
    if absolute {
        list.push(Component::Root);
    }
    let mut current: Vec<u8> = Vec::new();
    let mut first = true;
    let mut i: usize = 0;
    let ghost prefix = comps(list@);
    while i < path.len()
        invariant
            i <= path@.len(),
            absolute == is_absolute(path@),
            prefix == (if absolute { seq![Comp::Root] } else { Seq::<Comp>::empty() }),
            first == (pieces(path@.take(i as int)).len() == 1),
            current@ == pieces(path@.take(i as int)).last(),
            comps(list@) == prefix + (if !absolute && !first && pieces(path@.take(i as int))[0]
                == dot() { seq![Comp::Cur] } else { Seq::<Comp>::empty() }) + piece_comps(
                pieces(path@.take(i as int)).drop_last(),
            ),
            pieces(path@.take(i as int)).len() >= 1,
        decreases path@.len() - i,
    {
        let b = path[i];
        let ghost before = pieces(path@.take(i as int));
        assert(path@.take(i + 1).drop_last() == path@.take(i as int));
        assert(path@.take(i + 1).last() == b);
        if b == 0x2f {
            assert(pieces(path@.take(i + 1)) == before.push(Seq::empty()));
            assert(pieces(path@.take(i + 1))[0] == before[0]);
            let piece = current;
            current = Vec::new();
            let is_cur = piece.len() == 1 && piece[0] == 0x2e;
            assert(is_cur == (piece@ == dot())) by {
                if piece@ == dot() {
                    assert(piece@[0] == dot()[0]);
                }
                if is_cur {
                    assert(piece@ =~= dot());
                }
            }
            if first && !absolute && is_cur {
                list.push(Component::Cur);
                assert(before.drop_last().len() == 0);
                assert(pieces(path@.take(i + 1)).drop_last() == before);
                assert(piece_comps(before) == piece_comps(before.drop_last()));
            } else {
                let ghost old_list = comps(list@);
                match piece_component(piece) {
                    Some(c) => {
                        list.push(c);
                        assert(comps(list@) == old_list.push(c.comp()));
                    },
                    None => {},
                }
                assert(pieces(path@.take(i + 1)).drop_last() == before);
            }
            first = false;
        } else {
            current.push(b);
            let ghost after = pieces(path@.take(i + 1));
            assert(after == before.update(before.len() - 1, before.last().push(b)));
            assert(after.drop_last() =~= before.drop_last());
            proof {
                if before.len() > 1 {
                    assert(after[0] == before[0]);
                }
            }
        }
        i = i + 1;
        proof {
            lemma_pieces_nonempty(path@.take(i as int));
        }
    }
    assert(path@.take(path@.len() as int) == path@);
    let ghost all = pieces(path@);
    assert(all == all.drop_last().push(all.last()));
    let is_cur = current.len() == 1 && current[0] == 0x2e;
    assert(is_cur == (current@ == dot())) by {
        if current@ == dot() {
            assert(current@[0] == dot()[0]);
        }
        if is_cur {
            assert(current@ =~= dot());
        }
    }
    if first && !absolute && is_cur {
        list.push(Component::Cur);
        assert(all.drop_last().len() == 0);
        assert(piece_comps(all) == piece_comps(all.drop_last()));
    } else {
        let ghost old_list = comps(list@);
        match piece_component(current) {
            Some(c) => {
                list.push(c);
                assert(comps(list@) == old_list.push(c.comp()));
            },
            None => {},
        }
    }
    list
}

proof fn lemma_pieces_nonempty(path: Seq<u8>)
    ensures
        pieces(path).len() >= 1,
    decreases path.len(),
{
    if path.len() > 0 {
        lemma_pieces_nonempty(path.drop_last());
    }
}

/// `dir` with `name` joined on, as `Path::join` joins a name: with a `/`
/// between them unless `dir` is empty or already ends in one.
pub open spec fn joined_path(dir: Seq<u8>, name: Seq<u8>) -> Seq<u8> {
    if dir.len() == 0 || dir.last() == 0x2f {
        dir + name
    } else {
        dir + seq![0x2fu8] + name
    }
}

/// `dir` with `name` joined on.
pub fn join_name(dir: &[u8], name: &[u8]) -> (path: Vec<u8>)
    ensures
        path@ == joined_path(dir@, name@),
{
    let mut path: Vec<u8> = Vec::new();
    let mut i: usize = 0;
    while i < dir.len()
        invariant
            i <= dir@.len(),
            path@ == dir@.take(i as int),
        decreases dir@.len() - i,
    {
        path.push(dir[i]);
        i = i + 1;
        assert(path@ =~= dir@.take(i as int));
    }
    assert(dir@.take(dir@.len() as int) == dir@);
    if dir.len() != 0 && dir[dir.len() - 1] != 0x2f {
        path.push(0x2f);
    }
    let mut j: usize = 0;
    let ghost head = path@;
    while j < name.len()
        invariant
            j <= name@.len(),
            path@ == head + name@.take(j as int),
        decreases name@.len() - j,
    {
        path.push(name[j]);
        j = j + 1;
        assert(path@ =~= head + name@.take(j as int));
    }
    assert(name@.take(name@.len() as int) == name@);
    path
}

/// A copy of a component.
fn copy_component(c: &Component) -> (d: Component)
    ensures
        d.comp() == c.comp(),
{
    match c {
        Component::Root => Component::Root,
        Component::Cur => Component::Cur,
        Component::Parent => Component::Parent,
        Component::Normal(name) => Component::Normal(name.clone()),
    }
}

/// The final name of `path`, when it ends in one.
pub fn file_name_of(path: &[u8]) -> (name: Option<Vec<u8>>)
    ensures
        match file_name(path@) {
            Some(n) => name matches Some(v) && v@ == n,
            None => name is None,
        },
{
    let list = components_of(path);
    if list.len() == 0 {
        return None;
    }
    assert(comps(list@).last() == list@[list@.len() - 1].comp());
    match &list[list.len() - 1] {
        Component::Normal(name) => Some(name.clone()),
        _ => None,
    }
}

/// The components `c` collapse to.
pub fn normalize(c: &Vec<Component>) -> (out: Vec<Component>)
    ensures
        comps(out@) == normalized(comps(c@)),
{
    let mut out: Vec<Component> = Vec::new();
    let mut i: usize = 0;
    while i < c.len()
        invariant
            i <= c@.len(),
            comps(out@) == normalized(comps(c@).take(i as int)),
        decreases c@.len() - i,
    {
        let ghost prefix = comps(c@).take(i + 1);
        assert(prefix.drop_last() == comps(c@).take(i as int));
        assert(prefix.last() == c@[i as int].comp());
        let ghost before = comps(out@);
        match &c[i] {
            Component::Parent => {
                let n = out.len();
                if n > 0 {
                    assert(before.last() == out@[n - 1].comp());
                    let is_name = match &out[n - 1] {
                        Component::Normal(_) => true,
                        _ => false,
                    };
                    if is_name {
                        out.pop();
                        assert(comps(out@) =~= before.drop_last());
                    }
                }
            },
            Component::Cur => {},
            Component::Root => {
                out = Vec::new();
                out.push(Component::Root);
                assert(comps(out@) =~= seq![Comp::Root]);
            },
            Component::Normal(name) => {
                out.push(Component::Normal(name.clone()));
                assert(comps(out@) =~= before.push(c@[i as int].comp()));
            },
        }
        i = i + 1;
    }
    assert(comps(c@).take(c@.len() as int) == comps(c@));
    out
}

/// The bytes of the path `c` spells.
pub fn spell(c: &Vec<Component>) -> (path: Vec<u8>)
    ensures
        path@ == spelled(comps(c@)),
{
    let mut path: Vec<u8> = Vec::new();
    let mut i: usize = 0;
    while i < c.len()
        invariant
            i <= c@.len(),
            path@ == spelled(comps(c@).take(i as int)),
        decreases c@.len() - i,
    {
        let ghost prefix = comps(c@).take(i + 1);
        assert(prefix.drop_last() == comps(c@).take(i as int));
        assert(prefix.last() == c@[i as int].comp());
        let piece: Vec<u8> = match &c[i] {
            Component::Root => vec![0x2f],
            Component::Cur => vec![0x2e],
            Component::Parent => vec![0x2e, 0x2e],
            Component::Normal(name) => name.clone(),
        };
        assert(piece@ == match c@[i as int].comp() {
            Comp::Root => seq![0x2fu8],
            Comp::Cur => dot(),
            Comp::Parent => dot_dot(),
            Comp::Normal(name) => name,
        });
        path = join_name(path.as_slice(), piece.as_slice());
        i = i + 1;
    }
    assert(comps(c@).take(c@.len() as int) == comps(c@));
    path
}

/// Collapses `.` and `..` components lexically; `..` at the root is a no-op.
pub fn lexical_normalize(path: &[u8]) -> (out: Vec<u8>)
    ensures
        out@ == spelled(normalized(components(path@))),
        is_collapsed(normalized(components(path@))),
        spelled(normalized(components(out@))) == out@,
{
    proof {
        collapsing_leaves_names_only(components(path@));
        collapsing_a_collapsed_path_changes_nothing(path@);
    }
    let list = components_of(path);
    let normal = normalize(&list);
    spell(&normal)
}

/// Whether two components are the same.
fn same_component(a: &Component, b: &Component) -> (r: bool)
    ensures
        r == (a.comp() == b.comp()),
{
    match (a, b) {
        (Component::Root, Component::Root) => true,
        (Component::Cur, Component::Cur) => true,
        (Component::Parent, Component::Parent) => true,
        (Component::Normal(x), Component::Normal(y)) => same_bytes(x.as_slice(), y.as_slice()),
        _ => false,
    }
}

/// Whether `c` begins with all of `prefix`, component by component.
pub fn starts_with_components(c: &Vec<Component>, prefix: &Vec<Component>) -> (r: bool)
    ensures
        r == starts_with(comps(c@), comps(prefix@)),
{
    if prefix.len() > c.len() {
        return false;
    }
    let mut i: usize = 0;
    while i < prefix.len()
        invariant
            prefix@.len() <= c@.len(),
            i <= prefix@.len(),
            forall|k: int| 0 <= k < i ==> comps(c@)[k] == comps(prefix@)[k],
        decreases prefix@.len() - i,
    {
        if !same_component(&c[i], &prefix[i]) {
            assert(comps(c@).subrange(0, prefix@.len() as int)[i as int] != comps(prefix@)[i as int]);
            return false;
        }
        i = i + 1;
    }
    assert(comps(c@).subrange(0, prefix@.len() as int) =~= comps(prefix@));
    true
}

/// Whether two component lists are the same, as paths compare.
pub fn same_components(a: &Vec<Component>, b: &Vec<Component>) -> (r: bool)
    ensures
        r == (comps(a@) == comps(b@)),
{
    if a.len() != b.len() {
        return false;
    }
    let r = starts_with_components(a, b);
    proof {
        if r {
            assert(comps(a@).subrange(0, comps(b@).len() as int) == comps(a@));
        } else {
            assert(comps(a@).subrange(0, comps(b@).len() as int) == comps(a@));
        }
    }
    r
}

} // verus!
