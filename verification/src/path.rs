//! Paths as byte strings.
//!
//! Two paths are compared by their components, not by their bytes: repeated and
//! trailing slashes and inner `.` components do not count.

use vstd::prelude::*;

verus! {

/// The byte `/`.
pub const SLASH: u8 = 47;

/// The byte `.`.
pub const DOT: u8 = 46;

/// Where the first piece of a path ends: at its first slash, or at its end.
pub open spec fn piece_end(path: Seq<u8>) -> int
    decreases path.len(),
{
    if path.len() == 0 || path[0] == SLASH {
        0
    } else {
        1 + piece_end(path.skip(1))
    }
}

/// Whether a piece between slashes is a component: an empty piece is not, and
/// `.` is one only at the beginning of the path.
pub open spec fn is_component(piece: Seq<u8>, beginning: bool) -> bool {
    piece.len() > 0 && (piece == seq![DOT] ==> beginning)
}

/// The components of a relative path, or of the rest of one.
pub open spec fn relative_components(path: Seq<u8>, beginning: bool) -> Seq<Seq<u8>>
    decreases path.len(),
{
    let end = piece_end(path);
    let piece = path.take(end);
    let own = if is_component(piece, beginning) {
        seq![piece]
    } else {
        Seq::empty()
    };
    if 0 <= end < path.len() {
        own + relative_components(path.skip(end + 1), false)
    } else {
        own
    }
}

/// The components of a path. A leading slash is the component `/`.
pub open spec fn components(path: Seq<u8>) -> Seq<Seq<u8>> {
    if path.len() > 0 && path[0] == SLASH {
        seq![seq![SLASH]] + relative_components(path.skip(1), false)
    } else {
        relative_components(path, true)
    }
}

/// Whether the path is the base or lies below it.
pub open spec fn is_within(path: Seq<u8>, base: Seq<u8>) -> bool {
    components(base).is_prefix_of(components(path))
}

/// Whether the two paths have the same components.
pub open spec fn is_same(a: Seq<u8>, b: Seq<u8>) -> bool {
    components(a) == components(b)
}

proof fn piece_end_bounds(path: Seq<u8>)
    ensures
        0 <= piece_end(path) <= path.len(),
        piece_end(path) < path.len() ==> path[piece_end(path)] == SLASH,
        forall|i: int| 0 <= i < piece_end(path) ==> path[i] != SLASH,
    decreases path.len(),
{
    if path.len() > 0 && path[0] != SLASH {
        piece_end_bounds(path.skip(1));
        assert forall|i: int| 0 <= i < piece_end(path) implies path[i] != SLASH by {
            if i > 0 {
                assert(path.skip(1)[i - 1] == path[i]);
            }
        }
    }
}

/// A position without a slash before it, and with one at it unless it is the
/// end, is where the first piece ends.
proof fn piece_end_is(path: Seq<u8>, end: int)
    requires
        0 <= end <= path.len(),
        end < path.len() ==> path[end] == SLASH,
        forall|i: int| 0 <= i < end ==> path[i] != SLASH,
    ensures
        piece_end(path) == end,
{
    piece_end_bounds(path);
    let found = piece_end(path);
    if found < end {
        assert(path[found] != SLASH);
    } else if end < found {
        assert(path[end] != SLASH);
    }
}

/// The pieces of a vector, taken by their views.
pub open spec fn pieces(v: Seq<Vec<u8>>) -> Seq<Seq<u8>> {
    Seq::new(v.len(), |i: int| v[i]@)
}

/// A path that may be absent, taken by its view.
pub open spec fn path_of(path: Option<Vec<u8>>) -> Option<Seq<u8>> {
    match path {
        Some(p) => Some(p@),
        None => None,
    }
}

/// A path that is there is taken as it is, and an absent one stays absent.
pub proof fn path_or_none(path: Vec<u8>)
    ensures
        path_of(Some(path)) == Some(path@),
        path_of(None) == None::<Seq<u8>>,
{
}

/// Splits a path into its components.
pub fn split(path: &[u8]) -> (r: Vec<Vec<u8>>)
    ensures
        pieces(r@) == components(path@),
        r@.len() == components(path@).len(),
        forall|i: int| 0 <= i < r@.len() ==> (#[trigger] r@[i])@ == components(path@)[i],
{
    let mut r: Vec<Vec<u8>> = Vec::new();
    let mut beginning: bool = true;
    let mut start: usize = 0;
    let n: usize = path.len();
    if n > 0 && path[0] == SLASH {
        let mut root: Vec<u8> = Vec::new();
        root.push(SLASH);
        assert(root@ =~= seq![SLASH]);
        r.push(root);
        beginning = false;
        start = 1;
        assert(pieces(r@) =~= seq![seq![SLASH]]);
    } else {
        assert(pieces(r@) =~= Seq::<Seq<u8>>::empty());
        assert(path@.skip(0) =~= path@);
    }
    assert(components(path@) =~= pieces(r@) + relative_components(path@.skip(start as int), beginning));
    loop
        invariant
            n == path@.len(),
            start <= n,
            components(path@) == pieces(r@) + relative_components(path@.skip(start as int), beginning),
        decreases n - start,
    {
        let ghost rest = path@.skip(start as int);
        let ghost before = pieces(r@);
        let mut piece: Vec<u8> = Vec::new();
        let mut end: usize = start;
        while end < n && path[end] != SLASH
            invariant
                n == path@.len(),
                start <= end <= n,
                piece@ == path@.subrange(start as int, end as int),
                forall|i: int| start <= i < end ==> path@[i] != SLASH,
            decreases n - end,
        {
            piece.push(path[end]);
            end += 1;
            assert(piece@ =~= path@.subrange(start as int, end as int));
        }
        proof {
            assert forall|i: int| 0 <= i < end - start implies rest[i] != SLASH by {
                assert(rest[i] == path@[start + i]);
            }
            piece_end_is(rest, end - start);
            assert(piece@ =~= rest.take(end - start));
        }
        let single_dot = piece.len() == 1 && piece[0] == DOT;
        assert(single_dot <==> piece@ =~= seq![DOT]);
        if piece.len() > 0 && (!single_dot || beginning) {
            let ghost added = piece@;
            r.push(piece);
            assert(pieces(r@) =~= before + seq![added]);
        } else {
            assert(pieces(r@) =~= before + Seq::<Seq<u8>>::empty());
        }
        if end == n {
            assert(components(path@) =~= pieces(r@));
            assert forall|i: int| 0 <= i < r@.len() implies (#[trigger] r@[i])@ == components(
                path@,
            )[i] by {
                assert(pieces(r@)[i] == r@[i]@);
            }
            return r;
        }
        proof {
            assert(rest.skip(end - start + 1) =~= path@.skip(end + 1));
            assert(components(path@) =~= pieces(r@) + relative_components(path@.skip(end + 1), false));
        }
        beginning = false;
        start = end + 1;
    }
}

/// Whether two byte strings are equal.
fn same_bytes(a: &Vec<u8>, b: &Vec<u8>) -> (r: bool)
    ensures
        r == (a@ == b@),
{
    if a.len() != b.len() {
        return false;
    }
    let mut i: usize = 0;
    while i < a.len()
        invariant
            i <= a.len(),
            a.len() == b.len(),
            forall|j: int| 0 <= j < i ==> a[j] == b[j],
        decreases a.len() - i,
    {
        if a[i] != b[i] {
            return false;
        }
        i += 1;
    }
    assert(a@ =~= b@);
    true
}

/// Whether the first components of a path are those of the base.
fn leads(base: &Vec<Vec<u8>>, path: &Vec<Vec<u8>>) -> (r: bool)
    ensures
        r == pieces(base@).is_prefix_of(pieces(path@)),
{
    let ghost b = pieces(base@);
    let ghost p = pieces(path@);
    if base.len() > path.len() {
        return false;
    }
    let mut i: usize = 0;
    while i < base.len()
        invariant
            i <= base.len() <= path.len(),
            b == pieces(base@),
            p == pieces(path@),
            forall|j: int| 0 <= j < i ==> b[j] == p[j],
        decreases base.len() - i,
    {
        if !same_bytes(&base[i], &path[i]) {
            proof {
                assert(b[i as int] != p[i as int]);
                assert(p.subrange(0, b.len() as int)[i as int] == p[i as int]);
            }
            return false;
        }
        i += 1;
    }
    assert(b =~= p.subrange(0, b.len() as int));
    true
}

/// Whether the path is the base or lies below it.
pub fn starts_with(path: &[u8], base: &[u8]) -> (r: bool)
    ensures
        r == is_within(path@, base@),
        r <==> components(base@).len() <= components(path@).len() && forall|i: int|
            0 <= i < components(base@).len() ==> #[trigger] components(path@)[i] == components(
                base@,
            )[i],
{
    proof {
        within_by_components(path@, base@);
    }
    leads(&split(base), &split(path))
}

/// Whether the two paths have the same components.
pub fn same_path(a: &[u8], b: &[u8]) -> (r: bool)
    ensures
        r == is_same(a@, b@),
        r <==> components(a@) == components(b@),
{
    let x = split(a);
    let y = split(b);
    let r = x.len() == y.len() && leads(&x, &y);
    proof {
        let p = pieces(x@);
        let q = pieces(y@);
        if p.len() == q.len() {
            assert(q.subrange(0, q.len() as int) =~= q);
        }
    }
    r
}

// ---------------------------------------------------------------------------
// Laws
// ---------------------------------------------------------------------------

proof fn relative_trailing_slash(path: Seq<u8>, beginning: bool)
    ensures
        relative_components(path.push(SLASH), beginning) == relative_components(path, beginning),
    decreases path.len(),
{
    let longer = path.push(SLASH);
    let end = piece_end(path);
    piece_end_bounds(path);
    assert forall|i: int| 0 <= i < end implies longer[i] != SLASH by {
        assert(longer[i] == path[i]);
    }
    piece_end_is(longer, end);
    assert(longer.take(end) =~= path.take(end));
    if end < path.len() {
        assert(longer.skip(end + 1) =~= path.skip(end + 1).push(SLASH));
        relative_trailing_slash(path.skip(end + 1), false);
    } else {
        let rest = longer.skip(end + 1);
        assert(rest =~= Seq::<u8>::empty());
        assert(rest.take(0).len() == 0);
        assert(relative_components(rest, false) =~= Seq::<Seq<u8>>::empty());
    }
}

/// A slash and a piece without one behind a path add the piece to its components,
/// unless it is empty or `.`.
proof fn relative_last_piece(path: Seq<u8>, beginning: bool, piece: Seq<u8>)
    requires
        forall|i: int| 0 <= i < piece.len() ==> piece[i] != SLASH,
    ensures
        relative_components(path + seq![SLASH] + piece, beginning) == relative_components(
            path,
            beginning,
        ) + (if is_component(piece, false) {
            seq![piece]
        } else {
            Seq::empty()
        }),
    decreases path.len(),
{
    let longer = path + seq![SLASH] + piece;
    let end = piece_end(path);
    piece_end_bounds(path);
    assert forall|i: int| 0 <= i < end implies longer[i] != SLASH by {
        assert(longer[i] == path[i]);
    }
    piece_end_is(longer, end);
    assert(longer.take(end) =~= path.take(end));
    let last: Seq<Seq<u8>> = if is_component(piece, false) {
        seq![piece]
    } else {
        Seq::empty()
    };
    if end < path.len() {
        let rest = path.skip(end + 1);
        assert(longer.skip(end + 1) =~= rest + seq![SLASH] + piece);
        relative_last_piece(rest, false, piece);
        assert(relative_components(longer, beginning) =~= relative_components(path, beginning)
            + last);
    } else {
        assert(longer.skip(end + 1) =~= piece);
        piece_end_is(piece, piece.len() as int);
        assert(piece.take(piece.len() as int) =~= piece);
        assert(relative_components(piece, false) == last);
        assert(relative_components(longer, beginning) =~= relative_components(path, beginning)
            + last);
    }
}

/// What the components of a path are, by its last piece. The empty path has
/// none, and a piece without a slash is its own component. A slash and such a
/// piece behind a path add the piece, unless it is empty or `.`; behind nothing
/// they also make the path begin at the root.
pub proof fn components_by_last_piece(path: Seq<u8>, piece: Seq<u8>)
    requires
        forall|i: int| 0 <= i < piece.len() ==> piece[i] != 47u8,
    ensures
        components(Seq::empty()) == Seq::<Seq<u8>>::empty(),
        piece.len() > 0 ==> components(piece) == seq![piece],
        components(path + seq![47u8] + piece) == (if path.len() == 0 {
            seq![seq![47u8]]
        } else {
            components(path)
        }) + (if piece.len() == 0 || piece == seq![46u8] {
            Seq::empty()
        } else {
            seq![piece]
        }),
{
    let none: Seq<u8> = Seq::empty();
    assert(none.take(0).len() == 0);
    piece_end_is(piece, piece.len() as int);
    assert(piece.take(piece.len() as int) =~= piece);
    let longer = path + seq![47u8] + piece;
    if path.len() == 0 {
        assert(longer.skip(1) =~= piece);
    } else if path[0] == SLASH {
        relative_last_piece(path.skip(1), false, piece);
        assert(longer.skip(1) =~= path.skip(1) + seq![SLASH] + piece);
        assert(longer[0] == SLASH);
        assert(components(longer) =~= components(path) + (if piece.len() == 0 || piece == seq![
            46u8,
        ] {
            Seq::empty()
        } else {
            seq![piece]
        }));
    } else {
        relative_last_piece(path, true, piece);
        assert(longer[0] == path[0]);
    }
}

/// A path lies within a base exactly when its first components are those of the
/// base.
pub proof fn within_by_components(path: Seq<u8>, base: Seq<u8>)
    ensures
        is_within(path, base) <==> components(base).len() <= components(path).len() && forall|i: int|
            0 <= i < components(base).len() ==> #[trigger] components(path)[i] == components(base)[i],
{
    let p = components(path);
    let b = components(base);
    if is_within(path, base) {
        assert forall|i: int| 0 <= i < b.len() implies #[trigger] p[i] == b[i] by {
            assert(p.subrange(0, b.len() as int)[i] == b[i]);
        }
    } else if b.len() <= p.len() && forall|i: int| 0 <= i < b.len() ==> #[trigger] p[i] == b[i] {
        assert(p.subrange(0, b.len() as int) =~= b);
    }
}

/// A slash at the end of a path does not count.
pub proof fn trailing_slash(path: Seq<u8>)
    requires
        path.len() > 0,
    ensures
        is_same(path.push(SLASH), path),
{
    let longer = path.push(SLASH);
    if path[0] == SLASH {
        relative_trailing_slash(path.skip(1), false);
        assert(longer.skip(1) =~= path.skip(1).push(SLASH));
    } else {
        relative_trailing_slash(path, true);
    }
}

/// Two paths are the same exactly when each lies within the other.
pub proof fn within_each_other(a: Seq<u8>, b: Seq<u8>)
    ensures
        is_same(a, b) <==> is_within(a, b) && is_within(b, a),
{
    let x = components(a);
    let y = components(b);
    assert(x.subrange(0, x.len() as int) =~= x);
    assert(y.subrange(0, y.len() as int) =~= y);
}

} // verus!
