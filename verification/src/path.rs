//! Filesystem paths as texts, compared component by component.

use vstd::prelude::*;

use crate::text::{
    chars_of, same_text, split_at_a_separator, split_is_never_empty, split_on, split_text, texts,
    unseparated_text_is_one_piece,
};

verus! {

/// Whether a piece between two slashes is a component: empty pieces and `.` are not.
pub open spec fn is_component(piece: Seq<char>) -> bool {
    piece.len() > 0 && piece != "."@
}

/// Whether a path starts at the root.
pub open spec fn is_absolute(path: Seq<char>) -> bool {
    path.len() > 0 && path[0] == '/'
}

/// The components of a path: the root, where it starts there, or a leading `.`;
/// then every piece between slashes that is not empty and not `.`.
pub open spec fn path_parts(path: Seq<char>) -> Seq<Seq<char>> {
    let pieces = split_on(path, '/');
    let start: Seq<Seq<char>> = if is_absolute(path) {
        seq!["/"@]
    } else if pieces[0] == "."@ {
        seq!["."@]
    } else {
        Seq::empty()
    };
    start + pieces.filter(|piece: Seq<char>| is_component(piece))
}

/// Whether `path` is `base` or lies under it.
pub open spec fn path_within(path: Seq<char>, base: Seq<char>) -> bool {
    path_parts(base).is_prefix_of(path_parts(path))
}

/// Whether a path starts at the root.
pub fn starts_at_root(path: &str) -> (r: bool)
    ensures
        r == is_absolute(path@),
{
    let v = chars_of(path);
    v.len() > 0 && v[0] == '/'
}

/// The components of a path.
pub fn components(path: &str) -> (r: Vec<String>)
    ensures
        texts(r@) == path_parts(path@),
{
    let pieces = split_text(path, '/');
    let mut parts: Vec<String> = Vec::new();
    if starts_at_root(path) {
        parts.push("/".to_owned());
    } else if same_text(pieces[0].as_str(), ".") {
        parts.push(".".to_owned());
    }
    let ghost start = texts(parts@);
    let ghost keep = |piece: Seq<char>| is_component(piece);
    proof {
        assert(texts(pieces@)[0] == pieces@[0]@);
        let wanted: Seq<Seq<char>> = if is_absolute(path@) {
            seq!["/"@]
        } else if split_on(path@, '/')[0] == "."@ {
            seq!["."@]
        } else {
            Seq::empty()
        };
        assert(start =~= wanted);
        reveal(Seq::filter);
        assert(texts(pieces@).take(0) =~= Seq::empty());
        assert(start + texts(pieces@).take(0).filter(keep) =~= start);
    }
    let mut i: usize = 0;
    while i < pieces.len()
        invariant
            i <= pieces.len(),
            keep == (|piece: Seq<char>| is_component(piece)),
            texts(parts@) == start + texts(pieces@).take(i as int).filter(keep),
        decreases pieces.len() - i,
    {
        let ghost all = texts(pieces@);
        let ghost before = texts(parts@);
        proof {
            reveal(Seq::filter);
            assert(all.take(i + 1).drop_last() =~= all.take(i as int));
            assert(all.take(i + 1).last() == pieces@[i as int]@);
        }
        let piece = &pieces[i];
        if !piece.as_str().is_empty() && !same_text(piece.as_str(), ".") {
            parts.push(piece.clone());
            proof {
                assert(texts(parts@) =~= before.push(pieces@[i as int]@));
                assert(texts(parts@) =~= start + all.take(i + 1).filter(keep));
            }
        }
        i = i + 1;
    }
    assert(texts(pieces@).take(pieces@.len() as int) =~= texts(pieces@));
    parts
}

/// Whether `path` is `base` or lies under it.
pub fn is_within(path: &str, base: &str) -> (r: bool)
    ensures
        r == path_within(path@, base@),
{
    let inner = components(path);
    let outer = components(base);
    if outer.len() > inner.len() {
        return false;
    }
    let mut i: usize = 0;
    while i < outer.len()
        invariant
            i <= outer@.len() <= inner@.len(),
            texts(inner@) == path_parts(path@),
            texts(outer@) == path_parts(base@),
            forall|k: int| 0 <= k < i ==> texts(inner@)[k] == texts(outer@)[k],
        decreases outer@.len() - i,
    {
        if !same_text(inner[i].as_str(), outer[i].as_str()) {
            assert(texts(inner@).subrange(0, outer@.len() as int)[i as int] != texts(
                outer@,
            )[i as int]);
            return false;
        }
        i = i + 1;
    }
    assert(texts(inner@).subrange(0, outer@.len() as int) =~= texts(outer@));
    true
}

/// Whether two paths have the same components.
pub fn same_path(a: &str, b: &str) -> (r: bool)
    ensures
        r == (path_parts(a@) == path_parts(b@)),
{
    let r = is_within(a, b) && is_within(b, a);
    proof {
        let (left, right) = (path_parts(a@), path_parts(b@));
        assert(left.subrange(0, left.len() as int) =~= left);
        assert(right.subrange(0, right.len() as int) =~= right);
    }
    r
}

/// Whether two lists of paths are the same, each path by its components.
pub open spec fn paths_alike(a: Seq<Seq<char>>, b: Seq<Seq<char>>) -> bool {
    &&& a.len() == b.len()
    &&& forall|i: int| 0 <= i < a.len() ==> path_parts(#[trigger] a[i]) == path_parts(b[i])
}

/// Whether two lists of paths are the same, each path by its components.
pub fn same_paths(a: &Vec<String>, b: &Vec<String>) -> (r: bool)
    ensures
        r == paths_alike(texts(a@), texts(b@)),
{
    if a.len() != b.len() {
        return false;
    }
    let mut i: usize = 0;
    while i < a.len()
        invariant
            i <= a@.len() == b@.len(),
            forall|k: int|
                0 <= k < i ==> path_parts(#[trigger] texts(a@)[k]) == path_parts(texts(b@)[k]),
        decreases a@.len() - i,
    {
        if !same_path(a[i].as_str(), b[i].as_str()) {
            assert(path_parts(texts(a@)[i as int]) != path_parts(texts(b@)[i as int]));
            return false;
        }
        i = i + 1;
    }
    true
}

/// Whether some component of a path is `..`.
pub open spec fn climbs(path: Seq<char>) -> bool {
    path_parts(path).contains(".."@)
}

/// Whether some component of a path is `..`.
pub fn has_parent_component(path: &str) -> (r: bool)
    ensures
        r == climbs(path@),
{
    let parts = components(path);
    let mut i: usize = 0;
    while i < parts.len()
        invariant
            i <= parts.len(),
            texts(parts@) == path_parts(path@),
            forall|k: int| 0 <= k < i ==> texts(parts@)[k] != ".."@,
        decreases parts.len() - i,
    {
        if same_text(parts[i].as_str(), "..") {
            assert(texts(parts@)[i as int] == ".."@);
            return true;
        }
        i = i + 1;
    }
    false
}

/// Every path lies within itself.
pub proof fn within_is_reflexive(path: Seq<char>)
    ensures
        path_within(path, path),
{
    assert(path_parts(path).subrange(0, path_parts(path).len() as int) =~= path_parts(path));
}

/// A path within a base that lies within another lies within that other too.
pub proof fn within_is_transitive(path: Seq<char>, middle: Seq<char>, base: Seq<char>)
    requires
        path_within(path, middle),
        path_within(middle, base),
    ensures
        path_within(path, base),
{
    let p = path_parts(path);
    let m = path_parts(middle);
    let b = path_parts(base);
    assert(p.subrange(0, b.len() as int) =~= m.subrange(0, b.len() as int)) by {
        assert forall|i: int| 0 <= i < b.len() implies p[i] == m[i] by {
            assert(p.subrange(0, m.len() as int)[i] == m[i]);
        }
    }
}

/// Below a path its components come first: whatever follows it after a slash only
/// adds components.
pub proof fn parts_below_a_path(base: Seq<char>, rest: Seq<char>)
    requires
        base.len() > 0,
    ensures
        path_parts(base + "/"@ + rest) == path_parts(base) + split_on(rest, '/').filter(
            |piece: Seq<char>| is_component(piece),
        ),
{
    reveal_strlit("/");
    let keep = |piece: Seq<char>| is_component(piece);
    let whole = base + "/"@ + rest;
    assert(whole =~= base.push('/') + rest);
    split_at_a_separator(base, '/', rest);
    split_is_never_empty(base, '/');
    let left = split_on(base, '/');
    let right = split_on(rest, '/');
    Seq::filter_distributes_over_add(left, right, keep);
    assert(whole[0] == base[0]);
    assert((left + right)[0] == left[0]);
    assert(path_parts(whole) =~= path_parts(base) + right.filter(keep));
}

/// Everything below a path lies within it.
pub proof fn paths_below_lie_within(base: Seq<char>, rest: Seq<char>)
    requires
        base.len() > 0,
    ensures
        path_within(base + "/"@ + rest, base),
{
    parts_below_a_path(base, rest);
    let whole = path_parts(base + "/"@ + rest);
    assert(whole.subrange(0, path_parts(base).len() as int) =~= path_parts(base));
}

/// A name below a path is one more component, and the last.
pub proof fn name_below_a_path_is_its_last_part(base: Seq<char>, name: Seq<char>)
    requires
        base.len() > 0,
        name.len() > 0,
        name != "."@,
        !name.contains('/'),
    ensures
        path_parts(base + "/"@ + name) == path_parts(base).push(name),
{
    parts_below_a_path(base, name);
    unseparated_text_is_one_piece(name, '/');
    let keep = |piece: Seq<char>| is_component(piece);
    reveal(Seq::filter);
    assert(seq![name].drop_last() =~= Seq::<Seq<char>>::empty());
    assert(seq![name].drop_last().filter(keep) =~= Seq::<Seq<char>>::empty());
    assert(seq![name].filter(keep) =~= seq![name]);
    assert(path_parts(base + "/"@ + name) =~= path_parts(base).push(name));
}

/// A closing slash and a closing dot add nothing to a path.
pub proof fn closing_slash_and_dot_add_nothing(base: Seq<char>)
    requires
        base.len() > 0,
    ensures
        path_parts(base + "/"@) == path_parts(base),
        path_parts(base + "/."@) == path_parts(base),
{
    let keep = |piece: Seq<char>| is_component(piece);
    reveal_strlit("/");
    reveal_strlit("/.");
    reveal_strlit(".");
    reveal(Seq::filter);
    parts_below_a_path(base, Seq::empty());
    assert(base + "/"@ + Seq::<char>::empty() =~= base + "/"@);
    let none = seq![Seq::<char>::empty()];
    assert(none.drop_last() =~= Seq::<Seq<char>>::empty());
    assert(none.drop_last().filter(keep) =~= Seq::<Seq<char>>::empty());
    assert(none.filter(keep) =~= Seq::<Seq<char>>::empty());
    assert(path_parts(base + "/"@) =~= path_parts(base));
    parts_below_a_path(base, "."@);
    assert(base + "/"@ + "."@ =~= base + "/."@);
    assert(!"."@.contains('/'));
    unseparated_text_is_one_piece("."@, '/');
    let dot = seq!["."@];
    assert(dot.drop_last() =~= Seq::<Seq<char>>::empty());
    assert(dot.drop_last().filter(keep) =~= Seq::<Seq<char>>::empty());
    assert(dot.filter(keep) =~= Seq::<Seq<char>>::empty());
    assert(path_parts(base + "/."@) =~= path_parts(base));
}

/// The root is the one component of itself, and the first of every path that
/// starts there.
pub proof fn absolute_paths_start_with_the_root(path: Seq<char>)
    ensures
        !is_absolute(Seq::empty()),
        path_parts("/"@) == seq!["/"@],
        is_absolute(path) <==> path_parts(path).len() > 0 && path_parts(path)[0] == "/"@,
        is_absolute(path) ==> path_within(path, "/"@),
{
    let keep = |piece: Seq<char>| is_component(piece);
    reveal_strlit("/");
    reveal_strlit(".");
    reveal(Seq::filter);
    let root = "/"@;
    let empty = Seq::<char>::empty();
    split_at_a_separator(empty, '/', empty);
    assert(empty.push('/') + empty =~= root);
    let pieces = split_on(empty, '/') + split_on(empty, '/');
    assert(pieces =~= seq![empty, empty]);
    assert(pieces.drop_last() =~= seq![empty]);
    assert(seq![empty].drop_last() =~= Seq::<Seq<char>>::empty());
    assert(seq![empty].drop_last().filter(keep) =~= Seq::<Seq<char>>::empty());
    assert(seq![empty].filter(keep) =~= Seq::<Seq<char>>::empty());
    assert(pieces.filter(keep) =~= Seq::<Seq<char>>::empty());
    assert(path_parts(root) =~= seq![root]);
    let parts = path_parts(path);
    let all = split_on(path, '/');
    if is_absolute(path) {
        assert(parts[0] == root);
        assert(parts.subrange(0, 1) =~= path_parts(root));
    } else if parts.len() > 0 && parts[0] == root {
        split_is_never_empty(path, '/');
        if all[0] == "."@ {
            assert("."@[0] != "/"@[0]);
        } else {
            assert(parts =~= all.filter(keep));
            lemma_filtered_piece(all, keep, 0);
            let k = choose|k: int| 0 <= k < all.len() && all[k] == all.filter(keep)[0];
            assert(all[k] == root);
            assert(root[0] == '/');
            assert(all[k].contains('/'));
        }
    }
}

proof fn lemma_filtered_piece(pieces: Seq<Seq<char>>, keep: spec_fn(Seq<char>) -> bool, at: int)
    requires
        0 <= at < pieces.filter(keep).len(),
    ensures
        exists|k: int| 0 <= k < pieces.len() && pieces[k] == pieces.filter(keep)[at],
    decreases pieces.len(),
{
    reveal(Seq::filter);
    if pieces.len() > 0 {
        let head = pieces.drop_last();
        if at < head.filter(keep).len() {
            lemma_filtered_piece(head, keep, at);
            let k = choose|k: int| 0 <= k < head.len() && head[k] == head.filter(keep)[at];
            assert(pieces[k] == pieces.filter(keep)[at]);
        } else {
            assert(pieces[pieces.len() - 1] == pieces.filter(keep)[at]);
        }
    }
}

/// A name directly under the root has two components.
pub proof fn name_under_the_root(name: Seq<char>)
    requires
        name.len() > 0,
        name != "."@,
        !name.contains('/'),
    ensures
        path_parts("/"@ + name) == seq!["/"@, name],
{
    let keep = |piece: Seq<char>| is_component(piece);
    reveal_strlit("/");
    reveal(Seq::filter);
    let empty = Seq::<char>::empty();
    split_at_a_separator(empty, '/', name);
    unseparated_text_is_one_piece(name, '/');
    assert(empty.push('/') + name =~= "/"@ + name);
    let pieces = split_on(empty, '/') + split_on(name, '/');
    assert(pieces =~= seq![empty, name]);
    assert(pieces.drop_last() =~= seq![empty]);
    assert(seq![empty].drop_last() =~= Seq::<Seq<char>>::empty());
    assert(seq![empty].drop_last().filter(keep) =~= Seq::<Seq<char>>::empty());
    assert(seq![empty].filter(keep) =~= Seq::<Seq<char>>::empty());
    assert(pieces.filter(keep) =~= seq![name]);
    assert(("/"@ + name)[0] == '/');
    assert(path_parts("/"@ + name) =~= seq!["/"@, name]);
}

/// Neighbours lie outside each other: of two different names below a path neither
/// lies within the other, nor does the path within them.
pub proof fn neighbours_lie_outside_each_other(base: Seq<char>, a: Seq<char>, b: Seq<char>)
    requires
        base.len() > 0,
        a.len() > 0,
        b.len() > 0,
        a != "."@,
        b != "."@,
        !a.contains('/'),
        !b.contains('/'),
        a != b,
    ensures
        !path_within(base + "/"@ + a, base + "/"@ + b),
        !path_within(base, base + "/"@ + a),
{
    name_below_a_path_is_its_last_part(base, a);
    name_below_a_path_is_its_last_part(base, b);
    let n = path_parts(base).len() as int;
    assert(path_parts(base + "/"@ + a)[n] != path_parts(base + "/"@ + b)[n]);
}

/// A path climbs exactly where one of its components is the parent, so adding a
/// name to a path that does not climb makes one that climbs only by that name.
pub proof fn climbing_shows_in_the_parts(base: Seq<char>, name: Seq<char>)
    requires
        base.len() > 0,
        name.len() > 0,
        name != "."@,
        !name.contains('/'),
    ensures
        climbs(base + "/"@ + name) <==> climbs(base) || name == ".."@,
{
    name_below_a_path_is_its_last_part(base, name);
    let more = path_parts(base + "/"@ + name);
    let parts = path_parts(base);
    assert(more[parts.len() as int] == name);
    assert forall|i: int| 0 <= i < parts.len() implies more[i] == #[trigger] parts[i] by {}
    if climbs(base) {
        let i = choose|i: int| 0 <= i < parts.len() && parts[i] == ".."@;
        assert(more[i] == ".."@);
    }
}

/// Lists of paths are alike where they are as long and have, place by place, the
/// same components: an equivalence.
pub proof fn likeness_of_paths_is_an_equivalence(
    a: Seq<Seq<char>>,
    b: Seq<Seq<char>>,
    c: Seq<Seq<char>>,
    i: int,
)
    ensures
        paths_alike(a, a),
        paths_alike(a, b) ==> paths_alike(b, a),
        paths_alike(a, b) && paths_alike(b, c) ==> paths_alike(a, c),
        paths_alike(a, b) ==> a.len() == b.len(),
        paths_alike(a, b) && 0 <= i < a.len() ==> path_within(a[i], b[i]) && path_within(b[i], a[i]),
{
    if paths_alike(a, b) && 0 <= i < a.len() {
        assert(path_parts(a[i]) == path_parts(b[i]));
    }
    if paths_alike(a, b) && paths_alike(b, c) {
        assert forall|k: int| 0 <= k < a.len() implies path_parts(#[trigger] a[k]) == path_parts(
            c[k],
        ) by {
            assert(path_parts(b[k]) == path_parts(c[k]));
        }
    }
}

} // verus!
