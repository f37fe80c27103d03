//! Places in the book: a reference is resolved to the list of directory and
//! file names that leads from the book's root to a chapter's source.
//!
//! The rules are these. A path is cut at every `/`. Empty names and `.` stay
//! where they are, `..` goes one directory up and fails at the root, and any
//! other name goes down into it. A reference that starts with `/` is walked
//! from the root, any other from the directory of the chapter that holds it;
//! an empty one names that chapter itself. A reference that ends in `/`
//! names the `index.md` of the directory it reaches. A last name that ends in
//! `.html` stands for the source that ends in `.md`. Names are compared byte
//! for byte: case matters and nothing is decoded.

use vstd::prelude::*;

verus! {

/// The byte `/`.
pub const SLASH: u8 = 47;

/// The byte `.`.
pub const DOT: u8 = 46;

/// A list of names, from the root down.
pub type Place = Seq<Seq<u8>>;

/// The values of a list of names.
pub open spec fn names(parts: Seq<Vec<u8>>) -> Place {
    parts.map_values(|part: Vec<u8>| part@)
}

/// The pieces of `bytes` between the occurrences of `sep`; there is one
/// piece more than there are separators.
pub open spec fn split(bytes: Seq<u8>, sep: u8) -> Place
    decreases bytes.len(),
{
    if bytes.len() == 0 {
        seq![Seq::<u8>::empty()]
    } else {
        let parts = split(bytes.drop_last(), sep);
        if bytes.last() == sep {
            parts.push(Seq::<u8>::empty())
        } else {
            parts.update(parts.len() - 1, parts.last().push(bytes.last()))
        }
    }
}

/// The name `.`.
pub open spec fn here() -> Seq<u8> {
    seq![DOT]
}

/// The name `..`.
pub open spec fn up() -> Seq<u8> {
    seq![DOT, DOT]
}

/// One step from `place` by `name`. `None` is the place outside the book,
/// from which no step leads back.
pub open spec fn step(place: Option<Place>, name: Seq<u8>) -> Option<Place> {
    match place {
        None => None,
        Some(dirs) => if name.len() == 0 || name == here() {
            Some(dirs)
        } else if name == up() {
            if dirs.len() == 0 {
                None
            } else {
                Some(dirs.drop_last())
            }
        } else {
            Some(dirs.push(name))
        },
    }
}

/// The place reached from `start` by the steps `path`, in order.
pub open spec fn walk(start: Option<Place>, path: Place) -> Option<Place>
    decreases path.len(),
{
    if path.len() == 0 {
        start
    } else {
        step(walk(start, path.drop_last()), path.last())
    }
}

/// Once a walk has left the book it stays outside.
pub proof fn lemma_walk_stays_outside(start: Option<Place>, path: Place, left_at: int)
    requires
        0 <= left_at <= path.len(),
        walk(start, path.take(left_at)) is None,
    ensures
        walk(start, path) is None,
    decreases path.len() - left_at,
{
    if left_at < path.len() {
        assert(path.take(left_at + 1).drop_last() =~= path.take(left_at));
        lemma_walk_stays_outside(start, path, left_at + 1);
    } else {
        assert(path.take(left_at) =~= path);
    }
}

/// The bytes `.html`.
pub open spec fn html_suffix() -> Seq<u8> {
    seq![46u8, 104u8, 116u8, 109u8, 108u8]
}

/// The bytes `.md`.
pub open spec fn md_suffix() -> Seq<u8> {
    seq![46u8, 109u8, 100u8]
}

/// The bytes `index.md`.
pub open spec fn index_name() -> Seq<u8> {
    seq![105u8, 110u8, 100u8, 101u8, 120u8, 46u8, 109u8, 100u8]
}

/// Whether `bytes` ends in `.html`.
pub open spec fn is_html(bytes: Seq<u8>) -> bool {
    bytes.len() >= 5 && bytes.skip(bytes.len() - 5) == html_suffix()
}

/// The name of the source that a file name stands for: `.md` in place of a
/// final `.html`, any other name unchanged.
pub open spec fn source_name(name: Seq<u8>) -> Seq<u8> {
    if is_html(name) {
        name.take(name.len() - 5) + md_suffix()
    } else {
        name
    }
}

/// The place with its last name taken as the name of a source.
pub open spec fn as_source(place: Option<Place>) -> Option<Place> {
    match place {
        Some(dirs) => if dirs.len() > 0 {
            Some(dirs.update(dirs.len() - 1, source_name(dirs.last())))
        } else {
            Some(dirs)
        },
        None => None,
    }
}

/// The place of the source at `path`, a path from the book's root.
pub open spec fn place_of(path: Seq<u8>) -> Option<Place> {
    as_source(walk(Some(Seq::<Seq<u8>>::empty()), split(path, SLASH)))
}

/// The directory that holds the source at `place`; the root holds itself.
pub open spec fn directory(place: Option<Place>) -> Option<Place> {
    match place {
        Some(dirs) => if dirs.len() > 0 {
            Some(dirs.drop_last())
        } else {
            Some(dirs)
        },
        None => None,
    }
}

/// The place with `index.md` under it.
pub open spec fn index_under(place: Option<Place>) -> Option<Place> {
    match place {
        Some(dirs) => Some(dirs.push(index_name())),
        None => None,
    }
}

/// The place that `target` names when it is written in the chapter at
/// `from`.
pub open spec fn target_place(from: Seq<u8>, target: Seq<u8>) -> Option<Place> {
    if target.len() == 0 {
        place_of(from)
    } else {
        let start = if target[0] == SLASH {
            Some(Seq::<Seq<u8>>::empty())
        } else {
            directory(place_of(from))
        };
        let reached = walk(start, split(target, SLASH));
        if target.last() == SLASH {
            index_under(reached)
        } else {
            as_source(reached)
        }
    }
}

/// Whether two byte strings are the same.
pub fn same_bytes(left: &[u8], right: &[u8]) -> (same: bool)
    ensures
        same == (left@ == right@),
{
    if left.len() != right.len() {
        return false;
    }
    let mut i: usize = 0;
    while i < left.len()
        invariant
            i <= left.len(),
            left.len() == right.len(),
            left@.take(i as int) == right@.take(i as int),
        decreases left.len() - i,
    {
        if left[i] != right[i] {
            return false;
        }
        assert(left@.take(i + 1) =~= left@.take(i as int).push(left@[i as int]));
        assert(right@.take(i + 1) =~= right@.take(i as int).push(right@[i as int]));
        i = i + 1;
    }
    assert(left@.take(left.len() as int) =~= left@);
    assert(right@.take(right.len() as int) =~= right@);
    true
}

/// Whether two places are the same.
pub fn same_place(left: &Vec<Vec<u8>>, right: &Vec<Vec<u8>>) -> (same: bool)
    ensures
        same == (names(left@) == names(right@)),
{
    if left.len() != right.len() {
        return false;
    }
    let mut i: usize = 0;
    while i < left.len()
        invariant
            i <= left.len(),
            left.len() == right.len(),
            names(left@).take(i as int) == names(right@).take(i as int),
        decreases left.len() - i,
    {
        if !same_bytes(left[i].as_slice(), right[i].as_slice()) {
            assert(names(left@)[i as int] != names(right@)[i as int]);
            return false;
        }
        assert(names(left@).take(i + 1) =~= names(left@).take(i as int).push(
            names(left@)[i as int],
        ));
        assert(names(right@).take(i + 1) =~= names(right@).take(i as int).push(
            names(right@)[i as int],
        ));
        i = i + 1;
    }
    assert(names(left@).take(left.len() as int) =~= names(left@));
    assert(names(right@).take(right.len() as int) =~= names(right@));
    true
}

/// Cuts `bytes` at every `sep`.
pub fn split_bytes(bytes: &[u8], sep: u8) -> (parts: Vec<Vec<u8>>)
    ensures
        names(parts@) == split(bytes@, sep),
{
    let mut parts: Vec<Vec<u8>> = Vec::new();
    let mut current: Vec<u8> = Vec::new();
    let mut i: usize = 0;
    assert(names(parts@).push(current@) =~= split(bytes@.take(0), sep));
    while i < bytes.len()
        invariant
            i <= bytes.len(),
            names(parts@).push(current@) == split(bytes@.take(i as int), sep),
        decreases bytes.len() - i,
    {
        let ghost earlier = names(parts@).push(current@);
        let byte: u8 = bytes[i];
        proof {
            assert(bytes@.take(i + 1).drop_last() =~= bytes@.take(i as int));
            assert(bytes@.take(i + 1).last() == byte);
        }
        if byte == sep {
            parts.push(current);
            current = Vec::new();
            assert(names(parts@).push(current@) =~= earlier.push(Seq::<u8>::empty()));
        } else {
            current.push(byte);
            assert(names(parts@).push(current@) =~= earlier.update(
                earlier.len() - 1,
                earlier.last().push(byte),
            ));
        }
        i = i + 1;
    }
    assert(bytes@.take(bytes.len() as int) =~= bytes@);
    let ghost before = names(parts@);
    parts.push(current);
    assert(names(parts@) =~= before.push(current@));
    parts
}

/// The value of a place that may lie outside the book.
pub open spec fn place_view(place: Option<Vec<Vec<u8>>>) -> Option<Place> {
    match place {
        Some(dirs) => Some(names(dirs@)),
        None => None,
    }
}

/// Whether `name` is `.`.
fn is_here(name: &Vec<u8>) -> (yes: bool)
    ensures
        yes == (name@ == here()),
{
    let yes = name.len() == 1 && name[0] == DOT;
    assert(yes ==> name@ =~= here());
    yes
}

/// Whether `name` is `..`.
fn is_up(name: &Vec<u8>) -> (yes: bool)
    ensures
        yes == (name@ == up()),
{
    let yes = name.len() == 2 && name[0] == DOT && name[1] == DOT;
    assert(yes ==> name@ =~= up());
    yes
}

/// Walks the steps `path` from `start`.
pub fn walk_from(start: Vec<Vec<u8>>, path: &Vec<Vec<u8>>) -> (reached: Option<Vec<Vec<u8>>>)
    ensures
        place_view(reached) == walk(Some(names(start@)), names(path@)),
{
    let ghost origin = Some(names(start@));
    let ghost steps = names(path@);
    let mut dirs = start;
    let mut i: usize = 0;
    assert(steps.take(0) =~= Seq::<Seq<u8>>::empty());
    while i < path.len()
        invariant
            i <= path.len(),
            steps == names(path@),
            origin == Some(names(start@)),
            Some(names(dirs@)) == walk(origin, steps.take(i as int)),
        decreases path.len() - i,
    {
        let name = &path[i];
        let ghost earlier = names(dirs@);
        proof {
            assert(steps.take(i + 1).drop_last() =~= steps.take(i as int));
            assert(steps.take(i + 1).last() == name@);
        }
        if name.len() == 0 || is_here(name) {
        } else if is_up(name) {
            if dirs.len() == 0 {
                proof {
                    assert(names(dirs@).len() == 0);
                    assert(walk(origin, steps.take(i + 1)) == step(
                        walk(origin, steps.take(i as int)),
                        name@,
                    ));
                    lemma_walk_stays_outside(origin, steps, i + 1);
                }
                return None;
            }
            dirs.pop();
            assert(names(dirs@) =~= earlier.drop_last());
        } else {
            dirs.push(vstd::slice::slice_to_vec(name.as_slice()));
            assert(names(dirs@) =~= earlier.push(name@));
        }
        i = i + 1;
    }
    assert(steps.take(path.len() as int) =~= steps);
    Some(dirs)
}

/// Whether `name` ends in `.html`.
fn ends_in_html(name: &Vec<u8>) -> (yes: bool)
    ensures
        yes == is_html(name@),
{
    let n: usize = name.len();
    if n < 5 {
        return false;
    }
    let yes = name[n - 5] == 46 && name[n - 4] == 104 && name[n - 3] == 116 && name[n - 2] == 109
        && name[n - 1] == 108;
    proof {
        let tail = name@.skip(n - 5);
        assert(tail.len() == 5);
        assert(tail[0] == name@[n - 5]);
        assert(tail[1] == name@[n - 4]);
        assert(tail[2] == name@[n - 3]);
        assert(tail[3] == name@[n - 2]);
        assert(tail[4] == name@[n - 1]);
        assert(yes ==> tail =~= html_suffix());
    }
    yes
}

/// The name of the source that `name` stands for.
fn to_source_name(name: Vec<u8>) -> (source: Vec<u8>)
    ensures
        source@ == source_name(name@),
{
    if !ends_in_html(&name) {
        return name;
    }
    let ghost stem = name@.take(name@.len() - 5);
    let mut source = name;
    assert(source@ =~= stem + html_suffix()) by {
        assert(source@.skip(source@.len() - 5) == html_suffix());
        assert(source@ =~= source@.take(source@.len() - 5) + source@.skip(source@.len() - 5));
    }
    source.pop();
    source.pop();
    source.pop();
    source.pop();
    assert(source@ =~= stem.push(46u8));
    source.push(109);
    source.push(100);
    assert(source@ =~= stem + md_suffix());
    source
}

/// Takes the last name of `place` as the name of a source.
fn to_source(place: Vec<Vec<u8>>) -> (source: Vec<Vec<u8>>)
    ensures
        Some(names(source@)) == as_source(Some(names(place@))),
{
    let ghost before = names(place@);
    let mut source = place;
    match source.pop() {
        None => {
            assert(names(source@) =~= before);
        },
        Some(name) => {
            let ghost dirs = names(source@);
            assert(dirs =~= before.drop_last());
            source.push(to_source_name(name));
            assert(names(source@) =~= before.update(
                before.len() - 1,
                source_name(before.last()),
            ));
        },
    }
    source
}

/// The place of the source at `path`, a path from the book's root.
pub fn locate(path: &[u8]) -> (place: Option<Vec<Vec<u8>>>)
    ensures
        place_view(place) == place_of(path@),
{
    let steps = split_bytes(path, SLASH);
    let root: Vec<Vec<u8>> = Vec::new();
    assert(names(root@) =~= Seq::<Seq<u8>>::empty());
    match walk_from(root, &steps) {
        Some(reached) => Some(to_source(reached)),
        None => None,
    }
}

/// The place that `target` names when it is written in the chapter whose
/// source is at `from`.
pub fn resolve_target(from: &[u8], target: &[u8]) -> (place: Option<Vec<Vec<u8>>>)
    ensures
        place_view(place) == target_place(from@, target@),
{
    if target.len() == 0 {
        return locate(from);
    }
    let start: Vec<Vec<u8>> = if target[0] == SLASH {
        let root: Vec<Vec<u8>> = Vec::new();
        assert(names(root@) =~= Seq::<Seq<u8>>::empty());
        root
    } else {
        match locate(from) {
            Some(own) => {
                let ghost whole = names(own@);
                let mut dirs = own;
                dirs.pop();
                assert(whole.len() > 0 ==> names(dirs@) =~= whole.drop_last());
                assert(whole.len() == 0 ==> names(dirs@) =~= whole);
                dirs
            },
            None => {
                proof {
                    lemma_walk_stays_outside(None, split(target@, SLASH), 0);
                }
                return None;
            },
        }
    };
    let steps = split_bytes(target, SLASH);
    match walk_from(start, &steps) {
        Some(reached) => {
            if target[target.len() - 1] == SLASH {
                let ghost dirs = names(reached@);
                let mut file = reached;
                let index: Vec<u8> = vec![105, 110, 100, 101, 120, 46, 109, 100];
                assert(index@ =~= index_name());
                file.push(index);
                assert(names(file@) =~= dirs.push(index_name()));
                Some(file)
            } else {
                Some(to_source(reached))
            }
        },
        None => None,
    }
}

} // verus!
