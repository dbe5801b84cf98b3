//! Paths as texts with `/` between their components.

use vstd::prelude::*;

use crate::text;
use crate::text::char_vec;

verus! {

/// The path of an entry of a directory. A separator is added where the
/// directory is not empty and does not end with one.
pub open spec fn entry_path(directory: Seq<char>, name: Seq<char>) -> Seq<char> {
    if directory.len() == 0 || directory.last() == '/' {
        directory + name
    } else {
        directory.push('/') + name
    }
}

/// The path of an entry of a directory.
pub fn path_of_entry(directory: &str, name: &str) -> (path: String)
    ensures
        path@ == entry_path(directory@, name@),
{
    let chars = char_vec(directory);
    let mut path = directory.to_owned();
    if chars.len() > 0 && chars[chars.len() - 1] != '/' {
        path.push('/');
    }
    path.append(name);
    path
}

/// What stands between the separators of a path, from the first to the last.
pub open spec fn segments(path: Seq<char>) -> Seq<Seq<char>>
    decreases path.len(),
{
    if path.len() == 0 {
        seq![Seq::<char>::empty()]
    } else {
        let before = segments(path.drop_last());
        if path.last() == '/' {
            before.push(Seq::empty())
        } else {
            before.drop_last().push(before.last().push(path.last()))
        }
    }
}

/// Whether a segment is a component of its path: empty segments are not, and a
/// dot is one only where it starts a relative path.
pub open spec fn is_component(segment: Seq<char>, index: int) -> bool {
    segment.len() > 0 && (segment != "."@ || index == 0)
}

/// The segments that are components.
pub open spec fn component_segments(segments: Seq<Seq<char>>) -> Seq<Seq<char>>
    decreases segments.len(),
{
    if segments.len() == 0 {
        Seq::empty()
    } else if is_component(segments.last(), segments.len() - 1) {
        component_segments(segments.drop_last()).push(segments.last())
    } else {
        component_segments(segments.drop_last())
    }
}

/// The components of a path: the root of an absolute path, then the names.
pub open spec fn components(path: Seq<char>) -> Seq<Seq<char>> {
    if path.len() > 0 && path[0] == '/' {
        seq!["/"@] + component_segments(segments(path))
    } else {
        component_segments(segments(path))
    }
}

/// Whether a path is another one or lies below it, component by component.
pub open spec fn lies_within(path: Seq<char>, base: Seq<char>) -> bool {
    components(base).is_prefix_of(components(path))
}

/// Whether one of two paths is the other one or lies below it.
pub open spec fn overlap(a: Seq<char>, b: Seq<char>) -> bool {
    lies_within(a, b) || lies_within(b, a)
}

fn path_segments(path: &str) -> (parts: Vec<String>)
    ensures
        text::texts(parts@) == segments(path@),
{
    let chars = char_vec(path);
    let mut done: Vec<String> = Vec::new();
    let mut current = String::new();
    let mut i: usize = 0;
    assert(path@.take(0) =~= Seq::<char>::empty());
    assert(text::texts(done@).push(current@) =~= segments(path@.take(0)));
    while i < chars.len()
        invariant
            i <= chars.len(),
            chars@ == path@,
            text::texts(done@).push(current@) == segments(path@.take(i as int)),
        decreases chars.len() - i,
    {
        let c = chars[i];
        let ghost before = done@;
        let ghost word = current@;
        proof {
            assert(path@.take(i + 1).drop_last() =~= path@.take(i as int));
            assert(path@.take(i + 1).last() == c);
            assert(text::texts(before).push(word).drop_last() =~= text::texts(before));
        }
        if c == '/' {
            done.push(current);
            current = String::new();
            assert(text::texts(done@) =~= text::texts(before).push(word));
        } else {
            current.push(c);
        }
        i = i + 1;
    }
    assert(path@.take(i as int) =~= path@);
    let ghost before = done@;
    done.push(current);
    assert(text::texts(done@) =~= text::texts(before).push(current@));
    done
}

/// The components of a path.
pub fn path_components(path: &str) -> (parts: Vec<String>)
    ensures
        text::texts(parts@) == components(path@),
{
    let chars = char_vec(path);
    let all = path_segments(path);
    let mut parts: Vec<String> = Vec::new();
    if chars.len() > 0 && chars[0] == '/' {
        parts.push("/".to_owned());
    }
    let ghost root = text::texts(parts@);
    proof {
        if path@.len() > 0 && path@[0] == '/' {
            assert(root =~= seq!["/"@]);
        } else {
            assert(root =~= Seq::<Seq<char>>::empty());
        }
        assert(text::texts(all@).take(0) =~= Seq::<Seq<char>>::empty());
        assert(root + Seq::<Seq<char>>::empty() =~= root);
    }
    let dot = ".".to_owned();
    let mut i: usize = 0;
    while i < all.len()
        invariant
            i <= all.len(),
            dot@ == "."@,
            text::texts(parts@) == root + component_segments(text::texts(all@).take(i as int)),
        decreases all.len() - i,
    {
        let ghost before = parts@;
        proof {
            assert(text::texts(all@).take(i + 1).drop_last() =~= text::texts(all@).take(i as int));
            assert(text::texts(all@).take(i + 1).last() == all@[i as int]@);
        }
        if all[i].as_str().unicode_len() > 0 && (i == 0 || all[i] != dot) {
            parts.push(all[i].clone());
            proof {
                assert(text::texts(parts@) =~= text::texts(before).push(all@[i as int]@));
                assert(text::texts(parts@) =~= root + component_segments(
                    text::texts(all@).take(i + 1),
                ));
            }
        }
        i = i + 1;
    }
    proof {
        assert(text::texts(all@).take(i as int) =~= segments(path@));
        if !(path@.len() > 0 && path@[0] == '/') {
            assert(root + component_segments(segments(path@)) =~= component_segments(
                segments(path@),
            ));
        }
    }
    parts
}

fn starts_with(parts: &Vec<String>, base: &Vec<String>) -> (prefix: bool)
    ensures
        prefix == text::texts(base@).is_prefix_of(text::texts(parts@)),
{
    if base.len() > parts.len() {
        return false;
    }
    let mut i: usize = 0;
    while i < base.len()
        invariant
            i <= base.len() <= parts.len(),
            forall|j: int| 0 <= j < i ==> (#[trigger] base@[j])@ == parts@[j]@,
        decreases base.len() - i,
    {
        if base[i] != parts[i] {
            assert(text::texts(base@)[i as int] != text::texts(parts@).subrange(
                0,
                base@.len() as int,
            )[i as int]);
            return false;
        }
        i = i + 1;
    }
    assert(text::texts(base@) =~= text::texts(parts@).subrange(0, base@.len() as int));
    true
}

/// Tells whether one of two paths is the other one or lies below it.
pub fn paths_overlap(a: &str, b: &str) -> (overlapping: bool)
    ensures
        overlapping == overlap(a@, b@),
{
    let left = path_components(a);
    let right = path_components(b);
    starts_with(&left, &right) || starts_with(&right, &left)
}

} // verus!
