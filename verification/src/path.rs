//! File paths as the operating system sees them: bytes, with `/` between components.
use vstd::prelude::*;

verus! {

pub const SLASH: u8 = 47;

pub const DOT: u8 = 46;

/// A path that starts from wherever it is resolved, not from the root.
pub open spec fn relative(path: Seq<u8>) -> bool {
    path.len() == 0 || path[0] != SLASH
}

/// A path taken from a directory: an absolute path stands for itself.
pub open spec fn joined(directory: Seq<u8>, path: Seq<u8>) -> Seq<u8> {
    if !relative(path) {
        path
    } else if directory.len() == 0 || directory.last() == SLASH {
        directory + path
    } else {
        directory.push(SLASH) + path
    }
}

/// Where the last component of a path begins.
pub open spec fn last_start(path: Seq<u8>) -> int
    decreases path.len(),
{
    if path.len() == 0 || path.last() == SLASH {
        path.len() as int
    } else {
        last_start(path.drop_last())
    }
}

/// The file name of a path: its last component that is neither empty nor `.`, unless
/// that one is `..`.
pub open spec fn file_name(path: Seq<u8>) -> Option<Seq<u8>>
    decreases path.len(),
    via file_name_decreases
{
    let start = last_start(path);
    let last = path.subrange(start, path.len() as int);
    if last =~= Seq::<u8>::empty() || last =~= seq![DOT] {
        if start == 0 {
            None
        } else {
            file_name(path.take(start - 1))
        }
    } else if last =~= seq![DOT, DOT] {
        None
    } else {
        Some(last)
    }
}

#[via_fn]
proof fn file_name_decreases(path: Seq<u8>) {
    lemma_last_start(path);
}

proof fn lemma_last_start(path: Seq<u8>)
    ensures
        0 <= last_start(path) <= path.len(),
    decreases path.len(),
{
    if path.len() > 0 && path.last() != SLASH {
        lemma_last_start(path.drop_last());
    }
}

/// Whether a path is relative.
pub fn is_relative(path: &[u8]) -> (yes: bool)
    ensures
        yes == relative(path@),
{
    path.len() == 0 || path[0] != SLASH
}

/// A path taken from a directory.
pub fn join(directory: &[u8], path: &[u8]) -> (whole: Vec<u8>)
    ensures
        whole@ == joined(directory@, path@),
{
    let mut whole: Vec<u8> = Vec::new();
    if is_relative(path) {
        copy_onto(&mut whole, directory);
        if directory.len() > 0 && directory[directory.len() - 1] != SLASH {
            whole.push(SLASH);
        }
    }
    copy_onto(&mut whole, path);
    assert(whole@ =~= joined(directory@, path@));
    whole
}

/// Appends bytes to a buffer.
pub fn copy_onto(buffer: &mut Vec<u8>, bytes: &[u8])
    ensures
        final(buffer)@ == old(buffer)@ + bytes@,
{
    let mut i: usize = 0;
    while i < bytes.len()
        invariant
            i <= bytes@.len(),
            buffer@ =~= old(buffer)@ + bytes@.take(i as int),
        decreases bytes.len() - i,
    {
        buffer.push(bytes[i]);
        i += 1;
    }
    assert(bytes@.take(i as int) =~= bytes@);
}

/// Whether a path ends in the name of a file or directory.
pub fn names_file(path: &[u8]) -> (yes: bool)
    ensures
        yes == (file_name(path@) is Some),
{
    let mut end: usize = path.len();
    assert(path@.take(end as int) =~= path@);
    loop
        invariant
            end <= path@.len(),
            file_name(path@) == file_name(path@.take(end as int)),
        decreases end,
    {
        let ghost part = path@.take(end as int);
        let mut start: usize = end;
        assert(part.take(start as int) =~= part);
        while start > 0 && path[start - 1] != SLASH
            invariant
                start <= end <= path@.len(),
                part == path@.take(end as int),
                last_start(part) == last_start(part.take(start as int)),
            decreases start,
        {
            assert(part.take(start as int).drop_last() =~= part.take(start - 1));
            assert(part.take(start as int).last() == path@[start - 1]);
            start -= 1;
        }
        proof {
            assert(start > 0 ==> part.take(start as int).last() == path@[start - 1]);
            assert(last_start(part) == start);
        }
        let ghost last = part.subrange(start as int, end as int);
        let length: usize = end - start;
        proof {
            assert(length == last.len());
            assert(length >= 1 ==> path@[start as int] == last[0]);
            assert(length >= 2 ==> path@[start + 1] == last[1]);
        }
        if length == 0 || (length == 1 && path[start] == DOT) {
            assert(last =~= Seq::<u8>::empty() || last =~= seq![DOT]);
            if start == 0 {
                return false;
            }
            assert(part.take(start - 1) =~= path@.take(start - 1));
            end = start - 1;
        } else {
            let up: bool = length == 2 && path[start] == DOT && path[start + 1] == DOT;
            assert(up == (last =~= seq![DOT, DOT]));
            assert(!(last =~= Seq::<u8>::empty()) && !(last =~= seq![DOT]));
            return !up;
        }
    }
}

proof fn lemma_last_component(head: Seq<u8>, name: Seq<u8>)
    requires
        head.len() == 0 || head.last() == 47,
        forall|i: int| 0 <= i < name.len() ==> #[trigger] name[i] != 47,
    ensures
        last_start(head + name) == head.len(),
    decreases name.len(),
{
    let path = head + name;
    if name.len() == 0 {
        assert(path =~= head);
    } else {
        let rest = name.drop_last();
        assert(name[name.len() - 1] != 47);
        assert forall|i: int| 0 <= i < rest.len() implies #[trigger] rest[i] != 47 by {
            assert(rest[i] == name[i]);
        }
        lemma_last_component(head, rest);
        assert(path.drop_last() =~= head + rest);
    }
}

/// A path that ends in a plain name names that file: the name is not empty, holds no slash and is
/// neither `.` nor `..`.
pub proof fn law_path_names_its_last_component(head: Seq<u8>, name: Seq<u8>)
    requires
        head.len() == 0 || head.last() == 47,
        name.len() > 0,
        forall|i: int| 0 <= i < name.len() ==> #[trigger] name[i] != 47,
        name != seq![46u8],
        name != seq![46u8, 46],
    ensures
        file_name(head + name) == Some(name),
{
    lemma_last_component(head, name);
    assert((head + name).subrange(head.len() as int, (head + name).len() as int) =~= name);
}

/// A slash at the end of a path, or a `.` behind one, changes nothing about the file that it
/// names.
pub proof fn law_trailing_slashes_do_not_matter(path: Seq<u8>)
    ensures
        file_name(path + seq![47u8]) == file_name(path),
        file_name(path + seq![47u8, 46]) == file_name(path),
{
    let slashed = path + seq![47u8];
    lemma_last_component(slashed, Seq::empty());
    assert(slashed + Seq::<u8>::empty() =~= slashed);
    assert(slashed.subrange(slashed.len() as int, slashed.len() as int) =~= Seq::<u8>::empty());
    assert(slashed.take(slashed.len() - 1) =~= path);
    let dotted = path + seq![47u8, 46];
    lemma_last_component(slashed, seq![46u8]);
    assert(slashed + seq![46u8] =~= dotted);
    assert(dotted.subrange(slashed.len() as int, dotted.len() as int) =~= seq![46u8]);
    assert(dotted.take(slashed.len() - 1) =~= path);
}

/// A path that ends in `..` names no file, and neither does an empty one.
pub proof fn law_parents_name_no_file(head: Seq<u8>)
    requires
        head.len() == 0 || head.last() == 47,
    ensures
        file_name(head + seq![46u8, 46]) is None,
        file_name(Seq::<u8>::empty()) is None,
        file_name(seq![46u8]) is None,
{
    let name = seq![46u8, 46];
    lemma_last_component(head, name);
    assert((head + name).subrange(head.len() as int, (head + name).len() as int) =~= name);
    lemma_last_component(Seq::empty(), Seq::empty());
    assert(Seq::<u8>::empty() + Seq::<u8>::empty() =~= Seq::<u8>::empty());
    lemma_last_component(Seq::empty(), seq![46u8]);
    assert(Seq::<u8>::empty() + seq![46u8] =~= seq![46u8]);
    assert(seq![46u8].subrange(0, 1) =~= seq![46u8]);
}

/// A path is relative exactly if it does not begin with a slash.
pub proof fn law_absolute_paths_begin_with_a_slash(path: Seq<u8>)
    ensures
        relative(path) <==> !(path.len() > 0 && path[0] == 47),
{
}

} // verus!
