//! Recursive size aggregation over a directory tree.
//!
//! The tree is the library's model of one filesystem subtree: the caller
//! walks the real directory and records, for every node, whether it is a
//! regular file, a directory with its children, or something else (a
//! special node). Aggregation itself is pure: a file counts its own length,
//! a directory the recursive sum over its children, and a special node
//! inside a directory counts the length the filesystem reports for it.
//! Only a special node at the root is refused.

use vstd::prelude::*;

verus! {

/// One filesystem node: a regular file, a directory with its direct
/// children, or a special node (neither file nor directory), each with the
/// length the filesystem reports for it.
pub enum FsTree {
    File { len: u64 },
    Dir { children: Vec<FsTree> },
    Special { len: u64 },
}

/// Failure of size aggregation.
#[derive(Clone, Copy, PartialEq, Eq, Structural, Debug)]
pub enum SizeError {
    /// The entry is neither a regular file nor a directory.
    NotAFile,
}

/// Total size of a node in a directory walk: a directory is the sum of its
/// children, anything else counts its reported length.
pub open spec fn walk_size(t: FsTree) -> nat
    decreases t,
{
    match t {
        FsTree::File { len } => len as nat,
        FsTree::Special { len } => len as nat,
        FsTree::Dir { children } => walk_size_seq(children@),
    }
}

/// Sum of the walk sizes of a sequence of nodes.
pub open spec fn walk_size_seq(s: Seq<FsTree>) -> nat
    decreases s,
{
    if s.len() == 0 {
        0
    } else {
        walk_size(s[0]) + walk_size_seq(s.drop_first())
    }
}

/// The sum over a sequence splits at any point.
pub proof fn lemma_walk_size_seq_split(s: Seq<FsTree>, i: int)
    requires
        0 <= i <= s.len(),
    ensures
        walk_size_seq(s) == walk_size_seq(s.take(i)) + walk_size_seq(s.skip(i)),
    decreases i,
{
    if i == 0 {
        assert(s.take(0) =~= Seq::<FsTree>::empty());
        assert(s.skip(0) =~= s);
    } else {
        lemma_walk_size_seq_split(s.drop_first(), i - 1);
        assert(s.take(i).drop_first() =~= s.drop_first().take(i - 1));
        assert(s.skip(i) =~= s.drop_first().skip(i - 1));
        assert(s.take(i)[0] == s[0]);
        assert(walk_size_seq(s.take(i)) == walk_size(s[0]) + walk_size_seq(
            s.drop_first().take(i - 1),
        ));
    }
}

/// Size of the subtree under `t` in a directory walk.
#[verifier::loop_isolation(false)]
pub fn subtree_size(t: &FsTree) -> (r: u64)
    requires
        walk_size(*t) <= u64::MAX,
    ensures
        r == walk_size(*t),
    decreases *t,
{
    match t {
        FsTree::File { len } => *len,
        FsTree::Special { len } => *len,
        FsTree::Dir { children } => {
            let n = children.len();
            let mut acc: u64 = 0;
            let mut i: usize = 0;
            while i < n
                invariant
                    i <= n,
                    n == children@.len(),
                    walk_size_seq(children@) <= u64::MAX,
                    acc == walk_size_seq(children@.take(i as int)),
                decreases n - i,
            {
                proof {
                    lemma_walk_size_seq_split(children@, i as int);
                    lemma_walk_size_seq_split(children@.skip(i as int), 1);
                    assert(children@.skip(i as int).take(1) =~= seq![children@[i as int]]);
                    assert(children@.skip(i as int).skip(1) =~= children@.skip(i + 1));
                    assert(walk_size_seq(seq![children@[i as int]]) == walk_size(
                        children@[i as int],
                    ));
                    assert(children@.take(i + 1) =~= children@.take(i as int) + seq![
                        children@[i as int],
                    ]);
                    lemma_walk_size_seq_split(children@.take(i + 1), i as int);
                    assert(children@.take(i + 1).take(i as int) =~= children@.take(i as int));
                    assert(children@.take(i + 1).skip(i as int) =~= seq![children@[i as int]]);
                    broadcast use vstd::std_specs::vec::group_vec_axioms;

                    assert(decreases_to!(*t => *children));
                    assert(decreases_to!(*children => children@));
                    assert(decreases_to!(children@ => children@[i as int]));
                    assert(decreases_to!(*t => children@[i as int]));
                }
                let c = subtree_size(&children[i]);
                acc = acc + c;
                i = i + 1;
            }
            proof {
                assert(children@.take(n as int) =~= children@);
            }
            acc
        },
    }
}

/// Recursively computes the total byte size of a filesystem entry.
///
/// A regular file is its own length; a directory is the recursive sum over
/// its direct children, where a non-directory child counts the length the
/// filesystem reports for it. A special root (neither file nor directory)
/// is refused with `NotAFile`, and that is the only failure.
pub fn compute_size(t: &FsTree) -> (r: Result<u64, SizeError>)
    requires
        walk_size(*t) <= u64::MAX,
    ensures
        r is Ok <==> !(*t is Special),
        r is Ok ==> r->Ok_0 == walk_size(*t),
        r is Err ==> r->Err_0 == SizeError::NotAFile,
{
    match t {
        FsTree::Special { len: _ } => Err(SizeError::NotAFile),
        _ => Ok(subtree_size(t)),
    }
}

} // verus!
