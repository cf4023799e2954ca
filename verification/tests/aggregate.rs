use file_explorer::fstree::{compute_size, subtree_size, FsTree, SizeError};

#[test]
fn directory_size_sums_recursively() {
    // Two files of 100 and 4000 bytes and a subdirectory with one 900-byte
    // file add up to 5000 bytes.
    let root = FsTree::Dir {
        children: vec![
            FsTree::File { len: 100 },
            FsTree::File { len: 4000 },
            FsTree::Dir { children: vec![FsTree::File { len: 900 }] },
        ],
    };
    assert_eq!(compute_size(&root), Ok(5000));
}

#[test]
fn file_size_is_its_own_length() {
    assert_eq!(compute_size(&FsTree::File { len: 42 }), Ok(42));
}

#[test]
fn empty_directory_has_size_zero() {
    let root = FsTree::Dir { children: vec![] };
    assert_eq!(compute_size(&root), Ok(0));
}

#[test]
fn special_root_is_not_a_file() {
    let root = FsTree::Special { len: 7 };
    assert_eq!(compute_size(&root), Err(SizeError::NotAFile));
}

#[test]
fn special_child_counts_its_reported_length() {
    // Inside a directory a special node counts like a file of its reported
    // length; only a special root is refused.
    let root = FsTree::Dir {
        children: vec![FsTree::File { len: 10 }, FsTree::Special { len: 5 }],
    };
    assert_eq!(compute_size(&root), Ok(15));
    assert_eq!(subtree_size(&root), 15);
}

#[test]
fn deep_nesting_sums_every_level() {
    let root = FsTree::Dir {
        children: vec![
            FsTree::File { len: 1 },
            FsTree::Dir {
                children: vec![
                    FsTree::File { len: 2 },
                    FsTree::Dir { children: vec![FsTree::File { len: 3 }] },
                ],
            },
        ],
    };
    assert_eq!(compute_size(&root), Ok(6));
}
