//! The tree scanner's verified part: turning one walked entry into a
//! [`ChildPath`].
//!
//! The caller walks the source root (without following symbolic links) and
//! hands in each reachable entry's absolute path; entries it could not read
//! are dropped, and so is any entry that does not lie under the root.

use vstd::prelude::*;
use crate::{ChildPath, SLASH};

verus! {

/// `full` lies strictly below the directory `base`: it extends `base` by a
/// path separator.
pub open spec fn is_strict_child(base: Seq<u8>, full: Seq<u8>) -> bool {
    &&& full.len() > base.len()
    &&& full.take(base.len() as int) == base
    &&& full[base.len() as int] == SLASH
}

/// Address one scanned entry relative to the scanned root: the root itself
/// gets the empty relative path, an entry below it gets its path with the
/// root and the separator stripped, and anything else is dropped.
pub fn child_path_of(base: &Vec<u8>, full: &Vec<u8>, is_symlink: bool) -> (r: Option<ChildPath>)
    ensures
        full@ == base@ ==> (r matches Some(c) && c@.relative == Seq::<u8>::empty() && c@.base
            == base@ && c@.is_symlink == is_symlink),
        full@ != base@ && is_strict_child(base@, full@) ==> (r matches Some(c) && c@.relative
            == full@.skip(base@.len() as int + 1) && c@.base == base@ && c@.is_symlink == is_symlink),
        full@ != base@ && !is_strict_child(base@, full@) ==> r is None,
{
    if full.len() == base.len() {
        // the entry can only be the root itself
        let mut i: usize = 0;
        while i < base.len()
            invariant
                i <= base@.len(),
                full@.len() == base@.len(),
                forall|j: int| 0 <= j < i ==> full@[j] == base@[j],
            decreases base@.len() - i,
        {
            if full[i] != base[i] {
                proof {
                    assert(full@ != base@);
                    assert(!is_strict_child(base@, full@));
                }
                return None;
            }
            i = i + 1;
        }
        proof {
            assert(full@ =~= base@);
        }
        Some(ChildPath { relative: Vec::new(), base: base.clone(), is_symlink })
    } else if full.len() > base.len() {
        let mut i: usize = 0;
        while i < base.len()
            invariant
                i <= base@.len(),
                full@.len() > base@.len(),
                forall|j: int| 0 <= j < i ==> full@[j] == base@[j],
            decreases base@.len() - i,
        {
            if full[i] != base[i] {
                proof {
                    assert(full@.take(base@.len() as int)[i as int] == full@[i as int]);
                    assert(full@ != base@) by {
                        assert(full@.len() != base@.len());
                    }
                }
                return None;
            }
            i = i + 1;
        }
        if full[base.len()] != SLASH {
            proof {
                assert(full@ != base@) by {
                    assert(full@.len() != base@.len());
                }
            }
            return None;
        }
        proof {
            assert(full@.take(base@.len() as int) =~= base@);
            assert(is_strict_child(base@, full@));
        }
        let mut relative: Vec<u8> = Vec::new();
        let mut i: usize = base.len() + 1;
        while i < full.len()
            invariant
                base@.len() + 1 <= i <= full@.len(),
                relative@ == full@.subrange(base@.len() as int + 1, i as int),
            decreases full@.len() - i,
        {
            relative.push(full[i]);
            proof {
                assert(full@.subrange(base@.len() as int + 1, i as int) + seq![full@[i as int]]
                    =~= full@.subrange(base@.len() as int + 1, i as int + 1));
            }
            i = i + 1;
        }
        proof {
            assert(full@.subrange(base@.len() as int + 1, full@.len() as int) =~= full@.skip(
                base@.len() as int + 1,
            ));
            assert(full@ != base@) by {
                assert(full@.len() != base@.len());
            }
        }
        Some(ChildPath { relative, base: base.clone(), is_symlink })
    } else {
        proof {
            assert(full@ != base@) by {
                assert(full@.len() != base@.len());
            }
            assert(!is_strict_child(base@, full@));
        }
        None
    }
}

} // verus!
