//! Disk accounting: the total size of the regular files in a directory.
use vstd::prelude::*;

verus! {

/// One directory entry: whether it is a regular file, and its length.
pub struct DirEntryInfo {
    pub is_file: bool,
    pub len: u64,
}

/// Total length of the regular files among the entries.
pub open spec fn file_bytes(es: Seq<DirEntryInfo>) -> nat
    decreases es.len(),
{
    if es.len() == 0 {
        0
    } else {
        file_bytes(es.drop_last()) + if es.last().is_file { es.last().len as nat } else { 0 }
    }
}

proof fn lemma_file_bytes_prefix(es: Seq<DirEntryInfo>, i: int)
    requires
        0 <= i <= es.len(),
    ensures
        file_bytes(es.take(i)) <= file_bytes(es),
    decreases es.len() - i,
{
    if i < es.len() {
        lemma_file_bytes_prefix(es, i + 1);
        assert(es.take(i + 1).drop_last() =~= es.take(i));
    } else {
        assert(es.take(i) =~= es);
    }
}

/// The total size of the regular files among a directory's entries
/// (directories and other entries count nothing); `None` when the total
/// does not fit in a `u64`, where summing would overflow.
pub fn total_file_bytes(entries: &Vec<DirEntryInfo>) -> (t: Option<u64>)
    ensures
        match t {
            Some(n) => n == file_bytes(entries@),
            None => file_bytes(entries@) > u64::MAX,
        },
{
    let mut total: u64 = 0;
    let n = entries.len();
    for i in 0..n
        invariant
            n == entries@.len(),
            total == file_bytes(entries@.take(i as int)),
    {
        proof {
            assert(entries@.take(i + 1).drop_last() =~= entries@.take(i as int));
        }
        if entries[i].is_file {
            match total.checked_add(entries[i].len) {
                Some(t) => {
                    total = t;
                },
                None => {
                    proof {
                        lemma_file_bytes_prefix(entries@, i + 1);
                    }
                    return None;
                },
            }
        }
    }
    proof {
        assert(entries@.take(n as int) =~= entries@);
    }
    Some(total)
}

/// Only regular files count: an entry that is not a file adds nothing to the
/// total, a file adds exactly its length, and no entries total nothing.
pub proof fn lemma_file_bytes_counts_files(es: Seq<DirEntryInfo>, e: DirEntryInfo)
    ensures
        file_bytes(Seq::<DirEntryInfo>::empty()) == 0,
        !e.is_file ==> file_bytes(es.push(e)) == file_bytes(es),
        e.is_file ==> file_bytes(es.push(e)) == file_bytes(es) + e.len,
{
    assert(es.push(e).drop_last() =~= es);
}

} // verus!
