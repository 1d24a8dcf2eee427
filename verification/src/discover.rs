//! Discovery of event-log files in one directory.
//!
//! The application enumerates the directory (a single level, never
//! recursively) and hands the library one [`ScanEntry`] per entry, in
//! enumeration order. The library keeps exactly the regular files whose
//! leading bytes match the signature; directories, entries whose bytes could
//! not be read, and non-matching files are skipped and never abort the scan.

use vstd::prelude::*;
use crate::signature::{spec_sig_matches, SignatureRule};

verus! {

/// One directory entry as the scan sees it.
pub struct ScanEntry {
    /// Path of the entry.
    pub path: String,
    /// Whether the entry is a regular file.
    pub is_file: bool,
    /// The file's leading bytes, when they could be read.
    pub head: Option<Vec<u8>>,
}

/// Whether one entry passes the scan: a regular file whose leading bytes
/// were readable and match the signature.
pub open spec fn spec_entry_passes(e: ScanEntry, magic: Seq<u8>) -> bool {
    &&& e.is_file
    &&& e.head matches Some(h) && spec_sig_matches(magic, h@)
}

/// The paths of the entries that pass the scan, in enumeration order.
pub open spec fn spec_discover(entries: Seq<ScanEntry>, magic: Seq<u8>) -> Seq<String>
    decreases entries.len(),
{
    if entries.len() == 0 {
        Seq::empty()
    } else {
        spec_discover(entries.drop_last(), magic) + if spec_entry_passes(entries.last(), magic) {
            seq![entries.last().path]
        } else {
            Seq::empty()
        }
    }
}

/// Classifies one entry.
pub fn entry_passes(e: &ScanEntry, rule: &SignatureRule) -> (r: bool)
    ensures
        r == spec_entry_passes(*e, rule.magic@),
{
    if !e.is_file {
        return false;
    }
    match &e.head {
        Option::Some(h) => rule.matches(h.as_slice()),
        Option::None => false,
    }
}

/// Discovers the event-log files among the entries of one directory scan:
/// exactly the regular files whose leading bytes match `rule`, in the order
/// the scan handed them over.
pub fn find_event_logs(entries: Vec<ScanEntry>, rule: &SignatureRule) -> (r: Vec<String>)
    ensures
        r@ == spec_discover(entries@, rule.magic@),
{
    let ghost orig = entries@;
    let mut entries = entries;
    let mut r: Vec<String> = Vec::new();
    let ghost j: int = 0;
    proof {
        assert(orig.take(0) =~= Seq::<ScanEntry>::empty());
        assert(entries@ =~= orig.skip(0));
    }
    while entries.len() > 0
        invariant
            0 <= j <= orig.len(),
            entries@ == orig.skip(j),
            r@ == spec_discover(orig.take(j), rule.magic@),
        decreases entries@.len(),
    {
        proof {
            assert(orig.take(j + 1).drop_last() =~= orig.take(j));
            assert(orig.take(j + 1).last() == orig[j]);
            assert(entries@[0] == orig[j]);
        }
        let e = entries.remove(0);
        proof {
            assert(entries@ =~= orig.skip(j + 1));
        }
        if entry_passes(&e, rule) {
            r.push(e.path);
            proof {
                assert(r@ =~= spec_discover(orig.take(j + 1), rule.magic@));
            }
        } else {
            proof {
                assert(r@ =~= spec_discover(orig.take(j + 1), rule.magic@));
            }
        }
        proof {
            j = j + 1;
        }
    }
    proof {
        assert(orig.take(orig.len() as int) =~= orig);
    }
    r
}

/// Discovery is exact: a path is in the result precisely when some scan
/// entry carries it, is a regular file, and its leading bytes match — no
/// false positive and no false negative, whatever the other entries look
/// like.
pub proof fn lemma_discovery_exact(entries: Seq<ScanEntry>, magic: Seq<u8>, p: String)
    ensures
        spec_discover(entries, magic).contains(p) <==> exists|k: int|
            0 <= k < entries.len() && entries[k].path == p && spec_entry_passes(
                entries[k],
                magic,
            ),
    decreases entries.len(),
{
    if entries.len() > 0 {
        let d = entries.drop_last();
        let last = entries.last();
        lemma_discovery_exact(d, magic, p);
        let a = spec_discover(d, magic);
        let whole = spec_discover(entries, magic);
        if whole.contains(p) {
            let i = choose|i: int| 0 <= i < whole.len() && whole[i] == p;
            if i < a.len() {
                assert(a[i] == p);
                assert(a.contains(p));
            } else {
                assert(spec_entry_passes(last, magic));
                assert(whole[i] == last.path);
                assert(entries[entries.len() - 1] == last);
            }
        }
        if exists|k: int|
            0 <= k < entries.len() && entries[k].path == p && spec_entry_passes(
                entries[k],
                magic,
            ) {
            let k = choose|k: int|
                0 <= k < entries.len() && entries[k].path == p && spec_entry_passes(
                    entries[k],
                    magic,
                );
            if k < entries.len() - 1 {
                assert(d[k] == entries[k]);
                assert(a.contains(p));
                let i = choose|i: int| 0 <= i < a.len() && a[i] == p;
                assert(whole[i] == p);
                assert(whole.contains(p));
            } else {
                assert(spec_entry_passes(last, magic));
                assert(whole[a.len() as int] == last.path);
                assert(whole.contains(p));
            }
        }
    }
}

} // verus!
