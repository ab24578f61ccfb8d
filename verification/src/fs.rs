//! What the file-system side of the program decides: the drives and cloud
//! folders shown in the sidebar, the entries made of a directory's metadata
//! and their order, and the messages to and from the scanning worker.

use vstd::prelude::*;
use crate::entry::{lowercase_of, to_lowercase, Entry, EntryKind, Stamp};
use crate::order::{is_stable_order, key_views, lemma_sorted_prefix_first, stable_order, SortKey};
use crate::paths::{file_name_of, path_file_name, paths_equal, same_path};
use crate::text::{chars_of, has_prefix, starts_with, string_of};

verus! {

#[derive(Clone, Debug)]
pub struct DriveInfo {
    pub letter: char,
    pub path: String,
    pub free_bytes: u64,
    pub total_bytes: u64,
}

/// A request to the scanning worker: list this directory.
pub enum FsMsg {
    Request(String),
}

/// What the scanning worker answers: the entries of `path`, how long the
/// scan took, and the free space on its drive where known.
pub struct ScanResult {
    pub path: String,
    pub entries: Vec<Entry>,
    pub elapsed_ms: u64,
    pub free_bytes: Option<u64>,
}

/// Whether the bit of drive `i` (0 for A:) is set in a drive mask.
pub open spec fn drive_bit(mask: u32, i: int) -> bool {
    0 <= i < 26 && (mask & (1u32 << (i as u32))) != 0
}

/// The indices below `n` of the drives present in `mask`, in order.
pub open spec fn drive_indices(mask: u32, n: int) -> Seq<int>
    decreases n,
{
    if n <= 0 {
        seq![]
    } else if drive_bit(mask, n - 1) {
        drive_indices(mask, n - 1).push(n - 1)
    } else {
        drive_indices(mask, n - 1)
    }
}

/// The letter of drive `i`: 'A' for 0, 'B' for 1, and so on.
pub open spec fn drive_letter(i: int) -> char {
    ((65 + i) as u8) as char
}

/// The root path of a drive, such as "C:\".
pub open spec fn drive_root(letter: char) -> Seq<char> {
    seq![letter, ':', '\\']
}

/// A drive's free and total bytes from what its space query returned:
/// (0, 0) when the query failed.
pub open spec fn space_or_zero(s: Option<(u64, u64)>) -> (u64, u64) {
    match s {
        Some(p) => p,
        None => (0, 0),
    }
}

/// The drives of the sidebar. With a drive mask (as `GetLogicalDrives`
/// returns it), one drive for each set bit A: to Z:, with the free and total
/// bytes that `space` reports for its root, or zeros where it reports none.
/// Without a mask (a system without drive letters), the single root "/".
pub fn list_drives<F: Fn(&String) -> Option<(u64, u64)>>(mask: Option<u32>, space: &F) -> (r: Vec<
    DriveInfo,
>)
    requires
        forall|p: &String| call_requires(*space, (p,)),
    ensures
        match mask {
            None => r@ == seq![DriveInfo { letter: '/', path: r@[0].path, free_bytes: 0, total_bytes: 0 }]
                && r@[0].path@ == "/"@,
            Some(m) => {
                &&& r@.len() == drive_indices(m, 26).len()
                &&& forall|k: int|
                    #![trigger r@[k]]
                    0 <= k < r@.len() ==> {
                        &&& r@[k].letter == drive_letter(drive_indices(m, 26)[k])
                        &&& r@[k].path@ == drive_root(r@[k].letter)
                        &&& exists|s: Option<(u64, u64)>|
                            call_ensures(*space, (&r@[k].path,), s) && space_or_zero(s) == (
                                r@[k].free_bytes,
                                r@[k].total_bytes,
                            )
                    }
            },
        },
{
    match mask {
        None => {
            let v = vec![DriveInfo { letter: '/', path: string_of(&vec!['/']), free_bytes: 0, total_bytes: 0 }];
            proof {
                reveal_strlit("/");
                assert(v@[0].path@ =~= "/"@);
            }
            v
        },
        Some(m) => {
            let mut drives: Vec<DriveInfo> = Vec::new();
            for i in 0..26u32
                invariant
                    forall|p: &String| call_requires(*space, (p,)),
                    drives@.len() == drive_indices(m, i as int).len(),
                    forall|k: int|
                        #![trigger drives@[k]]
                        0 <= k < drives@.len() ==> {
                            &&& drives@[k].letter == drive_letter(drive_indices(m, i as int)[k])
                            &&& drives@[k].path@ == drive_root(drives@[k].letter)
                            &&& exists|s: Option<(u64, u64)>|
                                call_ensures(*space, (&drives@[k].path,), s) && space_or_zero(s)
                                    == (drives@[k].free_bytes, drives@[k].total_bytes)
                        },
            {
                let ghost before = drives@;
                if m & (1u32 << i) != 0 {
                    let letter = (65u8 + (i as u8)) as char;
                    let path = string_of(&vec![letter, ':', '\\']);
                    let s = space(&path);
                    let (free_bytes, total_bytes) = match s {
                        Some(p) => p,
                        None => (0, 0),
                    };
                    assert(path@ =~= drive_root(letter));
                    assert(letter == drive_letter(i as int));
                    assert(call_ensures(*space, (&path,), s));
                    let ghost new_drive = DriveInfo { letter, path, free_bytes, total_bytes };
                    drives.push(DriveInfo { letter, path, free_bytes, total_bytes });
                    proof {
                        assert(drive_bit(m, i as int));
                        assert(drive_indices(m, i + 1) == drive_indices(m, i as int).push(i as int));
                        assert(drives@[before.len() as int] == new_drive);
                        assert forall|k: int| 0 <= k < drives@.len() implies {
                            &&& #[trigger] drives@[k].letter == drive_letter(drive_indices(m, i + 1)[k])
                            &&& drives@[k].path@ == drive_root(drives@[k].letter)
                            &&& exists|s2: Option<(u64, u64)>|
                                call_ensures(*space, (&drives@[k].path,), s2) && space_or_zero(s2)
                                    == (drives@[k].free_bytes, drives@[k].total_bytes)
                        } by {
                            if k < before.len() {
                                assert(drives@[k] == before[k]);
                                assert(drive_indices(m, i + 1)[k] == drive_indices(m, i as int)[k]);
                                let w = choose|s2: Option<(u64, u64)>|
                                    call_ensures(*space, (&before[k].path,), s2) && space_or_zero(s2)
                                        == (before[k].free_bytes, before[k].total_bytes);
                                assert(call_ensures(*space, (&drives@[k].path,), w));
                            } else {
                                assert(k == before.len());
                                assert(drive_indices(m, i + 1)[k] == i as int);
                                assert(call_ensures(*space, (&drives@[k].path,), s));
                                assert(space_or_zero(s) == (drives@[k].free_bytes, drives@[k].total_bytes));
                            }
                        }
                    }
                } else {
                    assert(drive_indices(m, i + 1) == drive_indices(m, i as int));
                    assert forall|k: int| 0 <= k < drives@.len() implies {
                        &&& #[trigger] drives@[k].letter == drive_letter(drive_indices(m, i + 1)[k])
                        &&& drives@[k].path@ == drive_root(drives@[k].letter)
                        &&& exists|s2: Option<(u64, u64)>|
                            call_ensures(*space, (&drives@[k].path,), s2) && space_or_zero(s2)
                                == (drives@[k].free_bytes, drives@[k].total_bytes)
                    } by {
                        assert(drives@[k] == before[k]);
                        let w = choose|s2: Option<(u64, u64)>|
                            call_ensures(*space, (&before[k].path,), s2) && space_or_zero(s2)
                                == (before[k].free_bytes, before[k].total_bytes);
                        assert(call_ensures(*space, (&drives@[k].path,), w));
                    }
                }
            }
            drives
        },
    }
}

/// The free bytes out of a drive's (free, total) space, where known.
pub fn free_space(space: Option<(u64, u64)>) -> (r: Option<u64>)
    ensures
        r == match space {
            Some((free, _)) => Some(free),
            None => None,
        },
{
    match space {
        Some((free, _)) => Some(free),
        None => None,
    }
}

/// Whether a file is a cloud placeholder whose data is not on disk: its
/// attributes carry RECALL_ON_OPEN (0x0004_0000) or
/// RECALL_ON_DATA_ACCESS (0x0040_0000).
pub fn is_cloud_only_file(attrs: u32) -> (r: bool)
    ensures
        r == ((attrs & 0x0004_0000) != 0 || (attrs & 0x0040_0000) != 0),
{
    (attrs & 0x0004_0000) != 0 || (attrs & 0x0040_0000) != 0
}

/// A sidebar entry for the folder `p`: named by its final component, or
/// `fallback` where it has none.
pub open spec fn onedrive_entry(e: (String, String), p: String, fallback: Seq<char>) -> bool {
    &&& e.1 == p
    &&& e.0@ == match file_name_of(p@) {
        Some(n) => n,
        None => fallback,
    }
}

/// The OneDrive folders of the sidebar, named by their final component
/// ("OneDrive" / "OneDrive for Business" when they have none). `personal`
/// and `business` are the folders named by the environment that exist;
/// the business folder is left out where it is the personal one.
pub fn list_onedrive_paths(personal: Option<String>, business: Option<String>) -> (r: Vec<
    (String, String),
>)
    ensures
        r@.len() <= 2,
        match (personal, business) {
            (Some(p), Some(b)) => if paths_equal(p@, b@) {
                r@.len() == 1 && onedrive_entry(r@[0], p, "OneDrive"@)
            } else {
                &&& r@.len() == 2
                &&& onedrive_entry(r@[0], p, "OneDrive"@)
                &&& onedrive_entry(r@[1], b, "OneDrive for Business"@)
            },
            (Some(p), None) => r@.len() == 1 && onedrive_entry(r@[0], p, "OneDrive"@),
            (None, Some(b)) => r@.len() == 1 && onedrive_entry(
                r@[0],
                b,
                "OneDrive for Business"@,
            ),
            (None, None) => r@.len() == 0,
        },
        personal is Some && business is Some && personal.unwrap()@ == business.unwrap()@
            ==> r@.len() == 1,
{
    let mut paths: Vec<(String, String)> = Vec::new();
    if let Some(p) = personal {
        let name = match path_file_name(p.as_str()) {
            Some(n) => n,
            None => "OneDrive".to_string(),
        };
        paths.push((name, p));
    }
    if let Some(p) = business {
        let duplicate = paths.len() > 0 && same_path(paths[0].1.as_str(), p.as_str());
        if !duplicate {
            let name = match path_file_name(p.as_str()) {
                Some(n) => n,
                None => "OneDrive for Business".to_string(),
            };
            paths.push((name, p));
        }
    }
    paths
}

/// The entry made of what a directory listing reports: folders and links
/// have no size; a file has its length, or 0 when only a cloud placeholder
/// is on disk; names starting with '.' are hidden.
pub fn entry_from_metadata(
    name: String,
    path: String,
    is_dir: bool,
    is_symlink: bool,
    len: u64,
    is_cloud_only: bool,
    modified: Option<Stamp>,
) -> (e: Entry)
    ensures
        e.name == name,
        e.path == path,
        e.kind == if is_dir {
            EntryKind::Dir
        } else if is_symlink {
            EntryKind::Symlink
        } else {
            EntryKind::File
        },
        e.size == if e.kind == EntryKind::File && !is_cloud_only {
            Some(len)
        } else if e.kind == EntryKind::File {
            Some(0u64)
        } else {
            None
        },
        e.modified == modified,
        e.is_hidden == has_prefix(name@, "."@),
        e.is_cloud_only == is_cloud_only,
{
    let kind = if is_dir {
        EntryKind::Dir
    } else if is_symlink {
        EntryKind::Symlink
    } else {
        EntryKind::File
    };
    let size = if kind == EntryKind::File && !is_cloud_only {
        Some(len)
    } else if kind == EntryKind::File {
        Some(0)
    } else {
        None
    };
    let is_hidden = starts_with(&chars_of(name.as_str()), ".");
    Entry { name, path, kind, size, modified, is_hidden, is_cloud_only }
}

/// The rank of an entry in the listing: folders (0) before the rest (1).
pub open spec fn kind_rank(k: EntryKind) -> u8 {
    if k == EntryKind::Dir {
        0
    } else {
        1
    }
}

/// The sort keys of entries: rank, then the lower-case name.
pub open spec fn entry_keys(entries: Seq<Entry>) -> Seq<SortKey> {
    entries.map_values(|e: Entry| (kind_rank(e.kind), lowercase_of(e.name@)))
}

/// In a listing put in order as `sort_entries` does, an entry never comes
/// after one of the same rank (both folders, or both not) whose lower-case
/// name is a proper prefix of its own lower-case name.
pub proof fn lemma_listing_prefix_first(
    entries: Seq<Entry>,
    r: Seq<Entry>,
    perm: Seq<usize>,
    i: int,
    j: int,
    s: Seq<char>,
)
    requires
        is_stable_order(entry_keys(entries), perm),
        r.len() == perm.len(),
        forall|k: int| 0 <= k < r.len() ==> r[k] == entries[perm[k] as int],
        0 <= i < j < r.len(),
        kind_rank(r[i].kind) == kind_rank(r[j].kind),
        s.len() > 0,
    ensures
        lowercase_of(r[i].name@) != lowercase_of(r[j].name@) + s,
{
    let keys = entry_keys(entries);
    assert(keys[perm[i] as int] == (kind_rank(r[i].kind), lowercase_of(r[i].name@)));
    assert(keys[perm[j] as int] == (kind_rank(r[j].kind), lowercase_of(r[j].name@)));
    lemma_sorted_prefix_first(keys, perm, i, j, s);
}

/// Sorts the entries of a directory: folders first, then by lower-case
/// name; entries with equal keys keep their order (a stable sort).
pub fn sort_entries(entries: Vec<Entry>) -> (r: Vec<Entry>)
    ensures
        exists|perm: Seq<usize>|
            {
                &&& is_stable_order(entry_keys(entries@), perm)
                &&& r@.len() == perm.len()
                &&& forall|i: int| 0 <= i < r@.len() ==> r@[i] == entries@[perm[i] as int]
            },
{
    let n = entries.len();
    let mut keys: Vec<(u8, Vec<char>)> = Vec::new();
    for i in 0..n
        invariant
            n == entries.len(),
            keys@.len() == i,
            forall|k: int|
                0 <= k < i ==> key_views(keys@)[k] == entry_keys(entries@)[k],
    {
        let e = &entries[i];
        let rank: u8 = if e.kind == EntryKind::Dir {
            0
        } else {
            1
        };
        let lower = to_lowercase(e.name.as_str());
        let name = chars_of(lower.as_str());
        let ghost before = keys@;
        keys.push((rank, name));
        proof {
            assert forall|k: int| 0 <= k < i + 1 implies key_views(keys@)[k] == entry_keys(
                entries@,
            )[k] by {
                if k < i {
                    assert(keys@[k] == before[k]);
                }
            }
        }
    }
    assert(key_views(keys@) =~= entry_keys(entries@));
    let perm = stable_order(&keys);
    let mut r: Vec<Entry> = Vec::new();
    for j in 0..n
        invariant
            n == entries.len(),
            perm@.len() == n,
            is_stable_order(entry_keys(entries@), perm@),
            r@.len() == j,
            forall|i: int| 0 <= i < j ==> r@[i] == entries@[perm@[i] as int],
    {
        let e = entries[perm[j]].duplicate();
        r.push(e);
    }
    r
}

} // verus!
