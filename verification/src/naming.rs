//! Names for new files and folders: splitting a file name into stem and
//! extension, and finding a name not yet taken ("name (2).txt", ...).

use vstd::prelude::*;
use crate::paths::{joined, path_join};
use crate::text::{
    chars_of, decimal, last_index, lemma_last_index, push_all, push_decimal, push_str, rfind_char,
    slice_chars, string_of,
};

verus! {

/// The stem and extension of a file name: split at its last '.', unless
/// that '.' is the first character or there is none (then no extension).
pub open spec fn stem_ext_spec(f: Seq<char>) -> (Seq<char>, Seq<char>) {
    let k = last_index(f, '.');
    if k > 0 {
        (f.take(k), f.skip(k + 1))
    } else {
        (f, seq![])
    }
}

/// The `n`-th candidate name for a stem and extension: the plain name for
/// 0, "stem (n).ext" for a number, the '.' and extension left out when the
/// extension is empty.
pub open spec fn candidate_spec(stem: Seq<char>, ext: Seq<char>, n: nat) -> Seq<char> {
    let suffix = if n == 0 {
        seq![]
    } else {
        " ("@ + decimal(n) + ")"@
    };
    if ext.len() == 0 {
        stem + suffix
    } else {
        stem + suffix + "."@ + ext
    }
}

/// Splits a file name into stem and extension.
pub fn split_stem_ext(filename: &str) -> (r: (String, String))
    ensures
        (r.0@, r.1@) == stem_ext_spec(filename@),
{
    let f = chars_of(filename);
    match rfind_char(&f, '.') {
        Some(i) if i > 0 => {
            let stem = slice_chars(&f, 0, i);
            let ext = slice_chars(&f, i + 1, f.len());
            assert(stem@ =~= f@.take(i as int));
            assert(ext@ =~= f@.skip(i + 1));
            (string_of(&stem), string_of(&ext))
        },
        _ => (string_of(&f), String::new()),
    }
}

/// The `n`-th candidate name for a stem and extension.
pub fn candidate_name(stem: &str, ext: &str, n: u32) -> (r: String)
    ensures
        r@ == candidate_spec(stem@, ext@, n as nat),
{
    let mut v = chars_of(stem);
    if n != 0 {
        push_str(&mut v, " (");
        push_decimal(&mut v, n as u64);
        push_str(&mut v, ")");
    }
    let e = chars_of(ext);
    if e.len() > 0 {
        push_str(&mut v, ".");
        push_all(&mut v, &e);
    }
    assert(v@ =~= candidate_spec(stem@, ext@, n as nat));
    string_of(&v)
}

/// Splitting a file name and naming its plain candidate gives the name back,
/// unless it ends with a '.' that is not its first character (then the '.' is lost).
pub proof fn lemma_split_then_name(f: Seq<char>)
    requires
        !(last_index(f, '.') > 0 && last_index(f, '.') == f.len() - 1),
    ensures
        candidate_spec(stem_ext_spec(f).0, stem_ext_spec(f).1, 0) == f,
{
    reveal_strlit(".");
    lemma_last_index(f, '.');
    let k = last_index(f, '.');
    if k > 0 {
        let (s, e) = stem_ext_spec(f);
        assert(e.len() > 0);
        assert(s + seq![] + "."@ + e =~= f);
    } else {
        assert(f + seq![] =~= f);
    }
}

/// Whether some string with the text `t` was reported by `query` as `answer`.
pub open spec fn reported<F: Fn(&String) -> bool>(query: F, t: Seq<char>, answer: bool) -> bool {
    exists|s: String| s@ == t && call_ensures(query, (&s,), answer)
}

/// The first candidate name that `taken` reports free: the plain name, then
/// " (2)", " (3)", and so on; the plain name when every candidate is taken.
pub fn unique_name<F: Fn(&String) -> bool>(stem: &str, ext: &str, taken: &F) -> (r: String)
    requires
        forall|s: &String| call_requires(*taken, (s,)),
    ensures
        exists|k: nat|
        {
            &&& (k == 0 || 2 <= k <= u32::MAX)
            &&& r@ == #[trigger] candidate_spec(stem@, ext@, k)
            &&& k > 0 ==> reported(*taken, candidate_spec(stem@, ext@, 0), true)
            &&& forall|j: nat|
                2 <= j < k ==> reported(*taken, #[trigger] candidate_spec(stem@, ext@, j), true)
            &&& (call_ensures(*taken, (&r,), false) || (k == 0 && reported(
                *taken,
                r@,
                true,
            ) && forall|j: nat|
                2 <= j <= u32::MAX ==> reported(
                    *taken,
                    #[trigger] candidate_spec(stem@, ext@, j),
                    true,
                )))
        },
{
    let base = candidate_name(stem, ext, 0);
    if !taken(&base) {
    return base;
    }
    assert(reported(*taken, candidate_spec(stem@, ext@, 0), true));
    let mut i: u32 = 2;
    loop
    invariant
        2 <= i,
        forall|s: &String| call_requires(*taken, (s,)),
        base@ == candidate_spec(stem@, ext@, 0),
        reported(*taken, base@, true),
        forall|j: nat| 2 <= j < i ==> reported(*taken, #[trigger] candidate_spec(stem@, ext@, j), true),
    decreases u32::MAX - i,
    {
    let candidate = candidate_name(stem, ext, i);
    if !taken(&candidate) {
        assert(candidate@ == candidate_spec(stem@, ext@, i as nat));
        return candidate;
    }
    assert(reported(*taken, candidate_spec(stem@, ext@, i as nat), true));
    if i == u32::MAX {
        assert forall|j: nat| 2 <= j <= u32::MAX implies reported(
            *taken,
            #[trigger] candidate_spec(stem@, ext@, j),
            true,
        ) by {
            if j == u32::MAX {
                assert(j == i as nat);
            }
        }
        return base;
    }
    i = i + 1;
    }
}

/// Whether `r` is the path in `dir` that `unique_path` chooses, given what
/// `occupied` reported: the path of the first candidate name that was
/// reported free, each earlier candidate's path having been reported taken,
/// or the plain name's path when every candidate's path was reported taken.
pub open spec fn first_free_path<F: Fn(&String) -> bool>(
    occupied: F,
    dir: Seq<char>,
    stem: Seq<char>,
    ext: Seq<char>,
    r: Seq<char>,
) -> bool {
    exists|k: nat|
        {
            &&& (k == 0 || 2 <= k <= u32::MAX)
            &&& r == joined(dir, #[trigger] candidate_spec(stem, ext, k))
            &&& k > 0 ==> reported(
                occupied,
                joined(dir, candidate_spec(stem, ext, 0)),
                true,
            )
            &&& forall|j: nat|
                2 <= j < k ==> reported(
                    occupied,
                    joined(dir, #[trigger] candidate_spec(stem, ext, j)),
                    true,
                )
            &&& (reported(occupied, r, false) || (k == 0 && reported(occupied, r, true)
                && forall|j: nat|
                2 <= j <= u32::MAX ==> reported(
                    occupied,
                    joined(dir, #[trigger] candidate_spec(stem, ext, j)),
                    true,
                )))
        }
}

/// A path in `dir` for a new item named from `stem` and `ext` that
/// `occupied` does not report taken ("name", "name (2)", ...), as
/// `unique_name` chooses the name (`Path::exists` in the shell): the first
/// candidate whose path `occupied` reports free, or the plain name's path
/// when every candidate's path is reported taken.
pub fn unique_path<F: Fn(&String) -> bool>(dir: &str, stem: &str, ext: &str, occupied: &F) -> (r:
    String)
    requires
        forall|s: &String| call_requires(*occupied, (s,)),
    ensures
        first_free_path(*occupied, dir@, stem@, ext@, r@),
{
    let taken = |name: &String| -> (b: bool)
        requires
            forall|s: &String| call_requires(*occupied, (s,)),
        ensures
            reported(*occupied, joined(dir@, name@), b),
        {
            let p = path_join(dir, name.as_str());
            let b = occupied(&p);
            b
        };
    let name = unique_name(stem, ext, &taken);
    let ghost k: nat = choose|k: nat|
        {
            &&& (k == 0 || 2 <= k <= u32::MAX)
            &&& name@ == #[trigger] candidate_spec(stem@, ext@, k)
            &&& k > 0 ==> reported(taken, candidate_spec(stem@, ext@, 0), true)
            &&& forall|j: nat|
                2 <= j < k ==> reported(taken, #[trigger] candidate_spec(stem@, ext@, j), true)
            &&& (call_ensures(taken, (&name,), false) || (k == 0 && reported(
                taken,
                name@,
                true,
            ) && forall|j: nat|
                2 <= j <= u32::MAX ==> reported(
                    taken,
                    #[trigger] candidate_spec(stem@, ext@, j),
                    true,
                )))
        };
    let r = path_join(dir, name.as_str());
    proof {
        if k > 0 {
            let s0 = choose|s: String| s@ == candidate_spec(stem@, ext@, 0) && call_ensures(taken, (&s,), true);
            assert(reported(*occupied, joined(dir@, s0@), true));
        }
        assert forall|j: nat| 2 <= j < k implies reported(
            *occupied,
            joined(dir@, #[trigger] candidate_spec(stem@, ext@, j)),
            true,
        ) by {
            assert(reported(taken, candidate_spec(stem@, ext@, j), true));
            let s1 = choose|s: String| s@ == candidate_spec(stem@, ext@, j) && call_ensures(taken, (&s,), true);
            assert(reported(*occupied, joined(dir@, s1@), true));
        }
        if call_ensures(taken, (&name,), false) {
            assert(reported(*occupied, r@, false));
        } else {
            let s2 = choose|s: String| s@ == name@ && call_ensures(taken, (&s,), true);
            assert(reported(*occupied, joined(dir@, s2@), true));
            assert forall|j: nat| 2 <= j <= u32::MAX implies reported(
                *occupied,
                joined(dir@, #[trigger] candidate_spec(stem@, ext@, j)),
                true,
            ) by {
                assert(reported(taken, candidate_spec(stem@, ext@, j), true));
                let s3 = choose|s: String| s@ == candidate_spec(stem@, ext@, j) && call_ensures(taken, (&s,), true);
                assert(reported(*occupied, joined(dir@, s3@), true));
            }
        }
        assert(r@ == joined(dir@, candidate_spec(stem@, ext@, k)));
    }
    r
}

/// The contents of a new file: an empty RTF document ("{\rtf1}") for the
/// "rtf" extension, nothing otherwise.
pub fn new_file_content(ext: &str) -> (r: Vec<u8>)
    ensures
        r@ == if ext@ == "rtf"@ {
            seq![123u8, 92u8, 114u8, 116u8, 102u8, 49u8, 125u8]
        } else {
            Seq::<u8>::empty()
        },
{
    if crate::text::same_text(ext, "rtf") {
        let v: Vec<u8> = vec![123u8, 92u8, 114u8, 116u8, 102u8, 49u8, 125u8];
        assert(v@ =~= seq![123u8, 92u8, 114u8, 116u8, 102u8, 49u8, 125u8]);
        v
    } else {
        let v: Vec<u8> = Vec::new();
        assert(v@ =~= Seq::<u8>::empty());
        v
    }
}

} // verus!
