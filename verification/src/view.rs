//! What the two views show and how they answer clicks: which entries are
//! listed, shortened names, the preview, the breadcrumb, the status line.

use vstd::prelude::*;
use crate::entry::{
    ext_key, extension_key, lemma_ext_key_after_last_dot, lowercase_of, to_lowercase, Entry, EntryKind,
};
use crate::icons;
use crate::paths::{
    components_of, joined, parent_of, part_views, path_components, path_join, path_parent, PartKind,
};
use crate::sizes::{push_scaled, scaled_text};
use crate::text::{
    chars_of, contains_chars, occurs_in, decimal, lines, lines_of, push_decimal, push_str, same_text, slice_chars, string_of,
    views,
};

verus! {

/// Whether `name` matches the search text `query`: the lower-case query
/// occurs in the lower-case name (the empty query matches every name).
pub open spec fn matches_query(name: Seq<char>, query: Seq<char>) -> bool {
    occurs_in(lowercase_of(query), lowercase_of(name))
}

/// Whether an entry is listed: it is not hidden or hidden entries are
/// shown, and its name matches the search text.
pub open spec fn shown(e: Entry, show_hidden: bool, query: Seq<char>) -> bool {
    (show_hidden || !e.is_hidden) && matches_query(e.name@, query)
}

/// The entries listed, in their order.
pub open spec fn visible_spec(entries: Seq<Entry>, show_hidden: bool, query: Seq<char>) -> Seq<
    Entry,
> {
    entries.filter(|e: Entry| shown(e, show_hidden, query))
}

/// The positions in `entries` of the entries listed, in their order.
pub open spec fn visible_index_spec(entries: Seq<Entry>, show_hidden: bool, query: Seq<char>) -> Seq<
    usize,
> {
    Seq::new(entries.len(), |k: int| k as usize).filter(
        |k: usize| shown(entries[k as int], show_hidden, query),
    )
}

/// Whether `e` is listed, `q` being the lower-case search text.
fn is_shown(e: &Entry, show_hidden: bool, query: &str, q: &Vec<char>) -> (r: bool)
    requires
        q@ == lowercase_of(query@),
    ensures
        r == shown(*e, show_hidden, query@),
{
    if !show_hidden && e.is_hidden {
        return false;
    }
    let name = chars_of(&to_lowercase(e.name.as_str()));
    contains_chars(&name, q)
}

/// The entries the list shows: those not hidden (or all, where hidden
/// entries are shown) whose names hold the search text, ignoring case.
pub fn visible_entries(entries: &Vec<Entry>, show_hidden: bool, query: &str) -> (r: Vec<Entry>)
    ensures
        r@ == visible_spec(entries@, show_hidden, query@),
{
    let q = chars_of(&to_lowercase(query));
    let mut out: Vec<Entry> = Vec::new();
    let n = entries.len();
    for i in 0..n
        invariant
            n == entries.len(),
            q@ == lowercase_of(query@),
            out@ == visible_spec(entries@.take(i as int), show_hidden, query@),
    {
        proof {
            assert(entries@.take(i + 1).drop_last() =~= entries@.take(i as int));
            reveal_with_fuel(Seq::<_>::filter, 1);
        }
        if is_shown(&entries[i], show_hidden, query, &q) {
            out.push(entries[i].duplicate());
        }
    }
    assert(entries@.take(n as int) =~= entries@);
    out
}

/// Where in `entries` the rows of the list stand: the position of each
/// listed entry, in order. Selections and the preview hold these positions,
/// so that they name the same entries whatever is filtered out.
pub fn visible_indices(entries: &Vec<Entry>, show_hidden: bool, query: &str) -> (r: Vec<usize>)
    ensures
        r@ == visible_index_spec(entries@, show_hidden, query@),
        forall|k: int| 0 <= k < r@.len() ==> r@[k] < entries@.len(),
        forall|a: int, b: int| 0 <= a < b < r@.len() ==> r@[a] < r@[b],
{
    let q = chars_of(&to_lowercase(query));
    let mut out: Vec<usize> = Vec::new();
    let n = entries.len();
    let ghost all = Seq::new(n as nat, |k: int| k as usize);
    let ghost pred = |k: usize| shown(entries@[k as int], show_hidden, query@);
    for i in 0..n
        invariant
            n == entries.len(),
            all == Seq::new(n as nat, |k: int| k as usize),
            pred == (|k: usize| shown(entries@[k as int], show_hidden, query@)),
            q@ == lowercase_of(query@),
            out@ == all.take(i as int).filter(pred),
            forall|k: int| 0 <= k < out@.len() ==> out@[k] < i,
            forall|a: int, b: int| 0 <= a < b < out@.len() ==> out@[a] < out@[b],
    {
        proof {
            assert(all.take(i + 1).drop_last() =~= all.take(i as int));
            reveal_with_fuel(Seq::<_>::filter, 1);
            assert(all.take(i + 1).last() == i);
        }
        if is_shown(&entries[i], show_hidden, query, &q) {
            out.push(i);
        }
    }
    assert(all.take(n as int) =~= all);
    assert(all =~= Seq::new(entries@.len(), |k: int| k as usize));
    out
}

/// Filtering by two tests that agree on every element gives the same.
proof fn lemma_filter_agree<A>(s: Seq<A>, p: spec_fn(A) -> bool, q: spec_fn(A) -> bool)
    requires
        forall|i: int| 0 <= i < s.len() ==> p(s[i]) == q(s[i]),
    ensures
        s.filter(p) == s.filter(q),
    decreases s.len(),
{
    reveal_with_fuel(Seq::<_>::filter, 1);
    if s.len() > 0 {
        let d = s.drop_last();
        assert forall|i: int| 0 <= i < d.len() implies p(d[i]) == q(d[i]) by {
            assert(d[i] == s[i]);
        }
        lemma_filter_agree(d, p, q);
    }
}

/// The rows of the list are the listed entries, in their order: the
/// entries at the listed positions are exactly the entries listed.
pub proof fn lemma_rows_are_listed_entries(entries: Seq<Entry>, show_hidden: bool, query: Seq<char>)
    requires
        entries.len() <= usize::MAX,
    ensures
        visible_spec(entries, show_hidden, query) == visible_index_spec(
            entries,
            show_hidden,
            query,
        ).map_values(|k: usize| entries[k as int]),
    decreases entries.len(),
{
    reveal_with_fuel(Seq::<_>::filter, 1);
    let n = entries.len();
    let g = |k: usize| entries[k as int];
    if n == 0 {
        assert(visible_index_spec(entries, show_hidden, query) =~= Seq::<usize>::empty());
        assert(visible_spec(entries, show_hidden, query) =~= Seq::<Entry>::empty());
    } else {
        let d = entries.drop_last();
        lemma_rows_are_listed_entries(d, show_hidden, query);
        let gd = |k: usize| d[k as int];
        let all = Seq::new(n, |k: int| k as usize);
        let alld = Seq::new(d.len(), |k: int| k as usize);
        let p = |k: usize| shown(entries[k as int], show_hidden, query);
        let pd = |k: usize| shown(d[k as int], show_hidden, query);
        assert(all.drop_last() =~= alld);
        assert forall|i: int| 0 <= i < alld.len() implies p(alld[i]) == pd(alld[i]) by {
            assert(alld[i] == i as usize);
            assert(d[i] == entries[i]);
        }
        lemma_filter_agree(alld, p, pd);
        let fd = alld.filter(pd);
        assert(fd == visible_index_spec(d, show_hidden, query));
        assert forall|i: int| 0 <= i < fd.len() implies #[trigger] fd[i] < d.len() by {
            alld.lemma_filter_pred(pd, i);
            assert(fd.contains(fd[i]));
            alld.lemma_filter_contains_rev(pd, fd[i]);
        }
        assert(fd.map_values(g) =~= fd.map_values(gd)) by {
            assert forall|i: int| 0 <= i < fd.len() implies fd.map_values(g)[i] == fd.map_values(gd)[i] by {
                assert(fd[i] < d.len());
                assert(d[fd[i] as int] == entries[fd[i] as int]);
            }
        }
        assert(all.last() == (n - 1) as usize);
        assert(entries.drop_last() == d);
        if p((n - 1) as usize) {
            assert(all.filter(p) == fd.push((n - 1) as usize));
            assert(fd.push((n - 1) as usize).map_values(g) =~= fd.map_values(g).push(entries.last()));
        } else {
            assert(all.filter(p) == fd);
        }
    }
}

/// Whether the lower-case `query` occurs as a run of characters in the
/// lower-case `name`.
pub open spec fn name_holds_query(name: Seq<char>, query: Seq<char>) -> bool {
    let n = lowercase_of(name);
    let q = lowercase_of(query);
    exists|i: int| 0 <= i && i + q.len() <= n.len() && #[trigger] n.subrange(i, i + q.len()) == q
}

/// An entry is listed exactly when it is among the entries, it is not
/// hidden (or hidden entries are shown), and the lower-case search text
/// occurs in its lower-case name; its path plays no part.
pub proof fn lemma_listed_entries(entries: Seq<Entry>, show_hidden: bool, query: Seq<char>, e: Entry)
    ensures
        visible_spec(entries, show_hidden, query).contains(e) <==> (entries.contains(e) && (
        show_hidden || !e.is_hidden) && name_holds_query(e.name@, query)),
{
    let pred = |x: Entry| shown(x, show_hidden, query);
    let f = entries.filter(pred);
    if f.contains(e) {
        entries.lemma_filter_contains_rev(pred, e);
        let j = choose|j: int| 0 <= j < f.len() && f[j] == e;
        entries.lemma_filter_pred(pred, j);
    }
    if entries.contains(e) && (show_hidden || !e.is_hidden) && name_holds_query(e.name@, query) {
        let k = choose|k: int| 0 <= k < entries.len() && entries[k] == e;
        entries.lemma_filter_contains(pred, k);
    }
}

/// A position is among the rows exactly when it is a position of the
/// entries (as many as a `Vec` can hold) whose entry is not hidden (or hidden entries are shown) and
/// holds the lower-case search text in its lower-case name.
pub proof fn lemma_listed_indices(entries: Seq<Entry>, show_hidden: bool, query: Seq<char>, k: usize)
    requires
        entries.len() <= usize::MAX,
    ensures
        visible_index_spec(entries, show_hidden, query).contains(k) <==> (k < entries.len() && (
        show_hidden || !entries[k as int].is_hidden) && name_holds_query(
            entries[k as int].name@,
            query,
        )),
{
    let all = Seq::new(entries.len(), |j: int| j as usize);
    let pred = |j: usize| shown(entries[j as int], show_hidden, query);
    let f = all.filter(pred);
    if f.contains(k) {
        all.lemma_filter_contains_rev(pred, k);
        let j = choose|j: int| 0 <= j < f.len() && f[j] == k;
        all.lemma_filter_pred(pred, j);
        let m = choose|m: int| 0 <= m < all.len() && all[m] == k;
        assert(k as int == m);
    }
    if k < entries.len() && (show_hidden || !entries[k as int].is_hidden) && name_holds_query(
        entries[k as int].name@,
        query,
    ) {
        assert(all[k as int] == k);
        all.lemma_filter_contains(pred, k as int);
    }
}

/// The paths that "delete" on the row of entry `i` acts on: every selected
/// entry that exists where that row was drawn selected and several entries
/// are selected, otherwise entry `i` alone.
pub open spec fn delete_targets_spec(
    visible: Seq<Entry>,
    selection: Seq<usize>,
    i: int,
    row_selected: bool,
) -> Seq<String> {
    if row_selected && selection.len() > 1 {
        selection.filter(|j: usize| j < visible.len()).map_values(|j: usize| visible[j as int].path)
    } else {
        seq![visible[i].path]
    }
}

/// The paths a delete from the context menu of the row of entry `i` acts
/// on, selections holding positions in `visible` (the pane's entries);
/// `row_selected` tells whether the row was drawn selected.
pub fn delete_targets(visible: &Vec<Entry>, selection: &Vec<usize>, i: usize, row_selected: bool) -> (r:
    Vec<String>)
    requires
        i < visible.len(),
    ensures
        r@ == delete_targets_spec(visible@, selection@, i as int, row_selected),
{
    if row_selected && selection.len() > 1 {
        let mut out: Vec<String> = Vec::new();
        let n = selection.len();
        for k in 0..n
            invariant
                n == selection.len(),
                out@ == selection@.take(k as int).filter(|j: usize| j < visible.len()).map_values(
                    |j: usize| visible@[j as int].path,
                ),
        {
            proof {
                assert(selection@.take(k + 1).drop_last() =~= selection@.take(k as int));
                reveal_with_fuel(Seq::<_>::filter, 1);
            }
            let j = selection[k];
            if j < visible.len() {
                let ghost before = out@;
                out.push(visible[j].path.clone());
                assert(out@ =~= before.push(visible@[j as int].path));
            }
            assert(out@ =~= selection@.take(k + 1).filter(|j: usize| j < visible.len()).map_values(
                |j: usize| visible@[j as int].path,
            ));
        }
        assert(selection@.take(n as int) =~= selection@);
        out
    } else {
        let v = vec![visible[i].path.clone()];
        assert(v@ =~= seq![visible@[i as int].path]);
        v
    }
}

/// The glyph of a quick-access entry by its name.
pub open spec fn quick_access_icon_spec(name: Seq<char>) -> char {
    if name == "Home"@ {
        icons::HOME
    } else if name == "Downloads"@ {
        icons::DOWNLOAD
    } else if name == "Desktop"@ {
        icons::STAR
    } else {
        icons::FOLDER
    }
}

pub fn quick_access_icon(name: &str) -> (c: char)
    ensures
        c == quick_access_icon_spec(name@),
{
    if same_text(name, "Home") {
        icons::HOME
    } else if same_text(name, "Downloads") {
        icons::DOWNLOAD
    } else if same_text(name, "Desktop") {
        icons::STAR
    } else {
        icons::FOLDER
    }
}

/// A text cut to `keep` characters and an ellipsis when it has more than `max`.
pub open spec fn shortened(s: Seq<char>, max: nat, keep: nat) -> Seq<char> {
    if s.len() > max {
        s.take(keep as int) + seq!['…']
    } else {
        s
    }
}

fn shorten(s: &str, max: usize, keep: usize) -> (r: String)
    requires
        keep <= max,
    ensures
        r@ == shortened(s@, max as nat, keep as nat),
{
    let chars = chars_of(s);
    if chars.len() > max {
        let mut v = slice_chars(&chars, 0, keep);
        v.push('…');
        assert(v@ =~= shortened(s@, max as nat, keep as nat));
        string_of(&v)
    } else {
        string_of(&chars)
    }
}

/// A name in the list: over 28 characters, its first 26 and an ellipsis.
pub fn truncate_str(s: &str) -> (r: String)
    ensures
        r@ == shortened(s@, 28, 26),
{
    shorten(s, 28, 26)
}

/// A name under a tile: over 14 characters, its first 12 and an ellipsis.
pub fn tile_label(name: &str) -> (r: String)
    ensures
        r@ == shortened(name@, 14, 12),
{
    shorten(name, 14, 12)
}

/// Whether an extension is one whose files the preview shows as text.
pub open spec fn is_text_ext(ext: Seq<char>) -> bool {
    ext == "rs"@ || ext == "toml"@ || ext == "md"@ || ext == "txt"@ || ext == "json"@ || ext
        == "yaml"@ || ext == "yml"@ || ext == "lock"@
}

/// Whether a lower-case extension is one of the text types.
pub fn text_extension(ext: &str) -> (r: bool)
    ensures
        r == is_text_ext(ext@),
{
    same_text(ext, "rs") || same_text(ext, "toml") || same_text(ext, "md") || same_text(ext, "txt")
        || same_text(ext, "json") || same_text(ext, "yaml") || same_text(ext, "yml") || same_text(
        ext,
        "lock",
    )
}

/// Whether the preview shows the start of the entry as text: a file with
/// a text extension.
pub fn is_text_preview(entry: &Entry) -> (r: bool)
    ensures
        r == (is_text_ext(ext_key(entry.name@)) && entry.kind == EntryKind::File),
{
    let ext = extension_key(entry.name.as_str());
    text_extension(ext.as_str()) && entry.kind == EntryKind::File
}

/// The text types are exactly rs, toml, md, txt, json, yaml, yml and lock.
pub proof fn lemma_text_extensions(ext: Seq<char>)
    ensures
        is_text_ext(ext) <==> (ext == "rs"@ || ext == "toml"@ || ext == "md"@ || ext == "txt"@
            || ext == "json"@ || ext == "yaml"@ || ext == "yml"@ || ext == "lock"@),
{
}

/// A file named `s.e`, where `e` holds no '.', is previewed as text
/// exactly when `e`, lower-cased, is one of rs, toml, md, txt, json, yaml,
/// yml and lock; nothing but a file is.
pub proof fn lemma_text_preview_by_name(s: Seq<char>, e: Seq<char>, kind: EntryKind)
    requires
        !e.contains('.'),
    ensures
        (is_text_ext(ext_key(s + "."@ + e)) && kind == EntryKind::File) <==> (kind
            == EntryKind::File && ({
            let x = lowercase_of(e);
            x == "rs"@ || x == "toml"@ || x == "md"@ || x == "txt"@ || x == "json"@ || x
                == "yaml"@ || x == "yml"@ || x == "lock"@
        })),
{
    lemma_ext_key_after_last_dot(s, e);
}

/// The first `max` lines of a text (`lines().take(max)`).
pub fn first_lines(text: &str, max: usize) -> (r: Vec<String>)
    ensures
        views(r@) == if lines_of(text@).len() > max {
            lines_of(text@).take(max as int)
        } else {
            lines_of(text@)
        },
{
    let all = lines(text);
    let mut out: Vec<String> = Vec::new();
    let n = if all.len() > max {
        max
    } else {
        all.len()
    };
    for i in 0..n
        invariant
            n <= all.len(),
            views(out@) == views(all@).take(i as int),
    {
        let ghost before = out@;
        out.push(all[i].clone());
        assert(out@ =~= before.push(all@[i as int]));
        assert(views(out@) =~= views(before).push(all@[i as int]@));
        assert(views(out@) =~= views(all@).take(i + 1));
    }
    assert(views(all@).take(n as int) =~= (if lines_of(text@).len() > max {
        lines_of(text@).take(max as int)
    } else {
        lines_of(text@)
    }));
    out
}

/// The right end of the status bar: the free space in GB, rounded, then
/// how long the last scan took; "Scanning…" before a scan has finished.
pub open spec fn scan_status_spec(scan_time_ms: Option<u64>, free_bytes: Option<u64>) -> Seq<char> {
    match scan_time_ms {
        Some(ms) => {
            let free = match free_bytes {
                Some(b) => scaled_text(b as nat, 30, 0) + " GB free"@,
                None => seq![],
            };
            free + " "@ + seq![icons::BOLT] + "indexed in "@ + decimal(ms as nat) + " ms"@
        },
        None => "Scanning…"@,
    }
}

pub fn scan_status_text(scan_time_ms: Option<u64>, free_bytes: Option<u64>) -> (r: String)
    ensures
        r@ == scan_status_spec(scan_time_ms, free_bytes),
{
    let mut v: Vec<char> = Vec::new();
    match scan_time_ms {
        Some(ms) => {
            match free_bytes {
                Some(b) => {
                    push_scaled(&mut v, b, 30, 0);
                    push_str(&mut v, " GB free");
                },
                None => {},
            }
            push_str(&mut v, " ");
            v.push(icons::BOLT);
            push_str(&mut v, "indexed in ");
            push_decimal(&mut v, ms);
            push_str(&mut v, " ms");
        },
        None => {
            push_str(&mut v, "Scanning…");
        },
    }
    assert(v@ =~= scan_status_spec(scan_time_ms, free_bytes));
    string_of(&v)
}

/// How many leading parts of a path the breadcrumb hides behind "…": all
/// but the last four.
pub fn breadcrumb_skip(parts: usize) -> (r: usize)
    ensures
        r == if parts > 4 {
            parts - 4
        } else {
            0
        },
{
    if parts > 4 {
        parts - 4
    } else {
        0
    }
}

/// The free and the total space of a drive as the sidebar shows them, in
/// whole GB (2^30 bytes): "free GB / total GB".
pub fn drive_space_text(free_bytes: u64, total_bytes: u64) -> (r: String)
    ensures
        r@ == scaled_text(free_bytes as nat, 30, 0) + " GB / "@ + scaled_text(
            total_bytes as nat,
            30,
            0,
        ) + " GB"@,
{
    let mut v: Vec<char> = Vec::new();
    push_scaled(&mut v, free_bytes, 30, 0);
    push_str(&mut v, " GB / ");
    push_scaled(&mut v, total_bytes, 30, 0);
    push_str(&mut v, " GB");
    proof {
        assert(v@ =~= scaled_text(free_bytes as nat, 30, 0) + " GB / "@ + scaled_text(
            total_bytes as nat,
            30,
            0,
        ) + " GB"@);
    }
    string_of(&v)
}

/// The path made by pushing the first `k` components onto an empty path.
pub open spec fn crumb_target(parts: Seq<(PartKind, Seq<char>)>, k: int) -> Seq<char>
    decreases k,
{
    if k <= 0 {
        Seq::empty()
    } else {
        joined(crumb_target(parts, k - 1), parts[k - 1].1)
    }
}

/// The label of component `k` in the breadcrumb: the root as the path up to
/// it ("C:\" on Windows), a name as itself; other components get none.
pub open spec fn crumb_label(parts: Seq<(PartKind, Seq<char>)>, k: int) -> Option<Seq<char>> {
    match parts[k].0 {
        PartKind::Root => Some(crumb_target(parts, k + 1)),
        PartKind::Name => Some(parts[k].1),
        _ => None,
    }
}

/// Whether component `k` is shown: it is not hidden behind "…" and has a
/// label.
pub open spec fn crumb_shown(parts: Seq<(PartKind, Seq<char>)>, k: int) -> bool {
    k >= (if parts.len() > 4 { parts.len() - 4 } else { 0 }) && crumb_label(parts, k) is Some
}

/// The breadcrumb of a path with the components `parts`: for each shown
/// component its label, the path up to it (where a click leads), and
/// whether it is the last component.
pub open spec fn breadcrumb_spec(parts: Seq<(PartKind, Seq<char>)>) -> Seq<
    (Seq<char>, Seq<char>, bool),
> {
    Seq::new(parts.len(), |k: int| k).filter(|k: int| crumb_shown(parts, k)).map_values(
        |k: int| (crumb_label(parts, k).unwrap(), crumb_target(parts, k + 1), k == parts.len() - 1),
    )
}

/// A breadcrumb by its texts.
pub open spec fn crumb_views(v: Seq<(String, String, bool)>) -> Seq<(Seq<char>, Seq<char>, bool)> {
    v.map_values(|c: (String, String, bool)| (c.0@, c.1@, c.2))
}

/// The breadcrumb of `path`, after the parts hidden behind "…": each shown
/// part's label, the path a click on it leads to, and whether it is the
/// last part.
pub fn breadcrumb(path: &str) -> (r: Vec<(String, String, bool)>)
    ensures
        crumb_views(r@) == breadcrumb_spec(components_of(path@)),
{
    let parts = path_components(path);
    let ghost ps = part_views(parts@);
    let n = parts.len();
    let skip = breadcrumb_skip(n);
    let mut out: Vec<(String, String, bool)> = Vec::new();
    let mut cum = String::new();
    let ghost idx = Seq::new(n as nat, |k: int| k);
    let ghost pred = |k: int| crumb_shown(ps, k);
    let ghost f = |k: int| (crumb_label(ps, k).unwrap(), crumb_target(ps, k + 1), k == ps.len() - 1);
    proof {
        assert(cum@ =~= crumb_target(ps, 0));
        assert(crumb_views(out@) =~= idx.take(0).filter(pred).map_values(f)) by {
            reveal_with_fuel(Seq::<_>::filter, 1);
        }
    }
    for i in 0..n
        invariant
            n == parts.len(),
            ps == part_views(parts@),
            skip == (if n > 4 { n - 4 } else { 0 }),
            idx == Seq::new(n as nat, |k: int| k),
            pred == (|k: int| crumb_shown(ps, k)),
            f == (|k: int| (crumb_label(ps, k).unwrap(), crumb_target(ps, k + 1), k == ps.len() - 1)),
            cum@ == crumb_target(ps, i as int),
            crumb_views(out@) == idx.take(i as int).filter(pred).map_values(f),
    {
        let next = path_join(cum.as_str(), parts[i].1.as_str());
        proof {
            assert(ps[i as int] == (parts@[i as int].0, parts@[i as int].1@));
            assert(next@ == crumb_target(ps, i + 1));
            assert(idx.take(i + 1).drop_last() =~= idx.take(i as int));
            assert(idx.take(i + 1).last() == i);
            reveal_with_fuel(Seq::<_>::filter, 1);
        }
        let ghost before = crumb_views(out@);
        if i >= skip {
            let label: Option<String> = match parts[i].0 {
                PartKind::Root => Some(next.clone()),
                PartKind::Name => Some(parts[i].1.clone()),
                _ => None,
            };
            match label {
                Some(l) => {
                    out.push((l, next.clone(), i == n - 1));
                    proof {
                        assert(crumb_views(out@) =~= before.push(f(i as int)));
                        assert(idx.take(i + 1).filter(pred) == idx.take(i as int).filter(pred).push(i as int));
                    }
                },
                None => {},
            }
        }
        proof {
            assert(crumb_views(out@) =~= idx.take(i + 1).filter(pred).map_values(f));
        }
        cum = next;
    }
    proof {
        assert(idx.take(n as int) =~= idx);
        assert(idx =~= Seq::new(components_of(path@).len(), |k: int| k));
    }
    out
}

/// Whether the crumb `c` is the one of part `k`: its target is the path up
/// to and including that part; a root is labelled with that path, a name
/// with itself; it is marked last exactly for the last part.
pub open spec fn crumb_of_part(
    parts: Seq<(PartKind, Seq<char>)>,
    k: int,
    c: (Seq<char>, Seq<char>, bool),
) -> bool {
    &&& 0 <= k < parts.len()
    &&& c.1 == crumb_target(parts, k + 1)
    &&& c.2 == (k == parts.len() - 1)
    &&& (parts[k].0 == PartKind::Root && c.0 == c.1) || (parts[k].0 == PartKind::Name && c.0
        == parts[k].1)
}

/// Whether the crumb `c` is that of some root or name among the parts.
pub open spec fn crumb_of_some_part(parts: Seq<(PartKind, Seq<char>)>, c: (Seq<char>, Seq<char>, bool)) -> bool {
    exists|k: int| #[trigger] crumb_of_part(parts, k, c)
}

/// Crumb `j` is that of some root or name among the parts.
proof fn lemma_crumb_source(parts: Seq<(PartKind, Seq<char>)>, j: int)
    requires
        0 <= j < breadcrumb_spec(parts).len(),
    ensures
        crumb_of_some_part(parts, breadcrumb_spec(parts)[j]),
{
    let n = parts.len();
    let idx = Seq::new(n, |k: int| k);
    let pred = |k: int| crumb_shown(parts, k);
    let f = |k: int| (crumb_label(parts, k).unwrap(), crumb_target(parts, k + 1), k == parts.len() - 1);
    let ks = idx.filter(pred);
    let bs = breadcrumb_spec(parts);
    assert(bs == ks.map_values(f));
    idx.lemma_filter_pred(pred, j);
    let k = ks[j];
    assert(ks.contains(k));
    idx.lemma_filter_contains_rev(pred, k);
    let m = choose|m: int| 0 <= m < idx.len() && idx[m] == k;
    assert(m == k);
    assert(bs[j] == f(k));
    assert(crumb_shown(parts, k));
    assert(crumb_label(parts, k) is Some);
    assert(crumb_of_part(parts, k, bs[j]));
}

/// Every crumb is that of some root or name among the parts.
proof fn lemma_crumbs_sourced(parts: Seq<(PartKind, Seq<char>)>)
    ensures
        forall|j: int|
            0 <= j < breadcrumb_spec(parts).len() ==> crumb_of_some_part(
                parts,
                #[trigger] breadcrumb_spec(parts)[j],
            ),
{
    assert forall|j: int| 0 <= j < breadcrumb_spec(parts).len() implies crumb_of_some_part(
        parts,
        #[trigger] breadcrumb_spec(parts)[j],
    ) by {
        lemma_crumb_source(parts, j);
    }
}

/// Each crumb is that of a root or a name among the parts: its target is
/// the path up to and including that part; a root is labelled with that
/// path (so "C:\\" keeps its drive), a name with itself; it is marked last
/// exactly for the last part. Every root or name not hidden behind "…"
/// (all but the last four parts) has its crumb.
pub proof fn lemma_breadcrumb_parts(parts: Seq<(PartKind, Seq<char>)>)
    ensures
        forall|j: int|
            0 <= j < breadcrumb_spec(parts).len() ==> crumb_of_some_part(
                parts,
                #[trigger] breadcrumb_spec(parts)[j],
            ),
        forall|k: int|
            0 <= k < parts.len() && k + 4 >= parts.len() && (parts[k].0 == PartKind::Root
                || parts[k].0 == PartKind::Name) ==> exists|j: int|
                0 <= j < breadcrumb_spec(parts).len() && #[trigger] crumb_of_part(
                    parts,
                    k,
                    breadcrumb_spec(parts)[j],
                ),
{
    let n = parts.len();
    let idx = Seq::new(n, |k: int| k);
    let pred = |k: int| crumb_shown(parts, k);
    let f = |k: int| (crumb_label(parts, k).unwrap(), crumb_target(parts, k + 1), k == parts.len() - 1);
    let ks = idx.filter(pred);
    let bs = breadcrumb_spec(parts);
    assert(bs == ks.map_values(f));
    lemma_crumbs_sourced(parts);
    assert forall|k: int|
        0 <= k < parts.len() && k + 4 >= parts.len() && (parts[k].0 == PartKind::Root
            || parts[k].0 == PartKind::Name) implies exists|j: int|
        0 <= j < breadcrumb_spec(parts).len() && #[trigger] crumb_of_part(
            parts,
            k,
            breadcrumb_spec(parts)[j],
        ) by {
        assert(idx[k] == k);
        assert(pred(k));
        idx.lemma_filter_contains(pred, k);
        let j = choose|j: int| 0 <= j < ks.len() && ks[j] == k;
        assert(bs[j] == f(k));
        assert(crumb_of_part(parts, k, bs[j]));
    }
}

/// The folders from the root down to `path` for the folder tree: `path`
/// and each parent above it, outermost first: the first has no parent, and
/// each is the parent of the next.
#[verifier::rlimit(30)]
pub fn folder_ancestors(path: &String) -> (r: Vec<String>)
    ensures
        r@.len() >= 1,
        r@.last() == *path,
        parent_of(r@[0]@) is None,
        forall|i: int| 0 <= i < r@.len() - 1 ==> parent_of(#[trigger] r@[i + 1]@) == Some(r@[i]@),
        forall|i: int, j: int| 0 <= i < j < r@.len() ==> r@[i]@.len() < r@[j]@.len(),
{
    let mut up: Vec<String> = Vec::new();
    let mut p = path.clone();
    up.push(p.clone());
    loop
        invariant
            up@.len() >= 1,
            up@[0] == *path,
            up@.last() == p,
            forall|i: int, j: int| 0 <= i < j < up@.len() ==> up@[j]@.len() < up@[i]@.len(),
            forall|i: int| 0 <= i < up@.len() - 1 ==> parent_of(#[trigger] up@[i]@) == Some(up@[i + 1]@),
        ensures
            up@.len() >= 1,
            up@[0] == *path,
            up@.last() == p,
            forall|i: int, j: int| 0 <= i < j < up@.len() ==> up@[j]@.len() < up@[i]@.len(),
            forall|i: int| 0 <= i < up@.len() - 1 ==> parent_of(#[trigger] up@[i]@) == Some(up@[i + 1]@),
            parent_of(p@) is None,
        decreases p@.len(),
    {
        match path_parent(p.as_str()) {
            Some(q) => {
                let ghost before = up@;
                p = q;
                up.push(p.clone());
                assert forall|i: int, j: int| 0 <= i < j < up@.len() implies up@[j]@.len()
                    < up@[i]@.len() by {
                    if j < before.len() {
                        assert(up@[i] == before[i] && up@[j] == before[j]);
                    } else if i < before.len() - 1 {
                        assert(up@[i] == before[i]);
                        assert(before[before.len() - 1]@.len() < before[i]@.len());
                    }
                }
                assert forall|i: int| 0 <= i < up@.len() - 1 implies parent_of(
                    #[trigger] up@[i]@,
                ) == Some(up@[i + 1]@) by {
                    if i < before.len() - 1 {
                        assert(up@[i] == before[i] && up@[i + 1] == before[i + 1]);
                    } else {
                        assert(up@[i] == before.last());
                    }
                }
            },
            None => {
                break ;
            },
        }
    }
    let mut r: Vec<String> = Vec::new();
    let n = up.len();
    let mut k = n;
    while k > 0
        invariant
            k <= n,
            n == up@.len(),
            n >= 1,
            up@[0] == *path,
            forall|i: int, j: int| 0 <= i < j < n ==> up@[j]@.len() < up@[i]@.len(),
            r@.len() == n - k,
            forall|i: int| 0 <= i < r@.len() ==> r@[i] == up@[n - 1 - i],
            forall|i: int| 0 <= i < n - 1 ==> parent_of(#[trigger] up@[i]@) == Some(up@[i + 1]@),
            parent_of(up@[n - 1]@) is None,
        decreases k,
    {
        k = k - 1;
        let ghost before = r@;
        r.push(up[k].clone());
        assert forall|i: int| 0 <= i < r@.len() implies r@[i] == up@[n - 1 - i] by {
            if i < before.len() {
                assert(r@[i] == before[i]);
            }
        }
    }
    assert(r@.last() == up@[0]);
    assert forall|i: int| 0 <= i < r@.len() - 1 implies parent_of(#[trigger] r@[i + 1]@) == Some(
        r@[i]@,
    ) by {
        assert(r@[i + 1] == up@[n - 2 - i] && r@[i] == up@[n - 1 - i]);
        assert(parent_of(up@[n - 2 - i]@) == Some(up@[(n - 2 - i) + 1]@));
    }
    assert forall|i: int, j: int| 0 <= i < j < r@.len() implies r@[i]@.len() < r@[j]@.len() by {
        assert(r@[i] == up@[n - 1 - i] && r@[j] == up@[n - 1 - j]);
    }
    r
}

} // verus!
