//! The state of the file pane: where it is, its history, its listing and
//! its selection, and the text of the status bar.

use vstd::prelude::*;
use crate::entry::Entry;
use crate::sizes::{push_scaled, scaled_text};
use crate::text::{decimal, push_decimal, push_str, string_of};

verus! {

#[derive(Clone, Copy, Debug, PartialEq, Eq, Structural)]
pub enum ViewMode {
    Explorer,
    Modern,
}

#[derive(Clone, Copy, Debug, PartialEq, Eq, Structural)]
pub enum SortColumn {
    Name,
    Size,
    Kind,
    Modified,
}

#[derive(Clone, Copy, Debug, PartialEq, Eq, Structural)]
pub struct Sort {
    pub column: SortColumn,
    pub ascending: bool,
}

impl Default for Sort {
    fn default() -> (s: Self)
        ensures
            s == (Sort { column: SortColumn::Name, ascending: true }),
    {
        Sort { column: SortColumn::Name, ascending: true }
    }
}

/// One file pane. `selection` and `tagged` hold indices into `entries`,
/// each at most once (`no_repeats`: a new pane starts so and every change
/// keeps it), in the order they were added.
#[derive(Clone)]
pub struct PaneState {
    pub path: String,
    pub back_stack: Vec<String>,
    pub forward_stack: Vec<String>,
    pub entries: Vec<Entry>,
    pub selection: Vec<usize>,
    pub cursor: usize,
    pub tagged: Vec<usize>,
    pub sort: Sort,
    pub scan_time_ms: Option<u64>,
    pub free_bytes: Option<u64>,
    pub loading: bool,
}

/// The size of the entry at `i`, or 0 when there is none or it has no size.
pub open spec fn size_at(entries: Seq<Entry>, i: int) -> nat {
    if 0 <= i < entries.len() {
        match entries[i].size {
            Some(s) => s as nat,
            None => 0,
        }
    } else {
        0
    }
}

/// The sum of the sizes of the entries at the given indices.
pub open spec fn sum_sizes(entries: Seq<Entry>, idx: Seq<usize>) -> nat
    decreases idx.len(),
{
    if idx.len() == 0 {
        0
    } else {
        sum_sizes(entries, idx.drop_last()) + size_at(entries, idx.last() as int)
    }
}

/// A byte count as the status bar writes it.
pub open spec fn size_label(bytes: u64) -> Seq<char> {
    if bytes < 1024 {
        decimal(bytes as nat) + " B"@
    } else if bytes < 1024 * 1024 {
        scaled_text(bytes as nat, 10, 1) + " KB"@
    } else {
        scaled_text(bytes as nat, 20, 1) + " MB"@
    }
}

/// The status line: the number of items, then the selected and the tagged
/// entries with their total size where there are any, joined by " · ".
pub open spec fn status_spec(n: nat, sel: nat, sel_size: u64, tagged: nat, tagged_size: u64) -> Seq<
    char,
> {
    let first = decimal(n) + " items"@;
    let with_sel = if sel > 0 {
        first + " · "@ + decimal(sel) + " selected · "@ + size_label(sel_size)
    } else {
        first
    };
    if tagged > 0 {
        with_sel + " · "@ + decimal(tagged) + " tagged · "@ + size_label(tagged_size)
    } else {
        with_sel
    }
}

/// Whether `s` holds no value twice.
pub open spec fn no_repeats(s: Seq<usize>) -> bool {
    forall|i: int, j: int| 0 <= i < j < s.len() ==> s[i] != s[j]
}

/// Appends `fmt_size(bytes)`.
fn push_size(out: &mut Vec<char>, bytes: u64)
    ensures
        final(out)@ == old(out)@ + size_label(bytes),
{
    if bytes < 1024 {
        push_decimal(out, bytes);
        push_str(out, " B");
    } else if bytes < 1024 * 1024 {
        push_scaled(out, bytes, 10, 1);
        push_str(out, " KB");
    } else {
        push_scaled(out, bytes, 20, 1);
        push_str(out, " MB");
    }
    assert(final(out)@ =~= old(out)@ + size_label(bytes));
}

/// A byte count in B, KB or MB with one decimal.
pub fn fmt_size(bytes: u64) -> (r: String)
    ensures
        r@ == size_label(bytes),
{
    let mut v: Vec<char> = Vec::new();
    push_size(&mut v, bytes);
    assert(v@ =~= size_label(bytes));
    string_of(&v)
}

/// Whether `v` holds `x`.
pub fn contains_index(v: &Vec<usize>, x: usize) -> (r: bool)
    ensures
        r == v@.contains(x),
{
    let n = v.len();
    for i in 0..n
        invariant
            n == v.len(),
            forall|j: int| 0 <= j < i ==> v@[j] != x,
    {
        if v[i] == x {
            return true;
        }
    }
    false
}

/// `v` without `x`.
pub fn without_index(v: &Vec<usize>, x: usize) -> (r: Vec<usize>)
    ensures
        r@ == v@.filter(|y: usize| y != x),
{
    let mut out: Vec<usize> = Vec::new();
    let n = v.len();
    for i in 0..n
        invariant
            n == v.len(),
            out@ == v@.take(i as int).filter(|y: usize| y != x),
    {
        proof {
            assert(v@.take(i + 1).drop_last() =~= v@.take(i as int));
            reveal_with_fuel(Seq::<_>::filter, 1);
        }
        if v[i] != x {
            out.push(v[i]);
        }
    }
    assert(v@.take(n as int) =~= v@);
    out
}

/// The sizes of the entries at `idx`, summed.
fn sum_entry_sizes(entries: &Vec<Entry>, idx: &Vec<usize>) -> (r: u64)
    requires
        sum_sizes(entries@, idx@) <= u64::MAX,
    ensures
        r == sum_sizes(entries@, idx@),
{
    let mut total: u64 = 0;
    let n = idx.len();
    for k in 0..n
        invariant
            n == idx.len(),
            sum_sizes(entries@, idx@) <= u64::MAX,
            total == sum_sizes(entries@, idx@.take(k as int)),
    {
        proof {
            lemma_sum_sizes_prefix(entries@, idx@, k as int + 1);
            assert(idx@.take(k + 1).drop_last() =~= idx@.take(k as int));
        }
        let i = idx[k];
        if i < entries.len() {
            match entries[i].size {
                Some(s) => {
                    total = total + s;
                },
                None => {},
            }
        }
    }
    assert(idx@.take(n as int) =~= idx@);
    total
}

/// The sum over a prefix is at most the sum over the whole.
proof fn lemma_sum_sizes_prefix(entries: Seq<Entry>, idx: Seq<usize>, k: int)
    requires
        0 <= k <= idx.len(),
    ensures
        sum_sizes(entries, idx.take(k)) <= sum_sizes(entries, idx),
    decreases idx.len(),
{
    if k < idx.len() {
        lemma_sum_sizes_prefix(entries, idx.drop_last(), k);
        assert(idx.drop_last().take(k) =~= idx.take(k));
    } else {
        assert(idx.take(k) =~= idx);
    }
}

impl PaneState {
    pub fn new(path: String) -> (p: Self)
        ensures
            p.path == path,
            p.back_stack@.len() == 0,
            p.forward_stack@.len() == 0,
            p.entries@.len() == 0,
            p.selection@.len() == 0,
            p.cursor == 0,
            p.tagged@.len() == 0,
            no_repeats(p.selection@) && no_repeats(p.tagged@),
            p.sort == (Sort { column: SortColumn::Name, ascending: true }),
            p.scan_time_ms is None,
            p.free_bytes is None,
            p.loading,
    {
        PaneState {
            path,
            back_stack: Vec::new(),
            forward_stack: Vec::new(),
            entries: Vec::new(),
            selection: Vec::new(),
            cursor: 0,
            tagged: Vec::new(),
            sort: Sort::default(),
            scan_time_ms: None,
            free_bytes: None,
            loading: true,
        }
    }

    /// The total size of the selected entries (the sum of `.sum()` on sizes;
    /// it overflows where the sum exceeds `u64::MAX`, which is left out).
    pub fn total_size_selected(&self) -> (r: u64)
        requires
            sum_sizes(self.entries@, self.selection@) <= u64::MAX,
        ensures
            r == sum_sizes(self.entries@, self.selection@),
    {
        sum_entry_sizes(&self.entries, &self.selection)
    }

    pub fn status_text(&self) -> (r: String)
        requires
            sum_sizes(self.entries@, self.selection@) <= u64::MAX,
            sum_sizes(self.entries@, self.tagged@) <= u64::MAX,
        ensures
            r@ == status_spec(
                self.entries@.len(),
                self.selection@.len(),
                sum_sizes(self.entries@, self.selection@) as u64,
                self.tagged@.len(),
                sum_sizes(self.entries@, self.tagged@) as u64,
            ),
    {
        let n = self.entries.len();
        let sel = self.selection.len();
        let tagged = self.tagged.len();
        let mut v: Vec<char> = Vec::new();
        push_decimal(&mut v, n as u64);
        push_str(&mut v, " items");
        if sel > 0 {
            let sz = self.total_size_selected();
            push_str(&mut v, " · ");
            push_decimal(&mut v, sel as u64);
            push_str(&mut v, " selected · ");
            push_size(&mut v, sz);
        }
        if tagged > 0 {
            let sz = sum_entry_sizes(&self.entries, &self.tagged);
            push_str(&mut v, " · ");
            push_decimal(&mut v, tagged as u64);
            push_str(&mut v, " tagged · ");
            push_size(&mut v, sz);
        }
        assert(v@ =~= status_spec(
            n as nat,
            sel as nat,
            sum_sizes(self.entries@, self.selection@) as u64,
            tagged as nat,
            sum_sizes(self.entries@, self.tagged@) as u64,
        ));
        string_of(&v)
    }

    /// A click on the row of the entry at position `i` of the pane's entries
    /// (as `visible_indices` gives it): with Ctrl or Shift (`multi`) its
    /// selection is toggled, otherwise it becomes the only selection.
    pub fn click_entry(&mut self, i: usize, multi: bool)
        ensures
            final(self).selection@ == if !multi {
                seq![i]
            } else if old(self).selection@.contains(i) {
                old(self).selection@.filter(|y: usize| y != i)
            } else {
                old(self).selection@.push(i)
            },
            *final(self) == (PaneState { selection: final(self).selection, ..*old(self) }),
            no_repeats(old(self).selection@) ==> no_repeats(final(self).selection@),
    {
        proof {
            if no_repeats(self.selection@) {
                lemma_click_keeps_no_repeats(self.selection@, i, multi);
            }
        }
        let is_selected = contains_index(&self.selection, i);
        if multi {
            if is_selected {
                self.selection = without_index(&self.selection, i);
            } else {
                self.selection.push(i);
            }
        } else {
            self.selection = Vec::new();
            self.selection.push(i);
            assert(self.selection@ =~= seq![i]);
        }
    }
}

/// A selection changed by a click holds no index twice when it held none before.
pub proof fn lemma_click_keeps_no_repeats(sel: Seq<usize>, i: usize, multi: bool)
    requires
        no_repeats(sel),
    ensures
        no_repeats(
            if !multi {
                seq![i]
            } else if sel.contains(i) {
                sel.filter(|y: usize| y != i)
            } else {
                sel.push(i)
            },
        ),
{
    if multi {
        if sel.contains(i) {
            lemma_filter_no_repeats(sel, i);
        } else {
            let p = sel.push(i);
            assert forall|a: int, b: int| 0 <= a < b < p.len() implies p[a] != p[b] by {
                if b == sel.len() {
                    assert(p[a] == sel[a]);
                }
            }
        }
    }
}

proof fn lemma_filter_no_repeats(sel: Seq<usize>, x: usize)
    requires
        no_repeats(sel),
    ensures
        no_repeats(sel.filter(|y: usize| y != x)),
        !sel.filter(|y: usize| y != x).contains(x),
    decreases sel.len(),
{
    let p = |y: usize| y != x;
    let f = sel.filter(p);
    if f.contains(x) {
        let k = choose|k: int| 0 <= k < f.len() && f[k] == x;
        sel.lemma_filter_pred(p, k);
    }
    reveal_with_fuel(Seq::<_>::filter, 1);
    if sel.len() > 0 {
        let d = sel.drop_last();
        assert forall|a: int, b: int| 0 <= a < b < d.len() implies d[a] != d[b] by {
            assert(d[a] == sel[a] && d[b] == sel[b]);
        }
        lemma_filter_no_repeats(d, x);
        let fd = d.filter(p);
        if sel.last() != x {
            assert(f == fd.push(sel.last()));
            assert(!fd.contains(sel.last())) by {
                if fd.contains(sel.last()) {
                    d.lemma_filter_contains_rev(p, sel.last());
                    let m = choose|m: int| 0 <= m < d.len() && d[m] == sel.last();
                    assert(sel[m] == sel[sel.len() - 1]);
                }
            }
            assert forall|a: int, b: int| 0 <= a < b < f.len() implies f[a] != f[b] by {
                if b == fd.len() {
                    assert(f[a] == fd[a]);
                    assert(fd.contains(fd[a]));
                } else {
                    assert(f[a] == fd[a] && f[b] == fd[b]);
                }
            }
        } else {
            assert(f == fd);
        }
    }
}

} // verus!
