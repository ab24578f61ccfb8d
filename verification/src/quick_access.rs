//! The quick-access list and its file: one `name<TAB>path` line per entry.

use vstd::prelude::*;
use crate::text::{
    chars_of, first_index, lemma_first_index, lemma_first_index_unique, lemma_lines_step, lines,
    lines_of, push_all, split_once_char, split_once_spec, string_of, strip_cr, views,
};

verus! {

/// A quick-access entry as characters: (name, path).
pub type QaView = (Seq<char>, Seq<char>);

/// The views of quick-access entries.
pub open spec fn qa_views(qa: Seq<(String, String)>) -> Seq<QaView> {
    qa.map_values(|e: (String, String)| (e.0@, e.1@))
}

/// The line of one entry, without its line end.
pub open spec fn entry_line(e: QaView) -> Seq<char> {
    e.0 + seq!['\t'] + e.1
}

/// The text of the quick-access file: each entry's line followed by '\n'.
pub open spec fn qa_text(qa: Seq<QaView>) -> Seq<char>
    decreases qa.len(),
{
    if qa.len() == 0 {
        seq![]
    } else {
        qa_text(qa.drop_last()) + entry_line(qa.last()) + seq!['\n']
    }
}

/// The entries that lines of the file hold: each line with a tab gives the
/// text before its first tab as the name and the rest as the path; lines
/// without a tab are skipped.
pub open spec fn qa_of_lines(ls: Seq<Seq<char>>) -> Seq<QaView>
    decreases ls.len(),
{
    if ls.len() == 0 {
        seq![]
    } else {
        let rest = qa_of_lines(ls.drop_last());
        match split_once_spec(ls.last(), '\t') {
            Some(e) => rest.push(e),
            None => rest,
        }
    }
}

/// The entries that the text of the quick-access file holds.
pub open spec fn qa_of_text(text: Seq<char>) -> Seq<QaView> {
    qa_of_lines(lines_of(text))
}

/// Reads the quick-access entries from the text of its file.
pub fn parse_quick_access(text: &str) -> (r: Vec<(String, String)>)
    ensures
        qa_views(r@) == qa_of_text(text@),
{
    let ls = lines(text);
    let mut out: Vec<(String, String)> = Vec::new();
    let n = ls.len();
    for i in 0..n
        invariant
            n == ls.len(),
            views(ls@) == lines_of(text@),
            qa_views(out@) == qa_of_lines(views(ls@).take(i as int)),
    {
        proof {
            assert(views(ls@).take(i + 1).drop_last() =~= views(ls@).take(i as int));
            assert(views(ls@).take(i + 1).last() == ls@[i as int]@);
        }
        let line = chars_of(ls[i].as_str());
        match split_once_char(&line, '\t') {
            Some((name, path)) => {
                let ghost before = out@;
                out.push((string_of(&name), string_of(&path)));
                assert(qa_views(out@) =~= qa_views(before).push((name@, path@)));
            },
            None => {},
        }
    }
    assert(views(ls@).take(n as int) =~= views(ls@));
    out
}

/// The text of the quick-access file for the given entries.
pub fn quick_access_text(qa: &Vec<(String, String)>) -> (r: String)
    ensures
        r@ == qa_text(qa_views(qa@)),
{
    let mut v: Vec<char> = Vec::new();
    let n = qa.len();
    for i in 0..n
        invariant
            n == qa.len(),
            v@ == qa_text(qa_views(qa@).take(i as int)),
    {
        proof {
            assert(qa_views(qa@).take(i + 1).drop_last() =~= qa_views(qa@).take(i as int));
        }
        let name = chars_of(qa[i].0.as_str());
        let path = chars_of(qa[i].1.as_str());
        push_all(&mut v, &name);
        v.push('\t');
        push_all(&mut v, &path);
        v.push('\n');
        assert(v@ =~= qa_text(qa_views(qa@).take(i + 1)));
    }
    assert(qa_views(qa@).take(n as int) =~= qa_views(qa@));
    string_of(&v)
}

/// The lines of two texts joined, the first empty or ending with '\n', are
/// the lines of each.
pub proof fn lemma_lines_append(a: Seq<char>, b: Seq<char>)
    requires
        a.len() == 0 || a.last() == '\n',
    ensures
        lines_of(a + b) == lines_of(a) + lines_of(b),
    decreases a.len(),
{
    if a.len() == 0 {
        assert(a + b =~= b);
        assert(lines_of(a) =~= Seq::<Seq<char>>::empty());
        assert(lines_of(a) + lines_of(b) =~= lines_of(b));
    } else {
        lemma_first_index(a, '\n');
        let k = first_index(a, '\n');
        assert(k < a.len()) by {
            if k >= a.len() {
                assert(a[a.len() - 1] == '\n');
            }
        }
        let ab = a + b;
        assert forall|j: int| 0 <= j < k implies ab[j] != '\n' by {
            assert(ab[j] == a[j]);
        }
        assert(ab[k] == '\n');
        lemma_first_index_unique(ab, '\n', k);
        assert(ab.take(k) =~= a.take(k));
        let rest = a.skip(k + 1);
        assert(ab.skip(k + 1) =~= rest + b);
        if rest.len() > 0 {
            assert(rest.last() == a.last());
        }
        lemma_lines_append(rest, b);
    }
}

/// Whether an entry survives being written and read back: the name holds
/// no tab or line end, the path no line end and no final carriage return.
pub open spec fn qa_entry_storable(e: QaView) -> bool {
    &&& forall|j: int| 0 <= j < e.0.len() ==> e.0[j] != '\t' && e.0[j] != '\n'
    &&& forall|j: int| 0 <= j < e.1.len() ==> e.1[j] != '\n'
    &&& e.1.len() > 0 ==> e.1.last() != '\r'
}

proof fn lemma_entry_line(e: QaView)
    requires
        qa_entry_storable(e),
    ensures
        lines_of(entry_line(e) + seq!['\n']) == seq![entry_line(e)],
        split_once_spec(entry_line(e), '\t') == Some(e),
{
    let l = entry_line(e);
    assert forall|j: int| 0 <= j < l.len() implies l[j] != '\n' by {
        if j < e.0.len() {
            assert(l[j] == e.0[j]);
        } else if j > e.0.len() {
            assert(l[j] == e.1[j - e.0.len() - 1]);
        }
    }
    if l.len() > 0 {
        if e.1.len() > 0 {
            assert(l.last() == e.1.last());
        } else {
            assert(l.last() == '\t');
        }
    }
    assert(strip_cr(l) == l);
    let empty = Seq::<char>::empty();
    lemma_lines_step(l, '\n', empty);
    assert(l + seq!['\n'] + empty =~= l + seq!['\n']);
    assert(lines_of(empty) =~= Seq::<Seq<char>>::empty());
    assert(seq![strip_cr(l)] + lines_of(empty) =~= seq![l]);
    assert forall|j: int| 0 <= j < e.0.len() implies l[j] != '\t' by {
        assert(l[j] == e.0[j]);
    }
    lemma_first_index_unique(l, '\t', e.0.len() as int);
    assert(l.take(e.0.len() as int) =~= e.0);
    assert(l.skip(e.0.len() as int + 1) =~= e.1);
}

/// Writing the quick-access entries and reading the file back gives the
/// same entries, when each is storable.
pub proof fn lemma_quick_access_roundtrip(qa: Seq<QaView>)
    requires
        forall|i: int| 0 <= i < qa.len() ==> qa_entry_storable(#[trigger] qa[i]),
    ensures
        qa_of_text(qa_text(qa)) == qa,
    decreases qa.len(),
{
    if qa.len() > 0 {
        let init = qa.drop_last();
        assert forall|i: int| 0 <= i < init.len() implies qa_entry_storable(#[trigger] init[i]) by {
            assert(init[i] == qa[i]);
        }
        lemma_quick_access_roundtrip(init);
        let e = qa.last();
        assert(qa_entry_storable(qa[qa.len() - 1]));
        lemma_entry_line(e);
        let t = qa_text(init);
        if init.len() > 0 {
            assert(t.last() == '\n');
        }
        assert(qa_text(qa) =~= t + (entry_line(e) + seq!['\n']));
        lemma_lines_append(t, entry_line(e) + seq!['\n']);
        let ls = lines_of(t) + seq![entry_line(e)];
        assert(ls.drop_last() =~= lines_of(t));
        assert(qa_of_lines(ls) == qa_of_lines(lines_of(t)).push(e));
        assert(qa =~= init.push(e));
    }
}

} // verus!
