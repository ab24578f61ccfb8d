//! The order of the font families: the chosen font first, then egui's own
//! fonts, then the bundled fallbacks, and the icon font last so that its
//! private-use glyphs shadow no text.

use vstd::prelude::*;
use crate::settings::FontChoice;
use crate::text::views;

verus! {

/// Which bundled font files the build holds.
#[derive(Clone, Copy, Debug, PartialEq, Eq, Structural)]
pub struct BundledFonts {
    pub material: bool,
    pub jetbrains: bool,
    pub ibm_plex: bool,
    pub noto_sans_jp: bool,
}

/// The family name under which the chosen font is registered.
pub open spec fn primary_name(choice: FontChoice) -> Seq<char> {
    if choice == FontChoice::IbmPlexSans {
        "IBMPlexSans"@
    } else {
        "PrimaryFont"@
    }
}

/// Whether the chosen font is there: a bundled one where it was bundled, a
/// system one where its file was read (`primary_loaded`).
pub open spec fn has_primary(choice: FontChoice, primary_loaded: bool, bundled: BundledFonts) -> bool {
    match choice {
        FontChoice::NotoSansJp => bundled.noto_sans_jp,
        FontChoice::IbmPlexSans => bundled.ibm_plex,
        _ => primary_loaded,
    }
}

/// One name where `present` holds, none otherwise.
pub open spec fn one_if(present: bool, name: Seq<char>) -> Seq<Seq<char>> {
    if present {
        seq![name]
    } else {
        Seq::empty()
    }
}

/// What goes before egui's own fonts in both families.
pub open spec fn font_front(choice: FontChoice, primary_loaded: bool, bundled: BundledFonts) -> Seq<
    Seq<char>,
> {
    one_if(has_primary(choice, primary_loaded, bundled), primary_name(choice))
}

/// What follows egui's own proportional fonts: IBM Plex Sans for Latin and
/// Noto Sans JP for CJK (each unless it is the chosen font), then the icons.
pub open spec fn proportional_tail(choice: FontChoice, bundled: BundledFonts) -> Seq<Seq<char>> {
    one_if(choice != FontChoice::IbmPlexSans && bundled.ibm_plex, "IBMPlexSans"@) + one_if(
        choice != FontChoice::NotoSansJp && bundled.noto_sans_jp,
        "NotoSansJP"@,
    ) + one_if(bundled.material, "MaterialSymbols"@)
}

/// What follows egui's own monospace fonts: JetBrains Mono, Noto Sans JP
/// (unless it is the chosen font), then the icons.
pub open spec fn monospace_tail(choice: FontChoice, bundled: BundledFonts) -> Seq<Seq<char>> {
    one_if(bundled.jetbrains, "JetBrainsMono"@) + one_if(
        choice != FontChoice::NotoSansJp && bundled.noto_sans_jp,
        "NotoSansJP"@,
    ) + one_if(bundled.material, "MaterialSymbols"@)
}

/// The proportional family over egui's own proportional fonts `base`.
pub open spec fn proportional_family(
    choice: FontChoice,
    primary_loaded: bool,
    bundled: BundledFonts,
    base: Seq<Seq<char>>,
) -> Seq<Seq<char>> {
    font_front(choice, primary_loaded, bundled) + base + proportional_tail(choice, bundled)
}

/// The monospace family over egui's own monospace fonts `base`.
pub open spec fn monospace_family(
    choice: FontChoice,
    primary_loaded: bool,
    bundled: BundledFonts,
    base: Seq<Seq<char>>,
) -> Seq<Seq<char>> {
    font_front(choice, primary_loaded, bundled) + base + monospace_tail(choice, bundled)
}

/// The names this module adds to the families.
pub open spec fn reserved_font(s: Seq<char>) -> bool {
    s == "PrimaryFont"@ || s == "IBMPlexSans"@ || s == "NotoSansJP"@ || s == "MaterialSymbols"@
        || s == "JetBrainsMono"@
}

fn push_name(v: &mut Vec<String>, name: &str)
    ensures
        views(final(v)@) == views(old(v)@).push(name@),
{
    v.push(name.to_string());
    proof {
        assert(views(v@) =~= views(old(v)@).push(name@));
    }
}

fn push_names(v: &mut Vec<String>, names: &Vec<String>)
    ensures
        views(final(v)@) == views(old(v)@) + views(names@),
{
    let ghost start = views(v@);
    let n = names.len();
    for i in 0..n
        invariant
            n == names.len(),
            views(v@) == start + views(names@.take(i as int)),
    {
        let s = names[i].clone();
        let ghost before = views(v@);
        v.push(s);
        proof {
            assert(views(v@) =~= before.push(names@[i as int]@));
            assert(views(names@.take(i + 1)) =~= views(names@.take(i as int)).push(names@[i as int]@));
        }
    }
    proof {
        assert(names@.take(n as int) =~= names@);
    }
}

/// The proportional and the monospace family, given egui's own fonts for
/// each: the chosen font first where it is there, egui's fonts, the
/// fallbacks, and the icon font last.
pub fn font_families(
    choice: FontChoice,
    primary_loaded: bool,
    bundled: BundledFonts,
    proportional: &Vec<String>,
    monospace: &Vec<String>,
) -> (r: (Vec<String>, Vec<String>))
    ensures
        views(r.0@) == proportional_family(choice, primary_loaded, bundled, views(proportional@)),
        views(r.1@) == monospace_family(choice, primary_loaded, bundled, views(monospace@)),
{
    let mut prop: Vec<String> = Vec::new();
    let mut mono: Vec<String> = Vec::new();
    let name = match choice {
        FontChoice::IbmPlexSans => "IBMPlexSans",
        _ => "PrimaryFont",
    };
    let present = match choice {
        FontChoice::NotoSansJp => bundled.noto_sans_jp,
        FontChoice::IbmPlexSans => bundled.ibm_plex,
        _ => primary_loaded,
    };
    proof {
        assert(views(prop@) =~= Seq::<Seq<char>>::empty());
        assert(views(mono@) =~= Seq::<Seq<char>>::empty());
    }
    if present {
        push_name(&mut prop, name);
        push_name(&mut mono, name);
    }
    proof {
        assert(views(prop@) =~= font_front(choice, primary_loaded, bundled));
        assert(views(mono@) =~= font_front(choice, primary_loaded, bundled));
    }
    push_names(&mut prop, proportional);
    push_names(&mut mono, monospace);
    let ghost p0 = views(prop@);
    let ghost m0 = views(mono@);
    let not_ibm = match choice {
        FontChoice::IbmPlexSans => false,
        _ => true,
    };
    let not_noto = match choice {
        FontChoice::NotoSansJp => false,
        _ => true,
    };
    if bundled.jetbrains {
        push_name(&mut mono, "JetBrainsMono");
    }
    if not_ibm && bundled.ibm_plex {
        push_name(&mut prop, "IBMPlexSans");
    }
    if not_noto && bundled.noto_sans_jp {
        push_name(&mut prop, "NotoSansJP");
        push_name(&mut mono, "NotoSansJP");
    }
    if bundled.material {
        push_name(&mut prop, "MaterialSymbols");
        push_name(&mut mono, "MaterialSymbols");
    }
    proof {
        assert(views(prop@) =~= p0 + proportional_tail(choice, bundled));
        assert(views(mono@) =~= m0 + monospace_tail(choice, bundled));
    }
    (prop, mono)
}

/// The five names added are distinct.
proof fn lemma_font_names_distinct()
    ensures
        "PrimaryFont"@ != "IBMPlexSans"@,
        "PrimaryFont"@ != "NotoSansJP"@,
        "PrimaryFont"@ != "MaterialSymbols"@,
        "PrimaryFont"@ != "JetBrainsMono"@,
        "IBMPlexSans"@ != "NotoSansJP"@,
        "IBMPlexSans"@ != "MaterialSymbols"@,
        "IBMPlexSans"@ != "JetBrainsMono"@,
        "NotoSansJP"@ != "MaterialSymbols"@,
        "NotoSansJP"@ != "JetBrainsMono"@,
        "MaterialSymbols"@ != "JetBrainsMono"@,
{
    reveal_strlit("PrimaryFont");
    reveal_strlit("IBMPlexSans");
    reveal_strlit("NotoSansJP");
    reveal_strlit("MaterialSymbols");
    reveal_strlit("JetBrainsMono");
    assert("PrimaryFont"@[0] != "IBMPlexSans"@[0]);
    assert("PrimaryFont"@.len() != "NotoSansJP"@.len());
    assert("PrimaryFont"@.len() != "MaterialSymbols"@.len());
    assert("PrimaryFont"@.len() != "JetBrainsMono"@.len());
    assert("IBMPlexSans"@.len() != "NotoSansJP"@.len());
    assert("IBMPlexSans"@.len() != "MaterialSymbols"@.len());
    assert("IBMPlexSans"@.len() != "JetBrainsMono"@.len());
    assert("NotoSansJP"@.len() != "MaterialSymbols"@.len());
    assert("NotoSansJP"@.len() != "JetBrainsMono"@.len());
    assert("MaterialSymbols"@.len() != "JetBrainsMono"@.len());
}

/// A family made of a front, egui's fonts and a tail holds no name twice
/// where none of the three does and egui's fonts hold none of the names
/// added, the front and the tail sharing none.
proof fn lemma_family_distinct(front: Seq<Seq<char>>, base: Seq<Seq<char>>, tail: Seq<Seq<char>>)
    requires
        front.no_duplicates(),
        base.no_duplicates(),
        tail.no_duplicates(),
        forall|i: int| 0 <= i < front.len() ==> reserved_font(#[trigger] front[i]),
        forall|i: int| 0 <= i < tail.len() ==> reserved_font(#[trigger] tail[i]),
        forall|i: int| 0 <= i < base.len() ==> !reserved_font(#[trigger] base[i]),
        front.disjoint(tail),
    ensures
        (front + base + tail).no_duplicates(),
{
    vstd::seq_lib::lemma_no_dup_in_concat(front, base);
    let fb = front + base;
    assert forall|i: int, j: int| 0 <= i < fb.len() && 0 <= j < tail.len() implies fb[i]
        != tail[j] by {
        if i >= front.len() {
            assert(fb[i] == base[i - front.len()]);
            assert(reserved_font(tail[j]));
        } else {
            assert(fb[i] == front[i]);
        }
    }
    vstd::seq_lib::lemma_no_dup_in_concat(fb, tail);
}

/// Each tail holds only added names, none twice, and none that the front
/// holds.
proof fn lemma_tails(choice: FontChoice, primary_loaded: bool, bundled: BundledFonts)
    ensures
        proportional_tail(choice, bundled).no_duplicates(),
        monospace_tail(choice, bundled).no_duplicates(),
        font_front(choice, primary_loaded, bundled).no_duplicates(),
        forall|i: int|
            0 <= i < proportional_tail(choice, bundled).len() ==> reserved_font(
                #[trigger] proportional_tail(choice, bundled)[i],
            ),
        forall|i: int|
            0 <= i < monospace_tail(choice, bundled).len() ==> reserved_font(
                #[trigger] monospace_tail(choice, bundled)[i],
            ),
        forall|i: int|
            0 <= i < font_front(choice, primary_loaded, bundled).len() ==> reserved_font(
                #[trigger] font_front(choice, primary_loaded, bundled)[i],
            ),
        font_front(choice, primary_loaded, bundled).disjoint(proportional_tail(choice, bundled)),
        font_front(choice, primary_loaded, bundled).disjoint(monospace_tail(choice, bundled)),
{
    lemma_font_names_distinct();
    let ibm = one_if(choice != FontChoice::IbmPlexSans && bundled.ibm_plex, "IBMPlexSans"@);
    let noto = one_if(choice != FontChoice::NotoSansJp && bundled.noto_sans_jp, "NotoSansJP"@);
    let mat = one_if(bundled.material, "MaterialSymbols"@);
    let jet = one_if(bundled.jetbrains, "JetBrainsMono"@);
    vstd::seq_lib::lemma_no_dup_in_concat(ibm, noto);
    vstd::seq_lib::lemma_no_dup_in_concat(ibm + noto, mat);
    vstd::seq_lib::lemma_no_dup_in_concat(jet, noto);
    vstd::seq_lib::lemma_no_dup_in_concat(jet + noto, mat);
}

/// The first and last names of the families, and where JetBrains Mono is.
proof fn lemma_family_ends(
    choice: FontChoice,
    primary_loaded: bool,
    bundled: BundledFonts,
    proportional: Seq<Seq<char>>,
    monospace: Seq<Seq<char>>,
)
    ensures
        ({
            let p = proportional_family(choice, primary_loaded, bundled, proportional);
            let m = monospace_family(choice, primary_loaded, bundled, monospace);
            &&& has_primary(choice, primary_loaded, bundled) ==> p[0] == primary_name(choice)
                && m[0] == primary_name(choice)
            &&& bundled.material ==> p.last() == "MaterialSymbols"@ && m.last() == "MaterialSymbols"@
            &&& bundled.jetbrains ==> m.contains("JetBrainsMono"@)
        }),
{
    let front = font_front(choice, primary_loaded, bundled);
    let m = monospace_family(choice, primary_loaded, bundled, monospace);
    let mt = monospace_tail(choice, bundled);
    if bundled.jetbrains {
        assert(mt[0] == "JetBrainsMono"@);
        assert(m[front.len() + monospace.len() as int] == "JetBrainsMono"@);
    }
}

/// JetBrains Mono is never added to the proportional family.
proof fn lemma_no_mono_in_proportional(
    choice: FontChoice,
    primary_loaded: bool,
    bundled: BundledFonts,
    proportional: Seq<Seq<char>>,
)
    requires
        !proportional.contains("JetBrainsMono"@),
    ensures
        !proportional_family(choice, primary_loaded, bundled, proportional).contains(
            "JetBrainsMono"@,
        ),
{
    lemma_font_names_distinct();
    let front = font_front(choice, primary_loaded, bundled);
    let pt = proportional_tail(choice, bundled);
    let p = proportional_family(choice, primary_loaded, bundled, proportional);
    if p.contains("JetBrainsMono"@) {
        let k = choose|k: int| 0 <= k < p.len() && p[k] == "JetBrainsMono"@;
        if k < front.len() {
            assert(p[k] == front[k]);
        } else if k < front.len() + proportional.len() {
            assert(p[k] == proportional[k - front.len()]);
        } else {
            assert(p[k] == pt[k - front.len() - proportional.len()]);
        }
    }
}

/// The font families: where the chosen font is there it comes first in
/// both; where the icon font is bundled it comes last in both; JetBrains
/// Mono is in the monospace family where it is bundled and never added to
/// the proportional one; and where egui's own fonts hold no name twice and
/// none of the names added, neither family holds a name twice.
pub proof fn lemma_font_family_order(
    choice: FontChoice,
    primary_loaded: bool,
    bundled: BundledFonts,
    proportional: Seq<Seq<char>>,
    monospace: Seq<Seq<char>>,
)
    ensures
        ({
            let p = proportional_family(choice, primary_loaded, bundled, proportional);
            let m = monospace_family(choice, primary_loaded, bundled, monospace);
            &&& has_primary(choice, primary_loaded, bundled) ==> p[0] == primary_name(choice)
                && m[0] == primary_name(choice)
            &&& bundled.material ==> p.last() == "MaterialSymbols"@ && m.last() == "MaterialSymbols"@
            &&& bundled.jetbrains ==> m.contains("JetBrainsMono"@)
            &&& !proportional.contains("JetBrainsMono"@) ==> !p.contains("JetBrainsMono"@)
            &&& proportional.no_duplicates() && (forall|i: int|
                0 <= i < proportional.len() ==> !reserved_font(#[trigger] proportional[i]))
                ==> p.no_duplicates()
            &&& monospace.no_duplicates() && (forall|i: int|
                0 <= i < monospace.len() ==> !reserved_font(#[trigger] monospace[i]))
                ==> m.no_duplicates()
        }),
{
    lemma_family_ends(choice, primary_loaded, bundled, proportional, monospace);
    if !proportional.contains("JetBrainsMono"@) {
        lemma_no_mono_in_proportional(choice, primary_loaded, bundled, proportional);
    }
    lemma_tails(choice, primary_loaded, bundled);
    let front = font_front(choice, primary_loaded, bundled);
    if proportional.no_duplicates() && (forall|i: int|
        0 <= i < proportional.len() ==> !reserved_font(#[trigger] proportional[i])) {
        lemma_family_distinct(front, proportional, proportional_tail(choice, bundled));
    }
    if monospace.no_duplicates() && (forall|i: int|
        0 <= i < monospace.len() ==> !reserved_font(#[trigger] monospace[i])) {
        lemma_family_distinct(front, monospace, monospace_tail(choice, bundled));
    }
}

} // verus!
