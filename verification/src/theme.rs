//! Colour themes: the accent colours and the palette of each theme.

use vstd::prelude::*;

verus! {

/// A colour as four bytes: red, green, blue and alpha, with the colour
/// channels premultiplied by alpha (the layout of `egui::Color32`).
#[derive(Clone, Copy, Debug, PartialEq, Eq, Structural)]
pub struct Rgba {
    pub r: u8,
    pub g: u8,
    pub b: u8,
    pub a: u8,
}

/// The opaque colour with the given channels.
pub open spec fn rgb(r: u8, g: u8, b: u8) -> Rgba {
    Rgba { r, g, b, a: 255 }
}

impl Rgba {
    /// The opaque colour with the given channels (`Color32::from_rgb`).
    pub fn from_rgb(r: u8, g: u8, b: u8) -> (c: Rgba)
        ensures
            c == rgb(r, g, b),
    {
        Rgba { r, g, b, a: 255 }
    }
}

/// What `egui::Color32::from_rgba_unmultiplied` gives for the channels and
/// alpha, as (red, green, blue, alpha).
pub uninterp spec fn unmultiplied_color(r: u8, g: u8, b: u8, a: u8) -> (u8, u8, u8, u8);

/// Calls `egui::Color32::from_rgba_unmultiplied`, which premultiplies the
/// colour channels by alpha in linear space through a gamma table.
/// Claimed: the result is `unmultiplied_color` of the arguments; alpha 0
/// gives the transparent (0, 0, 0, 0); alpha 255 gives the channels unchanged;
/// any other alpha is kept as the result's alpha. The premultiplied channels
/// for other alphas come from floating-point arithmetic and are left unsaid.
#[verifier::external_body]
fn color_from_unmultiplied(r: u8, g: u8, b: u8, a: u8) -> (c: Rgba)
    ensures
        (c.r, c.g, c.b, c.a) == unmultiplied_color(r, g, b, a),
        a == 0 ==> c == (Rgba { r: 0, g: 0, b: 0, a: 0 }),
        a == 255 ==> c == rgb(r, g, b),
        c.a == a,
{
    let [r, g, b, a] = egui::Color32::from_rgba_unmultiplied(r, g, b, a).to_array();
    Rgba { r, g, b, a }
}

#[derive(Clone, Copy, Debug, PartialEq, Eq, Structural)]
pub enum Theme {
    Dark,
    Light,
}

#[derive(Clone, Copy, Debug, PartialEq, Eq, Structural)]
pub enum Accent {
    Rust,
    Aqua,
    Green,
    Purple,
}

/// The colour of an accent.
pub open spec fn accent_color(a: Accent) -> Rgba {
    match a {
        Accent::Rust => rgb(0xe0, 0x82, 0x4a),
        Accent::Aqua => rgb(0x5f, 0x9e, 0x95),
        Accent::Green => rgb(0x8a, 0xa8, 0x61),
        Accent::Purple => rgb(0xc0, 0x7a, 0x92),
    }
}

/// The translucent variant of an accent: its colour at alpha 44.
pub open spec fn accent_soft(a: Accent) -> Rgba {
    let c = accent_color(a);
    let u = unmultiplied_color(c.r, c.g, c.b, 44);
    Rgba { r: u.0, g: u.1, b: u.2, a: u.3 }
}

impl Accent {
    pub fn color(self) -> (c: Rgba)
        ensures
            c == accent_color(self),
    {
        match self {
            Accent::Rust => Rgba::from_rgb(0xe0, 0x82, 0x4a),
            Accent::Aqua => Rgba::from_rgb(0x5f, 0x9e, 0x95),
            Accent::Green => Rgba::from_rgb(0x8a, 0xa8, 0x61),
            Accent::Purple => Rgba::from_rgb(0xc0, 0x7a, 0x92),
        }
    }

    pub fn soft(self) -> (c: Rgba)
        ensures
            c == accent_soft(self),
            c.a == 44,
    {
        let c = self.color();
        color_from_unmultiplied(c.r, c.g, c.b, 44)
    }
}

/// The colours of the interface for one theme and accent.
#[derive(Clone, Copy, Debug, PartialEq, Eq, Structural)]
pub struct Tokens {
    pub bg: Rgba,
    pub titlebar: Rgba,
    pub list: Rgba,
    pub border: Rgba,
    pub hover: Rgba,
    pub elev: Rgba,
    pub text: Rgba,
    pub dim: Rgba,
    pub faint: Rgba,
    pub accent: Rgba,
    pub accent_soft: Rgba,
    // syntax highlight
    pub syn_keyword: Rgba,
    pub syn_type: Rgba,
    pub syn_func: Rgba,
    pub syn_string: Rgba,
}

/// The palette of a theme and accent.
pub open spec fn tokens_spec(theme: Theme, accent: Accent) -> Tokens {
    let dark = theme == Theme::Dark;
    Tokens {
        bg: if dark { rgb(0x16, 0x18, 0x1b) } else { rgb(0xee, 0xf0, 0xf1) },
        titlebar: if dark { rgb(0x1b, 0x1e, 0x21) } else { rgb(0xe4, 0xe7, 0xe9) },
        list: if dark { rgb(0x12, 0x14, 0x17) } else { rgb(0xfb, 0xfc, 0xfc) },
        border: if dark { rgb(0x28, 0x2c, 0x31) } else { rgb(0xd8, 0xdc, 0xdf) },
        hover: if dark { rgb(0x1e, 0x22, 0x26) } else { rgb(0xe9, 0xed, 0xee) },
        elev: if dark { rgb(0x23, 0x27, 0x2c) } else { rgb(0xff, 0xff, 0xff) },
        text: if dark { rgb(0xdc, 0xdf, 0xe2) } else { rgb(0x27, 0x2b, 0x2e) },
        dim: if dark { rgb(0x88, 0x8f, 0x95) } else { rgb(0x69, 0x70, 0x77) },
        faint: if dark { rgb(0x56, 0x5d, 0x63) } else { rgb(0x9a, 0xa1, 0xa7) },
        accent: accent_color(accent),
        accent_soft: accent_soft(accent),
        syn_keyword: rgb(0xc0, 0x7a, 0x92),
        syn_type: rgb(0xc9, 0x9a, 0x4e),
        syn_func: rgb(0x5f, 0x9e, 0x95),
        syn_string: rgb(0x8a, 0xa8, 0x61),
    }
}

impl Tokens {
    pub fn new(theme: Theme, accent: Accent) -> (t: Tokens)
        ensures
            t == tokens_spec(theme, accent),
    {
        let (bg, titlebar, list, border, hover, elev, text, dim, faint) = match theme {
            Theme::Dark => (
                Rgba::from_rgb(0x16, 0x18, 0x1b),
                Rgba::from_rgb(0x1b, 0x1e, 0x21),
                Rgba::from_rgb(0x12, 0x14, 0x17),
                Rgba::from_rgb(0x28, 0x2c, 0x31),
                Rgba::from_rgb(0x1e, 0x22, 0x26),
                Rgba::from_rgb(0x23, 0x27, 0x2c),
                Rgba::from_rgb(0xdc, 0xdf, 0xe2),
                Rgba::from_rgb(0x88, 0x8f, 0x95),
                Rgba::from_rgb(0x56, 0x5d, 0x63),
            ),
            Theme::Light => (
                Rgba::from_rgb(0xee, 0xf0, 0xf1),
                Rgba::from_rgb(0xe4, 0xe7, 0xe9),
                Rgba::from_rgb(0xfb, 0xfc, 0xfc),
                Rgba::from_rgb(0xd8, 0xdc, 0xdf),
                Rgba::from_rgb(0xe9, 0xed, 0xee),
                Rgba::from_rgb(0xff, 0xff, 0xff),
                Rgba::from_rgb(0x27, 0x2b, 0x2e),
                Rgba::from_rgb(0x69, 0x70, 0x77),
                Rgba::from_rgb(0x9a, 0xa1, 0xa7),
            ),
        };
        let a = accent.color();
        let syn_keyword = Rgba::from_rgb(0xc0, 0x7a, 0x92);
        let syn_type = Rgba::from_rgb(0xc9, 0x9a, 0x4e);
        let syn_func = Rgba::from_rgb(0x5f, 0x9e, 0x95);
        let syn_string = Rgba::from_rgb(0x8a, 0xa8, 0x61);
        Tokens {
            bg,
            titlebar,
            list,
            border,
            hover,
            elev,
            text,
            dim,
            faint,
            accent: a,
            accent_soft: accent.soft(),
            syn_keyword,
            syn_type,
            syn_func,
            syn_string,
        }
    }
}

} // verus!
