//! Text formats of a color for templates.
//!
//! A color reaches a template as its sRGB bytes `(r, g, b)`; these functions
//! write the formats that templates ask for.

use vstd::prelude::*;
use crate::hex::{byte_hex, dec_spec, hex_spec, push_byte_dec, push_byte_hex, strip_spec};

verus! {

/// `r,g,b` in decimal.
pub open spec fn rgb_spec(c: (u8, u8, u8)) -> Seq<char> {
    dec_spec(c.0) + seq![','] + dec_spec(c.1) + seq![','] + dec_spec(c.2)
}

/// `#rrggbbaa`: the hex code followed by the alpha byte in hex.
pub open spec fn hexa_spec(c: (u8, u8, u8), alpha: u8) -> Seq<char> {
    hex_spec(c) + byte_hex(alpha)
}

/// Writes the color as `r,g,b` (e.g. `42,128,56`).
pub fn rgb(c: (u8, u8, u8)) -> (s: String)
    ensures
        s@ == rgb_spec(c),
{
    let mut s = String::new();
    push_byte_dec(&mut s, c.0);
    s.append(",");
    push_byte_dec(&mut s, c.1);
    s.append(",");
    push_byte_dec(&mut s, c.2);
    proof {
        reveal_strlit(",");
    }
    assert(s@ =~= rgb_spec(c));
    s
}

/// Writes the color as `rrggbb`, lowercase, without the leading `#`.
pub fn strip(c: (u8, u8, u8)) -> (s: String)
    ensures
        s@ == strip_spec(c),
{
    let mut s = String::new();
    push_byte_hex(&mut s, c.0);
    push_byte_hex(&mut s, c.1);
    push_byte_hex(&mut s, c.2);
    assert(s@ =~= strip_spec(c));
    s
}

/// Writes the color as `#rrggbb`, lowercase.
pub fn hex(c: (u8, u8, u8)) -> (s: String)
    ensures
        s@ == hex_spec(c),
{
    let mut s = String::from_str("#");
    proof {
        reveal_strlit("#");
    }
    let body = strip(c);
    s.append(body.as_str());
    assert(s@ =~= hex_spec(c));
    s
}

/// Writes the color as `#rrggbbaa`, where `aa` is the alpha byte in hex.
pub fn hexa(c: (u8, u8, u8), alpha: u8) -> (s: String)
    ensures
        s@ == hexa_spec(c, alpha),
{
    let mut s = hex(c);
    push_byte_hex(&mut s, alpha);
    s
}

/// A value a template reads off a color: a text format or one channel.
#[derive(Debug, Clone)]
pub enum ColorField {
    Text(String),
    Channel(u8),
}

/// Reads a field of a color in a template: `hex`, `rgb` and `strip` are its
/// text formats, `r`, `g` and `b` its channels; any other name is no field.
pub fn color_field(key: &str, c: (u8, u8, u8)) -> (r: Option<ColorField>)
    ensures
        if key@ == "hex"@ {
            r matches Some(ColorField::Text(t)) && t@ == hex_spec(c)
        } else if key@ == "rgb"@ {
            r matches Some(ColorField::Text(t)) && t@ == rgb_spec(c)
        } else if key@ == "strip"@ {
            r matches Some(ColorField::Text(t)) && t@ == strip_spec(c)
        } else if key@ == "r"@ {
            r == Some(ColorField::Channel(c.0))
        } else if key@ == "g"@ {
            r == Some(ColorField::Channel(c.1))
        } else if key@ == "b"@ {
            r == Some(ColorField::Channel(c.2))
        } else {
            r is None
        },
{
    let k = String::from_str(key);
    if k == String::from_str("hex") {
        Some(ColorField::Text(hex(c)))
    } else if k == String::from_str("rgb") {
        Some(ColorField::Text(rgb(c)))
    } else if k == String::from_str("strip") {
        Some(ColorField::Text(strip(c)))
    } else if k == String::from_str("r") {
        Some(ColorField::Channel(c.0))
    } else if k == String::from_str("g") {
        Some(ColorField::Channel(c.1))
    } else if k == String::from_str("b") {
        Some(ColorField::Channel(c.2))
    } else {
        None
    }
}

/// A method a template can call on a color with an amount.
#[derive(Debug, Clone, Copy, PartialEq, Eq, Structural)]
pub enum ColorMethod {
    Hexa,
    Rgba,
    Lighten,
    Brighten,
    Darken,
    Dim,
    Saturate,
    Desaturate,
}

/// The method a template calls by name, if there is one of that name.
pub fn color_method(name: &str) -> (r: Option<ColorMethod>)
    ensures
        r == (if name@ == "hexa"@ {
            Some(ColorMethod::Hexa)
        } else if name@ == "rgba"@ {
            Some(ColorMethod::Rgba)
        } else if name@ == "lighten"@ {
            Some(ColorMethod::Lighten)
        } else if name@ == "brighten"@ {
            Some(ColorMethod::Brighten)
        } else if name@ == "darken"@ {
            Some(ColorMethod::Darken)
        } else if name@ == "dim"@ {
            Some(ColorMethod::Dim)
        } else if name@ == "saturate"@ {
            Some(ColorMethod::Saturate)
        } else if name@ == "desaturate"@ {
            Some(ColorMethod::Desaturate)
        } else {
            None
        }),
{
    let n = String::from_str(name);
    if n == String::from_str("hexa") {
        Some(ColorMethod::Hexa)
    } else if n == String::from_str("rgba") {
        Some(ColorMethod::Rgba)
    } else if n == String::from_str("lighten") {
        Some(ColorMethod::Lighten)
    } else if n == String::from_str("brighten") {
        Some(ColorMethod::Brighten)
    } else if n == String::from_str("darken") {
        Some(ColorMethod::Darken)
    } else if n == String::from_str("dim") {
        Some(ColorMethod::Dim)
    } else if n == String::from_str("saturate") {
        Some(ColorMethod::Saturate)
    } else if n == String::from_str("desaturate") {
        Some(ColorMethod::Desaturate)
    } else {
        None
    }
}

} // verus!
