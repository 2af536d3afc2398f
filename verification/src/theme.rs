use vstd::prelude::*;

verus! {

/// One entry of a highlighting theme: the token kind name that a grammar's
/// queries capture, and the color it is drawn with. The scope names of a
/// theme, in order, are the token kind list handed to
/// [`crate::highlight::Highlighting::configure`], so a highlight stream's
/// kind indices point into that theme.
pub struct TokenColor {
    pub scope: &'static str,
    /// Red, green, blue and alpha channels.
    pub color: (u8, u8, u8, u8),
}

/// A theme entry from a packed `0xRRGGBBAA` color value.
pub fn hex_token_color(scope: &'static str, color: u32) -> (r: TokenColor)
    ensures
        r.scope == scope,
        r.color.0 == (color >> 24) as u8,
        r.color.1 == (color >> 16) as u8,
        r.color.2 == (color >> 8) as u8,
        r.color.3 == color as u8,
{
    TokenColor {
        scope,
        color: ((color >> 24) as u8, (color >> 16) as u8, (color >> 8) as u8, color as u8),
    }
}

} // verus!
