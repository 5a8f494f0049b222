use vstd::prelude::*;

verus! {

/// An RGBA color with 8 bits per channel (not premultiplied).
#[derive(Clone, Copy, Debug, PartialEq, Eq, Structural)]
pub struct Color {
    pub r: u8,
    pub g: u8,
    pub b: u8,
    pub a: u8,
}

impl Color {
    /// Builds a color from its four channels.
    pub fn from_rgba8(r: u8, g: u8, b: u8, a: u8) -> (c: Color)
        ensures
            c == (Color { r, g, b, a }),
    {
        Color { r, g, b, a }
    }
}

/// The byte of `v` that starts at bit `8 * k` (k = 0 is the lowest byte).
pub open spec fn byte_of(v: u32, k: nat) -> u8 {
    let d: nat = if k == 0 { 1 } else if k == 1 { 256 } else if k == 2 { 65536 } else { 16777216 };
    ((v as nat / d) % 256) as u8
}

/// A color given as a packed hexadecimal number, either `0xRRGGBB` or `0xRRGGBBAA`.
#[derive(Debug, Clone, Copy, PartialEq, Eq, Structural)]
pub struct HexColor {
    value: u32,
    is_from_rgba: bool,
}

impl HexColor {
    pub closed spec fn spec_value(&self) -> u32 {
        self.value
    }

    pub closed spec fn spec_is_from_rgba(&self) -> bool {
        self.is_from_rgba
    }

    /// The red channel as the packed number describes it.
    pub open spec fn spec_red(&self) -> u8 {
        if self.spec_is_from_rgba() { byte_of(self.spec_value(), 3) } else { byte_of(self.spec_value(), 2) }
    }

    pub open spec fn spec_green(&self) -> u8 {
        if self.spec_is_from_rgba() { byte_of(self.spec_value(), 2) } else { byte_of(self.spec_value(), 1) }
    }

    pub open spec fn spec_blue(&self) -> u8 {
        if self.spec_is_from_rgba() { byte_of(self.spec_value(), 1) } else { byte_of(self.spec_value(), 0) }
    }

    pub open spec fn spec_alpha(&self) -> u8 {
        if self.spec_is_from_rgba() { byte_of(self.spec_value(), 0) } else { 255 }
    }

    /// Reads `value` as `0xRRGGBB` (fully opaque).
    pub fn from_rgb(value: u32) -> (c: Self)
        ensures
            c.spec_value() == value,
            !c.spec_is_from_rgba(),
    {
        Self { value, is_from_rgba: false }
    }

    /// Reads `value` as `0xRRGGBBAA`.
    pub fn from_rgba(value: u32) -> (c: Self)
        ensures
            c.spec_value() == value,
            c.spec_is_from_rgba(),
    {
        Self { value, is_from_rgba: true }
    }

    pub fn red(&self) -> (r: u8)
        ensures
            r == self.spec_red(),
    {
        let v = self.value;
        if self.is_from_rgba {
            assert(((v >> 24u32) & 0xffu32) as u8 == ((v / 16777216) % 256) as u8) by (bit_vector);
            ((v >> 24u32) & 0xffu32) as u8
        } else {
            assert((v >> 16u32) as u8 == ((v / 65536) % 256) as u8) by (bit_vector);
            (v >> 16u32) as u8
        }
    }

    pub fn green(&self) -> (g: u8)
        ensures
            g == self.spec_green(),
    {
        let v = self.value;
        if self.is_from_rgba {
            assert(((v >> 16u32) & 0xffu32) as u8 == ((v / 65536) % 256) as u8) by (bit_vector);
            ((v >> 16u32) & 0xffu32) as u8
        } else {
            assert((v >> 8u32) as u8 == ((v / 256) % 256) as u8) by (bit_vector);
            (v >> 8u32) as u8
        }
    }

    pub fn blue(&self) -> (b: u8)
        ensures
            b == self.spec_blue(),
    {
        let v = self.value;
        if self.is_from_rgba {
            assert(((v >> 8u32) & 0xffu32) as u8 == ((v / 256) % 256) as u8) by (bit_vector);
            ((v >> 8u32) & 0xffu32) as u8
        } else {
            assert(v as u8 == (v % 256) as u8) by (bit_vector);
            v as u8
        }
    }

    pub fn alpha(&self) -> (a: u8)
        ensures
            a == self.spec_alpha(),
    {
        let v = self.value;
        if self.is_from_rgba {
            assert((v & 0xffu32) as u8 == (v % 256) as u8) by (bit_vector);
            (v & 0xffu32) as u8
        } else {
            255
        }
    }

    pub fn rgba(&self) -> (t: (u8, u8, u8, u8))
        ensures
            t == (self.spec_red(), self.spec_green(), self.spec_blue(), self.spec_alpha()),
    {
        (self.red(), self.green(), self.blue(), self.alpha())
    }

    /// The color this packed number stands for.
    pub fn to_color(&self) -> (c: Color)
        ensures
            c == (Color { r: self.spec_red(), g: self.spec_green(), b: self.spec_blue(), a: self.spec_alpha() }),
    {
        Color::from_rgba8(self.red(), self.green(), self.blue(), self.alpha())
    }
}

/// An opaque color from a packed `0xRRGGBB` number.
pub fn hex(val: u32) -> (c: Color)
    ensures
        c == (Color { r: byte_of(val, 2), g: byte_of(val, 1), b: byte_of(val, 0), a: 255 }),
{
    HexColor::from_rgb(val).to_color()
}


/// The sixteen base colors of a base16 palette.
#[derive(Clone, Copy, Debug, PartialEq, Eq, Structural)]
pub struct Base16 {
    pub base00: Color,
    pub base01: Color,
    pub base02: Color,
    pub base03: Color,
    pub base04: Color,
    pub base05: Color,
    pub base06: Color,
    pub base07: Color,
    pub base08: Color,
    pub base09: Color,
    pub base0a: Color,
    pub base0b: Color,
    pub base0c: Color,
    pub base0d: Color,
    pub base0e: Color,
    pub base0f: Color,
}

/// The semantic colors of the screen, derived from a base16 palette.
#[derive(Clone, Copy, Debug, PartialEq, Eq, Structural)]
pub struct Theme {
    pub raw: Base16,
    pub surface: Color,
    pub surface_raised: Color,
    pub surface_sunken: Color,
    pub text: Color,
    pub text_muted: Color,
    pub text_strong: Color,
    pub border: Color,
    pub border_focus: Color,
    pub primary: Color,
    pub success: Color,
    pub warning: Color,
    pub danger: Color,
}

impl Theme {
    /// Which palette entry each semantic color takes.
    pub open spec fn spec_from_base16(b: Base16) -> Theme {
        Theme {
            raw: b,
            surface: b.base00,
            surface_raised: b.base01,
            surface_sunken: b.base02,
            text: b.base05,
            text_muted: b.base04,
            text_strong: b.base07,
            border: b.base02,
            border_focus: b.base0d,
            primary: b.base0d,
            success: b.base0b,
            warning: b.base09,
            danger: b.base08,
        }
    }

    pub fn from_base16(b: Base16) -> (t: Self)
        ensures
            t == Self::spec_from_base16(b),
    {
        Theme {
            raw: b,
            surface: b.base00,
            surface_raised: b.base01,
            surface_sunken: b.base02,
            text: b.base05,
            text_muted: b.base04,
            text_strong: b.base07,
            border: b.base02,
            border_focus: b.base0d,
            primary: b.base0d,
            success: b.base0b,
            warning: b.base09,
            danger: b.base08,
        }
    }
}

/// The opaque color of a packed `0xRRGGBB` number, as a spec value.
pub open spec fn spec_hex(val: u32) -> Color {
    Color { r: byte_of(val, 2), g: byte_of(val, 1), b: byte_of(val, 0), a: 255 }
}

/// The light base16 palette the screen uses.
pub open spec fn spec_light_base16() -> Base16 {
    Base16 {
        base00: spec_hex(0xeff1f5),
        base01: spec_hex(0xe6e9ef),
        base02: spec_hex(0xccd0da),
        base03: spec_hex(0xbcc0cc),
        base04: spec_hex(0xacb0be),
        base05: spec_hex(0x4c4f69),
        base06: spec_hex(0xdc8a78),
        base07: spec_hex(0x7287fd),
        base08: spec_hex(0xd20f39),
        base09: spec_hex(0xfe640b),
        base0a: spec_hex(0xdf8e1d),
        base0b: spec_hex(0x40a02b),
        base0c: spec_hex(0x179299),
        base0d: spec_hex(0x1e66f5),
        base0e: spec_hex(0x8839ef),
        base0f: spec_hex(0xdd7878),
    }
}

/// The theme of the screen: the light base16 palette mapped to semantic colors.
pub fn light_theme() -> (t: Theme)
    ensures
        t == Theme::spec_from_base16(spec_light_base16()),
{
    let base16_light = Base16 {
        base00: hex(0xeff1f5),
        base01: hex(0xe6e9ef),
        base02: hex(0xccd0da),
        base03: hex(0xbcc0cc),
        base04: hex(0xacb0be),
        base05: hex(0x4c4f69),
        base06: hex(0xdc8a78),
        base07: hex(0x7287fd),
        base08: hex(0xd20f39),
        base09: hex(0xfe640b),
        base0a: hex(0xdf8e1d),
        base0b: hex(0x40a02b),
        base0c: hex(0x179299),
        base0d: hex(0x1e66f5),
        base0e: hex(0x8839ef),
        base0f: hex(0xdd7878),
    };
    Theme::from_base16(base16_light)
}

/// The value of a hexadecimal digit, either case.
pub open spec fn hex_digit_value(c: char) -> Option<u8> {
    if '0' <= c && c <= '9' {
        Some((c as u32 - '0' as u32) as u8)
    } else if 'a' <= c && c <= 'f' {
        Some((c as u32 - 'a' as u32 + 10) as u8)
    } else if 'A' <= c && c <= 'F' {
        Some((c as u32 - 'A' as u32 + 10) as u8)
    } else {
        None
    }
}

pub open spec fn is_hex_digit(c: char) -> bool {
    hex_digit_value(c) is Some
}

/// The byte written by the two hexadecimal digits `hi` and `lo`.
pub open spec fn hex_pair(hi: char, lo: char) -> u8 {
    (hex_digit_value(hi)->0 * 16 + hex_digit_value(lo)->0) as u8
}

/// What `parse_hex_color` accepts: `#` followed by exactly six hexadecimal digits.
pub open spec fn is_hex_color_text(s: Seq<char>) -> bool {
    &&& s.len() == 7
    &&& s[0] == '#'
    &&& forall|i: int| 1 <= i < 7 ==> is_hex_digit(#[trigger] s[i])
}

/// The opaque color that a `#RRGGBB` text names.
pub open spec fn spec_parse_hex_color(s: Seq<char>) -> Option<Color> {
    if is_hex_color_text(s) {
        Some(Color { r: hex_pair(s[1], s[2]), g: hex_pair(s[3], s[4]), b: hex_pair(s[5], s[6]), a: 255 })
    } else {
        None
    }
}

fn hex_digit(c: char) -> (d: Option<u8>)
    ensures
        d == hex_digit_value(c),
{
    if '0' <= c && c <= '9' {
        Some((c as u32 - '0' as u32) as u8)
    } else if 'a' <= c && c <= 'f' {
        Some((c as u32 - 'a' as u32 + 10) as u8)
    } else if 'A' <= c && c <= 'F' {
        Some((c as u32 - 'A' as u32 + 10) as u8)
    } else {
        None
    }
}

/// Parses a profile or calendar color written as `#RRGGBB`.
pub fn parse_hex_color(s: &str) -> (c: Option<Color>)
    ensures
        c == spec_parse_hex_color(s@),
{
    if s.unicode_len() != 7 {
        return None;
    }
    if s.get_char(0) != '#' {
        return None;
    }
    let mut digits: [u8; 6] = [0u8; 6];
    let mut i: usize = 1;
    while i < 7
        invariant
            1 <= i <= 7,
            s@.len() == 7,
            s@[0] == '#',
            forall|j: int| 1 <= j < i ==> is_hex_digit(#[trigger] s@[j]),
            forall|j: int| 1 <= j < i ==> digits@[j - 1] == hex_digit_value(#[trigger] s@[j])->0,
        decreases 7 - i,
    {
        match hex_digit(s.get_char(i)) {
            Some(d) => {
                digits[i - 1] = d;
            },
            None => {
                return None;
            },
        }
        i += 1;
    }
    assert(is_hex_color_text(s@));
    let r = digits[0] * 16 + digits[1];
    let g = digits[2] * 16 + digits[3];
    let b = digits[4] * 16 + digits[5];
    Some(Color { r, g, b, a: 255 })
}

/// The luminance weight of a color: 299 R + 587 G + 114 B (in thousandths).
pub open spec fn luminance(c: Color) -> int {
    c.r * 299 + c.g * 587 + c.b * 114
}

/// Black or white, whichever reads better on `color`: white on dark colors
/// (luminance below 128000), black otherwise.
pub open spec fn spec_readable_on(color: Color) -> Color {
    if luminance(color) < 128000 {
        Color { r: 255, g: 255, b: 255, a: 255 }
    } else {
        Color { r: 0, g: 0, b: 0, a: 255 }
    }
}

/// Text on a color is white exactly when its luma, with the weights 299 for
/// red, 587 for green and 114 for blue, is below 128000, and black otherwise;
/// the text is always opaque. Lighter colors never get white text where a darker
/// one gets black: raising any channel can only turn white text black.
pub proof fn lemma_readable_on_luma(c: Color, d: Color)
    ensures
        (299 * c.r + 587 * c.g + 114 * c.b < 128000) ==> spec_readable_on(c) == (Color { r: 255, g: 255, b: 255, a: 255 }),
        (299 * c.r + 587 * c.g + 114 * c.b >= 128000) ==> spec_readable_on(c) == (Color { r: 0, g: 0, b: 0, a: 255 }),
        c.r <= d.r && c.g <= d.g && c.b <= d.b && spec_readable_on(d).r == 255 ==> spec_readable_on(c).r == 255,
{
}

/// Black or white, whichever reads better on `color`.
pub fn readable_on(color: Color) -> (c: Color)
    ensures
        c == spec_readable_on(color),
{
    let luminance = (color.r as u32) * 299 + (color.g as u32) * 587 + (color.b as u32) * 114;
    if luminance < 128_000 {
        Color::from_rgba8(255, 255, 255, 255)
    } else {
        Color::from_rgba8(0, 0, 0, 255)
    }
}

/// The primary color of the theme, nearly transparent: the background of today's cell.
pub open spec fn spec_subtle_today() -> Color {
    Color { r: spec_hex(0x1e66f5).r, g: spec_hex(0x1e66f5).g, b: spec_hex(0x1e66f5).b, a: 24 }
}

/// The background of today's cell.
pub fn subtle_today_background() -> (c: Color)
    ensures
        c == spec_subtle_today(),
{
    let c = light_theme().primary;
    Color::from_rgba8(c.r, c.g, c.b, 24)
}

} // verus!
