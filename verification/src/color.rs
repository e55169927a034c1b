//! Colours, and their conversion to the 8-bit channels of an image.
use crate::fixed::{fx_add, fx_div, fx_mul, fx_sqrt, in_range, sat, Fixed, ONE_RAW};
use crate::vec3::Vec3;
use core::ops::{Add, Mul};
use vstd::prelude::*;

verus! {

/// The raw value of the brightest channel that is written out: 0.999.
pub const CHANNEL_MAX_RAW: i64 = 4290672328;

/// The mathematical model of a colour: its three raw channels.
pub struct Rgb {
    pub r: int,
    pub g: int,
    pub b: int,
}

/// The channel-wise sum.
pub open spec fn rgb_add(a: Rgb, b: Rgb) -> Rgb {
    Rgb { r: fx_add(a.r, b.r), g: fx_add(a.g, b.g), b: fx_add(a.b, b.b) }
}

/// The channel-wise product: light of colour `b` seen off a surface of colour `a`.
pub open spec fn rgb_mul(a: Rgb, b: Rgb) -> Rgb {
    Rgb { r: fx_mul(a.r, b.r), g: fx_mul(a.g, b.g), b: fx_mul(a.b, b.b) }
}

/// The colour `a` with each channel scaled by the raw scalar `s`.
pub open spec fn rgb_scale(a: Rgb, s: int) -> Rgb {
    Rgb { r: fx_mul(a.r, s), g: fx_mul(a.g, s), b: fx_mul(a.b, s) }
}

/// No light at all.
pub open spec fn rgb_black() -> Rgb {
    Rgb { r: 0, g: 0, b: 0 }
}

/// The 8-bit value of a channel: the channel is brought into `[0, 0.999]`,
/// multiplied by 256 and rounded down.
pub open spec fn channel_value(n: int) -> int {
    let c = if n < 0 {
        0
    } else if n > CHANNEL_MAX_RAW {
        CHANNEL_MAX_RAW as int
    } else {
        n
    };
    (256 * c) / (ONE_RAW as int)
}

/// The 8-bit value of a channel summed over `samples` samples: the mean,
/// gamma-corrected by a square root.
pub open spec fn pixel_channel(sum: int, samples: int) -> int {
    let scale = fx_div(ONE_RAW as int, sat(samples * ONE_RAW));
    channel_value(fx_sqrt(fx_mul(sum, scale)))
}

/// The numeral of the digit `d`.
pub open spec fn digit_char(d: int) -> char {
    if d == 0 {
        '0'
    } else if d == 1 {
        '1'
    } else if d == 2 {
        '2'
    } else if d == 3 {
        '3'
    } else if d == 4 {
        '4'
    } else if d == 5 {
        '5'
    } else if d == 6 {
        '6'
    } else if d == 7 {
        '7'
    } else if d == 8 {
        '8'
    } else {
        '9'
    }
}

/// The decimal numeral of `n`, without leading zeros.
pub open spec fn decimal(n: nat) -> Seq<char>
    decreases n,
{
    if n < 10 {
        seq![digit_char(n as int)]
    } else {
        decimal(n / 10).push(digit_char((n % 10) as int))
    }
}

/// One line of image text: the three channel values, separated by blanks.
pub open spec fn pixel_text(r: int, g: int, b: int) -> Seq<char> {
    decimal(r as nat) + seq![' '] + decimal(g as nat) + seq![' '] + decimal(b as nat) + seq!['\n']
}

/// An amount of red, green and blue light.
#[derive(Debug, Copy, Clone, PartialEq)]
pub struct Color {
    pub r: Fixed,
    pub g: Fixed,
    pub b: Fixed,
}

impl View for Color {
    type V = Rgb;

    open spec fn view(&self) -> Rgb {
        Rgb { r: self.r@, g: self.g@, b: self.b@ }
    }
}

/// The numeral of the digit `d`, as text.
fn digit_text(d: u32) -> (s: &'static str)
    requires
        d < 10,
    ensures
        s@ == seq![digit_char(d as int)],
{
    proof {
        reveal_strlit("0");
        reveal_strlit("1");
        reveal_strlit("2");
        reveal_strlit("3");
        reveal_strlit("4");
        reveal_strlit("5");
        reveal_strlit("6");
        reveal_strlit("7");
        reveal_strlit("8");
        reveal_strlit("9");
    }
    let s = if d == 0 {
        "0"
    } else if d == 1 {
        "1"
    } else if d == 2 {
        "2"
    } else if d == 3 {
        "3"
    } else if d == 4 {
        "4"
    } else if d == 5 {
        "5"
    } else if d == 6 {
        "6"
    } else if d == 7 {
        "7"
    } else if d == 8 {
        "8"
    } else {
        "9"
    };
    assert(s@ =~= seq![digit_char(d as int)]);
    s
}

/// Appends the decimal numeral of `n` to `text`.
pub fn append_decimal(text: &mut String, n: u32)
    ensures
        final(text)@ == old(text)@ + decimal(n as nat),
    decreases n,
{
    if n >= 10 {
        append_decimal(text, n / 10);
    }
    text.append(digit_text(n % 10));
    assert(final(text)@ =~= old(text)@ + decimal(n as nat));
}

/// The 8-bit value of a channel.
fn translate_color_value(n: Fixed) -> (v: u32)
    ensures
        v == channel_value(n@),
        v <= 255,
{
    let c = n.clamp(Fixed::zero(), Fixed::from_raw(CHANNEL_MAX_RAW));
    let raw: i64 = c.to_raw();
    (raw / 0x100_0000) as u32
}

/// The three 8-bit channel values of a pixel whose samples add up to `color`.
pub fn pixel_values(color: Color, samples_per_pixel: usize) -> (v: (u32, u32, u32))
    ensures
        v.0 == pixel_channel(color@.r, samples_per_pixel as int),
        v.1 == pixel_channel(color@.g, samples_per_pixel as int),
        v.2 == pixel_channel(color@.b, samples_per_pixel as int),
        v.0 <= 255 && v.1 <= 255 && v.2 <= 255,
{
    // Divide the color by the number of samples.
    let scale = Fixed::one() / Fixed::from_usize(samples_per_pixel);
    let Color { r, g, b } = color * scale;
    let ir = translate_color_value(r.sqrt());
    let ig = translate_color_value(g.sqrt());
    let ib = translate_color_value(b.sqrt());
    (ir, ig, ib)
}

/// The line of image text for a pixel whose samples add up to `color`.
pub fn get_pixel(color: Color, samples_per_pixel: usize) -> (text: String)
    ensures
        text@ == pixel_text(
            pixel_channel(color@.r, samples_per_pixel as int),
            pixel_channel(color@.g, samples_per_pixel as int),
            pixel_channel(color@.b, samples_per_pixel as int),
        ),
{
    let (ir, ig, ib) = pixel_values(color, samples_per_pixel);
    let mut text = String::new();
    proof {
        reveal_strlit(" ");
        reveal_strlit("\n");
    }
    append_decimal(&mut text, ir);
    text.append(" ");
    append_decimal(&mut text, ig);
    text.append(" ");
    append_decimal(&mut text, ib);
    text.append("\n");
    assert(text@ =~= pixel_text(ir as int, ig as int, ib as int));
    text
}

impl Color {
    pub fn new(r: Fixed, g: Fixed, b: Fixed) -> (c: Color)
        ensures
            c.r == r,
            c.g == g,
            c.b == b,
    {
        Self { r, g, b }
    }

    /// A colour is determined by its model.
    pub open spec fn of(c: Rgb) -> Color {
        Color { r: Fixed::of(c.r), g: Fixed::of(c.g), b: Fixed::of(c.b) }
    }

    /// A colour is determined by its model.
    pub proof fn lemma_is_of(self, c: Rgb)
        requires
            self@ == c,
            in_range(c.r) && in_range(c.g) && in_range(c.b),
        ensures
            self == Color::of(c),
    {
        Fixed::lemma_of_view(c.r);
        Fixed::lemma_of_view(c.g);
        Fixed::lemma_of_view(c.b);
        Fixed::lemma_view_injective(self.r, Fixed::of(c.r));
        Fixed::lemma_view_injective(self.g, Fixed::of(c.g));
        Fixed::lemma_view_injective(self.b, Fixed::of(c.b));
    }

    /// No light at all.
    pub fn black() -> (c: Color)
        ensures
            c@ == rgb_black(),
    {
        Self { r: Fixed::zero(), g: Fixed::zero(), b: Fixed::zero() }
    }

    /// Adds `other` to this colour in place.
    pub fn add_assign(&mut self, other: Self)
        ensures
            final(self)@ == rgb_add(old(self)@, other@),
    {
        *self = Self { r: self.r + other.r, g: self.g + other.g, b: self.b + other.b };
    }
}

impl Add for Color {
    type Output = Self;

    fn add(self, other: Self) -> (c: Color)
        ensures
            c@ == rgb_add(self@, other@),
    {
        let c = Self { r: self.r + other.r, g: self.g + other.g, b: self.b + other.b };
        proof {
            c.lemma_is_of(rgb_add(self@, other@));
        }
        c
    }
}

impl vstd::std_specs::ops::AddSpecImpl for Color {
    open spec fn obeys_add_spec() -> bool {
        true
    }

    open spec fn add_req(self, other: Color) -> bool {
        true
    }

    open spec fn add_spec(self, other: Color) -> Color {
        Color::of(rgb_add(self@, other@))
    }
}

impl Add<Color> for Vec3 {
    type Output = Color;

    fn add(self, other: Color) -> (c: Color)
        ensures
            c@ == (Rgb {
                r: fx_add(self@.x, other@.r),
                g: fx_add(self@.y, other@.g),
                b: fx_add(self@.z, other@.b),
            }),
    {
        let c = Color { r: self.x + other.r, g: self.y + other.g, b: self.z + other.b };
        proof {
            c.lemma_is_of(c@);
        }
        c
    }
}

impl vstd::std_specs::ops::AddSpecImpl<Color> for Vec3 {
    open spec fn obeys_add_spec() -> bool {
        true
    }

    open spec fn add_req(self, other: Color) -> bool {
        true
    }

    open spec fn add_spec(self, other: Color) -> Color {
        Color::of(
            Rgb {
                r: fx_add(self@.x, other@.r),
                g: fx_add(self@.y, other@.g),
                b: fx_add(self@.z, other@.b),
            },
        )
    }
}

impl Mul for Color {
    type Output = Self;

    fn mul(self, rhs: Color) -> (c: Color)
        ensures
            c@ == rgb_mul(self@, rhs@),
    {
        let c = Self { r: self.r * rhs.r, g: self.g * rhs.g, b: self.b * rhs.b };
        proof {
            c.lemma_is_of(rgb_mul(self@, rhs@));
        }
        c
    }
}

impl vstd::std_specs::ops::MulSpecImpl for Color {
    open spec fn obeys_mul_spec() -> bool {
        true
    }

    open spec fn mul_req(self, rhs: Color) -> bool {
        true
    }

    open spec fn mul_spec(self, rhs: Color) -> Color {
        Color::of(rgb_mul(self@, rhs@))
    }
}

impl Mul<Fixed> for Color {
    type Output = Self;

    fn mul(self, rhs: Fixed) -> (c: Color)
        ensures
            c@ == rgb_scale(self@, rhs@),
    {
        let c = Self { r: self.r * rhs, g: self.g * rhs, b: self.b * rhs };
        proof {
            c.lemma_is_of(rgb_scale(self@, rhs@));
        }
        c
    }
}

impl vstd::std_specs::ops::MulSpecImpl<Fixed> for Color {
    open spec fn obeys_mul_spec() -> bool {
        true
    }

    open spec fn mul_req(self, rhs: Fixed) -> bool {
        true
    }

    open spec fn mul_spec(self, rhs: Fixed) -> Color {
        Color::of(rgb_scale(self@, rhs@))
    }
}

impl Mul<Color> for Fixed {
    type Output = Color;

    fn mul(self, rhs: Color) -> (c: Color)
        ensures
            c@ == rgb_scale(rhs@, self@),
    {
        rhs * self
    }
}

impl vstd::std_specs::ops::MulSpecImpl<Color> for Fixed {
    open spec fn obeys_mul_spec() -> bool {
        true
    }

    open spec fn mul_req(self, rhs: Color) -> bool {
        true
    }

    open spec fn mul_spec(self, rhs: Color) -> Color {
        Color::of(rgb_scale(rhs@, self@))
    }
}

} // verus!
