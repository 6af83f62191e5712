//! Colours, and the effects that a Codex host describes for a strip of LEDs.

use vstd::prelude::*;

verus! {

/// A colour, in the order in which the LEDs take it.
#[derive(Clone, Copy, Debug, PartialEq, Eq, Structural)]
pub struct Grb {
    pub g: u8,
    pub r: u8,
    pub b: u8,
}

/// No light.
pub open spec fn black() -> Grb {
    Grb { g: 0, r: 0, b: 0 }
}

impl Grb {
    /// The colour with these parts.
    pub fn rgb(r: u8, g: u8, b: u8) -> (colour: Grb)
        ensures
            colour == (Grb { g, r, b }),
    {
        Grb { g, r, b }
    }

    /// No light.
    pub fn dark() -> (colour: Grb)
        ensures
            colour == black(),
    {
        Grb { g: 0, r: 0, b: 0 }
    }
}

/// The colour of a packed `0xRRGGBB`.
pub open spec fn unpacked(rgb: u32) -> Grb {
    Grb {
        g: ((rgb / 256) % 256) as u8,
        r: ((rgb / 65536) % 256) as u8,
        b: (rgb % 256) as u8,
    }
}

/// A packed `0xRRGGBB`.
pub open spec fn packed(r: u8, g: u8, b: u8) -> u32 {
    (r * 65536 + g * 256 + b) as u32
}

/// The colour of a packed `0xRRGGBB`.
pub fn unpack(rgb: u32) -> (colour: Grb)
    ensures
        colour == unpacked(rgb),
{
    assert((rgb >> 16) & 0xFF == (rgb / 65536) % 256) by (bit_vector);
    assert((rgb >> 8) & 0xFF == (rgb / 256) % 256) by (bit_vector);
    assert(rgb & 0xFF == rgb % 256) by (bit_vector);
    Grb {
        g: ((rgb >> 8) & 0xFF) as u8,
        r: ((rgb >> 16) & 0xFF) as u8,
        b: (rgb & 0xFF) as u8,
    }
}

/// Packs a colour as `0xRRGGBB`.
pub fn pack(r: u8, g: u8, b: u8) -> (rgb: u32)
    ensures
        rgb == packed(r, g, b),
{
    (r as u32) * 65536 + (g as u32) * 256 + b as u32
}

/// Unpacking gives back the colour that was packed.
pub proof fn law_pack_roundtrip(r: u8, g: u8, b: u8)
    ensures
        unpacked(packed(r, g, b)) == (Grb { g, r, b }),
{
    let rgb = r * 65536 + g * 256 + b;
    assert(rgb / 65536 == r);
    assert(rgb / 256 == r * 256 + g);
    assert((r * 256 + g) % 256 == g);
}

/// Hue `h` of 256 as a saturated colour: six ramps around the wheel.
pub open spec fn hue_of(h: u8) -> Grb {
    let ramp = ((h % 43) * 6) as u8;
    let down = (255 - ramp) as u8;
    if h < 43 {
        Grb { r: 255, g: ramp, b: 0 }
    } else if h < 86 {
        Grb { r: down, g: 255, b: 0 }
    } else if h < 129 {
        Grb { r: 0, g: 255, b: ramp }
    } else if h < 172 {
        Grb { r: 0, g: down, b: 255 }
    } else if h < 215 {
        Grb { r: ramp, g: 0, b: 255 }
    } else {
        Grb { r: 255, g: 0, b: down }
    }
}

/// Hue `h` of 256 as a saturated colour.
pub fn hue(h: u8) -> (colour: Grb)
    ensures
        colour == hue_of(h),
{
    let seg: u8 = h / 43;
    let rem: u8 = (h % 43) * 6;
    match seg {
        0 => Grb::rgb(255, rem, 0),
        1 => Grb::rgb(255 - rem, 255, 0),
        2 => Grb::rgb(0, 255, rem),
        3 => Grb::rgb(0, 255 - rem, 255),
        4 => Grb::rgb(rem, 0, 255),
        _ => Grb::rgb(255, 0, 255 - rem),
    }
}

/// Every hue is saturated: one part is full and one is off.
pub proof fn law_hues_are_saturated(h: u8)
    ensures
        ({
            let c = hue_of(h);
            &&& c.r == 255 || c.g == 255 || c.b == 255
            &&& c.r == 0 || c.g == 0 || c.b == 0
        }),
{
}

/// The effects of a host-described light.
#[derive(Clone, Copy, Debug, PartialEq, Eq, Structural)]
pub enum Effect {
    Off,
    Solid,
    /// A three-LED segment with a fading tail; a single LED breathes instead.
    Snake,
    /// Hue cycles; the colour is ignored.
    Rainbow,
    Breath,
    /// A hue spread along the strip.
    Gradient,
    ShallowBreath,
    /// An effect newer than this firmware; shown as solid.
    Unknown,
}

/// A light as the host described it.
#[derive(Clone, Copy, Debug, PartialEq, Eq, Structural)]
pub struct Light {
    /// Whether the host has described it at all.
    pub set: bool,
    pub effect: Effect,
    /// Packed `0xRRGGBB`.
    pub rgb: u32,
    /// Brightness.
    pub level: u8,
    /// What its animation clock advances by every frame.
    pub speed: u32,
}

/// All lights that the host describes.
#[derive(Clone, Copy, Debug)]
pub struct Lights {
    /// The six agent keys.
    pub agents: [Light; 6],
    /// The command-key strip.
    pub keys: Light,
    /// The ring.
    pub ambient: Light,
}

/// `num` of 255 of a colour.
pub open spec fn dimmed(colour: Grb, num: int) -> Grb {
    Grb {
        g: (colour.g * num / 255) as u8,
        r: (colour.r * num / 255) as u8,
        b: (colour.b * num / 255) as u8,
    }
}

/// `num` of 255 of one colour part.
fn part(value: u8, num: u32) -> (scaled: u8)
    requires
        num <= 255,
    ensures
        scaled == (value * num / 255) as u8,
{
    assert(value * num <= 65025) by (nonlinear_arith)
        requires
            0 <= value <= 255,
            0 <= num <= 255,
    ;
    (value as u32 * num / 255) as u8
}

/// `num` of 255 of a colour.
fn faded(colour: Grb, num: u32) -> (scaled: Grb)
    requires
        num <= 255,
    ensures
        scaled == dimmed(colour, num as int),
{
    Grb { g: part(colour.g, num), r: part(colour.r, num), b: part(colour.b, num) }
}

/// A full breath is 256 phase units: up over the first half, down over the
/// second.
pub open spec fn breath_of(acc: u32) -> int {
    let phase = (acc / 64) % 256;
    if phase < 128 {
        phase * 2
    } else {
        (255 - phase) * 2
    }
}

/// How far LED `i` of `n` lies behind the head of the snake.
pub open spec fn behind_head(acc: u32, i: int, n: int) -> int {
    ((acc / 2048) as int % n + n - i) % n
}

/// The hue of LED `i` of `n` in a spread along the strip.
pub open spec fn spread_hue(acc: u32, i: int, n: int) -> u8 {
    (((acc / 128) as int % 256 + i * 256 / n) % 256) as u8
}

/// Strength of the breath effect, of 255.
pub open spec fn breath_level(level: u8, acc: u32) -> int {
    level * (51 + breath_of(acc) * 204 / 255) / 255
}

/// Strength of the shallow-breath effect, of 255.
pub open spec fn shallow_level(level: u8, acc: u32) -> int {
    level * (128 + breath_of(acc) / 2) / 255
}

/// LED `i` of an `n`-LED strip that shows `light`, at animation clock `acc`;
/// nothing until the host has described the light.
pub open spec fn light_pixel(light: Light, acc: u32, i: int, n: int) -> Option<Grb> {
    let base = unpacked(light.rgb);
    let level = light.level as int;
    if !light.set {
        None
    } else {
        Some(
            match light.effect {
                Effect::Off => black(),
                Effect::Snake => if n > 1 {
                    let behind = behind_head(acc, i, n);
                    if behind == 0 {
                        dimmed(base, level)
                    } else if behind == 1 {
                        dimmed(base, level * 2 / 3)
                    } else if behind == 2 {
                        dimmed(base, level / 3)
                    } else {
                        black()
                    }
                } else {
                    dimmed(base, breath_level(light.level, acc))
                },
                Effect::Breath => dimmed(base, breath_level(light.level, acc)),
                Effect::ShallowBreath => dimmed(base, shallow_level(light.level, acc)),
                Effect::Rainbow => dimmed(hue_of(spread_hue(acc, i, n)), level),
                Effect::Gradient => dimmed(hue_of(spread_hue(acc, i, n)), level),
                Effect::Solid => dimmed(base, level),
                Effect::Unknown => dimmed(base, level),
            },
        )
    }
}

/// The strengths that breathing gives stay between a floor and the level.
proof fn lemma_breath(level: u8, acc: u32)
    ensures
        0 <= breath_of(acc) <= 254,
        51 <= 51 + breath_of(acc) * 204 / 255 <= 254,
        0 <= breath_level(level, acc) <= level,
        128 <= 128 + breath_of(acc) / 2 <= 255,
        0 <= shallow_level(level, acc) <= level,
        level * 51 / 255 <= breath_level(level, acc),
        level * 128 / 255 <= shallow_level(level, acc),
{
    let deep = 51 + breath_of(acc) * 204 / 255;
    let shallow = 128 + breath_of(acc) / 2;
    assert(level * 51 <= level * deep <= level * 255) by (nonlinear_arith)
        requires
            51 <= deep <= 255,
            level >= 0,
    ;
    assert(level * 128 <= level * shallow <= level * 255) by (nonlinear_arith)
        requires
            128 <= shallow <= 255,
            level >= 0,
    ;
}

/// The hue of LED `i` of `n` in a spread along the strip.
fn spread(acc: u32, i: usize, n: usize) -> (h: u8)
    requires
        n > 0,
        i * 256 <= usize::MAX,
    ensures
        h == spread_hue(acc, i as int, n as int),
{
    assert(acc >> 7 == acc / 128) by (bit_vector);
    let phase: u8 = ((acc >> 7) % 256) as u8;
    let offset: usize = i * 256 / n;
    let sum: usize = phase as usize + offset % 256;
    assert((phase + offset) % 256 == sum as int % 256);
    (sum % 256) as u8
}

/// How far LED `i` of `n` lies behind the head of the snake.
fn behind(acc: u32, i: usize, n: usize) -> (distance: usize)
    requires
        0 < n,
        i <= (acc / 2048) as int % n as int + n <= usize::MAX,
    ensures
        distance == behind_head(acc, i as int, n as int),
{
    assert(acc >> 11 == acc / 2048) by (bit_vector);
    let head: usize = (acc >> 11) as usize % n;
    (head + n - i) % n
}

/// Pixel `i` of an `n`-LED strip driven by a host-described light, at that
/// light's animation clock `acc`.
pub fn codex_light_pixel(light: &Light, acc: u32, i: usize, n: usize) -> (pixel: Option<Grb>)
    requires
        light.set && (light.effect == Effect::Rainbow || light.effect == Effect::Gradient) ==> i
            * 256 <= usize::MAX,
        light.set && light.effect == Effect::Snake && n > 1 ==> i <= (acc / 2048) as int % n as int
            + n <= usize::MAX,
    ensures
        pixel == light_pixel(
            *light,
            acc,
            i as int,
            if n == 0 {
                1
            } else {
                n as int
            },
        ),
{
    if !light.set {
        return None;
    }
    let level: u32 = light.level as u32;
    let base = unpack(light.rgb);
    assert((acc >> 6) & 0xFF == (acc / 64) % 256) by (bit_vector);
    let breath_phase: u32 = (acc >> 6) & 0xFF;
    let tri: u32 = if breath_phase < 128 {
        breath_phase * 2
    } else {
        (255 - breath_phase) * 2
    };
    proof {
        lemma_breath(light.level, acc);
    }
    let deep: u32 = 51 + tri * 204 / 255;
    let shallow: u32 = 128 + tri / 2;
    assert(level * deep <= 65025 && level * shallow <= 65025) by (nonlinear_arith)
        requires
            0 <= level <= 255,
            0 <= deep <= 255,
            0 <= shallow <= 255,
    ;
    let n: usize = if n == 0 {
        1
    } else {
        n
    };
    let pixel = match light.effect {
        Effect::Off => Grb::dark(),
        Effect::Snake => {
            if n > 1 {
                match behind(acc, i, n) {
                    0 => faded(base, level),
                    1 => faded(base, level * 2 / 3),
                    2 => faded(base, level / 3),
                    _ => Grb::dark(),
                }
            } else {
                faded(base, level * deep / 255)
            }
        },
        Effect::Breath => faded(base, level * deep / 255),
        Effect::ShallowBreath => faded(base, level * shallow / 255),
        Effect::Rainbow => faded(hue(spread(acc, i, n)), level),
        Effect::Gradient => faded(hue(spread(acc, i, n)), level),
        Effect::Solid => faded(base, level),
        Effect::Unknown => faded(base, level),
    };
    Some(pixel)
}

/// The host's light for key `i`: an agent light of its own for the first six
/// keys, the command-key strip for the other seven.
pub open spec fn key_light(lights: Lights, anim: Seq<u32>, i: int) -> Option<Grb> {
    if i < 6 {
        light_pixel(lights.agents@[i], anim[i], 0, 1)
    } else {
        light_pixel(lights.keys, anim[6], i - 6, 7)
    }
}

/// The host's light for key `i`; nothing until the host has described it.
pub fn codex_key_light(h: &Lights, anim: &[u32; 8], i: usize) -> (pixel: Option<Grb>)
    requires
        i < 13,
    ensures
        pixel == key_light(*h, anim@, i as int),
{
    if i < 6 {
        codex_light_pixel(&h.agents[i], anim[i], 0, 1)
    } else {
        codex_light_pixel(&h.keys, anim[6], i - 6, 7)
    }
}

/// The level caps every part of every pixel, whatever the effect.
pub proof fn law_level_caps_pixel(light: Light, acc: u32, i: int, n: int)
    ensures
        light_pixel(light, acc, i, n) matches Some(c) ==> c.r <= light.level && c.g <= light.level
            && c.b <= light.level,
{
    lemma_breath(light.level, acc);
    assert forall|c: Grb, num: int| 0 <= num <= light.level implies {
        let d = #[trigger] dimmed(c, num);
        d.r <= light.level && d.g <= light.level && d.b <= light.level
    } by {
        assert(0 <= c.r * num <= 255 * num && 0 <= c.g * num <= 255 * num && 0 <= c.b * num <= 255
            * num) by (nonlinear_arith)
            requires
                0 <= num,
                0 <= c.r <= 255,
                0 <= c.g <= 255,
                0 <= c.b <= 255,
        ;
    }
}

/// Breathing keeps between a fifth of the level and the level; shallow
/// breathing between half of it and the level.
pub proof fn law_breath_range(level: u8, acc: u32)
    ensures
        level * 51 / 255 <= breath_level(level, acc) <= level,
        level * 128 / 255 <= shallow_level(level, acc) <= level,
{
    lemma_breath(level, acc);
}

/// On a strip of three LEDs or more, the snake lights exactly its head and the
/// two LEDs behind it; every other LED is dark.
pub proof fn law_snake_is_three_long(acc: u32, i: int, n: int)
    requires
        3 <= n,
        0 <= i < n,
    ensures
        ({
            let head = (acc / 2048) as int % n;
            &&& (behind_head(acc, i, n) == 0 <==> i == head)
            &&& (behind_head(acc, i, n) == 1 <==> i == if head >= 1 {
                head - 1
            } else {
                head - 1 + n
            })
            &&& (behind_head(acc, i, n) == 2 <==> i == if head >= 2 {
                head - 2
            } else {
                head - 2 + n
            })
        }),
{
    let head = (acc / 2048) as int % n;
    assert(0 <= head < n);
    if i <= head {
        assert((head + n - i) % n == head - i) by (nonlinear_arith)
            requires
                0 <= i <= head,
                head < n,
        ;
    } else {
        assert((head + n - i) % n == head + n - i) by (nonlinear_arith)
            requires
                head < i,
                i < n,
                0 <= head,
        ;
    }
}

/// The parts of a packed colour are its three low bytes, red the highest.
pub proof fn law_colour_bytes(rgb: u32, r: u8, g: u8, b: u8)
    ensures
        unpacked(rgb).r * 65536 + unpacked(rgb).g * 256 + unpacked(rgb).b == rgb % 0x100_0000,
        packed(r, g, b) == r * 65536 + g * 256 + b,
        black().r == 0 && black().g == 0 && black().b == 0,
{
    assert(((rgb / 65536) % 256) * 65536 + ((rgb / 256) % 256) * 256 + rgb % 256 == rgb
        % 0x100_0000) by (bit_vector);
}

/// The wheel goes red, yellow, green, cyan, blue, magenta. On the way from one to
/// the next, 43 steps, one part moves by 6 a step and the others stand still.
pub proof fn law_hue_wheel(h: u8)
    ensures
        hue_of(0) == (Grb { r: 255, g: 0, b: 0 }),
        hue_of(43) == (Grb { r: 255, g: 255, b: 0 }),
        hue_of(86) == (Grb { r: 0, g: 255, b: 0 }),
        hue_of(129) == (Grb { r: 0, g: 255, b: 255 }),
        hue_of(172) == (Grb { r: 0, g: 0, b: 255 }),
        hue_of(215) == (Grb { r: 255, g: 0, b: 255 }),
        h < 255 && h % 43 != 42 ==> {
            let c = hue_of(h);
            let d = hue_of((h + 1) as u8);
            &&& h < 43 ==> d.g == c.g + 6 && d.r == c.r && d.b == c.b
            &&& 43 <= h < 86 ==> d.r == c.r - 6 && d.g == c.g && d.b == c.b
            &&& 86 <= h < 129 ==> d.b == c.b + 6 && d.r == c.r && d.g == c.g
            &&& 129 <= h < 172 ==> d.g == c.g - 6 && d.r == c.r && d.b == c.b
            &&& 172 <= h < 215 ==> d.r == c.r + 6 && d.g == c.g && d.b == c.b
            &&& 215 <= h ==> d.b == c.b - 6 && d.r == c.r && d.g == c.g
        },
{
}

/// `part` is `num` of 255 of `whole`, rounded down.
pub open spec fn is_share(part: u8, whole: u8, num: int) -> bool {
    255 * part <= whole * num < 255 * part + 255
}

/// `shown` is `num` of 255 of `colour`, part by part.
pub open spec fn shows_share(shown: Option<Grb>, colour: Grb, num: int) -> bool {
    shown matches Some(c) && is_share(c.r, colour.r, num) && is_share(c.g, colour.g, num)
        && is_share(c.b, colour.b, num)
}

/// Fading a colour takes the share of each part.
proof fn lemma_dimmed_share(colour: Grb, num: int)
    requires
        0 <= num <= 255,
    ensures
        shows_share(Some(dimmed(colour, num)), colour, num),
{
    assert(0 <= colour.r * num <= 255 * 255 && 0 <= colour.g * num <= 255 * 255 && 0 <= colour.b
        * num <= 255 * 255) by (nonlinear_arith)
        requires
            0 <= num <= 255,
            0 <= colour.r <= 255,
            0 <= colour.g <= 255,
            0 <= colour.b <= 255,
    ;
}

/// A light that the host has not described shows nothing; one that is off is dark;
/// a solid one, and one whose effect is not known, shows its colour at its level.
pub proof fn law_steady_lights(light: Light, acc: u32, i: int, n: int)
    ensures
        !light.set ==> light_pixel(light, acc, i, n) is None,
        light.set && light.effect == Effect::Off ==> light_pixel(light, acc, i, n) == Some(
            Grb { g: 0, r: 0, b: 0 },
        ),
        light.set && (light.effect == Effect::Solid || light.effect == Effect::Unknown)
            ==> shows_share(
            light_pixel(light, acc, i, n),
            unpacked(light.rgb),
            light.level as int,
        ),
        light.set ==> light_pixel(light, acc, i, n) is Some,
{
    lemma_dimmed_share(unpacked(light.rgb), light.level as int);
}

/// The strength of breathing, of 255: over 256 phases of 64 clock units it rises
/// from a fifth of the level and falls again the same way; shallow breathing from
/// half of it. A single LED breathes in place of the snake.
pub proof fn law_breathing_lights(light: Light, acc: u32, i: int, n: int)
    requires
        light.set,
    ensures
        ({
            let phase = (acc / 64) % 256;
            let swing = if phase < 128 {
                2 * phase
            } else {
                510 - 2 * phase
            };
            let deep = light.level * (51 + swing * 204 / 255) / 255;
            let shallow = light.level * (128 + swing / 2) / 255;
            &&& light.effect == Effect::Breath || (light.effect == Effect::Snake && n <= 1)
                ==> shows_share(light_pixel(light, acc, i, n), unpacked(light.rgb), deep)
            &&& light.effect == Effect::ShallowBreath ==> shows_share(
                light_pixel(light, acc, i, n),
                unpacked(light.rgb),
                shallow,
            )
        }),
{
    lemma_breath(light.level, acc);
    lemma_dimmed_share(unpacked(light.rgb), breath_level(light.level, acc));
    lemma_dimmed_share(unpacked(light.rgb), shallow_level(light.level, acc));
}

/// The snake on a strip: its head moves on by one LED every 2048 clock units and
/// shows the colour at its level, the LED behind it two thirds of that, the next
/// one a third, and the others nothing.
pub proof fn law_snake_lights(light: Light, acc: u32, i: int, n: int)
    requires
        light.set,
        light.effect == Effect::Snake,
        n >= 2,
        0 <= i < n,
    ensures
        ({
            let head = (acc / 2048) as int % n;
            let behind = if i <= head {
                head - i
            } else {
                head - i + n
            };
            let level = light.level as int;
            let base = unpacked(light.rgb);
            let shown = light_pixel(light, acc, i, n);
            &&& behind == 0 ==> shows_share(shown, base, level)
            &&& behind == 1 ==> shows_share(shown, base, level * 2 / 3)
            &&& behind == 2 ==> shows_share(shown, base, level / 3)
            &&& behind > 2 ==> shown == Some(Grb { g: 0, r: 0, b: 0 })
        }),
{
    let head = (acc / 2048) as int % n;
    assert(0 <= head < n);
    if i <= head {
        assert((head + n - i) % n == head - i) by (nonlinear_arith)
            requires
                0 <= i <= head,
                head < n,
        ;
    } else {
        assert((head + n - i) % n == head + n - i) by (nonlinear_arith)
            requires
                head < i,
                i < n,
                0 <= head,
        ;
    }
    let level = light.level as int;
    lemma_dimmed_share(unpacked(light.rgb), level);
    lemma_dimmed_share(unpacked(light.rgb), level * 2 / 3);
    lemma_dimmed_share(unpacked(light.rgb), level / 3);
}

/// Rainbow and gradient spread the wheel along the strip and turn it by one hue
/// every 128 clock units, at the light's level. The light's own colour plays no
/// part.
pub proof fn law_hue_lights(light: Light, acc: u32, i: int, n: int, rgb: u32)
    requires
        light.set,
        light.effect == Effect::Rainbow || light.effect == Effect::Gradient,
        n >= 1,
        0 <= i,
    ensures
        light_pixel(Light { rgb, ..light }, acc, i, n) == light_pixel(light, acc, i, n),
        shows_share(
            light_pixel(light, acc, i, n),
            hue_of(((acc / 128 + i * 256 / n) % 256) as u8),
            light.level as int,
        ),
{
    let offset = i * 256 / n;
    let turn = (acc / 128) as int;
    assert((turn % 256 + offset) % 256 == (turn + offset) % 256);
    lemma_dimmed_share(hue_of(spread_hue(acc, i, n)), light.level as int);
}

/// Each of the first six keys is a strip of one LED with its own light and clock;
/// the other seven are one strip with the seventh clock.
pub proof fn law_keys_have_their_lights(lights: Lights, anim: Seq<u32>, i: int)
    ensures
        0 <= i < 6 ==> key_light(lights, anim, i) == light_pixel(
            lights.agents@[i],
            anim[i],
            0,
            1,
        ),
        6 <= i < 13 ==> key_light(lights, anim, i) == light_pixel(lights.keys, anim[6], i - 6, 7),
{
}

} // verus!
