//! What every LED shows: boot splash, per-key overrides, host lights, presses
//! and idle patterns, in their order of precedence.

use vstd::prelude::*;

use crate::colour::{
    black, codex_key_light, codex_light_pixel, hue, hue_of, key_light, light_pixel, unpack,
    unpacked, Grb, Light, Lights,
};
use crate::keymap::{Keymap, LedPattern, KEY_COUNT, LED_PATTERN_SOLID, MODE_CODEX};
use crate::pad::{codex_mode, Pad, PadModel};
use crate::scan::{bit_set, with_bit};

verus! {

/// LEDs in the underglow ring.
pub const UG_LEN: usize = 8;

/// Key LEDs that are held dark: all of the first row, the last two of the
/// third and all of the fourth.
pub const KEY_LED_OFF_MASK: u16 = 0x1F03;

/// An override that the host has not refreshed for this long lapses, so that
/// going dark is what a vanished host leaves behind.
pub const KEY_LED_OVERRIDE_TTL_MS: u32 = 5_000;

/// Splash length.
pub const SPLASH_MS: u32 = 1000;

/// Splash length when a boot chord has just changed the mode.
pub const SPLASH_BLINK_MS: u32 = 1800;

/// Half a blink of the splash.
pub const BLINK_MS: u32 = 150;

/// Scale ceilings, which keep the board inside its power budget.
pub const SCALE_PRESSED: u32 = 24;

pub const SCALE_HOST: u32 = 20;

pub const SCALE_OVERRIDE: u32 = 18;

pub const SCALE_IDLE: u32 = 6;

pub const SCALE_RING: u32 = 8;

/// Milliseconds from `from` to `to` on a 32-bit clock that wraps.
pub open spec fn elapsed(from: u32, to: u32) -> int {
    (to - from) % 0x1_0000_0000
}

/// The boot splash on the ring.
#[derive(Clone, Copy, Debug, PartialEq, Eq, Structural)]
pub struct Splash {
    pub until_ms: u32,
    /// Packed `0xRRGGBB`.
    pub rgb: u32,
    pub blink: bool,
}

/// Milliseconds that a splash lasts.
pub open spec fn splash_length(blink: bool) -> int {
    if blink {
        SPLASH_BLINK_MS as int
    } else {
        SPLASH_MS as int
    }
}

/// The splash that starts at `now`.
pub open spec fn splash_from(rgb: u32, blink: bool, now: u32) -> Splash {
    Splash { until_ms: ((now + splash_length(blink)) % 0x1_0000_0000) as u32, rgb, blink }
}

/// What the splash shows at `now`; nothing once it has expired.
pub open spec fn splash_at(splash: Splash, now: u32) -> Option<Grb> {
    let remaining = elapsed(now, splash.until_ms);
    if remaining == 0 || remaining >= 0x8000_0000 {
        None
    } else if splash.blink && (remaining / BLINK_MS as int) % 2 == 1 {
        Some(black())
    } else {
        Some(unpacked(splash.rgb))
    }
}

/// Starts the boot splash: the mode's colour, solid, or blinking when a boot
/// chord has just changed the mode.
pub fn splash(rgb: u32, blink: bool, now: u32) -> (splash: Splash)
    ensures
        splash == splash_from(rgb, blink, now),
{
    let length: u32 = if blink {
        SPLASH_BLINK_MS
    } else {
        SPLASH_MS
    };
    Splash { until_ms: now.wrapping_add(length), rgb, blink }
}

/// The boot splash colour while it runs; `None` once it has expired.
pub fn splash_pixel(splash: &Splash, now: u32) -> (pixel: Option<Grb>)
    ensures
        pixel == splash_at(*splash, now),
{
    let remaining: u32 = splash.until_ms.wrapping_sub(now);
    assert(remaining == elapsed(now, splash.until_ms));
    if remaining == 0 || remaining >= 0x8000_0000 {
        return None;
    }
    if splash.blink && (remaining / BLINK_MS) % 2 == 1 {
        return Some(Grb::dark());
    }
    Some(unpack(splash.rgb))
}

/// The splash as it is remembered after the frame at `now`: one that has
/// expired is moved up to the frame, so that the wrapping clock never reaches
/// it again.
pub open spec fn splash_kept(splash: Splash, now: u32) -> Splash {
    if splash_at(splash, now) is None {
        Splash { until_ms: now, ..splash }
    } else {
        splash
    }
}

/// The splash as it is remembered after the frames at `times`.
pub open spec fn splash_through(splash: Splash, times: Seq<u32>) -> Splash
    decreases times.len(),
{
    if times.len() == 0 {
        splash
    } else {
        splash_kept(splash_through(splash, times.drop_last()), times.last())
    }
}

/// A splash shows from its start to its end, and then no more for as long as
/// the clock's half range. A solid one shows its colour throughout.
pub proof fn law_splash_runs_its_length(rgb: u32, blink: bool, start: u32, now: u32)
    ensures
        ({
            let s = splash_from(rgb, blink, start);
            let age = elapsed(start, now);
            &&& age < splash_length(blink) ==> splash_at(s, now) is Some
            &&& age < splash_length(blink) && !blink ==> splash_at(s, now) == Some(unpacked(rgb))
            &&& splash_length(blink) <= age <= splash_length(blink) + 0x8000_0000 ==> splash_at(
                s,
                now,
            ) is None
        }),
{
}

/// A splash that has ended does not show for half the clock's range from there.
proof fn lemma_ended_splash(splash: Splash, now: u32)
    requires
        elapsed(splash.until_ms, now) <= 0x8000_0000,
    ensures
        splash_at(splash, now) is None,
{
    let back = elapsed(now, splash.until_ms);
    let on = elapsed(splash.until_ms, now);
    assert(back == 0 || back == 0x1_0000_0000 - on);
}

/// A splash that has expired never comes back, however often the clock wraps,
/// as long as no two frames lie half the clock's range apart.
pub proof fn law_expired_splash_stays_away(splash: Splash, times: Seq<u32>)
    requires
        times.len() > 0,
        splash_at(splash, times[0]) is None,
        forall|k: int|
            0 < k < times.len() ==> elapsed(times[k - 1], #[trigger] times[k]) <= 0x8000_0000,
    ensures
        splash_at(splash_through(splash, times.drop_last()), times.last()) is None,
        splash_through(splash, times).until_ms == times.last(),
    decreases times.len(),
{
    let rest = times.drop_last();
    if rest.len() == 0 {
        assert(splash_through(splash, rest) == splash);
    } else {
        assert forall|k: int| 0 < k < rest.len() implies elapsed(rest[k - 1], #[trigger] rest[k])
            <= 0x8000_0000 by {
            assert(rest[k] == times[k] && rest[k - 1] == times[k - 1]);
        }
        law_expired_splash_stays_away(splash, rest);
        let last = times.len() - 1;
        assert(rest.last() == times[last - 1]);
        assert(elapsed(times[last - 1], times[last]) <= 0x8000_0000);
        lemma_ended_splash(splash_through(splash, rest), times.last());
    }
}

/// Per-key LED overrides, as the host last asserted them.
#[derive(Clone, Copy, Debug)]
pub struct Overrides {
    /// Bit `i` is set while key `i` is overridden.
    pub mask: u16,
    /// Packed `0xRRGGBB` of each key.
    pub rgb: [u32; KEY_COUNT],
    /// Time of the last assertion.
    pub at: u32,
}

/// What the overrides say.
#[verifier::ext_equal]
pub ghost struct OverridesModel {
    pub mask: u16,
    pub rgb: Seq<u32>,
    pub at: u32,
}

impl View for Overrides {
    type V = OverridesModel;

    open spec fn view(&self) -> OverridesModel {
        OverridesModel { mask: self.mask, rgb: self.rgb@, at: self.at }
    }
}

impl OverridesModel {
    /// After key `index` was overridden at `now`.
    pub open spec fn asserted(self, index: int, rgb: u32, now: u32) -> OverridesModel {
        OverridesModel {
            mask: with_bit(self.mask, index, true),
            rgb: self.rgb.update(index, rgb),
            at: now,
        }
    }

    /// After the override of key `index` was taken back.
    pub open spec fn retracted(self, index: int) -> OverridesModel {
        OverridesModel { mask: with_bit(self.mask, index, false), ..self }
    }

    /// After stale overrides lapsed.
    pub open spec fn expired(self, now: u32) -> OverridesModel {
        if elapsed(self.at, now) > KEY_LED_OVERRIDE_TTL_MS {
            OverridesModel { mask: 0, ..self }
        } else {
            self
        }
    }
}

impl Overrides {
    /// No key is overridden.
    pub fn new() -> (overrides: Overrides)
        ensures
            overrides@ == (OverridesModel {
                mask: 0,
                rgb: Seq::new(KEY_COUNT as nat, |i: int| 0u32),
                at: 0,
            }),
    {
        Overrides { mask: 0, rgb: [0; KEY_COUNT], at: 0 }
    }

    /// Overrides key `index` from now on.
    pub fn set(&mut self, index: usize, rgb: u32, now: u32)
        requires
            index < KEY_COUNT,
        ensures
            final(self)@ == old(self)@.asserted(index as int, rgb, now),
    {
        self.rgb[index] = rgb;
        self.mask = self.mask | (1u16 << index);
        self.at = now;
    }

    /// Takes the override of key `index` back.
    pub fn clear(&mut self, index: usize)
        requires
            index < KEY_COUNT,
        ensures
            final(self)@ == old(self)@.retracted(index as int),
    {
        self.mask = self.mask & !(1u16 << index);
    }

    /// Lets overrides lapse that the host has stopped refreshing.
    pub fn expire(&mut self, now: u32)
        ensures
            final(self)@ == old(self)@.expired(now),
    {
        if self.mask != 0 {
            let age: u32 = now.wrapping_sub(self.at);
            assert(age == elapsed(self.at, now));
            if age > KEY_LED_OVERRIDE_TTL_MS {
                self.mask = 0;
            }
        }
    }
}

/// An override lasts while the host refreshes it and lapses when it stops: up
/// to the time to live after the last assertion every override stands, and
/// after it none does.
pub proof fn law_overrides_live_by_refresh(o: OverridesModel, index: u16, rgb: u32, at: u32, now: u32)
    requires
        index < KEY_COUNT,
    ensures
        elapsed(at, now) <= KEY_LED_OVERRIDE_TTL_MS ==> o.asserted(index as int, rgb, at).expired(
            now,
        ) == o.asserted(index as int, rgb, at),
        elapsed(at, now) <= KEY_LED_OVERRIDE_TTL_MS ==> bit_set(
            o.asserted(index as int, rgb, at).expired(now).mask,
            index as int,
        ),
        elapsed(at, now) > KEY_LED_OVERRIDE_TTL_MS ==> o.asserted(index as int, rgb, at).expired(
            now,
        ).mask == 0,
{
    crate::scan::law_with_bit(o.mask, index, index, true);
}

/// A colour and what the LED driver is to scale it by; `None` leaves it as it
/// is.
#[derive(Clone, Copy, Debug, PartialEq, Eq, Structural)]
pub struct Lit {
    pub colour: Grb,
    pub scale: Option<u8>,
}

/// A ceiling dimmed by the brightness setting, which counts squared.
pub open spec fn dim_of(base: u32, brightness: u8) -> int {
    base * brightness * brightness / 65025
}

/// The brightness setting only ever dims: it never exceeds the ceiling, gives
/// all of it at full brightness and nothing at zero, and more brightness is
/// never less light.
pub proof fn law_brightness_dims(base: u32, brightness: u8, brighter: u8)
    requires
        brightness <= brighter,
    ensures
        0 <= dim_of(base, brightness) <= dim_of(base, brighter) <= base,
        dim_of(base, 255) == base,
        dim_of(base, 0) == 0,
{
    assert(base * 0 * 0 == 0);
    assert(base * brightness <= base * brighter <= base * 255) by (nonlinear_arith)
        requires
            base >= 0,
            0 <= brightness <= brighter <= 255,
    ;
    let low = base * brightness;
    let high = base * brighter;
    assert(0 <= low * brightness <= high * brighter <= base * 65025) by (nonlinear_arith)
        requires
            low == base * brightness,
            high == base * brighter,
            base >= 0,
            0 <= brightness <= brighter <= 255,
    ;
}

/// Dims a ceiling by the brightness setting.
pub fn dim(base: u32, brightness: u8) -> (scale: u8)
    requires
        base <= 255,
    ensures
        scale == dim_of(base, brightness),
{
    proof {
        law_brightness_dims(base, brightness, brightness);
    }
    let bright: u32 = brightness as u32;
    assert(base * bright <= 65025 && base * bright * bright <= 16581375) by (nonlinear_arith)
        requires
            base <= 255,
            bright <= 255,
    ;
    ((base * bright * bright) / (255 * 255)) as u8
}

/// A colour under a dimmed ceiling.
pub open spec fn lit(colour: Grb, base: u32, brightness: u8) -> Lit {
    Lit { colour, scale: Some(dim_of(base, brightness) as u8) }
}

/// A colour under a dimmed ceiling.
fn light_up(colour: Grb, base: u32, brightness: u8) -> (pixel: Lit)
    requires
        base <= 255,
    ensures
        pixel == lit(colour, base, brightness),
{
    Lit { colour, scale: Some(dim(base, brightness)) }
}

/// The colour of an idle LED: its chain's pattern, or a rotating hue.
pub open spec fn idle_colour(pattern: LedPattern, phase: u8, offset: int) -> Grb {
    if pattern.mode == LED_PATTERN_SOLID {
        Grb { r: pattern.r, g: pattern.g, b: pattern.b }
    } else {
        hue_of(((phase + offset) % 256) as u8)
    }
}

/// The colour of an idle LED.
fn idle(pattern: LedPattern, phase: u8, offset: u8) -> (colour: Grb)
    ensures
        colour == idle_colour(pattern, phase, offset as int),
{
    if pattern.mode == LED_PATTERN_SOLID {
        Grb::rgb(pattern.r, pattern.g, pattern.b)
    } else {
        hue(phase.wrapping_add(offset))
    }
}

/// The lighting task's state.
#[derive(Clone, Copy, Debug)]
pub struct Lighting {
    /// Frame counter of the idle patterns.
    pub phase: u8,
    /// Animation clocks of the host's lights: the agent keys, the command
    /// keys, the ring.
    pub anim: [u32; 8],
    pub overrides: Overrides,
    pub splash: Splash,
}

/// What the lighting task remembers.
#[verifier::ext_equal]
pub ghost struct LightingModel {
    pub phase: u8,
    pub anim: Seq<u32>,
    pub overrides: OverridesModel,
    pub splash: Splash,
}

impl View for Lighting {
    type V = LightingModel;

    open spec fn view(&self) -> LightingModel {
        LightingModel {
            phase: self.phase,
            anim: self.anim@,
            overrides: self.overrides@,
            splash: self.splash,
        }
    }
}

/// Light `k` of the eight that have a clock.
pub open spec fn nth_light(lights: Lights, k: int) -> Light {
    if k < 6 {
        lights.agents@[k]
    } else if k == 6 {
        lights.keys
    } else {
        lights.ambient
    }
}

/// The animation clocks one frame later: each advances by its light's speed.
pub open spec fn advanced(anim: Seq<u32>, lights: Lights) -> Seq<u32> {
    Seq::new(
        8,
        |k: int| ((anim[k] + nth_light(lights, k).speed) % 0x1_0000_0000) as u32,
    )
}

impl LightingModel {
    /// One frame later. The host's clocks only run in Codex mode; an expired
    /// splash is retired for good.
    pub open spec fn ticked(self, m: PadModel, lights: Lights, now: u32) -> LightingModel {
        LightingModel {
            phase: ((self.phase + 1) % 256) as u8,
            anim: if m.device_mode == MODE_CODEX {
                advanced(self.anim, lights)
            } else {
                self.anim
            },
            overrides: self.overrides.expired(now),
            splash: splash_kept(self.splash, now),
        }
    }

    /// What the LED of key `i` shows: forced dark goes before everything, then
    /// a press, then the host's light, then an override, then the idle
    /// pattern.
    pub open spec fn key_pixel(self, m: PadModel, lights: Lights, i: int) -> Lit {
        let bright = m.keymap.led_brightness;
        let host = if m.device_mode == MODE_CODEX {
            key_light(lights, self.anim, i)
        } else {
            None
        };
        if bit_set(KEY_LED_OFF_MASK, i) {
            Lit { colour: black(), scale: None }
        } else if bit_set(m.keystate, i) {
            lit(Grb { g: 255, r: 255, b: 255 }, SCALE_PRESSED, bright)
        } else if let Some(colour) = host {
            lit(colour, SCALE_HOST, bright)
        } else if bit_set(self.overrides.mask, i) {
            lit(unpacked(self.overrides.rgb[i]), SCALE_OVERRIDE, bright)
        } else {
            lit(idle_colour(m.keymap.key_pattern, self.phase, i * 20), SCALE_IDLE, bright)
        }
    }

    /// What LED `i` of an `n`-LED ring shows: the splash, then the host's
    /// ambient light, then the idle pattern, which carries one full colour
    /// wheel around the ring.
    pub open spec fn ring_pixel(
        self,
        m: PadModel,
        lights: Lights,
        now: u32,
        i: int,
        n: int,
    ) -> Lit {
        let bright = m.keymap.led_brightness;
        let host = if m.device_mode == MODE_CODEX {
            light_pixel(lights.ambient, self.anim[7], i, n)
        } else {
            None
        };
        if let Some(colour) = splash_at(self.splash, now) {
            lit(colour, SCALE_RING, bright)
        } else if let Some(colour) = host {
            lit(colour, SCALE_RING, bright)
        } else {
            lit(idle_colour(m.keymap.ug_pattern, self.phase, i * (256int / n)), SCALE_RING, bright)
        }
    }
}

impl Lighting {
    /// Lighting at power-up, with the boot splash running.
    pub fn new(splash: Splash) -> (lighting: Lighting)
        ensures
            lighting@ == (LightingModel {
                phase: 0,
                anim: Seq::new(8, |k: int| 0u32),
                overrides: OverridesModel {
                    mask: 0,
                    rgb: Seq::new(KEY_COUNT as nat, |i: int| 0u32),
                    at: 0,
                },
                splash,
            }),
    {
        Lighting { phase: 0, anim: [0; 8], overrides: Overrides::new(), splash }
    }

    /// Advances by one frame.
    pub fn tick(&mut self, pad: &Pad, lights: &Lights, now: u32)
        ensures
            final(self)@ == old(self)@.ticked(pad@, *lights, now),
    {
        self.phase = self.phase.wrapping_add(1);
        self.overrides.expire(now);
        if splash_pixel(&self.splash, now).is_none() {
            self.splash.until_ms = now;
        }
        if codex_mode(pad) {
            let ghost before = self.anim@;
            let mut k: usize = 0;
            while k < 8
                invariant
                    k <= 8,
                    before.len() == 8,
                    self.phase == ((old(self).phase + 1) % 256) as u8,
                    self.overrides@ == old(self).overrides@.expired(now),
                    self.splash == splash_kept(old(self).splash, now),
                    forall|j: int|
                        0 <= j < k ==> #[trigger] self.anim@[j] == ((before[j] + nth_light(
                            *lights,
                            j,
                        ).speed) % 0x1_0000_0000) as u32,
                    forall|j: int| k <= j < 8 ==> #[trigger] self.anim@[j] == before[j],
                decreases 8 - k,
            {
                let speed: u32 = if k < 6 {
                    lights.agents[k].speed
                } else if k == 6 {
                    lights.keys.speed
                } else {
                    lights.ambient.speed
                };
                self.anim[k] = self.anim[k].wrapping_add(speed);
                k += 1;
            }
            assert(self.anim@ == advanced(before, *lights));
        }
    }

    /// What the LED of key `i` shows.
    pub fn key_pixel(&self, pad: &Pad, lights: &Lights, i: usize) -> (pixel: Lit)
        requires
            i < KEY_COUNT,
        ensures
            pixel == self@.key_pixel(pad@, *lights, i as int),
    {
        let bright: u8 = pad.keymap.led_brightness;
        let bit: u16 = 1u16 << i;
        if KEY_LED_OFF_MASK & bit != 0 {
            return Lit { colour: Grb::dark(), scale: None };
        }
        if pad.keystate & bit != 0 {
            return light_up(Grb::rgb(255, 255, 255), SCALE_PRESSED, bright);
        }
        if codex_mode(pad) {
            if let Some(colour) = codex_key_light(lights, &self.anim, i) {
                return light_up(colour, SCALE_HOST, bright);
            }
        }
        if self.overrides.mask & bit != 0 {
            return light_up(unpack(self.overrides.rgb[i]), SCALE_OVERRIDE, bright);
        }
        light_up(idle(pad.keymap.key_pattern, self.phase, (i as u8) * 20), SCALE_IDLE, bright)
    }

    /// What LED `i` of an `n`-LED ring shows at `now`.
    pub fn ring_pixel(&self, pad: &Pad, lights: &Lights, now: u32, i: usize, n: usize) -> (pixel:
        Lit)
        requires
            i < n,
            2 <= n <= 256,
        ensures
            pixel == self@.ring_pixel(pad@, *lights, now, i as int, n as int),
    {
        let bright: u8 = pad.keymap.led_brightness;
        if let Some(colour) = splash_pixel(&self.splash, now) {
            return light_up(colour, SCALE_RING, bright);
        }
        if codex_mode(pad) {
            if let Some(colour) = codex_light_pixel(&lights.ambient, self.anim[7], i, n) {
                return light_up(colour, SCALE_RING, bright);
            }
        }
        assert(i * (256int / n as int) <= 255) by (nonlinear_arith)
            requires
                i < n,
                2 <= n <= 256,
        ;
        let offset: u8 = (i * (256 / n)) as u8;
        light_up(idle(pad.keymap.ug_pattern, self.phase, offset), SCALE_RING, bright)
    }

    /// What the per-key chain shows.
    pub fn key_frame(&self, pad: &Pad, lights: &Lights) -> (frame: [Lit; KEY_COUNT])
        ensures
            forall|i: int|
                0 <= i < KEY_COUNT ==> #[trigger] frame@[i] == self@.key_pixel(pad@, *lights, i),
    {
        let mut frame: [Lit; KEY_COUNT] = [Lit { colour: Grb::dark(), scale: None }; KEY_COUNT];
        let mut i: usize = 0;
        while i < KEY_COUNT
            invariant
                i <= KEY_COUNT,
                forall|j: int|
                    0 <= j < i ==> #[trigger] frame@[j] == self@.key_pixel(pad@, *lights, j),
            decreases KEY_COUNT - i,
        {
            frame[i] = self.key_pixel(pad, lights, i);
            i += 1;
        }
        frame
    }

    /// What the underglow ring shows at `now`.
    pub fn ring_frame(&self, pad: &Pad, lights: &Lights, now: u32) -> (frame: [Lit; UG_LEN])
        ensures
            forall|i: int|
                0 <= i < UG_LEN ==> #[trigger] frame@[i] == self@.ring_pixel(
                    pad@,
                    *lights,
                    now,
                    i,
                    UG_LEN as int,
                ),
    {
        let mut frame: [Lit; UG_LEN] = [Lit { colour: Grb::dark(), scale: None }; UG_LEN];
        let mut i: usize = 0;
        while i < UG_LEN
            invariant
                i <= UG_LEN,
                forall|j: int|
                    0 <= j < i ==> #[trigger] frame@[j] == self@.ring_pixel(
                        pad@,
                        *lights,
                        now,
                        j,
                        UG_LEN as int,
                    ),
            decreases UG_LEN - i,
        {
            frame[i] = self.ring_pixel(pad, lights, now, i, UG_LEN);
            i += 1;
        }
        frame
    }
}

/// No setting, host light or override lifts a key LED over the press ceiling
/// or a ring LED over the ring ceiling: the board stays inside its budget.
pub proof fn law_frame_keeps_budget(
    l: LightingModel,
    m: PadModel,
    lights: Lights,
    now: u32,
    i: int,
    n: int,
)
    ensures
        l.key_pixel(m, lights, i).scale matches Some(scale) ==> scale <= SCALE_PRESSED,
        l.ring_pixel(m, lights, now, i, n).scale matches Some(scale) && scale <= SCALE_RING,
{
    let bright = m.keymap.led_brightness;
    law_brightness_dims(SCALE_PRESSED, bright, bright);
    law_brightness_dims(SCALE_HOST, bright, bright);
    law_brightness_dims(SCALE_OVERRIDE, bright, bright);
    law_brightness_dims(SCALE_IDLE, bright, bright);
    law_brightness_dims(SCALE_RING, bright, bright);
}

/// Forced-dark keys show nothing, whatever is pressed or asked for; the second
/// row and the first two keys of the third stay lit.
pub proof fn law_dark_keys_stay_dark(l: LightingModel, m: PadModel, lights: Lights)
    ensures
        forall|i: int|
            (i == 0 || i == 1 || 8 <= i < 13) ==> #[trigger] l.key_pixel(m, lights, i) == (Lit {
                colour: black(),
                scale: None,
            }),
        forall|i: int| 2 <= i < 8 ==> (#[trigger] l.key_pixel(m, lights, i)).scale is Some,
{
    assert forall|i: int| 0 <= i < 13 implies #[trigger] bit_set(KEY_LED_OFF_MASK, i) == (i == 0
        || i == 1 || 8 <= i) by {
        let k = i as u16;
        assert(k < 13 ==> ((0x1F03u16 & (1u16 << k) != 0) <==> (k == 0 || k == 1 || 8 <= k)))
            by (bit_vector);
    }
}

/// A light whose speed is zero stands still.
pub proof fn law_stopped_light_stands_still(anim: Seq<u32>, lights: Lights, k: int)
    requires
        0 <= k < 8,
        nth_light(lights, k).speed == 0,
    ensures
        advanced(anim, lights)[k] == anim[k],
{
}

/// Until the host has described a key's light, the pad's own light shows: the
/// same as out of Codex mode.
pub proof fn law_undescribed_light_shows_own(l: LightingModel, m: PadModel, lights: Lights, i: int)
    requires
        0 <= i < KEY_COUNT,
        key_light(lights, l.anim, i) is None,
    ensures
        l.key_pixel(m, lights, i) == l.key_pixel(PadModel { device_mode: 0, ..m }, lights, i),
{
}

/// Where its length divides the colour wheel, the idle ring carries exactly one
/// full wheel: as many hue steps as it has LEDs close the circle.
pub proof fn law_ring_carries_one_wheel(n: int)
    requires
        0 < n,
        256int % n == 0,
    ensures
        n * (256int / n) == 256,
{
    vstd::arithmetic::div_mod::lemma_fundamental_div_mod(256, n);
}

/// A splash lasts a second, or 1.8 where it blinks. A blinking one is dark and lit
/// in turn, 150 ms each, counted back from its end.
pub proof fn law_splash_times(rgb: u32, start: u32, age: u32)
    ensures
        ({
            let now = ((start + age) % 0x1_0000_0000) as u32;
            let solid = splash_at(splash_from(rgb, false, start), now);
            let blinking = splash_at(splash_from(rgb, true, start), now);
            &&& age < 1000 ==> solid == Some(unpacked(rgb))
            &&& 1000 <= age < 0x8000_0000 ==> solid is None
            &&& age < 1800 && ((1800 - age) / 150) % 2 == 0 ==> blinking == Some(unpacked(rgb))
            &&& age < 1800 && ((1800 - age) / 150) % 2 == 1 ==> blinking == Some(
                Grb { g: 0, r: 0, b: 0 },
            )
            &&& 1800 <= age < 0x8000_0000 ==> blinking is None
        }),
{
    let now = ((start + age) % 0x1_0000_0000) as u32;
    lemma_time_left(start, 1000, age);
    lemma_time_left(start, 1800, age);
}

/// The time left of a span on a clock that wraps.
proof fn lemma_time_left(start: u32, length: int, age: u32)
    requires
        0 <= length < 0x8000_0000,
    ensures
        ({
            let now = ((start + age) % 0x1_0000_0000) as u32;
            let end = ((start + length) % 0x1_0000_0000) as u32;
            &&& age <= length ==> elapsed(now, end) == length - age
            &&& length < age ==> elapsed(now, end) == length - age + 0x1_0000_0000
        }),
{
}

/// The frame retires a splash that has expired and keeps one that has not.
pub proof fn law_frames_keep_splash(splash: Splash, now: u32)
    ensures
        splash_at(splash, now) is Some ==> splash_kept(splash, now) == splash,
        splash_at(splash, now) is None ==> splash_kept(splash, now).until_ms == now,
        splash_kept(splash, now).rgb == splash.rgb,
        splash_kept(splash, now).blink == splash.blink,
{
}

/// Overriding a key sets its bit and its colour and starts the five seconds anew;
/// taking it back clears its bit alone. Neither touches the bit or the colour of
/// another key.
pub proof fn law_overrides_are_per_key(
    o: OverridesModel,
    key: u16,
    other: u16,
    rgb: u32,
    now: u32,
)
    requires
        o.rgb.len() == 13,
        key < 13,
        other < 13,
    ensures
        ({
            let on = o.asserted(key as int, rgb, now);
            let off = o.retracted(key as int);
            &&& (on.mask >> key) & 1 == 1
            &&& (off.mask >> key) & 1 == 0
            &&& on.rgb[key as int] == rgb
            &&& on.at == now
            &&& off.at == o.at
            &&& off.rgb == o.rgb
            &&& on.rgb.len() == 13
            &&& other != key ==> (on.mask >> other) & 1 == (o.mask >> other) & 1
            &&& other != key ==> (off.mask >> other) & 1 == (o.mask >> other) & 1
            &&& other != key ==> on.rgb[other as int] == o.rgb[other as int]
        }),
{
    let mask = o.mask;
    assert(((mask | (1u16 << key)) >> key) & 1 == 1 && ((mask & !(1u16 << key)) >> key) & 1 == 0)
        by (bit_vector)
        requires
            key < 13,
    ;
    if other != key {
        assert(((mask | (1u16 << key)) >> other) & 1 == (mask >> other) & 1 && ((mask & !(1u16
            << key)) >> other) & 1 == (mask >> other) & 1) by (bit_vector)
            requires
                key < 13,
                other < 13,
                key != other,
        ;
    }
}

/// Overrides stand for five seconds after the last assertion, on a clock that
/// wraps, and then all lapse together; their colours are kept.
pub proof fn law_overrides_stand_five_seconds(o: OverridesModel, age: u32)
    ensures
        ({
            let now = ((o.at + age) % 0x1_0000_0000) as u32;
            &&& age <= 5000 ==> o.expired(now) == o
            &&& age > 5000 ==> o.expired(now).mask == 0
            &&& o.expired(now).rgb == o.rgb && o.expired(now).at == o.at
        }),
{
}

/// `scale` is `ceiling` times the square of the brightness, over the square of
/// full brightness, rounded down.
pub open spec fn is_dimmed(scale: Option<u8>, ceiling: int, brightness: u8) -> bool {
    scale matches Some(s) && 65025 * s <= ceiling * brightness * brightness < 65025 * s + 65025
}

/// Dimming counts the brightness squared.
proof fn lemma_dims_squared(base: u32, brightness: u8)
    requires
        base <= 255,
    ensures
        is_dimmed(Some(dim_of(base, brightness) as u8), base as int, brightness),
        65025 * dim_of(base, brightness) <= base * brightness * brightness < 65025 * dim_of(
            base,
            brightness,
        ) + 65025,
{
    law_brightness_dims(base, brightness, brightness);
    let squared = base * brightness * brightness;
    assert(0 <= squared) by (nonlinear_arith)
        requires
            squared == base * brightness * brightness,
            0 <= base,
            0 <= brightness,
    ;
}

/// A dimmed ceiling is the ceiling times the square of the brightness over 255
/// squared, rounded down.
pub proof fn law_dimming_is_squared(base: u32, brightness: u8)
    requires
        base <= 255,
    ensures
        65025 * dim_of(base, brightness) <= base * brightness * brightness < 65025 * dim_of(
            base,
            brightness,
        ) + 65025,
{
    lemma_dims_squared(base, brightness);
}

/// What the LED of a lit key shows, and how bright. A pressed key is white under a
/// ceiling of 24; else, in Codex mode, the light that the host describes under 20;
/// else the override under 18; else the idle pattern under 6: its colour, or a hue
/// that turns with the frames and lies 20 further on every key. Each ceiling is
/// dimmed by the square of the configured brightness.
pub proof fn law_key_lights(l: LightingModel, m: PadModel, lights: Lights, i: u16)
    requires
        2 <= i < 8,
    ensures
        ({
            let px = l.key_pixel(m, lights, i as int);
            let bright = m.keymap.led_brightness;
            let pressed = (m.keystate >> i) & 1 == 1;
            let host = if m.device_mode == 1 {
                key_light(lights, l.anim, i as int)
            } else {
                None
            };
            let overridden = (l.overrides.mask >> i) & 1 == 1;
            let pattern = m.keymap.key_pattern;
            &&& pressed ==> px.colour == (Grb { g: 255, r: 255, b: 255 }) && is_dimmed(
                px.scale,
                24,
                bright,
            )
            &&& !pressed && host is Some ==> Some(px.colour) == host && is_dimmed(
                px.scale,
                20,
                bright,
            )
            &&& !pressed && host is None && overridden ==> px.colour == unpacked(
                l.overrides.rgb[i as int],
            ) && is_dimmed(px.scale, 18, bright)
            &&& !pressed && host is None && !overridden ==> is_dimmed(px.scale, 6, bright)
            &&& !pressed && host is None && !overridden && pattern.mode == 1 ==> px.colour == (Grb {
                r: pattern.r,
                g: pattern.g,
                b: pattern.b,
            })
            &&& !pressed && host is None && !overridden && pattern.mode != 1 ==> px.colour
                == hue_of(((l.phase + 20 * i) % 256) as u8)
        }),
{
    let bright = m.keymap.led_brightness;
    law_dark_keys_stay_dark(l, m, lights);
    assert(l.key_pixel(m, lights, i as int).scale is Some);
    assert(2 <= i && i < 8 ==> 0x1F03u16 & (1u16 << i) == 0) by (bit_vector);
    crate::scan::law_bits_are_places(m.keystate, i);
    crate::scan::law_bits_are_places(l.overrides.mask, i);
    lemma_dims_squared(24, bright);
    lemma_dims_squared(20, bright);
    lemma_dims_squared(18, bright);
    lemma_dims_squared(6, bright);
}

/// What an LED of the ring shows, and how bright: the splash while it lasts, else,
/// in Codex mode, the ambient light that the host describes, else the idle pattern:
/// its colour, or a hue that turns with the frames and goes once round the ring.
/// The ceiling is 8, dimmed by the square of the configured brightness.
pub proof fn law_ring_lights(
    l: LightingModel,
    m: PadModel,
    lights: Lights,
    now: u32,
    i: int,
    n: int,
)
    requires
        0 <= i < n,
    ensures
        ({
            let px = l.ring_pixel(m, lights, now, i, n);
            let splash = splash_at(l.splash, now);
            let host = if m.device_mode == 1 {
                light_pixel(lights.ambient, l.anim[7], i, n)
            } else {
                None
            };
            let pattern = m.keymap.ug_pattern;
            &&& is_dimmed(px.scale, 8, m.keymap.led_brightness)
            &&& splash is Some ==> Some(px.colour) == splash
            &&& splash is None && host is Some ==> Some(px.colour) == host
            &&& splash is None && host is None && pattern.mode == 1 ==> px.colour == (Grb {
                r: pattern.r,
                g: pattern.g,
                b: pattern.b,
            })
            &&& splash is None && host is None && pattern.mode != 1 && n == 8 ==> px.colour
                == hue_of(((l.phase + 32 * i) % 256) as u8)
            &&& splash is None && host is None && pattern.mode != 1 && n == 16 ==> px.colour
                == hue_of(((l.phase + 16 * i) % 256) as u8)
            &&& splash is None && host is None && pattern.mode != 1 ==> px.colour == hue_of(
                ((l.phase + i * (256int / n)) % 256) as u8,
            )
        }),
{
    lemma_dims_squared(8, m.keymap.led_brightness);
    if n == 8 {
        assert(i * (256int / n) == 32 * i) by (nonlinear_arith)
            requires
                n == 8,
        ;
    } else if n == 16 {
        assert(i * (256int / n) == 16 * i) by (nonlinear_arith)
            requires
                n == 16,
        ;
    }
}

/// More configured brightness never makes an LED darker and none makes it dark; the
/// colour stays the same.
pub proof fn law_brightness_setting_rules(
    l: LightingModel,
    m: PadModel,
    lights: Lights,
    now: u32,
    i: int,
    low: u8,
    high: u8,
)
    requires
        low <= high,
    ensures
        ({
            let dim = PadModel { keymap: Keymap { led_brightness: low, ..m.keymap }, ..m };
            let lit = PadModel { keymap: Keymap { led_brightness: high, ..m.keymap }, ..m };
            let key_dim = l.key_pixel(dim, lights, i);
            let key_lit = l.key_pixel(lit, lights, i);
            let ring_dim = l.ring_pixel(dim, lights, now, i, 8);
            let ring_lit = l.ring_pixel(lit, lights, now, i, 8);
            &&& key_dim.colour == key_lit.colour && ring_dim.colour == ring_lit.colour
            &&& key_dim.scale matches Some(a) ==> (key_lit.scale matches Some(b) && a <= b)
            &&& ring_dim.scale matches Some(a) && ring_lit.scale matches Some(b) && a <= b
            &&& low == 0 ==> (key_dim.scale matches Some(a) ==> a == 0) && ring_dim.scale == Some(
                0u8,
            )
        }),
{
    law_brightness_dims(24, low, high);
    law_brightness_dims(20, low, high);
    law_brightness_dims(18, low, high);
    law_brightness_dims(6, low, high);
    law_brightness_dims(8, low, high);
}

/// Every frame turns the idle hue by one. In Codex mode each of the eight clocks
/// advances by the speed of its light, the six agent keys, the command keys and the
/// ring, and wraps; out of it they stand still.
pub proof fn law_frame_advances(l: LightingModel, m: PadModel, lights: Lights, now: u32, k: int)
    requires
        l.anim.len() == 8,
        0 <= k < 8,
    ensures
        ({
            let next = l.ticked(m, lights, now);
            let speed = if k < 6 {
                lights.agents@[k].speed
            } else if k == 6 {
                lights.keys.speed
            } else {
                lights.ambient.speed
            };
            &&& l.phase < 255 ==> next.phase == l.phase + 1
            &&& l.phase == 255 ==> next.phase == 0
            &&& next.anim.len() == 8
            &&& m.device_mode != 1 ==> next.anim == l.anim
            &&& m.device_mode == 1 ==> next.anim[k] == (l.anim[k] + speed) % 0x1_0000_0000
            &&& next.overrides == l.overrides.expired(now)
            &&& next.splash == splash_kept(l.splash, now)
        }),
{
}

} // verus!
