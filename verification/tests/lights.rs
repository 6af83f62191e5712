use openmicro::colour::{
    codex_key_light, codex_light_pixel, hue, pack, unpack, Effect, Grb, Light, Lights,
};
use openmicro::keymap::{Keymap, LedPattern, Slot, SlotKind, LED_PATTERN_SOLID, SLOT_COUNT};
use openmicro::lighting::{dim, splash, splash_pixel, Lighting, Lit, Overrides};
use openmicro::pad::Pad;
use openmicro::version::version_bcd;

fn light(effect: Effect) -> Light {
    Light { set: true, effect, rgb: 0xFF8000, level: 255, speed: 7 }
}

fn unset() -> Light {
    Light { set: false, effect: Effect::Off, rgb: 0, level: 0, speed: 0 }
}

fn no_lights() -> Lights {
    Lights { agents: [unset(); 6], keys: unset(), ambient: unset() }
}

fn pad_in(mode: u8) -> Pad {
    let solid = |r, g, b| LedPattern { mode: LED_PATTERN_SOLID, r, g, b };
    let keymap = Keymap {
        slots: [Slot { kind: SlotKind::Empty, mods: 0, code: 0 }; SLOT_COUNT],
        joy_threshold: 1000,
        joy_mode: 0,
        joy_mouse_speed: 5,
        led_brightness: 255,
        key_pattern: solid(1, 2, 3),
        ug_pattern: solid(4, 5, 6),
        device_mode: mode,
    };
    Pad::new(keymap, mode)
}

fn lighting() -> Lighting {
    Lighting::new(splash(0, false, 0))
}

fn lit(colour: Grb, scale: u8) -> Lit {
    Lit { colour, scale: Some(scale) }
}

#[test]
fn version_as_release_number() {
    assert_eq!(version_bcd("0.10.0"), 0x00A0);
    assert_eq!(version_bcd("1.2.3"), 0x0123);
    assert_eq!(version_bcd("300.17.18"), 0x2C12);
    assert_eq!(version_bcd("2.4-rc1.9"), 0x02_19 | ((41 & 0xF) << 4));
    assert_eq!(version_bcd("1.2.3.4"), 0x0123);
    assert_eq!(version_bcd(""), 0);
}

#[test]
fn packing() {
    assert_eq!(pack(0xF5, 0xAE, 0x58), 0xF5AE58);
    assert_eq!(unpack(0xF5AE58), Grb::rgb(0xF5, 0xAE, 0x58));
    assert_eq!(unpack(0xAB123456), Grb::rgb(0x12, 0x34, 0x56));
}

#[test]
fn hues() {
    assert_eq!(hue(0), Grb::rgb(255, 0, 0));
    assert_eq!(hue(42), Grb::rgb(255, 252, 0));
    assert_eq!(hue(43), Grb::rgb(255, 255, 0));
    assert_eq!(hue(44), Grb::rgb(249, 255, 0));
    assert_eq!(hue(87), Grb::rgb(0, 255, 6));
    assert_eq!(hue(130), Grb::rgb(0, 249, 255));
    assert_eq!(hue(173), Grb::rgb(6, 0, 255));
    assert_eq!(hue(255), Grb::rgb(255, 0, 15));
}

#[test]
fn brightness_counts_squared() {
    assert_eq!(dim(24, 255), 24);
    assert_eq!(dim(24, 128), 6);
    assert_eq!(dim(24, 0), 0);
    assert_eq!(dim(255, 254), 253);
}

#[test]
fn undescribed_and_dark_lights() {
    assert_eq!(codex_light_pixel(&unset(), 0, 0, 1), None);
    assert_eq!(codex_light_pixel(&light(Effect::Off), 99, 0, 1), Some(Grb::dark()));
}

#[test]
fn solid_and_unknown_lights() {
    let orange = Some(Grb::rgb(255, 128, 0));
    assert_eq!(codex_light_pixel(&light(Effect::Solid), 0, 0, 1), orange);
    assert_eq!(codex_light_pixel(&light(Effect::Unknown), 0, 3, 7), orange);
    let half = Light { level: 100, ..light(Effect::Solid) };
    assert_eq!(codex_light_pixel(&half, 0, 0, 1), Some(Grb::rgb(100, 50, 0)));
}

#[test]
fn snake_has_a_tail_of_two() {
    let snake = light(Effect::Snake);
    let acc = 1 << 11;
    let strip: Vec<_> = (0..8).map(|i| codex_light_pixel(&snake, acc, i, 8)).collect();
    assert_eq!(strip[1], Some(Grb::rgb(255, 128, 0)));
    assert_eq!(strip[0], Some(Grb::rgb(170, 85, 0)));
    assert_eq!(strip[7], Some(Grb::rgb(85, 42, 0)));
    for i in 2..7 {
        assert_eq!(strip[i], Some(Grb::dark()));
    }
}

#[test]
fn single_led_snake_breathes() {
    for acc in [0, 64 * 100, 64 * 200] {
        assert_eq!(
            codex_light_pixel(&light(Effect::Snake), acc, 0, 1),
            codex_light_pixel(&light(Effect::Breath), acc, 0, 1)
        );
    }
}

#[test]
fn breathing() {
    let deep = |acc| codex_light_pixel(&light(Effect::Breath), acc, 0, 1).unwrap().r;
    assert_eq!(deep(0), 51);
    assert_eq!(deep(64 * 127), 254);
    assert_eq!(deep(64 * 128), 254);
    assert_eq!(deep(64 * 255), 51);
    assert_eq!(deep(64 * 256), 51);
    let shallow = |acc| codex_light_pixel(&light(Effect::ShallowBreath), acc, 0, 1).unwrap().r;
    assert_eq!(shallow(0), 128);
    assert_eq!(shallow(64 * 127), 255);
}

#[test]
fn rainbow_and_gradient_spread_the_hue() {
    for effect in [Effect::Rainbow, Effect::Gradient] {
        for i in 0..8 {
            let h = ((300 + i * 32) % 256) as u8;
            assert_eq!(codex_light_pixel(&light(effect), 300 * 128, i, 8), Some(hue(h)));
        }
    }
}

#[test]
fn keys_take_their_agent_or_the_strip() {
    let mut lights = no_lights();
    lights.agents[4] = light(Effect::Solid);
    lights.keys = light(Effect::Snake);
    let mut anim = [0; 8];
    anim[6] = 2 << 11;
    assert_eq!(codex_key_light(&lights, &anim, 3), None);
    assert_eq!(codex_key_light(&lights, &anim, 4), Some(Grb::rgb(255, 128, 0)));
    assert_eq!(codex_key_light(&lights, &anim, 8), Some(Grb::rgb(255, 128, 0)));
    assert_eq!(codex_key_light(&lights, &anim, 12), Some(Grb::dark()));
}

#[test]
fn solid_splash_runs_a_second() {
    let s = splash(0xF5AE58, false, u32::MAX - 99);
    let shown = Some(Grb::rgb(0xF5, 0xAE, 0x58));
    assert_eq!(splash_pixel(&s, u32::MAX - 99), shown);
    assert_eq!(splash_pixel(&s, 0), shown);
    assert_eq!(splash_pixel(&s, 899), shown);
    assert_eq!(splash_pixel(&s, 900), None);
    assert_eq!(splash_pixel(&s, 901), None);
}

#[test]
fn blinking_splash() {
    let s = splash(0xFFFFFF, true, 0);
    let white = Some(Grb::rgb(255, 255, 255));
    // 1800 ms remain: twelve halves, an even number.
    assert_eq!(splash_pixel(&s, 0), white);
    assert_eq!(splash_pixel(&s, 1), Some(Grb::dark()));
    assert_eq!(splash_pixel(&s, 150), Some(Grb::dark()));
    assert_eq!(splash_pixel(&s, 151), white);
    assert_eq!(splash_pixel(&s, 1799), white);
    assert_eq!(splash_pixel(&s, 1800), None);
}

#[test]
fn overrides_lapse_without_refresh() {
    let mut o = Overrides::new();
    o.set(2, 0x0000FF, 1000);
    o.set(3, 0xFF0000, 2000);
    o.expire(7000);
    assert_eq!(o.mask, 0b1100);
    o.clear(2);
    assert_eq!(o.mask, 0b1000);
    assert_eq!(o.rgb[3], 0xFF0000);
    o.expire(7001);
    assert_eq!(o.mask, 0);
    o.set(5, 1, u32::MAX - 10);
    o.expire(4989);
    assert_eq!(o.mask, 1 << 5);
    o.expire(4990);
    assert_eq!(o.mask, 0);
}

#[test]
fn key_light_precedence() {
    let mut pad = pad_in(0);
    let mut l = lighting();
    let mut lights = no_lights();
    lights.agents[2] = light(Effect::Solid);
    assert_eq!(l.key_pixel(&pad, &lights, 2), lit(Grb::rgb(1, 2, 3), 6));
    l.overrides.set(2, 0x0000FF, 0);
    assert_eq!(l.key_pixel(&pad, &lights, 2), lit(Grb::rgb(0, 0, 255), 18));
    pad.device_mode = 1;
    assert_eq!(l.key_pixel(&pad, &lights, 2), lit(Grb::rgb(255, 128, 0), 20));
    pad.keystate = 1 << 2;
    assert_eq!(l.key_pixel(&pad, &lights, 2), lit(Grb::rgb(255, 255, 255), 24));
    assert_eq!(l.key_pixel(&pad, &lights, 3), lit(Grb::rgb(1, 2, 3), 6));
}

#[test]
fn dark_keys_stay_dark() {
    let mut pad = pad_in(0);
    let mut l = lighting();
    pad.keystate = 0x1FFF;
    for i in 0..13 {
        l.overrides.set(i, 0xFFFFFF, 0);
    }
    let frame = l.key_frame(&pad, &no_lights());
    for i in 0..13 {
        let dark = [0, 1, 8, 9, 10, 11, 12].contains(&i);
        assert_eq!(frame[i].scale.is_none(), dark);
        assert_eq!(frame[i].colour == Grb::dark(), dark);
    }
}

#[test]
fn idle_rainbow_rotates() {
    let mut pad = pad_in(0);
    pad.keymap.key_pattern.mode = 0;
    pad.keymap.ug_pattern.mode = 0;
    let mut l = lighting();
    for _ in 0..250 {
        l.tick(&pad, &no_lights(), 5000);
    }
    assert_eq!(l.phase, 250);
    assert_eq!(l.key_pixel(&pad, &no_lights(), 3), lit(hue(54), 6));
    let ring = l.ring_frame(&pad, &no_lights(), 5000);
    for i in 0..8 {
        assert_eq!(ring[i], lit(hue(((250 + i * 32) % 256) as u8), 8));
    }
    assert_eq!(l.ring_pixel(&pad, &no_lights(), 5000, 1, 16), lit(hue(10), 8));
}

#[test]
fn ring_precedence() {
    let pad = pad_in(1);
    let mut l = Lighting::new(splash(0xFFFFFF, false, 0));
    let mut lights = no_lights();
    assert_eq!(l.ring_pixel(&pad, &lights, 999, 0, 8), lit(Grb::rgb(255, 255, 255), 8));
    assert_eq!(l.ring_pixel(&pad, &lights, 1000, 0, 8), lit(Grb::rgb(4, 5, 6), 8));
    lights.ambient = light(Effect::Solid);
    l.tick(&pad, &lights, 1000);
    assert_eq!(l.ring_pixel(&pad, &lights, 1000, 0, 8), lit(Grb::rgb(255, 128, 0), 8));
    assert_eq!(l.ring_pixel(&pad_in(0), &lights, 1000, 0, 8), lit(Grb::rgb(4, 5, 6), 8));
}

#[test]
fn clocks_advance_by_speed_in_codex_mode_only() {
    let mut lights = no_lights();
    lights.agents[1] = light(Effect::Solid);
    lights.keys = Light { speed: 100, ..light(Effect::Solid) };
    lights.ambient = Light { speed: u32::MAX, ..light(Effect::Solid) };
    let mut l = lighting();
    l.tick(&pad_in(0), &lights, 0);
    assert_eq!(l.anim, [0; 8]);
    l.tick(&pad_in(1), &lights, 0);
    l.tick(&pad_in(1), &lights, 0);
    assert_eq!(l.anim, [0, 14, 0, 0, 0, 0, 200, u32::MAX - 1]);
    assert_eq!(l.phase, 3);
}

#[test]
fn stale_overrides_lapse_in_a_frame() {
    let mut l = lighting();
    l.overrides.set(4, 0xFF0000, 100);
    l.tick(&pad_in(0), &no_lights(), 5100);
    assert_eq!(l.overrides.mask, 1 << 4);
    l.tick(&pad_in(0), &no_lights(), 5101);
    assert_eq!(l.overrides.mask, 0);
}

#[test]
fn expired_splash_stays_away() {
    let pad = pad_in(0);
    let mut l = Lighting::new(splash(0xF5AE58, false, 0));
    l.tick(&pad, &no_lights(), 999);
    assert!(splash_pixel(&l.splash, 999).is_some());
    l.tick(&pad, &no_lights(), 1000);
    assert_eq!(l.splash.until_ms, 1000);
    // The clock runs round; the splash does not come back.
    let mut now = 1000u32;
    for _ in 0..9 {
        now = now.wrapping_add(0x4000_0000);
        assert_eq!(splash_pixel(&l.splash, now), None);
        l.tick(&pad, &no_lights(), now);
        assert_eq!(l.ring_pixel(&pad, &no_lights(), now, 0, 8), lit(Grb::rgb(4, 5, 6), 8));
    }
}
