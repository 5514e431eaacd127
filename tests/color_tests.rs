use prio_pipeline::color::{
    hue_to_color_name, meter_color, next_hue, rainbow_color, RainbowSweep, Rgb, SWEEP_BRIGHTNESS,
    SWEEP_STRIDE,
};

#[test]
fn meter_color_follows_decision() {
    assert_eq!(meter_color(true), Rgb { r: 150, g: 150, b: 150 });
    assert_eq!(meter_color(false), Rgb { r: 0, g: 0, b: 0 });
}

#[test]
fn rainbow_colors_are_gamma_corrected_and_dimmed() {
    assert_eq!(rainbow_color(0, 255), Rgb { r: 255, g: 0, b: 0 });
    assert_eq!(rainbow_color(21, 255), Rgb { r: 255, g: 35, b: 0 });
    assert_eq!(rainbow_color(21, 50), Rgb { r: 50, g: 6, b: 0 });
    assert_eq!(rainbow_color(0, 10), Rgb { r: 10, g: 0, b: 0 });
    assert_eq!(rainbow_color(85, 50), Rgb { r: 0, g: 50, b: 0 });
    assert_eq!(rainbow_color(170, 10), Rgb { r: 0, g: 0, b: 10 });
}

#[test]
fn hue_sweep_wraps() {
    assert_eq!(next_hue(0, 4), 4);
    assert_eq!(next_hue(248, 4), 252);
    assert_eq!(next_hue(252, 4), 0);
    assert_eq!(next_hue(254, 1), 255);
    assert_eq!(next_hue(255, 1), 0);
}

#[test]
fn hue_names() {
    assert_eq!(hue_to_color_name(0), "red");
    assert_eq!(hue_to_color_name(10), "red");
    assert_eq!(hue_to_color_name(11), "orange");
    assert_eq!(hue_to_color_name(70), "yellow");
    assert_eq!(hue_to_color_name(100), "green");
    assert_eq!(hue_to_color_name(101), "cyan");
    assert_eq!(hue_to_color_name(160), "blue");
    assert_eq!(hue_to_color_name(190), "purple");
    assert_eq!(hue_to_color_name(220), "magenta");
    assert_eq!(hue_to_color_name(221), "red");
    assert_eq!(hue_to_color_name(255), "red");
}

#[test]
fn rainbow_sweep_ticks_through_hues() {
    let mut sweep = RainbowSweep::new(SWEEP_STRIDE, SWEEP_BRIGHTNESS);
    let (c, name) = sweep.tick();
    assert_eq!(c, Rgb { r: 50, g: 0, b: 0 });
    assert_eq!(name, "red");
    let mut last = (c, name);
    for _ in 1..64 {
        last = sweep.tick();
    }
    // the 64th tick shows hue 252, then the sweep restarts at 0
    assert_eq!(last, (rainbow_color(252, SWEEP_BRIGHTNESS), "red"));
    assert_eq!(sweep.tick(), (Rgb { r: 50, g: 0, b: 0 }, "red"));
    for _ in 0..21 {
        sweep.tick();
    }
    // hue 88 is green
    assert_eq!(sweep.tick().1, "green");
}
