use gilrs::{axis_value, btn_value, Axis, AxisInfo, EvCode, Ratio};

fn approx(r: Ratio) -> f64 {
    r.num as f64 / r.den as f64
}

fn info(min: i32, max: i32, deadzone: u32) -> AxisInfo {
    AxisInfo { min, max, deadzone }
}

#[test]
fn axis_value_maps_ends_to_unit_range() {
    let i = info(0, 255, 8);
    let lo = axis_value(&i, 0, Axis::LeftStickX);
    let hi = axis_value(&i, 255, Axis::LeftStickX);
    assert_eq!((lo.num, lo.den), (-255, 255));
    assert_eq!((hi.num, hi.den), (255, 255));
}

#[test]
fn axis_value_is_exactly_linear() {
    let i = info(0, 255, 8);
    let v = axis_value(&i, 200, Axis::Unknown);
    assert_eq!((v.num, v.den), (145, 255));
    assert!((approx(v) - 0.5686).abs() < 0.001);
    let mid = axis_value(&info(-100, 100, 0), 50, Axis::RightStickX);
    assert_eq!((mid.num, mid.den), (100, 200));
}

#[test]
fn axis_value_clamps_outside_range() {
    let i = info(0, 255, 8);
    let over = axis_value(&i, 300, Axis::LeftStickX);
    let under = axis_value(&i, -10, Axis::LeftStickX);
    assert_eq!(approx(over), 1.0);
    assert_eq!(approx(under), -1.0);
}

#[test]
fn axis_value_flips_stick_y() {
    let i = info(0, 255, 8);
    let y = axis_value(&i, 255, Axis::LeftStickY);
    let ry = axis_value(&i, 0, Axis::RightStickY);
    let dpad = axis_value(&i, 255, Axis::DPadY);
    assert_eq!(approx(y), -1.0);
    assert_eq!(approx(ry), 1.0);
    assert_eq!(approx(dpad), 1.0);
}

#[test]
fn axis_value_of_empty_range_is_zero() {
    let v = axis_value(&info(7, 7, 0), 7, Axis::LeftStickX);
    assert_eq!(v.num, 0);
}

#[test]
fn axis_value_of_inverted_range() {
    let i = info(255, 0, 0);
    assert_eq!(approx(axis_value(&i, 255, Axis::LeftStickX)), -1.0);
    assert_eq!(approx(axis_value(&i, 0, Axis::LeftStickX)), 1.0);
}

#[test]
fn btn_value_stays_in_zero_one() {
    let i = info(0, 255, 0);
    assert_eq!(approx(btn_value(&i, 0)), 0.0);
    assert_eq!(approx(btn_value(&i, 255)), 1.0);
    assert_eq!(approx(btn_value(&i, 300)), 1.0);
    assert_eq!(approx(btn_value(&i, -5)), 0.0);
    let v = btn_value(&i, 51);
    assert_eq!((v.num, v.den), (51, 255));
}

#[test]
fn deadzone_fraction() {
    let d = info(0, 255, 8).deadzone();
    assert_eq!((d.num, d.den), (16, 255));
    let empty = info(3, 3, 8).deadzone();
    assert_eq!(empty.num, 0);
}

#[test]
fn ev_code_integer_form() {
    let c = EvCode::new(1, 0x130);
    assert_eq!(c.into_u32(), 0x1_0130);
    assert_eq!(EvCode::from_u32(0x3_0010), EvCode::new(3, 0x10));
}

#[test]
fn ratio_comparisons() {
    let a = Ratio::new(3, 4);
    let b = Ratio::new(6, 8);
    let c = Ratio::new(13, 20);
    assert!(a.eq_value(&b));
    assert!(c.lt(&a));
    assert!(!a.le(&c));
    assert!(a.is_close(&Ratio::new(76, 100), &Ratio::new(1, 50)));
    assert!(!a.is_close(&Ratio::new(80, 100), &Ratio::new(1, 50)));
}
