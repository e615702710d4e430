use imgui_core::Metric;
use imgui_core::FP_ONE;

#[test]
fn add_sub_cancel_native() {
    let a = Metric::Native(FP_ONE, 2 * FP_ONE);
    let b = Metric::Native(3 * FP_ONE, -4 * FP_ONE);
    assert_eq!(a.add(b).sub(b), a);
}

#[test]
fn add_sub_cancel_pixel() {
    let a = Metric::Pixel(5 * FP_ONE, 7 * FP_ONE);
    let b = Metric::Pixel(-2 * FP_ONE, 11 * FP_ONE);
    assert_eq!(a.add(b).sub(b), a);
}

#[test]
fn add_sub_cancel_mixed_any_rhs() {
    let a = Metric::Mixed((FP_ONE, 2 * FP_ONE), (3 * FP_ONE, 4 * FP_ONE));
    let n = Metric::Native(9 * FP_ONE, -9 * FP_ONE);
    let p = Metric::Pixel(6 * FP_ONE, 5 * FP_ONE);
    let m = Metric::Mixed((5 * FP_ONE, 6 * FP_ONE), (7 * FP_ONE, 8 * FP_ONE));
    assert_eq!(a.add(n).sub(n), a);
    assert_eq!(a.add(p).sub(p), a);
    assert_eq!(a.add(m).sub(m), a);
}

#[test]
fn native_plus_pixel_promotes_to_mixed() {
    let a = Metric::Native(1, 2);
    let b = Metric::Pixel(3, 4);
    assert_eq!(a.add(b), Metric::Mixed((1, 2), (3, 4)));
}

#[test]
fn pixel_plus_native_promotes_to_mixed() {
    let a = Metric::Pixel(3, 4);
    let b = Metric::Native(1, 2);
    assert_eq!(a.add(b), Metric::Mixed((1, 2), (3, 4)));
}

#[test]
fn mixed_plus_mixed_adds_componentwise() {
    let a = Metric::Mixed((1, 2), (3, 4));
    let b = Metric::Mixed((5, 6), (7, 8));
    assert_eq!(a.add(b), Metric::Mixed((6, 8), (10, 12)));
}

#[test]
fn mixed_absorbs_native_and_pixel() {
    let m = Metric::Mixed((1, 2), (3, 4));
    assert_eq!(m.add(Metric::Native(10, 20)), Metric::Mixed((11, 22), (3, 4)));
    assert_eq!(m.add(Metric::Pixel(10, 20)), Metric::Mixed((1, 2), (13, 24)));
}

#[test]
fn pixel_plus_mixed_adds_to_pixel_part() {
    let a = Metric::Pixel(10, 20);
    let b = Metric::Mixed((1, 2), (3, 4));
    assert_eq!(a.add(b), Metric::Mixed((1, 2), (13, 24)));
}

#[test]
fn default_is_native_origin() {
    assert_eq!(Metric::default(), Metric::Native(0, 0));
    assert_eq!(Metric::from((7, 9)), Metric::Native(7, 9));
}
