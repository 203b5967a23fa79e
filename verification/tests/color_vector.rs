use skid_core::color::SKIDColor;
use skid_core::vector3::SKIDVector3;
use skid_core::SKIDImageHandle;

#[test]
fn color_new_and_equality() {
    let c = SKIDColor::new(10, 20, 30, 40);
    assert_eq!(c, SKIDColor { r: 10, g: 20, b: 30, a: 40 });
}

#[test]
fn color_u32_roundtrip_and_packing() {
    let c = SKIDColor::new(0x12, 0x34, 0x56, 0x78);
    let w = c.to_u32();
    assert_eq!(w, 0x1234_5678);
    assert_eq!(SKIDColor::from_u32(w), c);
    let extremes = [
        SKIDColor::new(0, 0, 0, 0),
        SKIDColor::new(255, 255, 255, 255),
        SKIDColor::new(255, 0, 255, 0),
        SKIDColor::new(1, 2, 3, 4),
    ];
    for c in extremes {
        assert_eq!(SKIDColor::from_u32(c.to_u32()), c);
    }
}

#[test]
fn color_add_sub_roundtrip_without_saturation() {
    let a = SKIDColor::new(100, 50, 25, 200);
    let b = SKIDColor::new(40, 60, 80, 55);
    assert_eq!(a.add(b).sub(b), a);
}

#[test]
fn color_add_saturates_at_boundary() {
    let a = SKIDColor::new(250, 0, 128, 255);
    let b = SKIDColor::new(10, 0, 128, 1);
    let s = a.add(b);
    assert_eq!(s, SKIDColor::new(255, 0, 255, 255));
    // After saturation the round trip is lost: 255 - 10 is 245, not 250.
    assert_eq!(s.sub(b), SKIDColor::new(245, 0, 127, 254));
}

#[test]
fn color_sub_saturates_at_zero() {
    let a = SKIDColor::new(5, 0, 100, 30);
    let b = SKIDColor::new(10, 1, 100, 29);
    assert_eq!(a.sub(b), SKIDColor::new(0, 0, 0, 1));
}

#[test]
fn color_mul_saturates() {
    let a = SKIDColor::new(16, 2, 255, 1);
    let b = SKIDColor::new(16, 3, 2, 255);
    assert_eq!(a.mul_color(b), SKIDColor::new(255, 6, 255, 255));
    assert_eq!(SKIDColor::new(100, 3, 0, 128).mul_u8(2), SKIDColor::new(200, 6, 0, 255));
}

#[test]
fn color_div_by_zero_channel_is_zero() {
    let a = SKIDColor::new(100, 99, 7, 255);
    let b = SKIDColor::new(0, 3, 0, 2);
    assert_eq!(a.div_color(b), SKIDColor::new(0, 33, 0, 127));
}

#[test]
fn vector_cross_is_anti_commutative() {
    let v1 = SKIDVector3::new(3, -5, 7);
    let v2 = SKIDVector3::new(2, 4, -6);
    let c12 = v1.cross(&v2);
    let c21 = v2.cross(&v1);
    assert_eq!(c12, c21.neg());
    assert_eq!(c12, SKIDVector3::new(2, 32, 22));
}

#[test]
fn vector_dot_self_is_squared_magnitude() {
    let v = SKIDVector3::new(3, -4, 12);
    assert_eq!(v.dot(&v), 9 + 16 + 144);
}

#[test]
fn vector_add_sub_neg_mul() {
    let a = SKIDVector3::new(1, 2, 3);
    let b = SKIDVector3::new(10, -20, 30);
    assert_eq!(a.add(b), SKIDVector3::new(11, -18, 33));
    assert_eq!(b.sub(a), SKIDVector3::new(9, -22, 27));
    assert_eq!(a.neg(), SKIDVector3::new(-1, -2, -3));
    assert_eq!(a.mul_scalar(-4), SKIDVector3::new(-4, -8, -12));
}

#[test]
fn vector_div_scalar_is_euclidean() {
    let v = SKIDVector3::new(-7, 7, 5);
    assert_eq!(v.div_scalar(2), SKIDVector3::new(-4, 3, 2));
    let w = SKIDVector3::new(-9, 9, 0);
    assert_eq!(w.div_scalar(3), SKIDVector3::new(-3, 3, 0));
}

#[test]
fn handle_wrapper_validity() {
    assert!(!SKIDImageHandle::invalid().is_valid());
    assert_eq!(SKIDImageHandle::invalid().id, 0);
    assert!(SKIDImageHandle::new(7).is_valid());
    assert_eq!(SKIDImageHandle::new(7).id, 7);
}
