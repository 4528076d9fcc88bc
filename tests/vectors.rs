use cpurender::wec::{Axis2, Axis3, Ternary, Vec2, Vec3, VectorCast, VectorTransmute};

#[test]
fn select_by_mask() {
    let m = Vec3 { x: true, y: false, z: true };
    let r = m.ternary(Vec3::splat(1), Vec3::splat(-1));
    assert_eq!(r, Vec3 { x: 1, y: -1, z: 1 });
    let m2 = Vec2 { x: false, y: true };
    assert_eq!(m2.ternary(Vec2::new(5u8, 6u8), Vec2::new(7u8, 8u8)), Vec2::new(7u8, 6u8));
}

#[test]
fn casts_and_masks() {
    let v = Vec3::new(0i32, -3, 9);
    let b: Vec3<bool> = v.v_cast();
    assert_eq!(b, Vec3 { x: false, y: true, z: true });
    let back: Vec3<i32> = b.v_cast();
    assert_eq!(back, Vec3 { x: 0, y: 1, z: 1 });
    assert_eq!(b.count(), 2);
    assert!(!b.all());
    assert!(v.m_ge(&Vec3::splat(-3)).all());
    assert_eq!(v.m_lt(&Vec3::splat(0)), Vec3 { x: false, y: true, z: false });
}

#[test]
fn transmute_keeps_bits() {
    let v = Vec3::new(-1i32, 7, i32::MIN);
    let u: Vec3<u32> = v.v_transmute();
    assert_eq!(u, Vec3 { x: u32::MAX, y: 7, z: 0x8000_0000 });
    let w: Vec3<i32> = u.v_transmute();
    assert_eq!(w, v);
}

#[test]
fn component_by_axis() {
    let v = Vec3::new(4, 5, 6);
    assert_eq!((v.get(Axis3::X), v.get(Axis3::Y), v.get(Axis3::Z)), (4, 5, 6));
    let p = Vec2::new(8, 9);
    assert_eq!((p.get(Axis2::X), p.get(Axis2::Y)), (8, 9));
}
