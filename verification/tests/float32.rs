use servo_reg::float32::Float32;

/// Encodings that cover zeros, subnormals, ordinary numbers, infinities and
/// NaN, and a spread of others.
fn samples() -> Vec<u32> {
    let mut v: Vec<u32> = vec![
        0, 1, 2, 0x7f_ffff, 0x80_0000, 0x80_0001, 0xff_ffff, 0x100_0000, 0x3f80_0000, 0x3f7f_ffff,
        0x3f80_0001, 0x4049_0fdb, 0x40c9_0fdb, 0x7f7f_ffff, 0x7f80_0000, 0x7fc0_0000, 0x4b80_0000,
        0x4b7f_ffff, 0x3300_0000, 0x3380_0000, 0x2f80_0000, 0x4f00_0000, 0x4eff_ffff,
    ];
    let mut x: u32 = 0x1234_5678;
    for _ in 0..400 {
        x ^= x << 13;
        x ^= x >> 17;
        x ^= x << 5;
        v.push(x & 0x7fff_ffff);
        // near each other in size
        v.push(0x3f00_0000 + (x & 0x01ff_ffff));
    }
    let n = v.len();
    for i in 0..n {
        let b = v[i];
        v.push(b | 0x8000_0000);
    }
    v
}

fn same(ours: Float32, native: f32, what: &str, a: u32, b: u32) {
    if native.is_nan() {
        assert!(f32::from_bits(ours.bits).is_nan(), "{} {:x} {:x}", what, a, b);
    } else {
        assert_eq!(ours.bits, native.to_bits(), "{} {:x} {:x}", what, a, b);
    }
}

#[test]
fn arithmetic_agrees_with_the_processor() {
    let v = samples();
    for &a in v.iter() {
        for &b in v.iter().step_by(3) {
            let (x, y) = (Float32 { bits: a }, Float32 { bits: b });
            let (p, q) = (f32::from_bits(a), f32::from_bits(b));
            same(x.times(y), p * q, "times", a, b);
            same(x.plus(y), p + q, "plus", a, b);
            same(x.minus(y), p - q, "minus", a, b);
            same(x.divided_by(y), p / q, "divided_by", a, b);
            same(x.remainder(y), p % q, "remainder", a, b);
            assert_eq!(x.less_than(y), p < q);
        }
    }
}

#[test]
fn conversions_agree_with_the_processor() {
    for &a in samples().iter() {
        let x = Float32 { bits: a };
        let p = f32::from_bits(a);
        assert_eq!(x.to_u16(), p as u16);
        same(x.negated(), -p, "negated", a, 0);
        same(x.absolute(), p.abs(), "absolute", a, 0);
        let one = Float32 { bits: 1.0f32.to_bits() };
        let low = Float32 { bits: (-1.0f32).to_bits() };
        same(x.clamp(low, one), p.clamp(-1.0, 1.0), "clamp", a, 0);
        same(x.minimum(one), p.min(1.0), "minimum", a, 0);
        same(x.maximum(one), p.max(1.0), "maximum", a, 0);
        match fixed::types::I32F32::checked_from_num(if p.is_finite() { p } else { 1e30 }) {
            Some(f) => {
                assert!(x.has_fixed());
                assert_eq!(x.to_fixed(), f.to_bits());
            }
            None => assert!(!x.has_fixed()),
        }
    }
    let mut n: u64 = 1;
    for i in 0..200u64 {
        n = n.wrapping_mul(6364136223846793005).wrapping_add(1442695040888963407);
        for m in [n, n >> (i % 64), u64::MAX, 0, 1 << (i % 64), (1 << (i % 64)) + 1] {
            same(Float32::from_u64(m), m as f32, "from_u64", m as u32, 0);
            let s = m as i64;
            same(Float32::from_i64(s), s as f32, "from_i64", m as u32, 0);
            let f: f32 = fixed::types::I32F32::from_bits(s).to_num();
            same(Float32::from_fixed(s), f, "from_fixed", m as u32, 0);
        }
    }
    same(Float32::from_i64(i64::MIN), i64::MIN as f32, "from_i64", 0, 0);
}

#[test]
fn rounding_goes_to_the_even_neighbour() {
    // 2^24 + 1 lies in the middle of two numbers.
    assert_eq!(Float32::from_u64(16_777_217).bits, 0x4b80_0000);
    assert_eq!(Float32::from_u64(16_777_219).bits, 0x4b80_0002);
}

#[test]
fn comparison_with_nan_is_false() {
    let nan = Float32 { bits: 0x7fc0_0000 };
    let one = Float32 { bits: 0x3f80_0000 };
    assert!(!nan.less_than(one));
    assert!(!one.less_than(nan));
    assert_eq!(one.minimum(nan).bits, one.bits);
    assert_eq!(nan.maximum(one).bits, one.bits);
}
