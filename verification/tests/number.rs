use risp::lisp_parse::is_whitespace;
use risp::number::Number;

fn samples() -> Vec<f32> {
    vec![
        0.0,
        -0.0,
        1.0,
        -1.0,
        1.5,
        f32::MIN_POSITIVE,
        f32::MAX,
        f32::MIN,
        f32::EPSILON,
        1.0e-45,
        f32::INFINITY,
        f32::NEG_INFINITY,
        f32::NAN,
        -f32::NAN,
        f32::from_bits(0x7f80_0001),
        f32::from_bits(0xffff_ffff),
    ]
}

#[test]
fn number_keeps_its_bits() {
    for bits in [0u32, 1, 0x3f80_0000, 0x7fc0_0000, 0x8000_0000, u32::MAX] {
        assert_eq!(Number::from_bits(bits).to_bits(), bits);
    }
}

#[test]
fn nan_and_zero_are_told_by_the_bits() {
    for x in samples() {
        let n = Number::from_bits(x.to_bits());
        assert_eq!(n.is_nan(), x.is_nan(), "{:?}", x);
        assert_eq!(n.is_zero(), x == 0.0, "{:?}", x);
    }
}

#[test]
fn same_value_is_float_equality() {
    for x in samples() {
        for y in samples() {
            let a = Number::from_bits(x.to_bits());
            let b = Number::from_bits(y.to_bits());
            assert_eq!(a.same_value(&b), x == y, "{:?} {:?}", x, y);
        }
    }
}

#[test]
fn same_value_is_float_equality_near_the_edges() {
    let edges = [0u32, 0x007f_ffff, 0x0080_0000, 0x7f7f_ffff, 0x7f80_0000, 0x7f80_0001, 0x7fff_ffff];
    for a in edges {
        for b in edges {
            for (x, y) in [(a, b), (a | 0x8000_0000, b), (a, b | 0x8000_0000)] {
                assert_eq!(
                    Number::from_bits(x).same_value(&Number::from_bits(y)),
                    f32::from_bits(x) == f32::from_bits(y),
                    "{:#x} {:#x}",
                    x,
                    y
                );
            }
        }
    }
}

#[test]
fn white_space_is_what_std_calls_white_space() {
    for code in 0..=0x10_ffffu32 {
        if let Some(c) = char::from_u32(code) {
            assert_eq!(is_whitespace(c), c.is_whitespace(), "{:#x}", code);
        }
    }
}
