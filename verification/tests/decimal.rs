use mol3d::{Coord, Decimal};

fn expansion(x: f64) -> String {
    Decimal::of(Coord::from_bits(x.to_bits())).unwrap().to_text()
}

#[test]
fn decimal_of_simple_values() {
    assert_eq!(expansion(0.96), "95999999999999996447286321199499070644378662109375000e-53");
    assert_eq!(expansion(1.0), "10000000000000000000000000000000000000000000000000000e-52");
    assert_eq!(expansion(1.5), "15000000000000000000000000000000000000000000000000000e-52");
    assert_eq!(
        expansion(-0.24),
        "-2399999999999999911182158029987476766109466552734375000e-55"
    );
}

#[test]
fn decimal_of_zero() {
    assert_eq!(expansion(0.0), "0e-1074");
    assert_eq!(expansion(-0.0), "-0e-1074");
}

#[test]
fn decimal_of_large_values() {
    assert_eq!(expansion(1e22), "10000000000000000000000e-0");
    assert_eq!(expansion(1152921504606846976.0), "1152921504606846976e-0");
}

#[test]
fn decimal_of_smallest_value() {
    let text = expansion(5e-324);
    assert!(text.starts_with("494065645841246544176568792868221372365059802614324764425585"));
    assert!(text.ends_with("419718265533447265625e-1074"));
    assert_eq!(text.len(), 751 + "e-1074".len());
}

#[test]
fn decimal_fields() {
    let d = Decimal::of(Coord::from_bits((-2.5f64).to_bits())).unwrap();
    assert!(d.negative());
    assert_eq!(d.scale(), 51);
    assert_eq!(*d.digits().last().unwrap(), 2);
    let d = Decimal::of(Coord::from_bits(8.0f64.to_bits())).unwrap();
    assert!(!d.negative());
    assert_eq!(d.scale(), 49);
    let d = Decimal::of(Coord::from_bits(9007199254740992.0f64.to_bits())).unwrap();
    assert_eq!(d.scale(), 0);
    assert_eq!(*d.digits(), vec![2, 9, 9, 0, 4, 7, 4, 5, 2, 9, 9, 1, 7, 0, 0, 9]);
}

#[test]
fn decimal_text_is_read_as_the_same_double() {
    let mut samples: Vec<u64> = vec![
        0.1f64.to_bits(),
        0.30000000000000004f64.to_bits(),
        f64::MAX.to_bits(),
        f64::MIN_POSITIVE.to_bits(),
        2.225073858507201e-308f64.to_bits(),
        9007199254740993.0f64.to_bits(),
        1e23f64.to_bits(),
    ];
    let mut x: u64 = 0x9e37_79b9_7f4a_7c15;
    for _ in 0..300 {
        x ^= x << 13;
        x ^= x >> 7;
        x ^= x << 17;
        if (x >> 52) & 0x7ff != 0x7ff {
            samples.push(x);
        }
    }
    for bits in samples {
        let text = Decimal::of(Coord::from_bits(bits)).unwrap().to_text();
        let read: f64 = text.parse().unwrap();
        assert_eq!(read.to_bits(), bits, "{}", text);
    }
}

#[test]
fn decimal_of_what_is_no_number() {
    assert!(Decimal::of(Coord::from_bits(f64::NAN.to_bits())).is_none());
    assert!(Decimal::of(Coord::from_bits(f64::INFINITY.to_bits())).is_none());
    assert!(Decimal::of(Coord::from_bits(f64::NEG_INFINITY.to_bits())).is_none());
    assert!(Decimal::of(Coord::from_bits(0x7ff0_0000_0000_0001)).is_none());
    assert!(Decimal::of(Coord::from_bits(0x7fef_ffff_ffff_ffff)).is_some());
}
