use n2::text::{push_decimal, push_hex};

fn decimal_of(n: u128) -> String {
    let mut out = String::new();
    push_decimal(&mut out, n);
    out
}

fn hex_of(n: u64) -> String {
    let mut out = String::new();
    push_hex(&mut out, n);
    out
}

#[test]
fn decimal_digits() {
    assert_eq!(decimal_of(0), "0");
    assert_eq!(decimal_of(7), "7");
    assert_eq!(decimal_of(9), "9");
    assert_eq!(decimal_of(10), "10");
    assert_eq!(decimal_of(1009), "1009");
    assert_eq!(decimal_of(1234567890), "1234567890");
    assert_eq!(decimal_of(u128::MAX), "340282366920938463463374607431768211455");
    for n in [0u128, 1, 99, 100, 101, 65535, 1 << 64, u128::MAX - 1] {
        assert_eq!(decimal_of(n), format!("{}", n));
    }
}

#[test]
fn hexadecimal_digits() {
    assert_eq!(hex_of(0), "0");
    assert_eq!(hex_of(9), "9");
    assert_eq!(hex_of(10), "a");
    assert_eq!(hex_of(15), "f");
    assert_eq!(hex_of(16), "10");
    assert_eq!(hex_of(0xdead_beef), "deadbeef");
    assert_eq!(hex_of(u64::MAX), "ffffffffffffffff");
    for n in [1u64, 255, 256, 4095, 0x0123_4567_89ab_cdef, u64::MAX - 1] {
        assert_eq!(hex_of(n), format!("{:x}", n));
    }
}

#[test]
fn digits_are_appended() {
    let mut out = String::from("n = ");
    push_decimal(&mut out, 42);
    out.push_str(", 0x");
    push_hex(&mut out, 42);
    assert_eq!(out, "n = 42, 0x2a");
}
