use jni_bridge::convert::{
    bytes_from_managed, bytes_to_managed, c_string_from_managed, c_string_to_managed,
    fixed_bytes_from_managed, fixed_bytes_to_managed, ints_to_managed, signed_bytes_from_managed,
    signed_bytes_to_managed, u32_from_managed, u32_to_managed, u64_from_managed, u64_to_managed,
    u8_from_managed, u8_to_managed, usize_to_managed,
};

#[test]
fn unsigned_values_keep_their_bits() {
    assert_eq!(u8_to_managed(200), -56);
    assert_eq!(u8_to_managed(127), 127);
    assert_eq!(u8_from_managed(-1), 255);
    assert_eq!(u32_to_managed(0xFFFF_FFFF), -1);
    assert_eq!(u32_to_managed(0x8000_0000), i32::MIN);
    assert_eq!(u32_to_managed(42), 42);
    assert_eq!(u32_from_managed(-2), 0xFFFF_FFFE);
    assert_eq!(u64_to_managed(u64::MAX), -1);
    assert_eq!(u64_from_managed(i64::MIN), 0x8000_0000_0000_0000);
    assert_eq!(usize_to_managed(7), 7);
    assert_eq!(usize_to_managed(usize::MAX), -1);
}

#[test]
fn unsigned_round_trips() {
    for v in [0u8, 1, 127, 128, 255] {
        assert_eq!(u8_from_managed(u8_to_managed(v)), v);
    }
    for v in [0u32, 1, 0x7FFF_FFFF, 0x8000_0000, u32::MAX] {
        assert_eq!(u32_from_managed(u32_to_managed(v)), v);
    }
    for v in [0u64, 1, i64::MAX as u64, 1u64 << 63, u64::MAX] {
        assert_eq!(u64_from_managed(u64_to_managed(v)), v);
    }
    for m in [i32::MIN, -1, 0, 1, i32::MAX] {
        assert_eq!(u32_to_managed(u32_from_managed(m)), m);
    }
}

#[test]
fn byte_buffers_round_trip() {
    let b: Vec<u8> = vec![0, 1, 127, 128, 200, 255];
    let m = bytes_to_managed(&b);
    assert_eq!(m, vec![0i8, 1, 127, -128, -56, -1]);
    assert_eq!(bytes_from_managed(&m), b);
    assert!(bytes_to_managed(&[]).is_empty());
}

#[test]
fn fixed_arrays_round_trip_for_every_supported_length() {
    let a8: [i8; 8] = [0, 1, 2, 3, 4, 5, 6, -7];
    let m8 = signed_bytes_to_managed(&a8);
    assert_eq!(m8.len(), 8);
    assert_eq!(signed_bytes_from_managed::<8>(&m8), a8);

    let mut a24 = [0u8; 24];
    for (i, x) in a24.iter_mut().enumerate() {
        *x = (i * 11) as u8;
    }
    let m24 = fixed_bytes_to_managed(&a24);
    assert_eq!(m24.len(), 24);
    assert_eq!(fixed_bytes_from_managed::<24>(&m24), a24);

    let a32 = [0xABu8; 32];
    let m32 = fixed_bytes_to_managed(&a32);
    assert_eq!(m32.len(), 32);
    assert_eq!(m32[0], 0xABu8 as i8);
    assert_eq!(fixed_bytes_from_managed::<32>(&m32), a32);

    let mut a64 = [0u8; 64];
    for (i, x) in a64.iter_mut().enumerate() {
        *x = 255 - i as u8;
    }
    let m64 = fixed_bytes_to_managed(&a64);
    assert_eq!(m64.len(), 64);
    assert_eq!(fixed_bytes_from_managed::<64>(&m64), a64);
}

#[test]
fn echo_string_drops_the_terminator() {
    let managed = c_string_to_managed(b"hello\0");
    assert_eq!(managed, b"hello".to_vec());
    assert_eq!(c_string_to_managed(b"ab\0cd\0"), b"ab".to_vec());
    assert!(c_string_to_managed(b"\0").is_empty());
}

#[test]
fn strings_round_trip_byte_equal() {
    let c = c_string_from_managed(b"u");
    assert_eq!(c, b"u\0".to_vec());
    assert_eq!(c_string_to_managed(&c), b"u".to_vec());
    let text = "na\u{e9}me".as_bytes();
    assert_eq!(c_string_to_managed(&c_string_from_managed(text)), text.to_vec());
    assert_eq!(c_string_from_managed(b""), vec![0u8]);
}

#[test]
fn variable_int_array_is_copied() {
    let native = [10, 20, 30];
    let managed = ints_to_managed(&native);
    assert_eq!(managed.len(), 3);
    assert_eq!(managed, vec![10, 20, 30]);
    assert!(ints_to_managed(&[]).is_empty());
}
