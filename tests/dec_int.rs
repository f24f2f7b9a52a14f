use dec_int::DecInt;
use std::ops::Deref;
use std::path::{Component, Path};

#[test]
fn test_dec_int() {
    assert_eq!(DecInt::new(0).deref().to_str().unwrap(), "0");
    assert_eq!(DecInt::new(-1).deref().to_str().unwrap(), "-1");
    assert_eq!(DecInt::new(789).deref().to_str().unwrap(), "789");
    assert_eq!(
        DecInt::new(i64::MIN).deref().to_str().unwrap(),
        i64::MIN.to_string()
    );
    assert_eq!(
        DecInt::new(i64::MAX).deref().to_str().unwrap(),
        i64::MAX.to_string()
    );
    assert_eq!(
        DecInt::new(u64::MAX).deref().to_str().unwrap(),
        u64::MAX.to_string()
    );
}

#[test]
fn zero_is_single_digit() {
    assert_eq!(DecInt::new(0u64).as_str(), "0");
    assert_eq!(DecInt::new(0i8).as_bytes(), b"0");
    assert_eq!(DecInt::new(-0i64).as_str(), "0");
}

#[test]
fn negative_values_have_one_sign() {
    for v in [-1i64, -7, -10, -100, -123456789, i64::MIN, -9223372036854775807] {
        let d = DecInt::new(v);
        let s = d.as_str();
        assert!(s.starts_with('-'));
        assert_eq!(s.matches('-').count(), 1);
        assert_ne!(s.as_bytes()[1], b'0');
        assert!(s[1..].bytes().all(|b| b.is_ascii_digit()));
    }
    assert_eq!(DecInt::new(-10i32).as_str(), "-10");
    assert_eq!(DecInt::new(-100i16).as_str(), "-100");
}

#[test]
fn extremes_of_64_bits() {
    assert_eq!(DecInt::new(i64::MIN).as_str(), "-9223372036854775808");
    assert_eq!(DecInt::new(i64::MAX).as_str(), "9223372036854775807");
    assert_eq!(DecInt::new(u64::MAX).as_str(), "18446744073709551615");
    assert_eq!(DecInt::new(u64::MAX).as_bytes().len(), 20);
    assert_eq!(DecInt::new(i64::MIN).as_bytes().len(), 20);
}

#[test]
fn extremes_of_narrow_types() {
    assert_eq!(DecInt::new(i8::MIN).as_str(), "-128");
    assert_eq!(DecInt::new(i8::MAX).as_str(), "127");
    assert_eq!(DecInt::new(u8::MAX).as_str(), "255");
    assert_eq!(DecInt::new(i16::MIN).as_str(), "-32768");
    assert_eq!(DecInt::new(u16::MAX).as_str(), "65535");
    assert_eq!(DecInt::new(i32::MIN).as_str(), "-2147483648");
    assert_eq!(DecInt::new(u32::MAX).as_str(), "4294967295");
    assert_eq!(DecInt::new(isize::MIN).as_str(), isize::MIN.to_string());
    assert_eq!(DecInt::new(usize::MAX).as_str(), usize::MAX.to_string());
}

#[test]
fn text_reads_back_as_the_value() {
    for v in [0i64, 1, -1, 9, 10, 99, 100, -5000, 4096, i64::MIN, i64::MAX] {
        assert_eq!(DecInt::new(v).as_str().parse::<i64>().unwrap(), v);
    }
    for v in [0u64, 7, 1000, 123456789012345, u64::MAX] {
        assert_eq!(DecInt::new(v).as_str().parse::<u64>().unwrap(), v);
    }
    for v in [i8::MIN, -1, 0, 1, i8::MAX] {
        assert_eq!(DecInt::new(v).as_str().parse::<i8>().unwrap(), v);
    }
}

#[test]
fn text_is_one_path_component() {
    for v in [0i64, -1, 42, i64::MIN, i64::MAX] {
        let d = DecInt::new(v);
        let p: &Path = d.as_ref();
        assert!(!d.as_bytes().contains(&b'/'));
        assert!(p.is_relative());
        let parts: Vec<Component> = p.components().collect();
        assert_eq!(parts.len(), 1);
        assert!(matches!(parts[0], Component::Normal(_)));
        assert_eq!(d.as_path().to_str().unwrap(), d.as_str());
    }
}

#[test]
fn descriptor_number_gives_same_text() {
    for n in [0i32, 1, 2, 3, 255, 1024, i32::MAX, -1] {
        assert_eq!(DecInt::from_fd(n).as_bytes(), DecInt::new(n).as_bytes());
    }
    assert_eq!(DecInt::from_fd(17).as_str(), "17");
}

#[test]
fn path_joins_under_proc_fd() {
    let d = DecInt::from_fd(5);
    let full = Path::new("/proc/self/fd").join(&*d);
    assert_eq!(full.to_str().unwrap(), "/proc/self/fd/5");
}
