use staticstring::StaticString;
use staticstring::StaticStringError;
use staticstring::ToStaticString;

#[test]
fn render_integer_fits() {
    let r: Result<StaticString<8>, StaticStringError> = 42i32.to_static_string::<8>();
    let s = r.unwrap();
    assert_eq!(s.as_str(), "42");
    assert_eq!(s.len(), 2);
}

#[test]
fn render_too_long_fails() {
    let r = "a rather long identifier".to_static_string::<2>();
    assert!(matches!(r, Err(StaticStringError::CapacityExceeded)));
}

#[test]
fn render_exact_fit() {
    let r = 1234i64.to_static_string::<4>();
    assert_eq!(r.unwrap().as_str(), "1234");
    let r2 = 12345i64.to_static_string::<4>();
    assert!(matches!(r2, Err(StaticStringError::CapacityExceeded)));
}

#[test]
fn render_str_value() {
    let s = "hi".to_static_string::<8>().unwrap();
    assert_eq!(s.as_str(), "hi");
}

#[test]
fn error_literal_fits_at_sixteen() {
    let s = StaticString::<16>::from_error(StaticStringError::CapacityExceeded);
    assert_eq!(s.as_str(), "CapacityExceeded");
    assert_eq!(s.len(), 16);
}

#[test]
fn error_literal_keeps_exact_length_in_wider_buffers() {
    let s = StaticString::<32>::from_error(StaticStringError::CapacityExceeded);
    assert_eq!(s.as_str(), "CapacityExceeded");
    assert_eq!(s.len(), 16);
}

#[test]
fn result_collapse_renders_either_variant() {
    let five = 5i32.to_static_string::<20>().unwrap();
    let ok_rendered = StaticString::<20>::from_result(Ok(five));
    assert_eq!(ok_rendered.as_str(), "5");

    let err_rendered = StaticString::<20>::from_result(Err(StaticStringError::CapacityExceeded));
    assert_eq!(err_rendered.as_str(), "CapacityExceeded");
}

#[test]
fn capacity_error_is_the_only_error() {
    // every failing operation reports the same single error kind
    let from_new = StaticString::<2>::new(3);
    let from_render = "abc".to_static_string::<2>();
    let mut buf: StaticString<2> = StaticString::default();
    let from_extend = buf.try_extend_from_slice(b"abc");
    assert!(matches!(from_new, Err(StaticStringError::CapacityExceeded)));
    assert!(matches!(from_render, Err(StaticStringError::CapacityExceeded)));
    assert!(matches!(from_extend, Err(StaticStringError::CapacityExceeded)));
}
