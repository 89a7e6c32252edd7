use std::collections::HashSet;

use actix_request_id::{Extensions, RequestID, RequestIDWrapper, RequestIdError, ServiceRequest};

fn is_version_4(v: u128) -> bool {
    v & 0xF000C000000000000000u128 == 0x40008000000000000000u128
}

#[test]
fn generated_ids_do_not_collide() {
    let mut seen = HashSet::new();
    for _ in 0..10_000 {
        let id = RequestID::generate();
        assert!(seen.insert(id.value()));
    }
    assert_eq!(seen.len(), 10_000);
}

#[test]
fn generated_ids_are_version_4_and_non_zero() {
    for _ in 0..1_000 {
        let id = RequestID::generate();
        assert!(is_version_4(id.value()));
        assert_ne!(id.value(), 0);
        assert_eq!(id.to_string().chars().nth(14), Some('4'));
    }
}

#[test]
fn renders_hyphenated_lower_hex() {
    let id = RequestID(0x936da01f9abd4d9d80c702af85c822a8);
    assert_eq!(id.to_string(), "936da01f-9abd-4d9d-80c7-02af85c822a8");
}

#[test]
fn renders_zero_and_all_ones() {
    assert_eq!(RequestID(0).to_string(), "00000000-0000-0000-0000-000000000000");
    assert_eq!(RequestID(u128::MAX).to_string(), "ffffffff-ffff-ffff-ffff-ffffffffffff");
    assert_eq!(RequestID(1).to_string(), "00000000-0000-0000-0000-000000000001");
}

#[test]
fn rendering_parses_back() {
    for _ in 0..1_000 {
        let id = RequestID::generate();
        assert_eq!(RequestID::parse(&id.to_string()), Some(id));
    }
    let fixed = RequestID(0x0123456789abcdef0011223344556677);
    assert_eq!(fixed.to_string(), "01234567-89ab-cdef-0011-223344556677");
    assert_eq!(RequestID::parse("01234567-89ab-cdef-0011-223344556677"), Some(fixed));
}

#[test]
fn parse_rejects_other_text() {
    assert_eq!(RequestID::parse(""), None);
    assert_eq!(RequestID::parse("936da01f9abd4d9d80c702af85c822a8"), None);
    assert_eq!(RequestID::parse("936DA01F-9ABD-4D9D-80C7-02AF85C822A8"), None);
    assert_eq!(RequestID::parse("936da01f-9abd-4d9d-80c7-02af85c822a"), None);
    assert_eq!(RequestID::parse("936da01f-9abd-4d9d-80c7-02af85c822a80"), None);
    assert_eq!(RequestID::parse("936da01f9-abd-4d9d-80c7-02af85c822a8"), None);
    assert_eq!(RequestID::parse("936da01g-9abd-4d9d-80c7-02af85c822a8"), None);
    assert_eq!(RequestID::parse("{936da01f-9abd-4d9d-80c7-02af85c822a8}"), None);
}

#[test]
fn lookup_without_middleware_fails() {
    let req = ServiceRequest::new("GET /");
    assert_eq!(RequestID::from_request(&req.extensions), Err(RequestIdError::Missing));
    assert_eq!(RequestID::from_request(&Extensions::new()), Err(RequestIdError::Missing));
}

#[test]
fn missing_error_message() {
    assert_eq!(RequestIdError::Missing.message(), "request id is missing");
}

#[test]
fn lookup_after_insert_succeeds() {
    let mut bag = Extensions::new();
    bag.insert(RequestID(7));
    assert_eq!(RequestID::from_request(&bag), Ok(RequestID(7)));
    bag.insert(RequestID(9));
    assert_eq!(RequestID::from_request(&bag), Ok(RequestID(9)));
}

#[test]
fn handler_sees_the_attached_id() {
    let mw = RequestIDWrapper.new_transform(|req: ServiceRequest<u32>| {
        RequestID::from_request(&req.extensions)
    });
    let got = mw.call(ServiceRequest::new(1)).unwrap();
    assert_ne!(got.value(), 0);
    assert!(is_version_4(got.value()));
}

#[test]
fn call_with_id_attaches_that_id() {
    let mw = RequestIDWrapper.new_transform(|req: ServiceRequest<u32>| {
        (req.payload, RequestID::from_request(&req.extensions))
    });
    let (payload, got) = mw.call_with_id(ServiceRequest::new(42), RequestID(5));
    assert_eq!(payload, 42);
    assert_eq!(got, Ok(RequestID(5)));
}

#[test]
fn two_requests_get_distinct_ids() {
    let mw = RequestIDWrapper.new_transform(|req: ServiceRequest<&str>| {
        RequestID::from_request(&req.extensions).unwrap()
    });
    let a = mw.call(ServiceRequest::new("a"));
    let b = mw.call(ServiceRequest::new("b"));
    assert_ne!(a, b);
    assert!(is_version_4(a.value()));
    assert!(is_version_4(b.value()));
}

#[test]
fn response_is_unchanged_by_the_middleware() {
    let handler = |req: ServiceRequest<&str>| -> (u16, String) {
        (200, format!("hello {}", req.payload))
    };
    let bare = handler(ServiceRequest::new("world"));
    let mw = RequestIDWrapper.new_transform(handler);
    let wrapped = mw.call(ServiceRequest::new("world"));
    assert_eq!(bare, wrapped);
    assert_eq!(wrapped, (200, "hello world".to_string()));
}
