use earendil_core::crypt::{bytes_equal, Fingerprint, IdentityPublic, IdentitySecret, Signature};
use earendil_core::text::{decimal_string, push_decimal, push_quoted};
use earendil_core::{log_error, restart_message};

#[test]
fn fingerprint_keeps_its_bytes() {
    let mut bytes = [0u8; 20];
    for (i, b) in bytes.iter_mut().enumerate() {
        *b = (i * 13) as u8;
    }
    let fp = Fingerprint::from_bytes(&bytes);
    assert_eq!(fp.as_bytes(), &bytes);
    assert!(fp.same(&Fingerprint::from_bytes(&bytes)));
}

#[test]
fn fingerprint_hex_is_forty_lowercase_digits() {
    let mut bytes = [0u8; 20];
    bytes[0] = 0x01;
    bytes[1] = 0xab;
    bytes[19] = 0xff;
    let fp = Fingerprint::from_bytes(&bytes);
    assert_eq!(fp.to_hex(), "01ab0000000000000000000000000000000000ff");
    assert_eq!(fp.to_hex().len(), 40);
}

#[test]
fn fingerprint_order_is_lexicographic() {
    let low = Fingerprint::from_bytes(&[1; 20]);
    let high = Fingerprint::from_bytes(&[2; 20]);
    assert!(low.precedes(&high));
    assert!(!high.precedes(&low));
    assert!(!low.precedes(&low));

    // the first byte that differs decides, whatever follows
    let mut a = [9u8; 20];
    let mut b = [0u8; 20];
    a[0] = 3;
    b[0] = 4;
    assert!(Fingerprint::from_bytes(&a).precedes(&Fingerprint::from_bytes(&b)));

    // a difference in the last byte is seen
    let mut c = [5u8; 20];
    let d = [5u8; 20];
    c[19] = 4;
    assert!(Fingerprint::from_bytes(&c).precedes(&Fingerprint::from_bytes(&d)));
    assert!(!Fingerprint::from_bytes(&d).precedes(&Fingerprint::from_bytes(&c)));
}

#[test]
fn fingerprint_order_agrees_with_the_derived_order() {
    let samples: Vec<[u8; 20]> = (0..40u32)
        .map(|n| {
            let mut b = [0u8; 20];
            for (i, x) in b.iter_mut().enumerate() {
                *x = ((n * 7 + i as u32 * (n % 5)) % 4) as u8;
            }
            b
        })
        .collect();
    for x in &samples {
        for y in &samples {
            let fx = Fingerprint::from_bytes(x);
            let fy = Fingerprint::from_bytes(y);
            assert_eq!(fx.precedes(&fy), fx < fy);
            assert_eq!(fx.same(&fy), fx == fy);
        }
    }
}

#[test]
fn same_tells_fingerprints_apart() {
    let a = Fingerprint::from_bytes(&[7; 20]);
    let mut bytes = [7u8; 20];
    bytes[10] = 8;
    let b = Fingerprint::from_bytes(&bytes);
    assert!(a.same(&a));
    assert!(!a.same(&b));
}

#[test]
fn byte_arrays_compare_by_content() {
    assert!(bytes_equal(&[1u8, 2, 3], &[1u8, 2, 3]));
    assert!(!bytes_equal(&[1u8, 2, 3], &[1u8, 2, 4]));
    assert!(bytes_equal::<0>(&[], &[]));
}

#[test]
fn keys_and_signatures_keep_their_bytes() {
    let secret = IdentitySecret::from_bytes(&[3; 32]);
    assert_eq!(secret.as_bytes(), &[3u8; 32]);
    let public = IdentityPublic::from_bytes(&[4; 32]);
    assert_eq!(public.as_bytes(), &[4u8; 32]);
    assert!(public.same(&IdentityPublic::from_bytes(&[4; 32])));
    assert!(!public.same(&IdentityPublic::from_bytes(&[5; 32])));
    let sig = Signature::from_bytes(&[6; 64]);
    assert_eq!(sig.as_bytes(), &[6u8; 64]);
    assert!(sig.same(&Signature::from_bytes(&[6; 64])));
    assert!(!sig.same(&Signature::from_bytes(&[7; 64])));
}

#[test]
fn decimal_of_numbers() {
    assert_eq!(decimal_string(0), "0");
    assert_eq!(decimal_string(7), "7");
    assert_eq!(decimal_string(10), "10");
    assert_eq!(decimal_string(12345), "12345");
    assert_eq!(decimal_string(1_000_000), "1000000");
    assert_eq!(decimal_string(u32::MAX), "4294967295");
}

#[test]
fn decimal_agrees_with_the_standard_library() {
    for n in (0..200_000u32).step_by(37) {
        assert_eq!(decimal_string(n), n.to_string());
    }
}

#[test]
fn push_decimal_appends() {
    let mut s = String::from("dock ");
    push_decimal(&mut s, 4096);
    assert_eq!(s, "dock 4096");
}

#[test]
fn push_quoted_reads_like_debug() {
    let mut s = String::from("x=");
    push_quoted(&mut s, "0a1b");
    assert_eq!(s, "x=\"0a1b\"");
    assert_eq!(s, format!("x={:?}", "0a1b"));
}

#[test]
fn restart_message_has_label_and_detail() {
    assert_eq!(
        restart_message("recv_task", "Closed"),
        "recv_task restart, error: Closed"
    );
}

#[test]
fn log_error_writes_the_debug_form() {
    let err: Result<(), String> = Err("boom".to_string());
    assert_eq!(
        log_error("connection_loop", &err),
        "connection_loop restart, error: Err(\"boom\")"
    );
    assert_eq!(log_error("pump", &42u8), "pump restart, error: 42");
}
