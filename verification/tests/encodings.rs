use osaio_proxy::auth;
use osaio_proxy::sdp::offer;
use osaio_proxy::util;

#[test]
fn hexadecimal() {
    assert_eq!(util::hex(&[]), "");
    assert_eq!(util::hex(&[0x00, 0x0f, 0xa0, 0xff]), "000fa0ff");
}

#[test]
fn random_bytes_are_as_many_as_asked_for() {
    assert_eq!(util::random_bytes(0).len(), 0);
    let a = util::random_bytes(32);
    let b = util::random_bytes(32);
    assert_eq!(a.len(), 32);
    assert_ne!(a, b);
}

#[test]
fn code_is_hexadecimal_in_base64() {
    // "a5" is the bytes 61 35.
    assert_eq!(auth::code_to_text(&[0xa5]), "YTU=");
    // "0001" is the bytes 30 30 30 31.
    assert_eq!(auth::code_to_text(&[0x00, 0x01]), "MDAwMQ==");
    assert_eq!(auth::code_to_text(&[]), "");
}

#[test]
fn session_keys_have_no_zero() {
    for _ in 0..50 {
        let k = offer::session_key();
        assert_eq!(k.len(), 30);
        assert!(k.iter().all(|b| *b != 0));
    }
    assert_ne!(offer::session_key(), offer::session_key());
    assert_eq!(offer::key_of(&[0, 1, 253, 254, 255]), vec![1, 2, 254, 255, 1]);
    assert_eq!(offer::key_byte(255), 1);
}
