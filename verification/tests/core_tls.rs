use oaat::tls::{cert_fingerprint, colon_hex_string};

#[test]
fn fingerprint_deterministic() {
    let data = b"test certificate data";
    let fp1 = cert_fingerprint(data);
    let fp2 = cert_fingerprint(data);
    assert_eq!(fp1, fp2);
}

#[test]
fn fingerprint_is_the_sha256_digest_in_colon_hex() {
    let fp = cert_fingerprint(b"abc");
    assert_eq!(fp.len(), 95);
    assert_eq!(
        fp,
        "ba:78:16:bf:8f:01:cf:ea:41:41:40:de:5d:ae:22:23:b0:03:61:a3:96:17:7a:9c:b4:10:ff:61:f2:00:15:ad"
    );
}

#[test]
fn colon_hex_of_a_few_bytes() {
    assert_eq!(colon_hex_string(&[]), "");
    assert_eq!(colon_hex_string(&[0x0a]), "0a");
    assert_eq!(colon_hex_string(&[0x00, 0xff, 0x10]), "00:ff:10");
}
