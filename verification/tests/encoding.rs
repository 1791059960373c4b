use base64::Engine;
use ipsecret_sync::auth::{document, token, RegistryAuth};
use ipsecret_sync::base64::encode;

fn decode(text: &str) -> Vec<u8> {
    base64::engine::general_purpose::STANDARD.decode(text).unwrap()
}

#[test]
fn base64_known_texts() {
    assert_eq!(encode(b""), "");
    assert_eq!(encode(b"f"), "Zg==");
    assert_eq!(encode(b"fo"), "Zm8=");
    assert_eq!(encode(b"foo"), "Zm9v");
    assert_eq!(encode(b"foob"), "Zm9vYg==");
    assert_eq!(encode(b"fooba"), "Zm9vYmE=");
    assert_eq!(encode(b"foobar"), "Zm9vYmFy");
}

#[test]
fn base64_uses_the_last_digits() {
    assert_eq!(encode(&[0xfb, 0xff]), "+/8=");
    assert_eq!(encode(&[0xff, 0xff, 0xff]), "////");
    assert_eq!(encode(&[0, 0, 0]), "AAAA");
}

#[test]
fn base64_agrees_with_the_reference_on_every_length() {
    let mut bytes: Vec<u8> = Vec::new();
    for n in 0..200u32 {
        let text = encode(&bytes);
        assert_eq!(text.len(), 4 * ((bytes.len() + 2) / 3));
        assert_eq!(text, base64::engine::general_purpose::STANDARD.encode(&bytes));
        assert_eq!(decode(&text), bytes);
        bytes.push((n * 37 % 256) as u8);
    }
}

#[test]
fn token_is_the_base64_of_the_login() {
    assert_eq!(token("u", "p"), "dTpw");
    assert_eq!(token("", ""), "Og==");
    assert_eq!(decode(&token("user", "pa:ss")), b"user:pa:ss");
    assert_eq!(decode(&token("h\u{e9}", "\u{4e16}")), "h\u{e9}:\u{4e16}".as_bytes());
}

#[test]
fn document_is_put_together_in_order() {
    assert_eq!(
        document("\"s\"", "\"u\"", "\"p\"", "dTpw"),
        "{\"auths\":{\"s\":{\"username\":\"u\",\"password\":\"p\",\"auth\":\"dTpw\"}}}"
    );
}

#[test]
fn blob_of_a_plain_login() {
    let auth = RegistryAuth::new("u".to_string(), "p".to_string(), "reg.example.com".to_string());
    let blob = auth.base64_encode();
    assert_eq!(
        String::from_utf8(decode(&blob)).unwrap(),
        "{\"auths\":{\"reg.example.com\":{\"username\":\"u\",\"password\":\"p\",\"auth\":\"dTpw\"}}}"
    );
    assert_eq!(
        blob,
        "eyJhdXRocyI6eyJyZWcuZXhhbXBsZS5jb20iOnsidXNlcm5hbWUiOiJ1IiwicGFzc3dvcmQiOiJwIiwiYXV0aCI6ImRUcHcifX19"
    );
}

#[test]
fn blob_is_a_function_of_the_login() {
    let one = RegistryAuth::new("u".to_string(), "p".to_string(), "r".to_string());
    let two = RegistryAuth::new("u".to_string(), "p".to_string(), "r".to_string());
    let other = RegistryAuth::new("u".to_string(), "q".to_string(), "r".to_string());
    assert_eq!(one.base64_encode(), two.base64_encode());
    assert_eq!(one.base64_encode(), one.base64_encode());
    assert_ne!(one.base64_encode(), other.base64_encode());
}

#[test]
fn blob_escapes_what_json_reserves() {
    let auth = RegistryAuth::new(
        "a\"b".to_string(),
        "back\\slash\nline".to_string(),
        "reg/\u{e9}".to_string(),
    );
    let text = String::from_utf8(decode(&auth.base64_encode())).unwrap();
    assert!(text.contains("\"username\":\"a\\\"b\""));
    assert!(text.contains("\"password\":\"back\\\\slash\\nline\""));
    let value: serde_json::Value = serde_json::from_str(&text).unwrap();
    let entry = &value["auths"]["reg/\u{e9}"];
    assert_eq!(entry["username"].as_str(), Some("a\"b"));
    assert_eq!(entry["password"].as_str(), Some("back\\slash\nline"));
    assert_eq!(
        decode(entry["auth"].as_str().unwrap()),
        "a\"b:back\\slash\nline".as_bytes()
    );
}
