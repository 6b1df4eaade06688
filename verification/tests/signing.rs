use hmac::{Hmac, Mac};
use webability_rust::text::encode_hex;
use webability_rust::{build_message, HttpRequest, WaApi, DEFAULT_BASE_URL};

fn headers(req: &HttpRequest) -> Vec<(String, String)> {
    req.headers.iter().map(|h| (h.name.clone(), h.value.clone())).collect()
}

#[test]
fn build_message_joins_with_bars() {
    assert_eq!(
        build_message("GET", "/v1/dns/zone", "1700000000", "client-1"),
        "GET|/v1/dns/zone|1700000000|client-1"
    );
    assert_eq!(build_message("", "", "", ""), "|||");
}

#[test]
fn new_uses_default_host() {
    let api = WaApi::new("client-1", "secret");
    assert_eq!(api.client_id, "client-1");
    assert_eq!(api.token, "secret");
    assert_eq!(api.base_url, "https://api.webability.info");
    assert_eq!(DEFAULT_BASE_URL, "https://api.webability.info");
}

#[test]
fn new_with_url_keeps_host() {
    let api = WaApi::new_with_url("http://localhost:8080", "c", "t");
    assert_eq!(api.base_url, "http://localhost:8080");
    assert_eq!(api.client_id, "c");
    assert_eq!(api.token, "t");
}

#[test]
fn digest_matches_rfc4231_vector() {
    let api = WaApi::new("x", "Jefe");
    assert_eq!(
        api.digest("what do ya want for nothing?"),
        "5bdcc146bf60754e6a042426089575c75a003f089d2739839dec58b964ec3843"
    );
}

#[test]
fn digest_uses_utf8_bytes() {
    let api = WaApi::new("id", "clé");
    assert_eq!(
        api.digest("GET|/ñ|0|id"),
        "c81d80d7278ea917f52918745b9dd3132b35981850977b3a89532c8f1fd9cf34"
    );
}

#[test]
fn digest_agrees_with_hmac_crate() {
    let mut mac = <Hmac<sha2::Sha256> as Mac>::new_from_slice(b"a much longer key than the sha256 block size of sixty four bytes, so it is hashed first").unwrap();
    mac.update(b"message");
    let expected = hex::encode(mac.finalize().into_bytes());
    let api = WaApi::new("x", "a much longer key than the sha256 block size of sixty four bytes, so it is hashed first");
    let d = api.digest("message");
    assert_eq!(d, expected);
    assert_eq!(d.len(), 64);
    assert!(d.chars().all(|c| c.is_ascii_digit() || ('a'..='f').contains(&c)));
}

#[test]
fn encode_hex_is_lower_case() {
    assert_eq!(encode_hex(&[0xbe, 0xef, 0x00, 0x0a]), "beef000a");
    assert_eq!(encode_hex(&[]), "");
}

#[test]
fn get_is_signed() {
    let api = WaApi::new("client-1", "secret");
    let req = api.get("/v1/dns/zone", 1700000000);
    assert_eq!(req.method, "GET");
    assert_eq!(req.url, "https://api.webability.info/v1/dns/zone");
    assert_eq!(req.body, None);
    assert_eq!(
        headers(&req),
        vec![
            ("X-WA-Client".to_string(), "client-1".to_string()),
            ("X-WA-Timestamp".to_string(), "1700000000".to_string()),
            (
                "X-WA-Digest".to_string(),
                "cf2a4012d04b5b06a0f97b655bedaaf2942df0a60749cda5709a8b98a1206cf1".to_string()
            ),
        ]
    );
}

#[test]
fn post_sets_json_content_type() {
    let api = WaApi::new("client-1", "secret");
    let req = api.post("/v1/dns/zone", "{\"name\":\"a.com\"}".to_string(), 1700000000);
    assert_eq!(req.method, "POST");
    assert_eq!(req.body.as_deref(), Some("{\"name\":\"a.com\"}"));
    let h = headers(&req);
    assert_eq!(h.len(), 4);
    assert_eq!(h[2].1, "fcd550973f1482cdcc3c6dae7d9ed603b634e5098e066822aa8a1fd208f3f196");
    assert_eq!(h[3], ("Content-Type".to_string(), "application/json".to_string()));
}

#[test]
fn put_and_delete_are_signed() {
    let api = WaApi::new_with_url("http://h", "c", "t");
    let put = api.put("/v1/dns/record/7", "{}".to_string(), 0);
    assert_eq!(put.method, "PUT");
    assert_eq!(put.url, "http://h/v1/dns/record/7");
    assert_eq!(headers(&put)[1].1, "0");
    assert_eq!(headers(&put)[2].1, api.digest("PUT|/v1/dns/record/7|0|c"));
    let del = api.delete("/v1/dns/record/7", 18446744073709551615);
    assert_eq!(del.method, "DELETE");
    assert_eq!(del.body, None);
    assert_eq!(headers(&del).len(), 3);
    assert_eq!(headers(&del)[1].1, "18446744073709551615");
    assert_eq!(headers(&del)[2].1, api.digest("DELETE|/v1/dns/record/7|18446744073709551615|c"));
}

#[test]
fn digest_header_can_be_checked_from_other_headers() {
    let api = WaApi::new("client-9", "tok");
    let req = api.sign("GET", "/v1/dns/zone/a.com", 42, None);
    let h = headers(&req);
    let message = build_message("GET", "/v1/dns/zone/a.com", &h[1].1, &h[0].1);
    assert_eq!(h[2].1, api.digest(&message));
}

#[test]
fn token_never_travels() {
    let a = WaApi::new("client-1", "secret");
    let b = WaApi::new("client-1", "other");
    let ra = a.get("/v1/dns/zone", 1700000000);
    let rb = b.get("/v1/dns/zone", 1700000000);
    let (ha, hb) = (headers(&ra), headers(&rb));
    assert_eq!(ra.url, rb.url);
    assert_eq!(ha[0], hb[0]);
    assert_eq!(ha[1], hb[1]);
    assert_eq!(hb[2].1, "f9ee2dc4a382b4f8226089d14c494466e661b3d0f8db1910b97cf876e9f79846");
    assert_ne!(ha[2].1, hb[2].1);
    for (name, value) in ha.iter() {
        assert!(!name.contains("secret") && !value.contains("secret"));
    }
    assert!(!ra.url.contains("secret"));
}
