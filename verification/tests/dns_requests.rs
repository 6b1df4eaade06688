use webability_rust::dns::{urlencode, Dns, RecordInput, RecordUpdate};
use webability_rust::WaApi;

fn decode_segment(s: &str) -> Vec<u8> {
    let b = s.as_bytes();
    let mut out = Vec::new();
    let mut i = 0;
    while i < b.len() {
        if b[i] == b'%' && i + 2 < b.len() {
            let v = u8::from_str_radix(&s[i + 1..i + 3], 16).unwrap();
            out.push(v);
            i += 3;
        } else {
            out.push(b[i]);
            i += 1;
        }
    }
    out
}

#[test]
fn urlencode_keeps_domains_and_keys() {
    assert_eq!(urlencode("example.com"), "example.com");
    assert_eq!(urlencode("12345"), "12345");
    assert_eq!(urlencode("A-z_0.9~"), "A-z_0.9~");
    assert_eq!(urlencode(""), "");
}

#[test]
fn urlencode_escapes_the_rest() {
    assert_eq!(urlencode("a b/c"), "a%20b%2Fc");
    assert_eq!(urlencode("?#%"), "%3F%23%25");
    assert_eq!(urlencode("ñ"), "%C3%B1");
    assert_eq!(urlencode("\u{7f}"), "%7F");
}

#[test]
fn urlencode_round_trips() {
    for s in ["a b/c", "año.mx", "x%41", "例え.jp", "~~", "/../"] {
        let e = urlencode(s);
        assert!(e.chars().all(|c| c.is_ascii_alphanumeric() || "-_.~%".contains(c)));
        assert_eq!(decode_segment(&e), s.as_bytes().to_vec());
    }
}

#[test]
fn dns_paths_and_methods() {
    let api = WaApi::new_with_url("http://h", "c", "t");
    let dns = Dns::new(&api);
    let r = dns.list_zones(5);
    assert_eq!((r.method.as_str(), r.url.as_str()), ("GET", "http://h/v1/dns/zone"));
    let r = dns.get_zone("mi dominio.mx", 5);
    assert_eq!((r.method.as_str(), r.url.as_str()), ("GET", "http://h/v1/dns/zone/mi%20dominio.mx"));
    assert_eq!(r.headers[2].value, api.digest("GET|/v1/dns/zone/mi%20dominio.mx|5|c"));
    let r = dns.get_zone("17", 5);
    assert_eq!(r.url, "http://h/v1/dns/zone/17");
    let r = dns.delete_zone(17, 5);
    assert_eq!((r.method.as_str(), r.url.as_str()), ("DELETE", "http://h/v1/dns/zone/17"));
    let r = dns.delete_record(-3, 5);
    assert_eq!((r.method.as_str(), r.url.as_str()), ("DELETE", "http://h/v1/dns/record/-3"));
    let r = dns.delete_record(i64::MIN, 5);
    assert_eq!(r.url, "http://h/v1/dns/record/-9223372036854775808");
    assert_eq!(r.body, None);
}

#[test]
fn distinct_keys_distinct_paths() {
    let api = WaApi::new_with_url("http://h", "c", "t");
    let dns = Dns::new(&api);
    assert_ne!(dns.delete_record(1, 0).url, dns.delete_record(10, 0).url);
    assert_ne!(dns.delete_zone(-1, 0).url, dns.delete_zone(1, 0).url);
}

#[test]
fn add_zone_body() {
    let api = WaApi::new_with_url("http://h", "c", "t");
    let dns = Dns::new(&api);
    let r = dns.add_zone("example.com", 9);
    assert_eq!((r.method.as_str(), r.url.as_str()), ("POST", "http://h/v1/dns/zone"));
    assert_eq!(r.body.as_deref(), Some("{\"name\":\"example.com\"}"));
    assert_eq!(r.headers[3].name, "Content-Type");
    let r = dns.add_zone("we\"ird\\\n\u{1}", 9);
    assert_eq!(r.body.as_deref(), Some("{\"name\":\"we\\\"ird\\\\\\n\\u0001\"}"));
    let v: serde_json::Value = serde_json::from_str(r.body.as_deref().unwrap()).unwrap();
    assert_eq!(v["name"], "we\"ird\\\n\u{1}");
    let r = dns.add_zone("\t\u{1f}\u{7f}/é", 9);
    assert_eq!(r.body.as_deref(), Some("{\"name\":\"\\t\\u001f\u{7f}/é\"}"));
}

#[test]
fn add_record_body_skips_absent_fields() {
    let api = WaApi::new_with_url("http://h", "c", "t");
    let dns = Dns::new(&api);
    let rec = RecordInput {
        name: "www".to_string(),
        rrtype: "A".to_string(),
        ttl: 3600,
        data: "1.2.3.4".to_string(),
        ..Default::default()
    };
    let r = dns.add_record(12, &rec, 1);
    assert_eq!((r.method.as_str(), r.url.as_str()), ("POST", "http://h/v1/dns/zone/12/record"));
    assert_eq!(
        r.body.as_deref(),
        Some("{\"name\":\"www\",\"rrtype\":\"A\",\"ttl\":3600,\"data\":\"1.2.3.4\"}")
    );
    let mx = RecordInput {
        name: "@".to_string(),
        rrtype: "MX".to_string(),
        ttl: 300,
        data: "mail.a.com".to_string(),
        priority: Some(10),
        weight: None,
        port: Some(-1),
        tag: Some("t".to_string()),
    };
    assert_eq!(
        mx.to_json(),
        "{\"name\":\"@\",\"rrtype\":\"MX\",\"ttl\":300,\"data\":\"mail.a.com\",\"priority\":10,\"port\":-1,\"tag\":\"t\"}"
    );
}

#[test]
fn update_record_sends_only_present_fields() {
    let api = WaApi::new_with_url("http://h", "c", "t");
    let dns = Dns::new(&api);
    let none = RecordUpdate::default();
    assert_eq!(none.to_json(), "{}");
    let upd = RecordUpdate { ttl: Some(60), status: Some(0), ..Default::default() };
    let r = dns.update_record(99, &upd, 1);
    assert_eq!((r.method.as_str(), r.url.as_str()), ("PUT", "http://h/v1/dns/record/99"));
    assert_eq!(r.body.as_deref(), Some("{\"ttl\":60,\"status\":0}"));
    let all = RecordUpdate {
        name: Some("n".to_string()),
        ttl: Some(1),
        data: Some("d".to_string()),
        priority: Some(2),
        weight: Some(3),
        port: Some(4),
        tag: Some("g".to_string()),
        status: Some(5),
    };
    let v: serde_json::Value = serde_json::from_str(&all.to_json()).unwrap();
    assert_eq!(v.as_object().unwrap().len(), 8);
    assert_eq!(v["weight"], 3);
    assert_eq!(v["tag"], "g");
}

#[test]
fn record_input_default_is_empty() {
    let r = RecordInput::default();
    assert_eq!(r.name, "");
    assert_eq!(r.ttl, 0);
    assert!(r.priority.is_none() && r.tag.is_none());
}
