use animecix::http::{pct_encode, with_query, Resp};
use animecix::player::show_text;

fn resp(status: u16, body: &[u8]) -> Resp {
    Resp { status, url: "https://x/y".to_string(), content_length: Some(body.len() as u64), body: body.to_vec() }
}

#[test]
fn error_for_status_passes_2xx_only() {
    assert!(resp(200, b"ok").error_for_status().is_ok());
    assert!(resp(206, b"").error_for_status().is_ok());
    assert_eq!(resp(404, b"").error_for_status().err(), Some("HTTP 404".to_string()));
    assert_eq!(resp(302, b"").error_for_status().err(), Some("HTTP 302".to_string()));
}

#[test]
fn text_decodes_utf8_and_refuses_other_bytes() {
    assert_eq!(resp(200, "çay".as_bytes()).text(), Ok("çay".to_string()));
    assert_eq!(resp(200, &[0xff, 0xfe]).text(), Err("yanıt UTF-8 değil".to_string()));
}

#[test]
fn resp_getters() {
    let r = resp(200, b"abc");
    assert_eq!(r.url(), "https://x/y");
    assert_eq!(r.content_length(), Some(3));
    assert_eq!(r.bytes(), Ok(b"abc".to_vec()));
}

#[test]
fn pct_encode_shapes() {
    assert_eq!(pct_encode("a b"), "a%20b");
    assert_eq!(pct_encode("A-z_0.9~"), "A-z_0.9~");
    assert_eq!(pct_encode("ş"), "%C5%9F");
    assert_eq!(pct_encode("a&b=c"), "a%26b%3Dc");
    // `%` is kept as it is.
    assert_eq!(pct_encode("50%"), "50%");
}

#[test]
fn with_query_appends_pairs() {
    let q = vec![("q".to_string(), "one piece".to_string()), ("page".to_string(), "2".to_string())];
    assert_eq!(with_query("https://h/search", &q), "https://h/search?q=one%20piece&page=2");
    assert_eq!(with_query("https://h/s?x=1", &q), "https://h/s?x=1&q=one%20piece&page=2");
    assert_eq!(with_query("https://h/s", &Vec::new()), "https://h/s");
}

#[test]
fn show_text_escapes_for_json() {
    let c = show_text("a \"b\" \\c", 1500);
    assert_eq!(c, "{\"command\":[\"show-text\",\"a \\\"b\\\" \\\\c\",1500]}");
    let v: serde_json::Value = serde_json::from_str(&c).unwrap();
    assert_eq!(v["command"][1], "a \"b\" \\c");
}
