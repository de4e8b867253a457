use nju_cli_web_service::cookie::trim_text;
use nju_cli_web_service::cookie::header_value_text;
use nju_cli_web_service::cookie::{
    cookie_header, find_cookie, is_valid_session_id, new_session_id, MIN_SESSION_ID_LEN,
    SESSION_ID_LEN,
};

const ID: &str = "abcdefghijklmnopqrstuvwxyzABCDEF0123456789";

#[test]
fn new_session_id_is_forty_alphanumerics() {
    let id = new_session_id();
    assert_eq!(id.len(), SESSION_ID_LEN);
    assert!(id.bytes().all(|b| b.is_ascii_alphanumeric()));
    assert!(is_valid_session_id(&id));
}

#[test]
fn new_session_ids_differ() {
    assert_ne!(new_session_id(), new_session_id());
}

#[test]
fn session_id_validity() {
    assert!(is_valid_session_id(&"a".repeat(MIN_SESSION_ID_LEN)));
    assert!(!is_valid_session_id(&"a".repeat(MIN_SESSION_ID_LEN - 1)));
    assert!(!is_valid_session_id(""));
    assert!(!is_valid_session_id(&format!("{}-", "a".repeat(40))));
    assert!(!is_valid_session_id(&format!("{}é", "a".repeat(40))));
    assert!(is_valid_session_id(ID));
}

#[test]
fn cookie_header_format() {
    assert_eq!(
        cookie_header("nju_cli_agent_sid", "abc", 2592000),
        "nju_cli_agent_sid=abc; Max-Age=2592000; Path=/; SameSite=Lax; HttpOnly"
    );
    assert_eq!(cookie_header("s", "v", 0), "s=v; Max-Age=0; Path=/; SameSite=Lax; HttpOnly");
}

#[test]
fn find_cookie_without_header() {
    assert_eq!(find_cookie(None, "sid"), None);
}

#[test]
fn find_cookie_single_pair() {
    let header = format!("sid={ID}");
    assert_eq!(find_cookie(Some(&header), "sid"), Some(ID.to_string()));
}

#[test]
fn find_cookie_among_others_with_spaces() {
    let header = format!("theme=dark;  sid={ID}  ; lang=zh");
    assert_eq!(find_cookie(Some(&header), "sid"), Some(ID.to_string()));
}

#[test]
fn find_cookie_takes_first_valid() {
    let other = "Z".repeat(35);
    let header = format!("sid=short; sid={other}; sid={ID}");
    assert_eq!(find_cookie(Some(&header), "sid"), Some(other));
}

#[test]
fn find_cookie_rejects_invalid_values_and_names() {
    assert_eq!(find_cookie(Some("sid=short"), "sid"), None);
    let header = format!("sidx={ID}; xsid={ID}; SID={ID}");
    assert_eq!(find_cookie(Some(&header), "sid"), None);
    let header = format!("sid = {ID}");
    assert_eq!(find_cookie(Some(&header), "sid"), None);
    assert_eq!(find_cookie(Some(""), "sid"), None);
    assert_eq!(find_cookie(Some(";;;"), "sid"), None);
}

#[test]
fn find_cookie_splits_at_first_equals() {
    let header = format!("sid={ID}=x");
    assert_eq!(find_cookie(Some(&header), "sid"), None);
}

#[test]
fn set_cookie_round_trip() {
    let id = new_session_id();
    let set = cookie_header("nju_cli_agent_sid", &id, 60);
    assert_eq!(find_cookie(Some(&set), "nju_cli_agent_sid"), Some(id.clone()));
    let echoed = format!("nju_cli_agent_sid={id}");
    assert_eq!(find_cookie(Some(&echoed), "nju_cli_agent_sid"), Some(id));
}

#[test]
fn find_cookie_trims_unicode_whitespace() {
    let header = format!("\u{3000}sid={ID}\u{a0}");
    assert_eq!(find_cookie(Some(&header), "sid"), Some(ID.to_string()));
}

#[test]
fn header_value_text_accepts_visible_ascii_only() {
    assert_eq!(header_value_text(b"a=b; c=d\t"), Some("a=b; c=d\t".to_string()));
    assert_eq!(header_value_text(b""), Some(String::new()));
    assert_eq!(header_value_text(b"a=\x7f"), None);
    assert_eq!(header_value_text(b"a=\n"), None);
    assert_eq!(header_value_text("é".as_bytes()), None);
}

#[test]
fn trim_text_strips_unicode_whitespace() {
    assert_eq!(trim_text("  \u{3000}hello world\t\n"), "hello world");
    assert_eq!(trim_text(" \t "), "");
    assert_eq!(trim_text("x"), "x");
}
