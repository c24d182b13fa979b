use brain_b2b::log::Log;
use brain_b2b::param::{parse_u32, split_query, Format, Lang, Param, PriceVolume};
use brain_b2b::price::Price;
use sha2::Digest;

fn token(company: u32, target: u32, format: &str, lang: &str, time: u32, salt: &str) -> String {
    let mut hasher = sha2::Sha512::new();
    hasher.update(format!("{}{}{}{}{}{}", company, target, format, lang, time, salt).as_bytes());
    format!("{:x}", hasher.finalize())
}

fn query(extra: &str, tok: &str) -> String {
    format!(
        "format=json&full=1&companyID=100&targetID=10&userID=1&time=1700000000&lang=ua{}&token={}",
        extra, tok
    )
}

#[test]
fn a_request_with_the_right_token_is_accepted() {
    let tok = token(100, 10, "json", "ua", 1700000000, "s3cret");
    let p = Param::new(query("", &tok).as_bytes(), "s3cret").unwrap();
    assert_eq!(p.format, Format::JSON);
    assert_eq!(p.format_str, "json");
    assert_eq!(p.volume, PriceVolume::Full);
    assert_eq!(p.volume_str, "1");
    assert_eq!(p.lang, Lang::UA);
    assert_eq!(p.lang_str, "ua");
    assert_eq!((p.company_id, p.target_id, p.user_id), (100, 10, 1));
    assert!(!p.uah && !p.nds && !p.nds_orig && !p.round && !p.ean && !p.api && !p.pc_vinga);
    assert_eq!(p.pc_vinga_str, "0");
}

#[test]
fn the_token_is_the_lower_case_digest() {
    let tok = token(100, 10, "json", "ua", 1700000000, "s3cret");
    assert_eq!(tok.len(), 128);
    assert_eq!(Param::new(query("", &tok.to_uppercase()).as_bytes(), "s3cret").err(), Some(16));
    assert_eq!(Param::new(query("", &tok).as_bytes(), "other").err(), Some(16));
    assert_eq!(Param::new(query("", &tok[..127]).as_bytes(), "s3cret").err(), Some(16));
    let known = token(1, 1, "json", "ua", 1, "");
    assert!(known.starts_with(&known.to_lowercase()));
    assert!(Param::verify(b"abc", b"abc"));
    assert!(!Param::verify(b"abc", b"abd"));
    assert!(!Param::verify(b"abc", b"ab"));
}

#[test]
fn token_mismatch() {
    let q = "format=json&full=0&companyID=1&targetID=1&userID=1&time=1&lang=ua&token=deadbeef";
    let r = Param::new(q.as_bytes(), "salt");
    assert_eq!(r.err(), Some(16));
    let log = Log::new(1, "/tmp");
    let answer = Price::calc(&Err(16), Format::JSON, "", &log);
    let text = String::from_utf8(answer).unwrap();
    assert!(text.starts_with("HTTP/1.1 401 Unauthorized\r\n"));
    assert!(text.contains("Помилка 16"));
}

#[test]
fn optional_parameters() {
    let tok = token(100, 10, "json", "ua", 1700000000, "s");
    let p = Param::new(query("&cur=uah&nds=1&ean=1&pcvinga=1&api=x", &tok).as_bytes(), "s").unwrap();
    assert!(p.uah && p.nds && p.nds_orig && p.round && p.ean && p.api && p.pc_vinga);
    assert_eq!(p.pc_vinga_str, "1");
    let p = Param::new(query("&nds=1", &tok).as_bytes(), "s").unwrap();
    assert!(!p.nds && !p.round && !p.uah);
    let p = Param::new(query("&cur=usd&nds=1&ean=2&pcvinga=yes&api", &tok).as_bytes(), "s").unwrap();
    assert!(!p.uah && !p.nds && !p.ean && !p.pc_vinga && p.api);
}

#[test]
fn values_are_percent_decoded_and_the_last_one_counts() {
    let tok = token(100, 10, "json", "ua", 1700000000, "s");
    let q = format!(
        "format=xml&f%6Frmat=%6Ason&full=1&companyID=100&targetID=10&userID=1&time=1700000000&lang=ua&token={}",
        tok
    );
    let p = Param::new(q.as_bytes(), "s").unwrap();
    assert_eq!(p.format, Format::JSON);
    let pairs = Param::get_price_param(b"a=1%202&b&c=%zz&=x");
    assert_eq!(pairs.len(), 4);
    assert_eq!((pairs[0].key.as_slice(), pairs[0].value.as_slice()), (&b"a"[..], &b"1 2"[..]));
    assert_eq!((pairs[1].key.as_slice(), pairs[1].value.as_slice()), (&b"b"[..], &b""[..]));
    assert_eq!((pairs[2].key.as_slice(), pairs[2].value.as_slice()), (&b"c"[..], &b"%zz"[..]));
    assert_eq!((pairs[3].key.as_slice(), pairs[3].value.as_slice()), (&b""[..], &b"x"[..]));
}

fn without(name: &str) -> String {
    let all = [
        ("format", "json"),
        ("full", "0"),
        ("companyID", "1"),
        ("targetID", "1"),
        ("lang", "ua"),
        ("time", "1"),
        ("userID", "1"),
        ("token", "x"),
    ];
    let parts: Vec<String> =
        all.iter().filter(|(k, _)| *k != name).map(|(k, v)| format!("{}={}", k, v)).collect();
    parts.join("&")
}

fn with(name: &str, value: &str) -> String {
    format!("{}&{}={}", without(name), name, value)
}

#[test]
fn each_missing_or_malformed_parameter_has_its_code() {
    let code = |q: String| Param::new(q.as_bytes(), "salt").err();
    assert_eq!(code(String::new()), Some(1));
    assert_eq!(code(without("format")), Some(1));
    assert_eq!(code(with("format", "csv")), Some(2));
    assert_eq!(code(with("format", "XLSX")), Some(2));
    assert_eq!(code(without("full")), Some(3));
    assert_eq!(code(with("full", "4")), Some(4));
    assert_eq!(code(without("companyID")), Some(5));
    assert_eq!(code(with("companyID", "abc")), Some(6));
    assert_eq!(code(with("companyID", "4294967296")), Some(6));
    assert_eq!(code(with("companyID", "-1")), Some(6));
    assert_eq!(code(with("companyID", "")), Some(6));
    assert_eq!(code(without("targetID")), Some(7));
    assert_eq!(code(with("targetID", "1 ")), Some(8));
    assert_eq!(code(without("lang")), Some(9));
    assert_eq!(code(with("lang", "en")), Some(10));
    assert_eq!(code(without("time")), Some(11));
    assert_eq!(code(with("time", "1.5")), Some(12));
    assert_eq!(code(without("userID")), Some(13));
    assert_eq!(code(with("userID", "+")), Some(14));
    assert_eq!(code(without("token")), Some(15));
    assert_eq!(code(without("")), Some(16));
    assert_eq!(code(format!("{}&format=", without("full"))), Some(2));
}

#[test]
fn each_format_and_variant_is_read() {
    let read = |q: String| Param::read(&Param::get_price_param(q.as_bytes())).ok().unwrap();
    assert_eq!(read(with("format", "xlsx")).param.format, Format::XLSX);
    assert_eq!(read(with("format", "xml")).param.format, Format::XML);
    assert_eq!(read(with("format", "php")).param.format_str, "php");
    assert_eq!(read(with("full", "0")).param.volume, PriceVolume::Local);
    assert_eq!(read(with("full", "2")).param.volume, PriceVolume::Short);
    assert_eq!(read(with("full", "3")).param.volume, PriceVolume::FullUAH);
    assert_eq!(read(with("full", "3")).param.volume_str, "3");
    assert_eq!(read(with("lang", "ru")).param.lang, Lang::RU);
    let r = read(with("time", "+0042"));
    assert_eq!(r.time, 42);
    assert_eq!(r.token, b"x");
}

#[test]
fn numbers_are_read_as_decimal() {
    assert_eq!(parse_u32(b"0"), Some(0));
    assert_eq!(parse_u32(b"+17"), Some(17));
    assert_eq!(parse_u32(b"007"), Some(7));
    assert_eq!(parse_u32(b"4294967295"), Some(u32::MAX));
    assert_eq!(parse_u32(b"4294967296"), None);
    assert_eq!(parse_u32(b"99999999999999999999999"), None);
    assert_eq!(parse_u32(b""), None);
    assert_eq!(parse_u32(b"+"), None);
    assert_eq!(parse_u32(b"++1"), None);
    assert_eq!(parse_u32(b"1a"), None);
    assert_eq!(parse_u32(b" 1"), None);
}

#[test]
fn a_query_is_split_at_ampersands_and_first_equals_signs() {
    let raw = split_query(b"a=b=c&&d");
    assert_eq!(raw.len(), 3);
    assert_eq!(raw[0].key, b"a");
    assert_eq!(raw[0].value.as_deref(), Some(&b"b=c"[..]));
    assert_eq!(raw[1].key, b"");
    assert_eq!(raw[1].value, None);
    assert_eq!(raw[2].key, b"d");
    assert_eq!(raw[2].value, None);
    let raw = split_query(b"");
    assert_eq!(raw.len(), 1);
    assert_eq!(raw[0].key, b"");
    let raw = split_query(b"x=&");
    assert_eq!(raw.len(), 2);
    assert_eq!(raw[0].value.as_deref(), Some(&b""[..]));
}
