//! The parameters of a request: splitting the query string, reading each
//! parameter and validating the token.

use crate::text::{bytes_eq, copy_range, digits, push_decimal, push_str, utf8};
use sha2::Digest;
use vstd::prelude::*;
use vstd::string::*;

verus! {

/// The format of the file.
#[derive(Debug, Clone, Copy, PartialEq, Eq, Structural)]
pub enum Format {
    XLSX,
    XML,
    JSON,
    PHP,
}

/// The language of the names.
#[derive(Debug, Clone, Copy, PartialEq, Eq, Structural)]
pub enum Lang {
    UA,
    RU,
}

/// The variant of the price list.
#[derive(Debug, Clone, Copy, PartialEq, Eq, Structural)]
pub enum PriceVolume {
    Local,
    Full,
    Short,
    FullUAH,
}

/// A validated request.
#[derive(Debug, Clone)]
pub struct Param {
    pub user_id: u32,
    pub company_id: u32,
    pub target_id: u32,
    pub format_str: String,
    pub format: Format,
    pub lang: Lang,
    pub lang_str: String,
    pub pc_vinga: bool,
    pub pc_vinga_str: String,
    pub volume: PriceVolume,
    pub volume_str: String,
    pub uah: bool,
    pub nds_orig: bool,
    pub nds: bool,
    pub round: bool,
    pub ean: bool,
    pub api: bool,
}

/// A parameter name with its value, both decoded.
pub struct Pair {
    pub key: Vec<u8>,
    pub value: Vec<u8>,
}

/// A piece of the query string: the name, and the value where the piece holds
/// an equals sign.
pub struct RawPair {
    pub key: Vec<u8>,
    pub value: Option<Vec<u8>>,
}

// ------------------------------------------------------------ byte helpers

/// The position of the first `b` in `s` at or after `from`, or the length of
/// `s` if there is none.
pub open spec fn first_at(s: Seq<u8>, b: u8, from: int) -> int
    decreases s.len() - from,
{
    if from < 0 || from >= s.len() {
        s.len() as int
    } else if s[from] == b {
        from
    } else {
        first_at(s, b, from + 1)
    }
}

fn find_byte(s: &[u8], b: u8, from: usize) -> (at: usize)
    requires
        from <= s@.len(),
    ensures
        at == first_at(s@, b, from as int),
        from <= at <= s@.len(),
{
    let mut i: usize = from;
    while i < s.len()
        invariant
            from <= i <= s@.len(),
            first_at(s@, b, from as int) == first_at(s@, b, i as int),
        decreases s@.len() - i,
    {
        if s[i] == b {
            return i;
        }
        i += 1;
    }
    i
}

// ------------------------------------------------------------ splitting

/// One piece of a query string, split at its first equals sign.
pub open spec fn raw_pair(piece: Seq<u8>) -> (Seq<u8>, Option<Seq<u8>>) {
    let eq = first_at(piece, 61, 0);
    if eq == piece.len() {
        (piece, None)
    } else {
        (piece.subrange(0, eq), Some(piece.subrange(eq + 1, piece.len() as int)))
    }
}

/// The pieces of the query string from `from` on, split at each ampersand.
pub open spec fn raw_pairs_from(q: Seq<u8>, from: int) -> Seq<(Seq<u8>, Option<Seq<u8>>)>
    decreases q.len() - from,
{
    if from < 0 || from > q.len() {
        Seq::empty()
    } else {
        let amp = first_at(q, 38, from);
        let head = seq![raw_pair(q.subrange(from, amp))];
        if amp >= q.len() || amp < from {
            head
        } else {
            head + raw_pairs_from(q, amp + 1)
        }
    }
}

pub open spec fn raw_view(v: Seq<RawPair>) -> Seq<(Seq<u8>, Option<Seq<u8>>)> {
    Seq::new(
        v.len(),
        |i: int|
            (
                v[i].key@,
                match v[i].value {
                    Some(x) => Some(x@),
                    None => None,
                },
            ),
    )
}

/// Splits a query string at each ampersand, and each piece at its first
/// equals sign. An empty query string is one piece with an empty name.
pub fn split_query(query: &[u8]) -> (pairs: Vec<RawPair>)
    ensures
        raw_view(pairs@) == raw_pairs_from(query@, 0),
{
    let mut out: Vec<RawPair> = Vec::new();
    let mut from: usize = 0;
    loop
        invariant_except_break
            raw_view(out@) + raw_pairs_from(query@, from as int) == raw_pairs_from(query@, 0),
        invariant
            from <= query@.len(),
        ensures
            raw_view(out@) == raw_pairs_from(query@, 0),
        decreases query@.len() - from,
    {
        let amp = find_byte(query, 38, from);
        let ghost piece = query@.subrange(from as int, amp as int);
        let piece_v = copy_range(query, from, amp);
        let eq = find_byte(piece_v.as_slice(), 61, 0);
        let pair = if eq == piece_v.len() {
            RawPair { key: piece_v, value: None }
        } else {
            let key = copy_range(piece_v.as_slice(), 0, eq);
            let value = copy_range(piece_v.as_slice(), eq + 1, piece_v.len());
            RawPair { key, value: Some(value) }
        };
        let ghost before = out@;
        out.push(pair);
        proof {
            assert(raw_view(out@) =~= raw_view(before) + seq![raw_pair(piece)]);
        }
        if amp >= query.len() {
            proof {
                assert(raw_pairs_from(query@, from as int) =~= seq![raw_pair(piece)]);
            }
            break;
        }
        proof {
            assert(raw_pairs_from(query@, from as int) =~= seq![raw_pair(piece)]
                + raw_pairs_from(query@, amp + 1));
            assert(raw_view(out@) + raw_pairs_from(query@, amp + 1) =~= raw_view(before)
                + raw_pairs_from(query@, from as int));
        }
        from = amp + 1;
    }
    out
}

// ------------------------------------------------------------ numbers

/// Every byte is a decimal digit.
pub open spec fn all_digits(s: Seq<u8>) -> bool {
    forall|i: int| 0 <= i < s.len() ==> 48 <= #[trigger] s[i] <= 57
}

/// The number that a string of decimal digits denotes.
pub open spec fn digits_value(s: Seq<u8>) -> nat
    decreases s.len(),
{
    if s.len() == 0 {
        0
    } else {
        digits_value(s.drop_last()) * 10 + (s.last() - 48) as nat
    }
}

/// The string without a plus sign at its head.
pub open spec fn unsigned_part(s: Seq<u8>) -> Seq<u8> {
    if s.len() > 0 && s[0] == 43 {
        s.subrange(1, s.len() as int)
    } else {
        s
    }
}

/// The number that `s` denotes: decimal digits, at least one, after an
/// optional plus sign, with a value that a `u32` can hold.
pub open spec fn parsed_u32(s: Seq<u8>) -> Option<u32> {
    let d = unsigned_part(s);
    if d.len() > 0 && all_digits(d) && digits_value(d) <= u32::MAX {
        Some(digits_value(d) as u32)
    } else {
        None
    }
}

proof fn lemma_value_grows(s: Seq<u8>, i: int)
    requires
        all_digits(s),
        0 <= i <= s.len(),
    ensures
        digits_value(s.take(i)) <= digits_value(s),
    decreases s.len(),
{
    if i == s.len() {
        assert(s.take(i) =~= s);
    } else {
        lemma_value_grows(s.drop_last(), i);
        assert(s.drop_last().take(i) =~= s.take(i));
    }
}

/// Reads a `u32` in decimal notation.
pub fn parse_u32(s: &[u8]) -> (r: Option<u32>)
    ensures
        r == parsed_u32(s@),
{
    let start: usize = if s.len() > 0 && s[0] == 43 {
        1
    } else {
        0
    };
    let ghost d = unsigned_part(s@);
    assert(d =~= s@.subrange(start as int, s@.len() as int));
    if start == s.len() {
        return None;
    }
    let mut acc: u64 = 0;
    let mut i: usize = start;
    while i < s.len()
        invariant
            start <= i <= s@.len(),
            d == unsigned_part(s@),
            d.len() > 0,
            d == s@.subrange(start as int, s@.len() as int),
            all_digits(d.take(i - start)),
            acc == digits_value(d.take(i - start)),
            acc <= u32::MAX,
        decreases s@.len() - i,
    {
        let b = s[i];
        assert(d[i - start] == b);
        if b < 48 || b > 57 {
            proof {
                if all_digits(d) {
                    assert(48 <= d[i - start] <= 57);
                }
            }
            return None;
        }
        let next: u64 = acc * 10 + (b - 48) as u64;
        proof {
            assert(d.take(i - start + 1).drop_last() =~= d.take(i - start));
            assert(d.take(i - start + 1).last() == b);
            assert(digits_value(d.take(i - start + 1)) == acc * 10 + (b - 48));
            assert forall|j: int| 0 <= j < i - start + 1 implies 48 <= #[trigger] d.take(
                i - start + 1,
            )[j] <= 57 by {
                if j < i - start {
                    assert(d.take(i - start)[j] == d.take(i - start + 1)[j]);
                }
            }
        }
        if next > 0xFFFF_FFFF {
            proof {
                if all_digits(d) {
                    lemma_value_grows(d, i - start + 1);
                }
            }
            return None;
        }
        acc = next;
        i += 1;
    }
    assert(d.take(i - start) =~= d);
    Some(acc as u32)
}

// ------------------------------------------------------------ lookup

pub open spec fn pairs_view(v: Seq<Pair>) -> Seq<(Seq<u8>, Seq<u8>)> {
    Seq::new(v.len(), |i: int| (v[i].key@, v[i].value@))
}

/// The value of the last pair named `key`.
pub open spec fn lookup(pairs: Seq<(Seq<u8>, Seq<u8>)>, key: Seq<u8>) -> Option<Seq<u8>>
    decreases pairs.len(),
{
    if pairs.len() == 0 {
        None
    } else if pairs.last().0 == key {
        Some(pairs.last().1)
    } else {
        lookup(pairs.drop_last(), key)
    }
}

fn find<'a>(pairs: &'a Vec<Pair>, key: &str) -> (r: Option<&'a Vec<u8>>)
    ensures
        match r {
            Some(v) => lookup(pairs_view(pairs@), utf8(key@)) == Some(v@),
            None => lookup(pairs_view(pairs@), utf8(key@)).is_none(),
        },
{
    let kb = key.as_bytes();
    let mut i: usize = pairs.len();
    let ghost all = pairs_view(pairs@);
    assert(all.take(i as int) =~= all);
    while i > 0
        invariant
            i <= pairs@.len(),
            all == pairs_view(pairs@),
            kb@ == utf8(key@),
            lookup(all, kb@) == lookup(all.take(i as int), kb@),
        decreases i,
    {
        i -= 1;
        assert(all.take(i + 1).last() == all[i as int]);
        assert(all.take(i + 1).drop_last() =~= all.take(i as int));
        if bytes_eq(pairs[i].key.as_slice(), kb) {
            return Some(&pairs[i].value);
        }
    }
    None
}

// ------------------------------------------------------------ outside calls

/// What reading a byte string as text and percent-decoding that text make
/// of it.
pub uninterp spec fn url_decoded(piece: Seq<u8>) -> Seq<u8>;

/// The SHA-512 digest of a byte string in lower-case hexadecimal notation.
pub uninterp spec fn sha512_hex_of(data: Seq<u8>) -> Seq<u8>;

/// Reads a piece of a query string as text with `String::from_utf8_lossy`
/// and percent-decodes it with `urlencoding::decode`; the name
/// `url_decoded` stands for both steps together. The result depends on the
/// piece alone; a piece that does not decode to valid text gives the empty
/// string.
#[verifier::external_body]
fn url_decode(piece: &[u8]) -> (r: Vec<u8>)
    ensures
        r@ == url_decoded(piece@),
{
    let text = String::from_utf8_lossy(piece);
    urlencoding::decode(&text).unwrap_or_default().into_owned().into_bytes()
}

/// Hashes `data` with `digest` of `sha2::Sha512` and writes the digest in
/// lower-case hexadecimal notation. The result depends on the data alone.
#[verifier::external_body]
fn sha512_hex(data: &[u8]) -> (r: Vec<u8>)
    ensures
        r@ == sha512_hex_of(data@),
{
    format!("{:x}", sha2::Sha512::digest(data)).into_bytes()
}

/// The decoded form of each piece; a piece without a value gets the empty one.
pub open spec fn decoded_pairs(raw: Seq<(Seq<u8>, Option<Seq<u8>>)>) -> Seq<(Seq<u8>, Seq<u8>)> {
    Seq::new(
        raw.len(),
        |i: int|
            (
                url_decoded(raw[i].0),
                match raw[i].1 {
                    Some(v) => url_decoded(v),
                    None => Seq::empty(),
                },
            ),
    )
}

// ------------------------------------------------------------ reading

pub open spec fn format_of(v: Seq<u8>) -> Option<Format> {
    if v == utf8("xlsx"@) {
        Some(Format::XLSX)
    } else if v == utf8("xml"@) {
        Some(Format::XML)
    } else if v == utf8("json"@) {
        Some(Format::JSON)
    } else if v == utf8("php"@) {
        Some(Format::PHP)
    } else {
        None
    }
}

pub open spec fn format_text(f: Format) -> Seq<char> {
    match f {
        Format::XLSX => "xlsx"@,
        Format::XML => "xml"@,
        Format::JSON => "json"@,
        Format::PHP => "php"@,
    }
}

pub open spec fn volume_of(v: Seq<u8>) -> Option<PriceVolume> {
    if v == utf8("0"@) {
        Some(PriceVolume::Local)
    } else if v == utf8("1"@) {
        Some(PriceVolume::Full)
    } else if v == utf8("2"@) {
        Some(PriceVolume::Short)
    } else if v == utf8("3"@) {
        Some(PriceVolume::FullUAH)
    } else {
        None
    }
}

pub open spec fn volume_text(v: PriceVolume) -> Seq<char> {
    match v {
        PriceVolume::Local => "0"@,
        PriceVolume::Full => "1"@,
        PriceVolume::Short => "2"@,
        PriceVolume::FullUAH => "3"@,
    }
}

pub open spec fn lang_of(v: Seq<u8>) -> Option<Lang> {
    if v == utf8("ua"@) {
        Some(Lang::UA)
    } else if v == utf8("ru"@) {
        Some(Lang::RU)
    } else {
        None
    }
}

pub open spec fn lang_text(l: Lang) -> Seq<char> {
    match l {
        Lang::UA => "ua"@,
        Lang::RU => "ru"@,
    }
}

pub open spec fn flag_text(b: bool) -> Seq<char> {
    if b {
        "1"@
    } else {
        "0"@
    }
}

/// The value of the parameter `name`.
pub open spec fn value_of(pairs: Seq<(Seq<u8>, Seq<u8>)>, name: &str) -> Option<Seq<u8>> {
    lookup(pairs, utf8(name@))
}

/// The parameter `name` is there and holds `text`.
pub open spec fn holds(pairs: Seq<(Seq<u8>, Seq<u8>)>, name: &str, text: &str) -> bool {
    value_of(pairs, name) == Some(utf8(text@))
}

/// The number in the parameter `name`, where it is there and is a number.
pub open spec fn number_of(pairs: Seq<(Seq<u8>, Seq<u8>)>, name: &str) -> Option<u32> {
    match value_of(pairs, name) {
        Some(v) => parsed_u32(v),
        None => None,
    }
}

/// The code of the first parameter that is missing or malformed, in the
/// order in which they are read; `None` where all are in order.
pub open spec fn read_error(pairs: Seq<(Seq<u8>, Seq<u8>)>) -> Option<u32> {
    if value_of(pairs, "format").is_none() {
        Some(1)
    } else if format_of(value_of(pairs, "format").unwrap()).is_none() {
        Some(2)
    } else if value_of(pairs, "full").is_none() {
        Some(3)
    } else if volume_of(value_of(pairs, "full").unwrap()).is_none() {
        Some(4)
    } else if value_of(pairs, "companyID").is_none() {
        Some(5)
    } else if number_of(pairs, "companyID").is_none() {
        Some(6)
    } else if value_of(pairs, "targetID").is_none() {
        Some(7)
    } else if number_of(pairs, "targetID").is_none() {
        Some(8)
    } else if value_of(pairs, "lang").is_none() {
        Some(9)
    } else if lang_of(value_of(pairs, "lang").unwrap()).is_none() {
        Some(10)
    } else if value_of(pairs, "time").is_none() {
        Some(11)
    } else if number_of(pairs, "time").is_none() {
        Some(12)
    } else if value_of(pairs, "userID").is_none() {
        Some(13)
    } else if number_of(pairs, "userID").is_none() {
        Some(14)
    } else if value_of(pairs, "token").is_none() {
        Some(15)
    } else {
        None
    }
}

/// `p` holds what the parameters say.
pub open spec fn reads_as(pairs: Seq<(Seq<u8>, Seq<u8>)>, p: Param) -> bool {
    &&& Some(p.format) == format_of(value_of(pairs, "format").unwrap())
    &&& p.format_str@ == format_text(p.format)
    &&& Some(p.volume) == volume_of(value_of(pairs, "full").unwrap())
    &&& p.volume_str@ == volume_text(p.volume)
    &&& Some(p.lang) == lang_of(value_of(pairs, "lang").unwrap())
    &&& p.lang_str@ == lang_text(p.lang)
    &&& Some(p.company_id) == number_of(pairs, "companyID")
    &&& Some(p.target_id) == number_of(pairs, "targetID")
    &&& Some(p.user_id) == number_of(pairs, "userID")
    &&& p.uah == holds(pairs, "cur", "uah")
    &&& p.ean == holds(pairs, "ean", "1")
    &&& p.nds == (holds(pairs, "nds", "1") && p.uah)
    &&& p.nds_orig == p.nds
    &&& p.round == (p.nds && p.uah)
    &&& p.pc_vinga == holds(pairs, "pcvinga", "1")
    &&& p.pc_vinga_str@ == flag_text(p.pc_vinga)
    &&& p.api == value_of(pairs, "api").is_some()
}

/// The bytes that the token is the digest of.
pub open spec fn token_input(
    company_id: u32,
    target_id: u32,
    format: Format,
    lang: Lang,
    time: u32,
    salt: Seq<char>,
) -> Seq<u8> {
    digits(company_id as nat) + digits(target_id as nat) + utf8(format_text(format)) + utf8(
        lang_text(lang),
    ) + digits(time as nat) + utf8(salt)
}

/// A request of which everything but the token has been checked.
pub struct Request {
    pub param: Param,
    pub time: u32,
    pub token: Vec<u8>,
}

fn is_text(v: Option<&Vec<u8>>, text: &str) -> (r: bool)
    ensures
        r == match v {
            Some(x) => x@ == utf8(text@),
            None => false,
        },
{
    match v {
        Some(x) => bytes_eq(x.as_slice(), text.as_bytes()),
        None => false,
    }
}

fn read_format(pairs: &Vec<Pair>) -> (r: Result<(Format, String), u32>)
    ensures
        match r {
            Ok(f) => {
                &&& value_of(pairs_view(pairs@), "format").is_some()
                &&& format_of(value_of(pairs_view(pairs@), "format").unwrap()) == Some(f.0)
                &&& f.1@ == format_text(f.0)
            },
            Err(code) => if value_of(pairs_view(pairs@), "format").is_none() {
                code == 1
            } else {
                code == 2 && format_of(value_of(pairs_view(pairs@), "format").unwrap()).is_none()
            },
        },
{
    let v = match find(pairs, "format") {
        Some(v) => v,
        None => return Err(1),
    };
    if bytes_eq(v.as_slice(), "xlsx".as_bytes()) {
        Ok((Format::XLSX, "xlsx".to_owned()))
    } else if bytes_eq(v.as_slice(), "xml".as_bytes()) {
        Ok((Format::XML, "xml".to_owned()))
    } else if bytes_eq(v.as_slice(), "json".as_bytes()) {
        Ok((Format::JSON, "json".to_owned()))
    } else if bytes_eq(v.as_slice(), "php".as_bytes()) {
        Ok((Format::PHP, "php".to_owned()))
    } else {
        Err(2)
    }
}

fn read_volume(pairs: &Vec<Pair>) -> (r: Result<(PriceVolume, String), u32>)
    ensures
        match r {
            Ok(f) => {
                &&& value_of(pairs_view(pairs@), "full").is_some()
                &&& volume_of(value_of(pairs_view(pairs@), "full").unwrap()) == Some(f.0)
                &&& f.1@ == volume_text(f.0)
            },
            Err(code) => if value_of(pairs_view(pairs@), "full").is_none() {
                code == 3
            } else {
                code == 4 && volume_of(value_of(pairs_view(pairs@), "full").unwrap()).is_none()
            },
        },
{
    let v = match find(pairs, "full") {
        Some(v) => v,
        None => return Err(3),
    };
    if bytes_eq(v.as_slice(), "0".as_bytes()) {
        Ok((PriceVolume::Local, "0".to_owned()))
    } else if bytes_eq(v.as_slice(), "1".as_bytes()) {
        Ok((PriceVolume::Full, "1".to_owned()))
    } else if bytes_eq(v.as_slice(), "2".as_bytes()) {
        Ok((PriceVolume::Short, "2".to_owned()))
    } else if bytes_eq(v.as_slice(), "3".as_bytes()) {
        Ok((PriceVolume::FullUAH, "3".to_owned()))
    } else {
        Err(4)
    }
}

fn read_lang(pairs: &Vec<Pair>) -> (r: Result<(Lang, String), u32>)
    ensures
        match r {
            Ok(f) => {
                &&& value_of(pairs_view(pairs@), "lang").is_some()
                &&& lang_of(value_of(pairs_view(pairs@), "lang").unwrap()) == Some(f.0)
                &&& f.1@ == lang_text(f.0)
            },
            Err(code) => if value_of(pairs_view(pairs@), "lang").is_none() {
                code == 9
            } else {
                code == 10 && lang_of(value_of(pairs_view(pairs@), "lang").unwrap()).is_none()
            },
        },
{
    let v = match find(pairs, "lang") {
        Some(v) => v,
        None => return Err(9),
    };
    if bytes_eq(v.as_slice(), "ua".as_bytes()) {
        Ok((Lang::UA, "ua".to_owned()))
    } else if bytes_eq(v.as_slice(), "ru".as_bytes()) {
        Ok((Lang::RU, "ru".to_owned()))
    } else {
        Err(10)
    }
}

fn read_number(pairs: &Vec<Pair>, name: &str, missing: u32, malformed: u32) -> (r: Result<
    u32,
    u32,
>)
    ensures
        match r {
            Ok(n) => value_of(pairs_view(pairs@), name).is_some() && number_of(
                pairs_view(pairs@),
                name,
            ) == Some(n),
            Err(code) => if value_of(pairs_view(pairs@), name).is_none() {
                code == missing
            } else {
                code == malformed && number_of(pairs_view(pairs@), name).is_none()
            },
        },
{
    match find(pairs, name) {
        Some(v) => match parse_u32(v.as_slice()) {
            Some(n) => Ok(n),
            None => Err(malformed),
        },
        None => Err(missing),
    }
}

impl Param {
    /// The decoded parameters of a query string, in the order of the string.
    pub fn get_price_param(query: &[u8]) -> (pairs: Vec<Pair>)
        ensures
            pairs_view(pairs@) == decoded_pairs(raw_pairs_from(query@, 0)),
    {
        let raw = split_query(query);
        let mut out: Vec<Pair> = Vec::new();
        let mut i: usize = 0;
        while i < raw.len()
            invariant
                i <= raw@.len(),
                out@.len() == i,
                forall|j: int|
                    0 <= j < i ==> (#[trigger] pairs_view(out@)[j]) == decoded_pairs(
                        raw_view(raw@),
                    )[j],
            decreases raw@.len() - i,
        {
            let key = url_decode(raw[i].key.as_slice());
            let value = match &raw[i].value {
                Some(v) => url_decode(v.as_slice()),
                None => Vec::new(),
            };
            let ghost before = out@;
            out.push(Pair { key, value });
            proof {
                assert forall|j: int| 0 <= j < i + 1 implies (#[trigger] pairs_view(out@)[j])
                    == decoded_pairs(raw_view(raw@))[j] by {
                    if j < i {
                        assert(pairs_view(before)[j] == decoded_pairs(raw_view(raw@))[j]);
                    } else {
                        assert(out@[j].value@ =~= decoded_pairs(raw_view(raw@))[j].1);
                    }
                }
            }
            i += 1;
        }
        assert(pairs_view(out@) =~= decoded_pairs(raw_view(raw@)));
        out
    }

    /// Reads the parameters. The error is the code of the first one that is
    /// missing or malformed.
    pub fn read(pairs: &Vec<Pair>) -> (r: Result<Request, u32>)
        ensures
            match r {
                Ok(q) => {
                    &&& read_error(pairs_view(pairs@)).is_none()
                    &&& reads_as(pairs_view(pairs@), q.param)
                    &&& Some(q.time) == number_of(pairs_view(pairs@), "time")
                    &&& Some(q.token@) == value_of(pairs_view(pairs@), "token")
                },
                Err(code) => read_error(pairs_view(pairs@)) == Some(code),
            },
    {
        let (format, format_str) = match read_format(pairs) {
            Ok(f) => f,
            Err(code) => return Err(code),
        };
        let (volume, volume_str) = match read_volume(pairs) {
            Ok(v) => v,
            Err(code) => return Err(code),
        };
        let uah = is_text(find(pairs, "cur"), "uah");
        let ean = is_text(find(pairs, "ean"), "1");
        let nds = is_text(find(pairs, "nds"), "1") && uah;
        let company_id: u32 = match read_number(pairs, "companyID", 5, 6) {
            Ok(n) => n,
            Err(code) => return Err(code),
        };
        let target_id: u32 = match read_number(pairs, "targetID", 7, 8) {
            Ok(n) => n,
            Err(code) => return Err(code),
        };
        let (lang, lang_str) = match read_lang(pairs) {
            Ok(l) => l,
            Err(code) => return Err(code),
        };
        let time: u32 = match read_number(pairs, "time", 11, 12) {
            Ok(n) => n,
            Err(code) => return Err(code),
        };
        let user_id: u32 = match read_number(pairs, "userID", 13, 14) {
            Ok(n) => n,
            Err(code) => return Err(code),
        };
        let pc_vinga = is_text(find(pairs, "pcvinga"), "1");
        let pc_vinga_str = if pc_vinga {
            "1".to_owned()
        } else {
            "0".to_owned()
        };
        let api = find(pairs, "api").is_some();
        let token = match find(pairs, "token") {
            Some(v) => v.clone(),
            None => return Err(15),
        };
        Ok(
            Request {
                param: Param {
                    user_id,
                    company_id,
                    target_id,
                    format_str,
                    format,
                    lang,
                    lang_str,
                    pc_vinga,
                    pc_vinga_str,
                    volume,
                    volume_str,
                    uah,
                    nds_orig: nds,
                    nds,
                    round: nds && uah,
                    ean,
                    api,
                },
                time,
                token,
            },
        )
    }

    /// Whether the received token is the expected one, byte for byte.
    pub fn verify(expected: &[u8], token: &[u8]) -> (ok: bool)
        ensures
            ok == (token@ == expected@),
    {
        bytes_eq(token, expected)
    }

    /// Accepts a request that has been read if its token is `expected`;
    /// otherwise the error is 16.
    pub fn accept(request: Request, expected: &[u8]) -> (r: Result<Param, u32>)
        ensures
            match r {
                Ok(p) => request.token@ == expected@ && p == request.param,
                Err(code) => request.token@ != expected@ && code == 16,
            },
    {
        if Param::verify(expected, request.token.as_slice()) {
            Ok(request.param)
        } else {
            Err(16)
        }
    }

    /// Reads and validates the parameters of a query string; `salt` is the
    /// secret of the service. The error is the code of the first parameter
    /// that is missing or malformed, or 16 where the token is not the digest
    /// of company, target, format, language, time and salt.
    pub fn new(query: &[u8], salt: &str) -> (r: Result<Param, u32>)
        ensures
            ({
                let pairs = decoded_pairs(raw_pairs_from(query@, 0));
                match r {
                    Ok(p) => {
                        &&& read_error(pairs).is_none()
                        &&& reads_as(pairs, p)
                        &&& value_of(pairs, "token") == Some(
                            sha512_hex_of(
                                token_input(
                                    p.company_id,
                                    p.target_id,
                                    p.format,
                                    p.lang,
                                    number_of(pairs, "time").unwrap(),
                                    salt@,
                                ),
                            ),
                        )
                    },
                    Err(code) => if read_error(pairs).is_some() {
                        read_error(pairs) == Some(code)
                    } else {
                        &&& code == 16
                        &&& value_of(pairs, "token") != Some(
                            sha512_hex_of(
                                token_input(
                                    number_of(pairs, "companyID").unwrap(),
                                    number_of(pairs, "targetID").unwrap(),
                                    format_of(value_of(pairs, "format").unwrap()).unwrap(),
                                    lang_of(value_of(pairs, "lang").unwrap()).unwrap(),
                                    number_of(pairs, "time").unwrap(),
                                    salt@,
                                ),
                            ),
                        )
                    },
                }
            }),
    {
        let pairs = Param::get_price_param(query);
        let request = match Param::read(&pairs) {
            Ok(q) => q,
            Err(code) => return Err(code),
        };
        let mut input: Vec<u8> = Vec::new();
        push_decimal(&mut input, request.param.company_id as u128);
        push_decimal(&mut input, request.param.target_id as u128);
        push_str(&mut input, request.param.format_str.as_str());
        push_str(&mut input, request.param.lang_str.as_str());
        push_decimal(&mut input, request.time as u128);
        push_str(&mut input, salt);
        let expected = sha512_hex(input.as_slice());
        Param::accept(request, expected.as_slice())
    }
}

} // verus!
