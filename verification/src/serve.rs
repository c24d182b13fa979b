//! What surrounds the making of a file: the query for the prices, the name
//! of the file, the choice among the files that are already there, and the
//! answer to the web server.

use crate::log::{client_page, Log};
use crate::param::{parse_u32, parsed_u32, Format, Param};
use crate::price::{Access, Price};
use crate::text::{
    append_decimal, copy_range, decimal_chars, digits, push_decimal, push_str, utf8,
};
use vstd::prelude::*;
use vstd::string::*;

verus! {

// ------------------------------------------------------------ the query

/// The ids, separated by commas.
pub open spec fn id_list(ids: Seq<u32>) -> Seq<char>
    decreases ids.len(),
{
    if ids.len() == 0 {
        Seq::empty()
    } else if ids.len() == 1 {
        decimal_chars(ids[0] as nat)
    } else {
        id_list(ids.drop_last()) + ","@ + decimal_chars(ids.last() as nat)
    }
}

/// The column of a price that only some users may see, or a zero.
pub open spec fn gated(allowed: bool, column: Seq<char>) -> Seq<char> {
    if allowed {
        column
    } else {
        "0"@
    }
}

/// The query for the prices of the products `ids`, as the company
/// `company_id` with the price profile and capabilities of `access` sees
/// them.
pub open spec fn query_text(access: Access, company_id: u32, ids: Seq<u32>) -> Seq<char> {
    SQL0@ + gated(access.rozn, "p.RetailPrice"@) + SQL1@ + gated(access.r3, "p.Price3"@) + SQL2@
        + decimal_chars(access.profile_id as nat) + SQL3@ + decimal_chars(company_id as nat)
        + SQL4@ + id_list(ids) + SQL5@
}

pub const SQL0: &'static str = "\n            SELECT\n                p.productID,\n                CAST(\n                    CASE i.PriceUSD\n                        WHEN 'price' THEN p.Price\n                        WHEN 'price2' THEN p.Price2\n                        WHEN 'price3' THEN p.Price3\n                        WHEN 'price4' THEN p.Price4\n                        WHEN 'price5' THEN p.Price5\n                        WHEN 'price6' THEN p.Price6\n                        WHEN 'price7' THEN p.Price7\n                        ELSE p.Price\n                    END * CASE WHEN IFNULL(vd.value,0) <> 0 THEN (100-vd.value)/100 ELSE 1 END AS DECIMAL(10,2)\n                ) AS PriceUSD, p.iprice AS Price_ind, p.PriceR AS RecommendedPrice,\n                ";

pub const SQL1: &'static str = " AS RetailPrice, ";

pub const SQL2: &'static str = " AS InternetPrice\n            FROM\n                SC_products p\n                LEFT JOIN (\n                    SELECT ProductGroupId, GROUP_CONCAT(IF(ProfilesID = ";

pub const SQL3: &'static str = ", fieldprice, null)) AS PriceUSD\n                    FROM Profiles_Price\n                    GROUP BY ProductGroupId\n                ) i ON p.ProductGroupID = i.ProductGroupId\n                LEFT JOIN companies cd ON cd.CompanyID=";

pub const SQL4: &'static str = "\n                LEFT JOIN discount_value vd ON vd.DiscountID=cd.DiscountID AND p.ProductGroupID=vd.ProductGroupID\n            WHERE p.productID IN (";

pub const SQL5: &'static str = ")\n        ";

// ------------------------------------------------------------ file names

/// What all files of a request's kind begin with.
pub open spec fn name_stem(dir: Seq<char>, p: Param) -> Seq<char> {
    dir + "/cache/price_"@ + decimal_chars(p.company_id as nat) + "_"@ + decimal_chars(
        p.user_id as nat,
    ) + "_"@ + decimal_chars(p.target_id as nat) + "_"@ + p.lang_str@ + "_"@ + p.volume_str@
        + "_"@ + p.pc_vinga_str@ + "_"@
}

/// The name of the file that a request made at `stamp` writes.
pub open spec fn file_name(dir: Seq<char>, p: Param, stamp: Seq<char>) -> Seq<char> {
    name_stem(dir, p) + stamp + "."@ + p.format_str@
}

/// The seconds for which a file is served again.
pub const FRESH_SECONDS: i64 = 1800;

/// A file written at `stamp` is still served at `now`.
pub open spec fn fresh(stamp: Option<i64>, now: i64) -> bool {
    match stamp {
        Some(t) => t + FRESH_SECONDS >= now,
        None => false,
    }
}

/// The place of the first fresh file among the first `n`, if there is one.
pub open spec fn first_fresh(stamps: Seq<Option<i64>>, now: i64, n: int) -> Option<int>
    decreases n,
{
    if n <= 0 || n > stamps.len() {
        None
    } else {
        match first_fresh(stamps, now, n - 1) {
            Some(i) => Some(i),
            None => if fresh(stamps[n - 1], now) {
                Some(n - 1)
            } else {
                None
            },
        }
    }
}

/// The places of the first `n` files but the one that is kept, in their
/// order: the files that are to be removed.
pub open spec fn others(n: int, keep: Option<int>) -> Seq<int>
    decreases n,
{
    if n <= 0 {
        Seq::empty()
    } else if keep == Some(n - 1) {
        others(n - 1, keep)
    } else {
        others(n - 1, keep).push(n - 1)
    }
}

/// The part of a file's name that holds the moment of its writing: the
/// fifteen bytes after the seventh underscore, where the name has them.
pub open spec fn stamp_part(name: Seq<u8>) -> Option<Seq<u8>> {
    let at = after_underscores(name, 0, 7);
    if at >= 0 && at + 15 <= name.len() {
        Some(name.subrange(at, at + 15))
    } else {
        None
    }
}

/// The place after the `n`-th underscore at or after `from`, or -1.
pub open spec fn after_underscores(name: Seq<u8>, from: int, n: nat) -> int
    decreases n, name.len() - from,
{
    if n == 0 {
        from
    } else if from < 0 || from >= name.len() {
        -1
    } else if name[from] == 95 {
        after_underscores(name, from + 1, (n - 1) as nat)
    } else {
        after_underscores(name, from + 1, n)
    }
}

/// A moment as a file's name writes it.
#[derive(Debug, Clone, Copy, PartialEq, Eq, Structural)]
pub struct Moment {
    pub year: u32,
    pub month: u32,
    pub day: u32,
    pub hour: u32,
    pub minute: u32,
    pub second: u32,
}

/// The number that the bytes from `from` up to `to` write in decimal digits,
/// without a sign.
pub open spec fn field(s: Seq<u8>, from: int, to: int) -> Option<u32> {
    if 0 <= from < to <= s.len() && s[from] != 43 {
        parsed_u32(s.subrange(from, to))
    } else {
        None
    }
}

/// The moment that a stamp of the form `YYYYMMDD_HHMMSS` writes, or `None`
/// where the stamp has another form. Whether there is such a day and such a
/// time is not asked here.
pub open spec fn moment_of(s: Seq<u8>) -> Option<Moment> {
    if s.len() == 15 && s[8] == 95 && field(s, 0, 4).is_some() && field(s, 4, 6).is_some()
        && field(s, 6, 8).is_some() && field(s, 9, 11).is_some() && field(s, 11, 13).is_some()
        && field(s, 13, 15).is_some() {
        Some(
            Moment {
                year: field(s, 0, 4).unwrap(),
                month: field(s, 4, 6).unwrap(),
                day: field(s, 6, 8).unwrap(),
                hour: field(s, 9, 11).unwrap(),
                minute: field(s, 11, 13).unwrap(),
                second: field(s, 13, 15).unwrap(),
            },
        )
    } else {
        None
    }
}

fn read_field(s: &[u8], from: usize, to: usize) -> (r: Option<u32>)
    requires
        from < to <= s@.len(),
    ensures
        r == field(s@, from as int, to as int),
{
    if s[from] == 43 {
        return None;
    }
    let part = copy_range(s, from, to);
    parse_u32(part.as_slice())
}

// ------------------------------------------------------------ the answer

/// The line that names the type of a file.
pub open spec fn content_type(format: Format) -> Seq<char> {
    match format {
        Format::XLSX =>
            "Content-Type: application/vnd.openxmlformats-officedocument.spreadsheetml.sheet\r\n"@,
        Format::XML => "Content-Type: application/xml\r\n"@,
        Format::JSON => "Content-Type: application/json\r\n"@,
        Format::PHP => "Content-Type: application/vnd.php.serialized\r\n"@,
    }
}

/// The answer that carries a file: its type, its name, its length in bytes
/// and the file itself.
pub open spec fn answer_ok(format: Format, name: Seq<char>, body: Seq<u8>) -> Seq<u8> {
    utf8("HTTP/1.1 200 OK\r\n"@) + utf8(content_type(format)) + utf8(
        "Content-Disposition: attachment; filename=\""@,
    ) + utf8(name) + utf8("\"\r\n"@) + utf8("Content-Length: "@) + digits(body.len()) + utf8(
        "\r\n\r\n"@,
    ) + body
}

/// The answer that carries the page of an error, with its length in bytes.
pub open spec fn answer_error(page: Seq<char>) -> Seq<u8> {
    utf8(
        "HTTP/1.1 401 Unauthorized\r\nContent-Type: text/html; charset=utf-8\r\nContent-Length: "@,
    ) + digits(utf8(page).len()) + utf8("\r\n\r\n"@) + utf8(page)
}

impl Price {
    /// The query for the prices of the items.
    pub fn query(access: &Access, company_id: u32, ids: &Vec<u32>) -> (sql: String)
        ensures
            sql@ == query_text(*access, company_id, ids@),
    {
        let mut list = String::new();
        let mut i: usize = 0;
        assert(ids@.take(0) =~= Seq::<u32>::empty());
        while i < ids.len()
            invariant
                i <= ids@.len(),
                list@ == id_list(ids@.take(i as int)),
            decreases ids@.len() - i,
        {
            proof {
                assert(ids@.take(i + 1).drop_last() =~= ids@.take(i as int));
                assert(ids@.take(i + 1).last() == ids@[i as int]);
                assert(ids@.take(i + 1)[0] == ids@[0]);
            }
            if i > 0 {
                list.append(",");
            }
            append_decimal(&mut list, ids[i]);
            assert(list@ =~= id_list(ids@.take(i + 1)));
            i += 1;
        }
        assert(ids@.take(ids@.len() as int) =~= ids@);
        let mut sql = SQL0.to_owned();
        sql.append(if access.rozn {
            "p.RetailPrice"
        } else {
            "0"
        });
        sql.append(SQL1);
        sql.append(if access.r3 {
            "p.Price3"
        } else {
            "0"
        });
        sql.append(SQL2);
        append_decimal(&mut sql, access.profile_id);
        sql.append(SQL3);
        append_decimal(&mut sql, company_id);
        sql.append(SQL4);
        sql.append(list.as_str());
        sql.append(SQL5);
        assert(sql@ =~= query_text(*access, company_id, ids@));
        sql
    }

    fn stem(dir: &str, param: &Param) -> (s: String)
        ensures
            s@ == name_stem(dir@, *param),
    {
        let mut s = dir.to_owned();
        s.append("/cache/price_");
        append_decimal(&mut s, param.company_id);
        s.append("_");
        append_decimal(&mut s, param.user_id);
        s.append("_");
        append_decimal(&mut s, param.target_id);
        s.append("_");
        s.append(param.lang_str.as_str());
        s.append("_");
        s.append(param.volume_str.as_str());
        s.append("_");
        s.append(param.pc_vinga_str.as_str());
        s.append("_");
        assert(s@ =~= name_stem(dir@, *param));
        s
    }

    /// The pattern that the files of a request's kind match, whenever they
    /// were written.
    pub fn file_pattern(dir: &str, param: &Param) -> (s: String)
        ensures
            s@ == file_name(dir@, *param, "*"@),
    {
        let mut s = Price::stem(dir, param);
        s.append("*");
        s.append(".");
        s.append(param.format_str.as_str());
        assert(s@ =~= file_name(dir@, *param, "*"@));
        s
    }

    /// The name of the file that a request made at `stamp` writes.
    pub fn get_file_name(dir: &str, param: &Param, stamp: &str) -> (s: String)
        ensures
            s@ == file_name(dir@, *param, stamp@),
    {
        let mut s = Price::stem(dir, param);
        s.append(stamp);
        s.append(".");
        s.append(param.format_str.as_str());
        assert(s@ =~= file_name(dir@, *param, stamp@));
        s
    }

    /// The part of a file's name, taken without the directory before it,
    /// that holds the moment of its writing.
    pub fn stamp_of(name: &[u8]) -> (r: Option<Vec<u8>>)
        ensures
            match r {
                Some(v) => stamp_part(name@) == Some(v@),
                None => stamp_part(name@).is_none(),
            },
    {
        let mut i: usize = 0;
        let mut left: usize = 7;
        while left > 0 && i < name.len()
            invariant
                i <= name@.len(),
                left <= 7,
                after_underscores(name@, 0, 7) == after_underscores(name@, i as int, left as nat),
            decreases name@.len() - i,
        {
            if name[i] == 95 {
                left -= 1;
            }
            i += 1;
        }
        if left > 0 {
            return None;
        }
        if name.len() - i < 15 {
            return None;
        }
        let mut v: Vec<u8> = Vec::new();
        let mut j: usize = 0;
        let n: usize = name.len();
        while j < 15
            invariant
                j <= 15,
                n == name@.len(),
                i + 15 <= n,
                v@ == name@.subrange(i as int, i + j),
            decreases 15 - j,
        {
            v.push(name[i + j]);
            assert(v@ =~= name@.subrange(i as int, i + j + 1));
            j += 1;
        }
        Some(v)
    }

    /// Reads the moment that a stamp writes.
    pub fn moment(stamp: &[u8]) -> (r: Option<Moment>)
        ensures
            r == moment_of(stamp@),
    {
        if stamp.len() != 15 || stamp[8] != 95 {
            return None;
        }
        let year = match read_field(stamp, 0, 4) {
            Some(n) => n,
            None => return None,
        };
        let month = match read_field(stamp, 4, 6) {
            Some(n) => n,
            None => return None,
        };
        let day = match read_field(stamp, 6, 8) {
            Some(n) => n,
            None => return None,
        };
        let hour = match read_field(stamp, 9, 11) {
            Some(n) => n,
            None => return None,
        };
        let minute = match read_field(stamp, 11, 13) {
            Some(n) => n,
            None => return None,
        };
        let second = match read_field(stamp, 13, 15) {
            Some(n) => n,
            None => return None,
        };
        Some(Moment { year, month, day, hour, minute, second })
    }

    /// Chooses among the files that are there, given the moment at which
    /// each was written, in seconds, or `None` where its name does not tell:
    /// the first one that is no older than half an hour is served; all
    /// others are to be removed.
    pub fn choose_file(stamps: &Vec<Option<i64>>, now: i64) -> (keep: Option<usize>)
        ensures
            match keep {
                Some(i) => first_fresh(stamps@, now, stamps@.len() as int) == Some(i as int),
                None => first_fresh(stamps@, now, stamps@.len() as int).is_none(),
            },
    {
        let mut i: usize = 0;
        while i < stamps.len()
            invariant
                i <= stamps@.len(),
                first_fresh(stamps@, now, i as int).is_none(),
            decreases stamps@.len() - i,
        {
            let is_fresh = match stamps[i] {
                Some(t) => (t as i128) + 1800 >= (now as i128),
                None => false,
            };
            if is_fresh {
                proof {
                    lemma_first_fresh_stays(stamps@, now, i as int, stamps@.len() as int);
                }
                return Some(i);
            }
            i += 1;
        }
        None
    }

    /// The places of the files that are to be removed: all of the `count`
    /// files but the one that is kept, in their order.
    pub fn files_to_remove(count: usize, keep: Option<usize>) -> (r: Vec<usize>)
        ensures
            r@.len() == others(
                count as int,
                match keep {
                    Some(k) => Some(k as int),
                    None => None,
                },
            ).len(),
            forall|i: int|
                0 <= i < r@.len() ==> #[trigger] r@[i] as int == others(
                    count as int,
                    match keep {
                        Some(k) => Some(k as int),
                        None => None,
                    },
                )[i],
    {
        let ghost kept: Option<int> = match keep {
            Some(k) => Some(k as int),
            None => None,
        };
        let mut out: Vec<usize> = Vec::new();
        let mut i: usize = 0;
        while i < count
            invariant
                i <= count,
                kept == match keep {
                    Some(k) => Some(k as int),
                    None => None::<int>,
                },
                out@.len() == others(i as int, kept).len(),
                forall|j: int| 0 <= j < out@.len() ==> #[trigger] out@[j] as int == others(
                    i as int,
                    kept,
                )[j],
            decreases count - i,
        {
            let is_kept = match keep {
                Some(k) => k == i,
                None => false,
            };
            if !is_kept {
                out.push(i);
            }
            i += 1;
        }
        out
    }

    /// The answer to a request: the file with its headers, or the page of
    /// the error with the given code.
    pub fn calc(outcome: &Result<Vec<u8>, u32>, format: Format, name: &str, log: &Log) -> (r: Vec<
        u8,
    >)
        ensures
            r@ == match outcome {
                Ok(body) => answer_ok(format, name@, body@),
                Err(code) => answer_error(client_page(*code)),
            },
    {
        let mut out: Vec<u8> = Vec::new();
        match outcome {
            Ok(body) => {
                push_str(&mut out, "HTTP/1.1 200 OK\r\n");
                push_str(
                    &mut out,
                    match format {
                        Format::XLSX =>
                            "Content-Type: application/vnd.openxmlformats-officedocument.spreadsheetml.sheet\r\n",
                        Format::XML => "Content-Type: application/xml\r\n",
                        Format::JSON => "Content-Type: application/json\r\n",
                        Format::PHP => "Content-Type: application/vnd.php.serialized\r\n",
                    },
                );
                push_str(&mut out, "Content-Disposition: attachment; filename=\"");
                push_str(&mut out, name);
                push_str(&mut out, "\"\r\n");
                push_str(&mut out, "Content-Length: ");
                push_decimal(&mut out, body.len() as u128);
                push_str(&mut out, "\r\n\r\n");
                out.extend_from_slice(body.as_slice());
                assert(out@ =~= answer_ok(format, name@, body@));
            },
            Err(code) => {
                let page = log.client_err(*code);
                let bytes = page.as_str().as_bytes();
                push_str(
                    &mut out,
                    "HTTP/1.1 401 Unauthorized\r\nContent-Type: text/html; charset=utf-8\r\nContent-Length: ",
                );
                push_decimal(&mut out, bytes.len() as u128);
                push_str(&mut out, "\r\n\r\n");
                push_str(&mut out, page.as_str());
                assert(out@ =~= answer_error(client_page(*code)));
            },
        }
        out
    }
}

/// The answer that carries a file ends with the file itself, and before it
/// stands the line that names its length in bytes.
pub proof fn lemma_answer_names_the_length(format: Format, name: Seq<char>, body: Seq<u8>)
    ensures
        ({
            let answer = answer_ok(format, name, body);
            let tail = utf8("Content-Length: "@) + digits(body.len()) + utf8("\r\n\r\n"@) + body;
            &&& answer.len() >= tail.len()
            &&& answer.subrange(answer.len() - tail.len(), answer.len() as int) == tail
            &&& answer.subrange(answer.len() - body.len(), answer.len() as int) == body
        }),
{
    let answer = answer_ok(format, name, body);
    let tail = utf8("Content-Length: "@) + digits(body.len()) + utf8("\r\n\r\n"@) + body;
    let head = utf8("HTTP/1.1 200 OK\r\n"@) + utf8(content_type(format)) + utf8(
        "Content-Disposition: attachment; filename=\""@,
    ) + utf8(name) + utf8("\"\r\n"@);
    assert(answer =~= head + tail);
    assert(answer.subrange(answer.len() - tail.len(), answer.len() as int) =~= tail);
    assert(answer.subrange(answer.len() - body.len(), answer.len() as int) =~= body);
}

/// Where one file is there and it is still fresh, that file is served and
/// none is removed.
pub proof fn lemma_single_fresh_file_is_kept(stamp: Option<i64>, now: i64)
    requires
        fresh(stamp, now),
    ensures
        first_fresh(seq![stamp], now, 1) == Some(0int),
        others(1, first_fresh(seq![stamp], now, 1)) == Seq::<int>::empty(),
{
    assert(first_fresh(seq![stamp], now, 0).is_none());
    assert(others(0, Some(0int)) =~= Seq::<int>::empty());
}

/// The file that is kept is not among those that are removed, and every
/// other file is.
pub proof fn lemma_others_are_all_but_one(n: int, keep: Option<int>, i: int)
    requires
        0 <= i < n,
    ensures
        others(n, keep).contains(i) <==> keep != Some(i),
    decreases n,
{
    if n > 0 {
        let before = others(n - 1, keep);
        let all = others(n, keep);
        if i < n - 1 {
            lemma_others_are_all_but_one(n - 1, keep, i);
        }
        lemma_others_below(n - 1, keep, n - 1);
        if keep == Some(n - 1) {
            assert(all == before);
        } else {
            assert(all == before.push(n - 1));
            assert(all[all.len() - 1] == n - 1);
            if before.contains(i) {
                let j = choose|j: int| 0 <= j < before.len() && before[j] == i;
                assert(all[j] == i);
            }
            if all.contains(i) && i < n - 1 {
                let j = choose|j: int| 0 <= j < all.len() && all[j] == i;
                assert(before[j] == i);
            }
        }
    }
}

proof fn lemma_others_below(n: int, keep: Option<int>, i: int)
    requires
        i >= n,
    ensures
        !others(n, keep).contains(i),
    decreases n,
{
    if n > 0 {
        lemma_others_below(n - 1, keep, i);
        let before = others(n - 1, keep);
        let all = others(n, keep);
        if all.contains(i) {
            let j = choose|j: int| 0 <= j < all.len() && all[j] == i;
            if keep != Some(n - 1) && j < before.len() {
                assert(before[j] == i);
            }
            if keep == Some(n - 1) {
                assert(before[j] == i);
            }
        }
    }
}

/// Where a file that is there is still fresh, a file is served: the first
/// fresh one. So a request that follows another of its kind within half an
/// hour is answered with a file that is already there.
pub proof fn lemma_fresh_file_is_served(stamps: Seq<Option<i64>>, now: i64, i: int)
    requires
        0 <= i < stamps.len(),
        fresh(stamps[i], now),
    ensures
        first_fresh(stamps, now, stamps.len() as int) matches Some(j) && 0 <= j <= i && fresh(
            stamps[j],
            now,
        ),
{
    lemma_fresh_in_prefix(stamps, now, i, i + 1);
    let j = first_fresh(stamps, now, i + 1)->Some_0;
    lemma_first_fresh_at(stamps, now, i + 1);
    lemma_first_fresh_stays(stamps, now, j, stamps.len() as int);
}

proof fn lemma_fresh_in_prefix(stamps: Seq<Option<i64>>, now: i64, i: int, n: int)
    requires
        0 <= i < n <= stamps.len(),
        fresh(stamps[i], now),
    ensures
        first_fresh(stamps, now, n).is_some(),
    decreases n - i,
{
    if n > i + 1 {
        lemma_fresh_in_prefix(stamps, now, i, n - 1);
    }
}

proof fn lemma_first_fresh_at(stamps: Seq<Option<i64>>, now: i64, n: int)
    requires
        0 <= n <= stamps.len(),
    ensures
        match first_fresh(stamps, now, n) {
            Some(j) => 0 <= j < n && fresh(stamps[j], now) && first_fresh(stamps, now, j).is_none(),
            None => true,
        },
    decreases n,
{
    if n > 0 {
        lemma_first_fresh_at(stamps, now, n - 1);
    }
}

/// The first fresh file among the first `i + 1` is the first among any more.
pub proof fn lemma_first_fresh_stays(stamps: Seq<Option<i64>>, now: i64, i: int, n: int)
    requires
        0 <= i < n <= stamps.len(),
        first_fresh(stamps, now, i).is_none(),
        fresh(stamps[i], now),
    ensures
        first_fresh(stamps, now, n) == Some(i),
    decreases n - i,
{
    if n > i + 1 {
        lemma_first_fresh_stays(stamps, now, i, n - 1);
    }
}

} // verus!
