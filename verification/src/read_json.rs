//! Reading a written JSON file back: a reader that goes through the bytes
//! from the left gets the items and the values of their columns as they
//! were written.

use crate::format_json::{
    json_escaped, json_field, json_fields, json_file, json_item, json_items, json_string_end,
    json_unescaped, json_value, lemma_json_string_ends,
};
use crate::price::PriceItem;
use crate::show::{column_value, ItemShow, Value};
use crate::text::{digits, lemma_digits_read_back, money_digits, utf8};
use vstd::prelude::*;

verus! {

/// A value as a reader sees it: the bytes of a text, or a number as it is
/// written.
pub enum JsonValue {
    Text(Seq<u8>),
    Number(Seq<u8>),
}

/// What a reader is to see of a value: the bytes of a text, an amount with
/// two fractional digits, an index as a whole number.
pub open spec fn seen_value(v: Value) -> JsonValue {
    match v {
        Value::Text(t) => JsonValue::Text(utf8(t)),
        Value::Money(m) => JsonValue::Number(money_digits(m.units as int)),
        Value::Index(n) => JsonValue::Number(digits(n as nat)),
    }
}

/// A byte of a number: a decimal digit or the point.
pub open spec fn number_byte(b: u8) -> bool {
    (48 <= b && b <= 57) || b == 46
}

/// The place behind the number that begins at `at`.
pub open spec fn number_end(e: Seq<u8>, at: int) -> int
    decreases e.len() - at,
{
    if at < 0 || at >= e.len() || !number_byte(e[at]) {
        at
    } else {
        number_end(e, at + 1)
    }
}

/// Reads the value that begins at `at`: a string where a quote stands
/// there, else a number. Gives the value and the place behind it.
pub open spec fn read_value(e: Seq<u8>, at: int) -> (JsonValue, int) {
    if 0 <= at < e.len() && e[at] == 34 {
        let end = json_string_end(e, at + 1);
        (JsonValue::Text(json_unescaped(e.subrange(at + 1, end))), end + 1)
    } else {
        let end = number_end(e, at);
        (JsonValue::Number(e.subrange(at, end)), end)
    }
}

/// Reads the member that begins at `at` with the quote of its name: the
/// name, a colon, the value. Gives name and value and the place behind them.
pub open spec fn read_member(e: Seq<u8>, at: int) -> ((Seq<u8>, JsonValue), int) {
    let end = json_string_end(e, at + 1);
    let (value, next) = read_value(e, end + 2);
    ((json_unescaped(e.subrange(at + 1, end)), value), next)
}

/// A byte that can follow a value: a comma or a closing brace.
pub open spec fn follows(rest: Seq<u8>) -> bool {
    rest.len() > 0 && (rest[0] == 44 || rest[0] == 125)
}

/// A number ends where a byte follows that is no byte of a number.
pub proof fn lemma_number_run(before: Seq<u8>, number: Seq<u8>, rest: Seq<u8>)
    requires
        forall|i: int| 0 <= i < number.len() ==> number_byte(#[trigger] number[i]),
        rest.len() > 0,
        !number_byte(rest[0]),
    ensures
        number_end(before + number + rest, before.len() as int) == before.len() + number.len(),
    decreases number.len(),
{
    let e = before + number + rest;
    let at = before.len() as int;
    if number.len() == 0 {
        assert(e[at] == rest[0]);
    } else {
        assert(e[at] == number[0]);
        let tail = number.subrange(1, number.len() as int);
        assert forall|i: int| 0 <= i < tail.len() implies number_byte(#[trigger] tail[i]) by {
            assert(tail[i] == number[i + 1]);
        }
        lemma_number_run(before.push(number[0]), tail, rest);
        assert(before.push(number[0]) + tail + rest =~= e);
    }
}

/// An amount is written in bytes of a number.
pub proof fn lemma_money_is_a_number(units: int)
    requires
        units >= 0,
    ensures
        forall|i: int|
            0 <= i < money_digits(units).len() ==> number_byte(#[trigger] money_digits(units)[i]),
{
    let h = (2 * units + 100) / 200;
    assert(h >= 0);
    lemma_digits_read_back((h / 100) as nat);
    let whole = digits((h / 100) as nat);
    let m = money_digits(units);
    assert(0 <= (h % 100) / 10 <= 9);
    assert(0 <= h % 10 <= 9);
    assert forall|i: int| 0 <= i < m.len() implies number_byte(#[trigger] m[i]) by {
        if i < whole.len() {
            assert(m[i] == whole[i]);
        }
    }
}

/// A written value that a comma or a closing brace follows reads back as
/// what it was written from.
#[verifier::spinoff_prover]
#[verifier::rlimit(80)]
pub proof fn lemma_value_reads_back(before: Seq<u8>, v: Value, rest: Seq<u8>)
    requires
        follows(rest),
    ensures
        read_value(before + json_value(v) + rest, before.len() as int) == (
            seen_value(v),
            (before.len() + json_value(v).len()) as int,
        ),
{
    let e = before + json_value(v) + rest;
    let at = before.len() as int;
    match v {
        Value::Text(t) => {
            let inner = json_escaped(utf8(t));
            lemma_json_string_ends(before.push(34u8), utf8(t), rest);
            assert(before.push(34u8) + inner + seq![34u8] + rest =~= e);
            assert(e[at] == 34);
        },
        Value::Money(m) => {
            lemma_money_is_a_number(m.units as int);
            lemma_number_run(before, json_value(v), rest);
            lemma_digits_read_back((((2 * m.units + 100) / 200) / 100) as nat);
            assert(e[at] == json_value(v)[0]);
            assert(e.subrange(at, at + json_value(v).len()) =~= json_value(v));
        },
        Value::Index(n) => {
            lemma_digits_read_back(n as nat);
            assert forall|i: int| 0 <= i < json_value(v).len() implies number_byte(
                #[trigger] json_value(v)[i],
            ) by {
                assert(48 <= digits(n as nat)[i] <= 57);
            }
            lemma_number_run(before, json_value(v), rest);
            assert(e[at] == json_value(v)[0]);
            assert(e.subrange(at, at + json_value(v).len()) =~= json_value(v));
        },
    }
}

/// A written member that a comma or a closing brace follows reads back as
/// the name of its column and the value that the column holds of the item.
#[verifier::spinoff_prover]
#[verifier::rlimit(80)]
pub proof fn lemma_member_reads_back(
    before: Seq<u8>,
    item: PriceItem,
    col: ItemShow,
    rest: Seq<u8>,
)
    requires
        follows(rest),
    ensures
        read_member(before + json_field(item, col) + rest, before.len() as int) == (
            (utf8(col.name@), seen_value(column_value(item, col.column))),
            (before.len() + json_field(item, col).len()) as int,
        ),
{
    let e = before + json_field(item, col) + rest;
    let at = before.len() as int;
    let name = json_escaped(utf8(col.name@));
    let v = column_value(item, col.column);
    let value = json_value(v);
    lemma_json_string_ends(before.push(34u8), utf8(col.name@), seq![58u8] + value + rest);
    assert(before.push(34u8) + name + seq![34u8] + (seq![58u8] + value + rest) =~= e);
    let opened = before + seq![34u8] + name + seq![34u8, 58u8];
    lemma_value_reads_back(opened, v, rest);
    assert(opened + value + rest =~= e);
    assert(json_field(item, col).len() == name.len() + 3 + value.len());
}

// ------------------------------------------------------------ lists

/// Chunks with a comma between each two, as the files are written.
pub open spec fn joined(chunks: Seq<Seq<u8>>) -> Seq<u8>
    decreases chunks.len(),
{
    if chunks.len() == 0 {
        Seq::empty()
    } else if chunks.len() == 1 {
        chunks[0]
    } else {
        joined(chunks.drop_last()) + seq![44u8] + chunks.last()
    }
}

/// Chunks with a comma before each.
pub open spec fn trailing(chunks: Seq<Seq<u8>>) -> Seq<u8>
    decreases chunks.len(),
{
    if chunks.len() == 0 {
        Seq::empty()
    } else {
        seq![44u8] + chunks[0] + trailing(chunks.subrange(1, chunks.len() as int))
    }
}

proof fn lemma_trailing_from_right(chunks: Seq<Seq<u8>>)
    requires
        chunks.len() > 0,
    ensures
        trailing(chunks) == trailing(chunks.drop_last()) + seq![44u8] + chunks.last(),
    decreases chunks.len(),
{
    let tail = chunks.subrange(1, chunks.len() as int);
    if tail.len() == 0 {
        assert(chunks.drop_last() =~= Seq::<Seq<u8>>::empty());
        assert(trailing(tail) =~= Seq::<u8>::empty());
        assert(chunks.last() == chunks[0]);
        assert(trailing(chunks) =~= trailing(chunks.drop_last()) + seq![44u8] + chunks.last());
    } else {
        lemma_trailing_from_right(tail);
        let init = chunks.drop_last();
        assert(init.subrange(1, init.len() as int) =~= tail.drop_last());
        assert(init[0] == chunks[0]);
        assert(tail.last() == chunks.last());
        assert(trailing(chunks) =~= trailing(init) + seq![44u8] + chunks.last());
    }
}

proof fn lemma_joined_from_left(chunks: Seq<Seq<u8>>)
    requires
        chunks.len() > 0,
    ensures
        joined(chunks) == chunks[0] + trailing(chunks.subrange(1, chunks.len() as int)),
    decreases chunks.len(),
{
    let tail = chunks.subrange(1, chunks.len() as int);
    if chunks.len() == 1 {
        assert(trailing(tail) =~= Seq::<u8>::empty());
        assert(joined(chunks) =~= chunks[0] + trailing(tail));
    } else {
        let init = chunks.drop_last();
        lemma_joined_from_left(init);
        lemma_trailing_from_right(tail);
        assert(init.subrange(1, init.len() as int) =~= tail.drop_last());
        assert(init[0] == chunks[0]);
        assert(tail.last() == chunks.last());
        assert(joined(chunks) =~= chunks[0] + trailing(tail));
    }
}

/// The written members of an item, one chunk for each column.
pub open spec fn field_chunks(item: PriceItem, cols: Seq<ItemShow>) -> Seq<Seq<u8>> {
    Seq::new(cols.len(), |i: int| json_field(item, cols[i]))
}

/// The written items, one chunk for each.
pub open spec fn item_chunks(items: Seq<PriceItem>, cols: Seq<ItemShow>) -> Seq<Seq<u8>> {
    Seq::new(items.len(), |i: int| json_item(items[i], cols))
}

proof fn lemma_fields_are_joined(item: PriceItem, cols: Seq<ItemShow>)
    ensures
        json_fields(item, cols) == joined(field_chunks(item, cols)),
    decreases cols.len(),
{
    if cols.len() > 1 {
        lemma_fields_are_joined(item, cols.drop_last());
        assert(field_chunks(item, cols).drop_last() =~= field_chunks(item, cols.drop_last()));
    }
}

proof fn lemma_items_are_joined(items: Seq<PriceItem>, cols: Seq<ItemShow>)
    ensures
        json_items(items, cols) == joined(item_chunks(items, cols)),
    decreases items.len(),
{
    if items.len() > 1 {
        lemma_items_are_joined(items.drop_last(), cols);
        assert(item_chunks(items, cols).drop_last() =~= item_chunks(items.drop_last(), cols));
    }
}

// ------------------------------------------------------------ members

/// A member as a reader sees it: its name and its value.
pub type Member = (Seq<u8>, JsonValue);

/// Reads the members of an object from `at`, the place behind its opening
/// brace or behind a member, up to the closing brace. Gives the members and
/// the place behind the brace.
pub open spec fn read_members(e: Seq<u8>, at: int) -> (Seq<Member>, int)
    decreases e.len() - at,
{
    if at < 0 || at >= e.len() || e[at] == 125 {
        (Seq::empty(), at + 1)
    } else {
        let start = if e[at] == 44 {
            at + 1
        } else {
            at
        };
        let one = read_member(e, start);
        if one.1 <= at || one.1 > e.len() {
            (Seq::empty(), at + 1)
        } else {
            let more = read_members(e, one.1);
            (seq![one.0] + more.0, more.1)
        }
    }
}

/// What a reader is to see of an item: for each column its name and the
/// value that it holds of the item.
pub open spec fn seen_members(item: PriceItem, cols: Seq<ItemShow>) -> Seq<Member> {
    Seq::new(
        cols.len(),
        |i: int| (utf8(cols[i].name@), seen_value(column_value(item, cols[i].column))),
    )
}

#[verifier::spinoff_prover]
#[verifier::rlimit(80)]
proof fn lemma_more_members_read_back(
    before: Seq<u8>,
    item: PriceItem,
    cols: Seq<ItemShow>,
    rest: Seq<u8>,
)
    ensures
        read_members(
            before + trailing(field_chunks(item, cols)) + seq![125u8] + rest,
            before.len() as int,
        ) == (
            seen_members(item, cols),
            (before.len() + trailing(field_chunks(item, cols)).len() + 1) as int,
        ),
    decreases cols.len(),
{
    let chunks = field_chunks(item, cols);
    let e = before + trailing(chunks) + seq![125u8] + rest;
    let at = before.len() as int;
    if cols.len() == 0 {
        assert(trailing(chunks) =~= Seq::<u8>::empty());
        assert(e[at] == 125);
        assert(seen_members(item, cols) =~= Seq::<Member>::empty());
    } else {
        let tail = cols.subrange(1, cols.len() as int);
        let tail_chunks = field_chunks(item, tail);
        assert(chunks.subrange(1, chunks.len() as int) =~= tail_chunks);
        let field = json_field(item, cols[0]);
        assert(chunks[0] == field);
        let after = trailing(tail_chunks) + seq![125u8] + rest;
        assert(e =~= before.push(44u8) + field + after);
        assert(e[at] == 44);
        lemma_follows_trailing(tail_chunks, rest);
        lemma_member_reads_back(before.push(44u8), item, cols[0], after);
        lemma_more_members_read_back(before.push(44u8) + field, item, tail, rest);
        assert(before.push(44u8) + field + trailing(tail_chunks) + seq![125u8] + rest =~= e);
        assert(seen_members(item, cols) =~= seq![
            (utf8(cols[0].name@), seen_value(column_value(item, cols[0].column))),
        ] + seen_members(item, tail));
        assert(trailing(chunks).len() == 1 + field.len() + trailing(tail_chunks).len());
    }
}

proof fn lemma_fields_from_left(item: PriceItem, cols: Seq<ItemShow>)
    requires
        cols.len() > 0,
    ensures
        json_fields(item, cols) == json_field(item, cols[0]) + trailing(
            field_chunks(item, cols.subrange(1, cols.len() as int)),
        ),
{
    lemma_fields_are_joined(item, cols);
    let chunks = field_chunks(item, cols);
    lemma_joined_from_left(chunks);
    assert(chunks.subrange(1, chunks.len() as int) =~= field_chunks(
        item,
        cols.subrange(1, cols.len() as int),
    ));
}

proof fn lemma_follows_trailing(chunks: Seq<Seq<u8>>, rest: Seq<u8>)
    ensures
        follows(trailing(chunks) + seq![125u8] + rest),
{
    let after = trailing(chunks) + seq![125u8] + rest;
    if chunks.len() == 0 {
        assert(trailing(chunks) =~= Seq::<u8>::empty());
        assert(after[0] == 125);
    } else {
        assert(after[0] == 44);
    }
}

/// The written members of an item, with the closing brace behind them,
/// read back as the names of the columns and the values that they hold of
/// the item.
#[verifier::spinoff_prover]
#[verifier::rlimit(80)]
pub proof fn lemma_members_read_back(
    before: Seq<u8>,
    item: PriceItem,
    cols: Seq<ItemShow>,
    rest: Seq<u8>,
)
    ensures
        read_members(before + json_fields(item, cols) + seq![125u8] + rest, before.len() as int)
            == (seen_members(item, cols), (before.len() + json_fields(item, cols).len() + 1) as int),
{
    let e = before + json_fields(item, cols) + seq![125u8] + rest;
    let at = before.len() as int;
    if cols.len() == 0 {
        assert(json_fields(item, cols) =~= Seq::<u8>::empty());
        assert(e[at] == 125);
        assert(seen_members(item, cols) =~= Seq::<Member>::empty());
    } else {
        lemma_fields_from_left(item, cols);
        let tail = cols.subrange(1, cols.len() as int);
        let tail_chunks = field_chunks(item, tail);
        let field = json_field(item, cols[0]);
        let after = trailing(tail_chunks) + seq![125u8] + rest;
        assert(e =~= before + field + after);
        assert(e[at] == field[0]);
        lemma_follows_trailing(tail_chunks, rest);
        lemma_member_reads_back(before, item, cols[0], after);
        lemma_more_members_read_back(before + field, item, tail, rest);
        assert(before + field + trailing(tail_chunks) + seq![125u8] + rest =~= e);
        assert(seen_members(item, cols) =~= seq![
            (utf8(cols[0].name@), seen_value(column_value(item, cols[0].column))),
        ] + seen_members(item, tail));
    }
}

// ------------------------------------------------------------ items

/// An item as a reader sees it: the name of its member and the members of
/// its object.
pub type Record = (Seq<u8>, Seq<Member>);

/// Reads the item that begins at `at` with the quote of its name: the name,
/// a colon, and an object. Gives the item and the place behind it.
pub open spec fn read_item(e: Seq<u8>, at: int) -> (Record, int) {
    let end = json_string_end(e, at + 1);
    let members = read_members(e, end + 3);
    ((json_unescaped(e.subrange(at + 1, end)), members.0), members.1)
}

/// Reads the items from `at`, the place behind the opening brace of the
/// file or behind an item, up to the closing brace.
pub open spec fn read_items(e: Seq<u8>, at: int) -> Seq<Record>
    decreases e.len() - at,
{
    if at < 0 || at >= e.len() || e[at] == 125 {
        Seq::empty()
    } else {
        let start = if e[at] == 44 {
            at + 1
        } else {
            at
        };
        let one = read_item(e, start);
        if one.1 <= at || one.1 > e.len() {
            Seq::empty()
        } else {
            seq![one.0] + read_items(e, one.1)
        }
    }
}

/// Reads a file: the items of the object that it holds.
pub open spec fn read_file(e: Seq<u8>) -> Seq<Record> {
    read_items(e, 1)
}

/// What a reader is to see of the items: each under its id in decimal
/// digits, with its columns.
pub open spec fn seen_items(items: Seq<PriceItem>, cols: Seq<ItemShow>) -> Seq<Record> {
    Seq::new(
        items.len(),
        |i: int| (digits(items[i].id as nat), seen_members(items[i], cols)),
    )
}

proof fn lemma_digits_stay_as_they_are(n: nat)
    ensures
        json_escaped(digits(n)) == digits(n),
{
    lemma_digits_read_back(n);
    lemma_plain_stays(digits(n));
}

proof fn lemma_plain_stays(s: Seq<u8>)
    requires
        forall|i: int| 0 <= i < s.len() ==> 48 <= #[trigger] s[i] <= 57,
    ensures
        json_escaped(s) == s,
    decreases s.len(),
{
    if s.len() > 0 {
        let init = s.drop_last();
        assert forall|i: int| 0 <= i < init.len() implies 48 <= #[trigger] init[i] <= 57 by {
            assert(init[i] == s[i]);
        }
        lemma_plain_stays(init);
        assert(48 <= s[s.len() - 1] <= 57);
        assert(json_escaped(s) =~= s);
    } else {
        assert(json_escaped(s) =~= s);
    }
}

/// A written item reads back as its id and the members of its columns.
#[verifier::spinoff_prover]
#[verifier::rlimit(80)]
pub proof fn lemma_item_reads_back(
    before: Seq<u8>,
    item: PriceItem,
    cols: Seq<ItemShow>,
    rest: Seq<u8>,
)
    ensures
        read_item(before + json_item(item, cols) + rest, before.len() as int) == (
            (digits(item.id as nat), seen_members(item, cols)),
            (before.len() + json_item(item, cols).len()) as int,
        ),
{
    let e = before + json_item(item, cols) + rest;
    let d = digits(item.id as nat);
    let fields = json_fields(item, cols);
    lemma_digits_stay_as_they_are(item.id as nat);
    let behind = seq![58u8, 123u8] + fields + seq![125u8] + rest;
    lemma_json_string_ends(before.push(34u8), d, behind);
    assert(before.push(34u8) + json_escaped(d) + seq![34u8] + behind =~= e);
    let opened = before + seq![34u8] + d + seq![34u8, 58u8, 123u8];
    lemma_members_read_back(opened, item, cols, rest);
    assert(opened + fields + seq![125u8] + rest =~= e);
    assert(json_item(item, cols).len() == d.len() + 4 + fields.len() + 1);
}

#[verifier::spinoff_prover]
#[verifier::rlimit(80)]
proof fn lemma_more_items_read_back(
    before: Seq<u8>,
    items: Seq<PriceItem>,
    cols: Seq<ItemShow>,
    rest: Seq<u8>,
)
    ensures
        read_items(
            before + trailing(item_chunks(items, cols)) + seq![125u8] + rest,
            before.len() as int,
        ) == seen_items(items, cols),
    decreases items.len(),
{
    let chunks = item_chunks(items, cols);
    let e = before + trailing(chunks) + seq![125u8] + rest;
    let at = before.len() as int;
    if items.len() == 0 {
        assert(trailing(chunks) =~= Seq::<u8>::empty());
        assert(e[at] == 125);
        assert(seen_items(items, cols) =~= Seq::<Record>::empty());
    } else {
        let tail = items.subrange(1, items.len() as int);
        let tail_chunks = item_chunks(tail, cols);
        assert(chunks.subrange(1, chunks.len() as int) =~= tail_chunks);
        let one = json_item(items[0], cols);
        assert(chunks[0] == one);
        let after = trailing(tail_chunks) + seq![125u8] + rest;
        assert(e =~= before.push(44u8) + one + after);
        assert(e[at] == 44);
        lemma_item_reads_back(before.push(44u8), items[0], cols, after);
        lemma_more_items_read_back(before.push(44u8) + one, tail, cols, rest);
        assert(before.push(44u8) + one + trailing(tail_chunks) + seq![125u8] + rest =~= e);
        assert(seen_items(items, cols) =~= seq![
            (digits(items[0].id as nat), seen_members(items[0], cols)),
        ] + seen_items(tail, cols));
    }
}

proof fn lemma_items_from_left(items: Seq<PriceItem>, cols: Seq<ItemShow>)
    requires
        items.len() > 0,
    ensures
        json_items(items, cols) == json_item(items[0], cols) + trailing(
            item_chunks(items.subrange(1, items.len() as int), cols),
        ),
{
    lemma_items_are_joined(items, cols);
    let chunks = item_chunks(items, cols);
    lemma_joined_from_left(chunks);
    assert(chunks.subrange(1, chunks.len() as int) =~= item_chunks(
        items.subrange(1, items.len() as int),
        cols,
    ));
}

/// A reader of the written file gets one item for each item of the list, in
/// their order, each under its id, with one member for each column, in
/// their order: the name of the column and the value that the column holds
/// of the item, a text as its bytes, an amount with two fractional digits,
/// an index as a whole number.
#[verifier::spinoff_prover]
#[verifier::rlimit(80)]
pub proof fn lemma_file_reads_back(items: Seq<PriceItem>, cols: Seq<ItemShow>)
    ensures
        read_file(json_file(items, cols)) == seen_items(items, cols),
{
    let e = json_file(items, cols);
    let open = seq![123u8];
    let none = Seq::<u8>::empty();
    if items.len() == 0 {
        assert(json_items(items, cols) =~= Seq::<u8>::empty());
        assert(e[1] == 125);
        assert(seen_items(items, cols) =~= Seq::<Record>::empty());
    } else {
        lemma_items_from_left(items, cols);
        let tail = items.subrange(1, items.len() as int);
        let tail_chunks = item_chunks(tail, cols);
        let one = json_item(items[0], cols);
        let after = trailing(tail_chunks) + seq![125u8] + none;
        assert(e =~= open + one + after);
        assert(e[1] == one[0]);
        lemma_item_reads_back(open, items[0], cols, after);
        lemma_more_items_read_back(open + one, tail, cols, none);
        assert(open + one + trailing(tail_chunks) + seq![125u8] + none =~= e);
        assert(seen_items(items, cols) =~= seq![
            (digits(items[0].id as nat), seen_members(items[0], cols)),
        ] + seen_items(tail, cols));
    }
}

} // verus!
