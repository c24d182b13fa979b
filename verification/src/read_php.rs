//! Reading a written file in the serialized form of PHP back: a reader that
//! takes each text by its length and each number up to its delimiter gets
//! the items and the values of their columns as they were written.

use crate::format_php::{php_fields, php_file, php_item, php_items, php_text, php_value};
use crate::param::digits_value;
use crate::price::PriceItem;
use crate::read_json::{lemma_money_is_a_number, lemma_number_run, number_byte, number_end};
use crate::show::{column_value, ItemShow, Value};
use crate::text::{digits, lemma_digits_read_back, money_digits, utf8};
use vstd::prelude::*;

verus! {

/// A value as a reader sees it: the bytes of a text, a decimal fraction or a
/// whole number as they are written.
pub enum PhpValue {
    Text(Seq<u8>),
    Float(Seq<u8>),
    Int(Seq<u8>),
}

/// What a reader is to see of a value.
pub open spec fn seen_php(v: Value) -> PhpValue {
    match v {
        Value::Text(t) => PhpValue::Text(utf8(t)),
        Value::Money(m) => PhpValue::Float(money_digits(m.units as int)),
        Value::Index(n) => PhpValue::Int(digits(n as nat)),
    }
}

/// Reads the text that begins at `at` with `s:`: its length, and behind a
/// colon and a quote as many bytes. Gives the bytes and the place behind the
/// semicolon that ends the text.
pub open spec fn read_text(e: Seq<u8>, at: int) -> (Seq<u8>, int) {
    let k = number_end(e, at + 2);
    let len = digits_value(e.subrange(at + 2, k)) as int;
    (e.subrange(k + 2, k + 2 + len), k + 2 + len + 2)
}

/// Reads the value that begins at `at`: a text behind `s`, a decimal
/// fraction behind `d`, else a whole number.
pub open spec fn read_php_value(e: Seq<u8>, at: int) -> (PhpValue, int) {
    if e[at] == 115 {
        let t = read_text(e, at);
        (PhpValue::Text(t.0), t.1)
    } else {
        let k = number_end(e, at + 2);
        if e[at] == 100 {
            (PhpValue::Float(e.subrange(at + 2, k)), k + 1)
        } else {
            (PhpValue::Int(e.subrange(at + 2, k)), k + 1)
        }
    }
}

/// A column as a reader sees it: its name and its value.
pub type Pair = (Seq<u8>, PhpValue);

/// Reads a name and the value behind it.
pub open spec fn read_pair(e: Seq<u8>, at: int) -> (Pair, int) {
    let name = read_text(e, at);
    let value = read_php_value(e, name.1);
    ((name.0, value.0), value.1)
}

/// Reads `count` names with their values.
pub open spec fn read_pairs(e: Seq<u8>, at: int, count: nat) -> (Seq<Pair>, int)
    decreases count,
{
    if count == 0 {
        (Seq::empty(), at)
    } else {
        let one = read_pair(e, at);
        let more = read_pairs(e, one.1, (count - 1) as nat);
        (seq![one.0] + more.0, more.1)
    }
}

/// An item as a reader sees it: its key and its columns.
pub type Entry = (Seq<u8>, Seq<Pair>);

/// Reads the item that begins at `at` with `i:`: its key, and behind `;a:`
/// the number of its columns and in braces the columns.
pub open spec fn read_entry(e: Seq<u8>, at: int) -> (Entry, int) {
    let k = number_end(e, at + 2);
    let m = number_end(e, k + 3);
    let pairs = read_pairs(e, m + 2, digits_value(e.subrange(k + 3, m)));
    ((e.subrange(at + 2, k), pairs.0), pairs.1 + 1)
}

/// Reads `count` items.
pub open spec fn read_entries(e: Seq<u8>, at: int, count: nat) -> (Seq<Entry>, int)
    decreases count,
{
    if count == 0 {
        (Seq::empty(), at)
    } else {
        let one = read_entry(e, at);
        let more = read_entries(e, one.1, (count - 1) as nat);
        (seq![one.0] + more.0, more.1)
    }
}

/// Reads a file: behind `a:` the number of its items and in braces the
/// items.
pub open spec fn read_php_file(e: Seq<u8>) -> Seq<Entry> {
    let n = number_end(e, 2);
    read_entries(e, n + 2, digits_value(e.subrange(2, n))).0
}

/// What a reader is to see of an item's columns.
pub open spec fn seen_pairs(item: PriceItem, cols: Seq<ItemShow>) -> Seq<Pair> {
    Seq::new(
        cols.len(),
        |i: int| (utf8(cols[i].name@), seen_php(column_value(item, cols[i].column))),
    )
}

/// What a reader is to see of the items.
pub open spec fn seen_entries(items: Seq<PriceItem>, cols: Seq<ItemShow>) -> Seq<Entry> {
    Seq::new(items.len(), |i: int| (digits(items[i].id as nat), seen_pairs(items[i], cols)))
}

/// The bytes that a column makes in an item's array.
pub open spec fn pair_bytes(item: PriceItem, col: ItemShow) -> Seq<u8> {
    php_text(col.name@) + php_value(column_value(item, col.column))
}

#[verifier::spinoff_prover]
proof fn lemma_number_reads_back(before: Seq<u8>, n: nat, rest: Seq<u8>)
    requires
        rest.len() > 0,
        !number_byte(rest[0]),
    ensures
        ({
            let e = before + digits(n) + rest;
            let k = number_end(e, before.len() as int);
            &&& k == before.len() + digits(n).len()
            &&& e.subrange(before.len() as int, k) == digits(n)
            &&& digits_value(e.subrange(before.len() as int, k)) == n
        }),
{
    let e = before + digits(n) + rest;
    lemma_digits_read_back(n);
    assert forall|i: int| 0 <= i < digits(n).len() implies number_byte(#[trigger] digits(n)[i]) by {
        assert(48 <= digits(n)[i] <= 57);
    }
    lemma_number_run(before, digits(n), rest);
    assert(e.subrange(before.len() as int, (before.len() + digits(n).len()) as int) =~= digits(n));
}

#[verifier::spinoff_prover]
#[verifier::rlimit(80)]
proof fn lemma_text_reads_back(before: Seq<u8>, t: Seq<char>, rest: Seq<u8>)
    ensures
        read_text(before + php_text(t) + rest, before.len() as int) == (
            utf8(t),
            (before.len() + php_text(t).len()) as int,
        ),
{
    let e = before + php_text(t) + rest;
    let bytes = utf8(t);
    let d = digits(bytes.len());
    let behind = seq![58u8, 34u8] + bytes + seq![34u8, 59u8] + rest;
    let opened = before + seq![115u8, 58u8];
    lemma_number_reads_back(opened, bytes.len(), behind);
    assert(opened + d + behind =~= e);
    let k = (before.len() + 2 + d.len()) as int;
    assert(e.subrange(k + 2, k + 2 + bytes.len()) =~= bytes);
    assert(php_text(t).len() == 2 + d.len() + 2 + bytes.len() + 2);
}

#[verifier::spinoff_prover]
#[verifier::rlimit(80)]
proof fn lemma_php_value_reads_back(before: Seq<u8>, v: Value, rest: Seq<u8>)
    ensures
        read_php_value(before + php_value(v) + rest, before.len() as int) == (
            seen_php(v),
            (before.len() + php_value(v).len()) as int,
        ),
{
    let e = before + php_value(v) + rest;
    let at = before.len() as int;
    match v {
        Value::Text(t) => {
            lemma_text_reads_back(before, t, rest);
            assert(e[at] == php_text(t)[0]);
        },
        Value::Money(m) => {
            let number = money_digits(m.units as int);
            lemma_money_is_a_number(m.units as int);
            let behind = seq![59u8] + rest;
            lemma_number_run(before + seq![100u8, 58u8], number, behind);
            assert(before + seq![100u8, 58u8] + number + behind =~= e);
            assert(e[at] == 100);
            assert(e.subrange(at + 2, at + 2 + number.len()) =~= number);
            assert(php_value(v).len() == 2 + number.len() + 1);
        },
        Value::Index(n) => {
            let number = digits(n as nat);
            let behind = seq![59u8] + rest;
            lemma_number_reads_back(before + seq![105u8, 58u8], n as nat, behind);
            assert(before + seq![105u8, 58u8] + number + behind =~= e);
            assert(e[at] == 105);
            assert(php_value(v).len() == 2 + number.len() + 1);
        },
    }
}

#[verifier::spinoff_prover]
#[verifier::rlimit(80)]
proof fn lemma_pair_reads_back(before: Seq<u8>, item: PriceItem, col: ItemShow, rest: Seq<u8>)
    ensures
        read_pair(before + pair_bytes(item, col) + rest, before.len() as int) == (
            (utf8(col.name@), seen_php(column_value(item, col.column))),
            (before.len() + pair_bytes(item, col).len()) as int,
        ),
{
    let e = before + pair_bytes(item, col) + rest;
    let name = php_text(col.name@);
    let value = php_value(column_value(item, col.column));
    lemma_text_reads_back(before, col.name@, value + rest);
    assert(before + name + (value + rest) =~= e);
    lemma_php_value_reads_back(before + name, column_value(item, col.column), rest);
    assert(before + name + value + rest =~= e);
}

proof fn lemma_fields_from_left(item: PriceItem, cols: Seq<ItemShow>)
    requires
        cols.len() > 0,
    ensures
        php_fields(item, cols) == pair_bytes(item, cols[0]) + php_fields(
            item,
            cols.subrange(1, cols.len() as int),
        ),
    decreases cols.len(),
{
    let tail = cols.subrange(1, cols.len() as int);
    if cols.len() == 1 {
        assert(cols.drop_last() =~= Seq::<ItemShow>::empty());
        assert(php_fields(item, cols.drop_last()) =~= Seq::<u8>::empty());
        assert(php_fields(item, tail) =~= Seq::<u8>::empty());
        assert(cols.last() == cols[0]);
        assert(php_fields(item, cols) =~= pair_bytes(item, cols[0]) + php_fields(item, tail));
    } else {
        let init = cols.drop_last();
        lemma_fields_from_left(item, init);
        assert(init.subrange(1, init.len() as int) =~= tail.drop_last());
        assert(init[0] == cols[0]);
        assert(tail.last() == cols.last());
        assert(php_fields(item, cols) =~= pair_bytes(item, cols[0]) + php_fields(item, tail));
    }
}

proof fn lemma_items_from_left(items: Seq<PriceItem>, cols: Seq<ItemShow>)
    requires
        items.len() > 0,
    ensures
        php_items(items, cols) == php_item(items[0], cols) + php_items(
            items.subrange(1, items.len() as int),
            cols,
        ),
    decreases items.len(),
{
    let tail = items.subrange(1, items.len() as int);
    if items.len() == 1 {
        assert(items.drop_last() =~= Seq::<PriceItem>::empty());
        assert(php_items(items.drop_last(), cols) =~= Seq::<u8>::empty());
        assert(php_items(tail, cols) =~= Seq::<u8>::empty());
        assert(items.last() == items[0]);
        assert(php_items(items, cols) =~= php_item(items[0], cols) + php_items(tail, cols));
    } else {
        let init = items.drop_last();
        lemma_items_from_left(init, cols);
        assert(init.subrange(1, init.len() as int) =~= tail.drop_last());
        assert(init[0] == items[0]);
        assert(tail.last() == items.last());
        assert(php_items(items, cols) =~= php_item(items[0], cols) + php_items(tail, cols));
    }
}

/// The written columns of an item read back as their names and the values
/// that they hold of the item.
#[verifier::spinoff_prover]
#[verifier::rlimit(80)]
pub proof fn lemma_pairs_read_back(
    before: Seq<u8>,
    item: PriceItem,
    cols: Seq<ItemShow>,
    rest: Seq<u8>,
)
    ensures
        read_pairs(before + php_fields(item, cols) + rest, before.len() as int, cols.len()) == (
            seen_pairs(item, cols),
            (before.len() + php_fields(item, cols).len()) as int,
        ),
    decreases cols.len(),
{
    let e = before + php_fields(item, cols) + rest;
    if cols.len() == 0 {
        assert(php_fields(item, cols) =~= Seq::<u8>::empty());
        assert(seen_pairs(item, cols) =~= Seq::<Pair>::empty());
    } else {
        lemma_fields_from_left(item, cols);
        let tail = cols.subrange(1, cols.len() as int);
        let one = pair_bytes(item, cols[0]);
        let more = php_fields(item, tail);
        lemma_pair_reads_back(before, item, cols[0], more + rest);
        assert(before + one + (more + rest) =~= e);
        lemma_pairs_read_back(before + one, item, tail, rest);
        assert(before + one + more + rest =~= e);
        assert(seen_pairs(item, cols) =~= seq![
            (utf8(cols[0].name@), seen_php(column_value(item, cols[0].column))),
        ] + seen_pairs(item, tail));
    }
}

/// A written item reads back as its id and its columns.
#[verifier::spinoff_prover]
#[verifier::rlimit(80)]
pub proof fn lemma_entry_reads_back(
    before: Seq<u8>,
    item: PriceItem,
    cols: Seq<ItemShow>,
    rest: Seq<u8>,
)
    ensures
        read_entry(before + php_item(item, cols) + rest, before.len() as int) == (
            (digits(item.id as nat), seen_pairs(item, cols)),
            (before.len() + php_item(item, cols).len()) as int,
        ),
{
    let e = before + php_item(item, cols) + rest;
    let id = digits(item.id as nat);
    let count = digits(cols.len());
    let fields = php_fields(item, cols);
    let b1 = before + seq![105u8, 58u8];
    let r1 = seq![59u8, 97u8, 58u8] + count + seq![58u8, 123u8] + fields + seq![125u8] + rest;
    lemma_number_reads_back(b1, item.id as nat, r1);
    assert(b1 + id + r1 =~= e);
    let b2 = b1 + id + seq![59u8, 97u8, 58u8];
    let r2 = seq![58u8, 123u8] + fields + seq![125u8] + rest;
    lemma_number_reads_back(b2, cols.len(), r2);
    assert(b2 + count + r2 =~= e);
    let b3 = b2 + count + seq![58u8, 123u8];
    lemma_pairs_read_back(b3, item, cols, seq![125u8] + rest);
    assert(b3 + fields + (seq![125u8] + rest) =~= e);
    assert(php_item(item, cols).len() == 2 + id.len() + 3 + count.len() + 2 + fields.len() + 1);
}

#[verifier::spinoff_prover]
#[verifier::rlimit(80)]
proof fn lemma_entries_read_back(
    before: Seq<u8>,
    items: Seq<PriceItem>,
    cols: Seq<ItemShow>,
    rest: Seq<u8>,
)
    ensures
        read_entries(before + php_items(items, cols) + rest, before.len() as int, items.len()).0
            == seen_entries(items, cols),
        read_entries(before + php_items(items, cols) + rest, before.len() as int, items.len()).1
            == before.len() + php_items(items, cols).len(),
    decreases items.len(),
{
    let e = before + php_items(items, cols) + rest;
    if items.len() == 0 {
        assert(php_items(items, cols) =~= Seq::<u8>::empty());
        assert(seen_entries(items, cols) =~= Seq::<Entry>::empty());
    } else {
        lemma_items_from_left(items, cols);
        let tail = items.subrange(1, items.len() as int);
        let one = php_item(items[0], cols);
        let more = php_items(tail, cols);
        lemma_entry_reads_back(before, items[0], cols, more + rest);
        assert(before + one + (more + rest) =~= e);
        lemma_entries_read_back(before + one, tail, cols, rest);
        assert(before + one + more + rest =~= e);
        assert(seen_entries(items, cols) =~= seq![
            (digits(items[0].id as nat), seen_pairs(items[0], cols)),
        ] + seen_entries(tail, cols));
    }
}

/// A reader of the written file gets one entry for each item of the list,
/// in their order, each under its id, with one member for each column, in
/// their order: the name of the column and its value, a text as its bytes,
/// an amount as a decimal fraction with two fractional digits, an index as
/// a whole number.
#[verifier::spinoff_prover]
#[verifier::rlimit(80)]
pub proof fn lemma_php_file_reads_back(items: Seq<PriceItem>, cols: Seq<ItemShow>)
    ensures
        read_php_file(php_file(items, cols)) == seen_entries(items, cols),
{
    let e = php_file(items, cols);
    let all = php_items(items, cols);
    let b1 = seq![97u8, 58u8];
    let r1 = seq![58u8, 123u8] + all + seq![125u8];
    lemma_number_reads_back(b1, items.len(), r1);
    assert(b1 + digits(items.len()) + r1 =~= e);
    let b2 = b1 + digits(items.len()) + seq![58u8, 123u8];
    lemma_entries_read_back(b2, items, cols, seq![125u8]);
    assert(b2 + all + seq![125u8] =~= e);
}

} // verus!
