//! The price list as a JSON object: one member per item, named by the
//! item's id, whose value is an object with one member per column.

use crate::param::PriceVolume;
use crate::price::PriceItem;
use crate::show::{column_value, select, shown_columns, ItemShow, Value, ValueType};
use crate::text::{digits, money_digits, push_decimal, push_money, utf8};
use vstd::prelude::*;
use vstd::string::*;

verus! {

/// What stands in a JSON string for one byte of the text.
pub open spec fn json_byte(b: u8) -> Seq<u8> {
    if b == 92 {
        seq![92u8, 92u8]
    } else if b == 34 {
        seq![92u8, 34u8]
    } else if b == 47 {
        seq![92u8, 47u8]
    } else if b == 9 {
        seq![92u8, 116u8]
    } else if b == 10 {
        seq![92u8, 110u8]
    } else if b == 13 {
        seq![92u8, 114u8]
    } else {
        seq![b]
    }
}

/// A text with backslash, quote, slash, tab, line feed and carriage return
/// escaped.
pub open spec fn json_escaped(s: Seq<u8>) -> Seq<u8>
    decreases s.len(),
{
    if s.len() == 0 {
        Seq::empty()
    } else {
        json_escaped(s.drop_last()) + json_byte(s.last())
    }
}

/// A value as JSON: a text as a string, an amount with two fractional
/// digits, an index as a whole number.
pub open spec fn json_value(v: Value) -> Seq<u8> {
    match v {
        Value::Text(t) => seq![34u8] + json_escaped(utf8(t)) + seq![34u8],
        Value::Money(m) => money_digits(m.units as int),
        Value::Index(n) => digits(n as nat),
    }
}

/// One member of an item's object.
pub open spec fn json_field(item: PriceItem, col: ItemShow) -> Seq<u8> {
    seq![34u8] + json_escaped(utf8(col.name@)) + seq![34u8, 58u8] + json_value(
        column_value(item, col.column),
    )
}

/// The members of an item's object, separated by commas.
pub open spec fn json_fields(item: PriceItem, cols: Seq<ItemShow>) -> Seq<u8>
    decreases cols.len(),
{
    if cols.len() == 0 {
        Seq::empty()
    } else if cols.len() == 1 {
        json_field(item, cols[0])
    } else {
        json_fields(item, cols.drop_last()) + seq![44u8] + json_field(item, cols.last())
    }
}

/// The member of one item.
pub open spec fn json_item(item: PriceItem, cols: Seq<ItemShow>) -> Seq<u8> {
    seq![34u8] + digits(item.id as nat) + seq![34u8, 58u8, 123u8] + json_fields(item, cols)
        + seq![125u8]
}

/// The members of all items, separated by commas.
pub open spec fn json_items(items: Seq<PriceItem>, cols: Seq<ItemShow>) -> Seq<u8>
    decreases items.len(),
{
    if items.len() == 0 {
        Seq::empty()
    } else if items.len() == 1 {
        json_item(items[0], cols)
    } else {
        json_items(items.drop_last(), cols) + seq![44u8] + json_item(items.last(), cols)
    }
}

/// The whole file.
pub open spec fn json_file(items: Seq<PriceItem>, cols: Seq<ItemShow>) -> Seq<u8> {
    seq![123u8] + json_items(items, cols) + seq![125u8]
}

pub struct FormatJSON {}

impl FormatJSON {
    /// Escapes a text for a JSON string.
    pub fn escape_json(val: &str) -> (r: Vec<u8>)
        ensures
            r@ == json_escaped(utf8(val@)),
    {
        let mut out: Vec<u8> = Vec::new();
        FormatJSON::push_escaped(&mut out, val);
        assert(out@ =~= json_escaped(utf8(val@)));
        out
    }

    fn push_escaped(out: &mut Vec<u8>, val: &str)
        ensures
            final(out)@ == old(out)@ + json_escaped(utf8(val@)),
    {
        let b = val.as_bytes();
        let mut i: usize = 0;
        assert(b@.take(0) =~= Seq::<u8>::empty());
        while i < b.len()
            invariant
                i <= b@.len(),
                b@ == utf8(val@),
                out@ == old(out)@ + json_escaped(b@.take(i as int)),
            decreases b@.len() - i,
        {
            let c = b[i];
            proof {
                assert(b@.take(i + 1).drop_last() =~= b@.take(i as int));
                assert(b@.take(i + 1).last() == c);
            }
            let ghost before = out@;
            if c == 92 {
                out.push(92);
                out.push(92);
            } else if c == 34 {
                out.push(92);
                out.push(34);
            } else if c == 47 {
                out.push(92);
                out.push(47);
            } else if c == 9 {
                out.push(92);
                out.push(116);
            } else if c == 10 {
                out.push(92);
                out.push(110);
            } else if c == 13 {
                out.push(92);
                out.push(114);
            } else {
                out.push(c);
            }
            assert(out@ =~= before + json_byte(c));
            assert(out@ =~= old(out)@ + json_escaped(b@.take(i + 1)));
            i += 1;
        }
        assert(b@.take(b@.len() as int) =~= b@);
    }

    fn push_field(out: &mut Vec<u8>, item: &PriceItem, col: &ItemShow)
        ensures
            final(out)@ == old(out)@ + json_field(*item, *col),
    {
        out.push(34);
        FormatJSON::push_escaped(out, col.name);
        out.push(34);
        out.push(58);
        let ghost mid = out@;
        assert(mid =~= old(out)@ + (seq![34u8] + json_escaped(utf8(col.name@)) + seq![34u8, 58u8]));
        match item.value(col.column) {
            ValueType::String(v) => {
                out.push(34);
                FormatJSON::push_escaped(out, v);
                out.push(34);
                assert(out@ =~= mid + json_value(Value::Text(v@)));
            },
            ValueType::Money(v) => {
                push_money(out, v);
            },
            ValueType::Index(v) => {
                push_decimal(out, v as u128);
            },
        }
        assert(out@ =~= old(out)@ + json_field(*item, *col));
    }

    fn push_item(out: &mut Vec<u8>, item: &PriceItem, cols: &Vec<ItemShow>)
        ensures
            final(out)@ == old(out)@ + json_item(*item, cols@),
    {
        out.push(34);
        push_decimal(out, item.id as u128);
        out.push(34);
        out.push(58);
        out.push(123);
        let ghost base = out@;
        assert(base =~= old(out)@ + (seq![34u8] + digits(item.id as nat) + seq![
            34u8,
            58u8,
            123u8,
        ]));
        let mut j: usize = 0;
        assert(cols@.take(0) =~= Seq::<ItemShow>::empty());
        while j < cols.len()
            invariant
                j <= cols@.len(),
                out@ == base + json_fields(*item, cols@.take(j as int)),
            decreases cols@.len() - j,
        {
            proof {
                assert(cols@.take(j + 1).drop_last() =~= cols@.take(j as int));
                assert(cols@.take(j + 1).last() == cols@[j as int]);
                assert(cols@.take(j + 1)[0] == cols@[0]);
            }
            let ghost before = out@;
            if j > 0 {
                out.push(44);
            }
            FormatJSON::push_field(out, item, &cols[j]);
            assert(out@ =~= base + json_fields(*item, cols@.take(j + 1)));
            j += 1;
        }
        assert(cols@.take(cols@.len() as int) =~= cols@);
        out.push(125);
        assert(out@ =~= old(out)@ + json_item(*item, cols@));
    }

    /// The file of the given items with the given columns.
    pub fn write(items: &Vec<PriceItem>, cols: &Vec<ItemShow>) -> (r: Vec<u8>)
        ensures
            r@ == json_file(items@, cols@),
    {
        let mut out: Vec<u8> = Vec::new();
        out.push(123);
        let mut i: usize = 0;
        assert(items@.take(0) =~= Seq::<PriceItem>::empty());
        while i < items.len()
            invariant
                i <= items@.len(),
                out@ == seq![123u8] + json_items(items@.take(i as int), cols@),
            decreases items@.len() - i,
        {
            proof {
                assert(items@.take(i + 1).drop_last() =~= items@.take(i as int));
                assert(items@.take(i + 1).last() == items@[i as int]);
                assert(items@.take(i + 1)[0] == items@[0]);
            }
            if i > 0 {
                out.push(44);
            }
            FormatJSON::push_item(&mut out, &items[i], cols);
            assert(out@ =~= seq![123u8] + json_items(items@.take(i + 1), cols@));
            i += 1;
        }
        assert(items@.take(items@.len() as int) =~= items@);
        out.push(125);
        assert(out@ =~= json_file(items@, cols@));
        out
    }

    /// The file of the given items for a variant of the list and a user's
    /// capabilities.
    pub fn make(items: &Vec<PriceItem>, volume: PriceVolume, rozn: bool, r3: bool, ean: bool) -> (r:
        Vec<u8>)
        ensures
            r@ == json_file(items@, shown_columns(volume, rozn, r3, ean)),
    {
        let cols = select(volume, rozn, r3, ean);
        FormatJSON::write(items, &cols)
    }
}

// ------------------------------------------------------------ reading back

/// The byte that an escape stands for.
pub open spec fn json_plain(c: u8) -> u8 {
    if c == 116 {
        9
    } else if c == 110 {
        10
    } else if c == 114 {
        13
    } else {
        c
    }
}

/// What a reader makes of the inside of a JSON string that holds no escape
/// but those written here: a backslash with the byte behind it is one byte.
pub open spec fn json_unescaped(e: Seq<u8>) -> Seq<u8>
    decreases e.len(),
{
    if e.len() == 0 {
        Seq::empty()
    } else if e[0] == 92 && e.len() >= 2 {
        seq![json_plain(e[1])] + json_unescaped(e.subrange(2, e.len() as int))
    } else {
        seq![e[0]] + json_unescaped(e.subrange(1, e.len() as int))
    }
}

/// Escaping goes byte by byte from the left as well.
pub proof fn lemma_json_escaped_from_left(x: u8, rest: Seq<u8>)
    ensures
        json_escaped(seq![x] + rest) == json_byte(x) + json_escaped(rest),
    decreases rest.len(),
{
    if rest.len() == 0 {
        assert(seq![x] + rest =~= seq![x]);
        assert(seq![x].drop_last() =~= Seq::<u8>::empty());
        assert(seq![x].last() == x);
        assert(json_escaped(Seq::<u8>::empty()) =~= Seq::<u8>::empty());
        assert(json_escaped(seq![x]) =~= json_byte(x));
        assert(json_byte(x) + json_escaped(rest) =~= json_byte(x));
    } else {
        lemma_json_escaped_from_left(x, rest.drop_last());
        assert((seq![x] + rest).drop_last() =~= seq![x] + rest.drop_last());
        assert((seq![x] + rest).last() == rest.last());
        assert(json_byte(x) + json_escaped(rest.drop_last()) + json_byte(rest.last()) =~= json_byte(
            x,
        ) + json_escaped(rest));
    }
}

/// A reader gets back the text that was escaped.
pub proof fn lemma_json_round_trip(s: Seq<u8>)
    ensures
        json_unescaped(json_escaped(s)) == s,
    decreases s.len(),
{
    if s.len() > 0 {
        let x = s[0];
        let rest = s.subrange(1, s.len() as int);
        assert(s =~= seq![x] + rest);
        lemma_json_escaped_from_left(x, rest);
        lemma_json_round_trip(rest);
        let e = json_escaped(s);
        let tail = json_escaped(rest);
        assert(e == json_byte(x) + tail);
        if json_byte(x).len() == 2 {
            assert(e[0] == 92);
            assert(json_plain(e[1]) == x);
            assert(e.subrange(2, e.len() as int) =~= tail);
        } else {
            assert(e[0] == x);
            assert(e.subrange(1, e.len() as int) =~= tail);
        }
        assert(json_unescaped(e) =~= seq![x] + rest);
    } else {
        assert(json_escaped(s) =~= Seq::<u8>::empty());
    }
}

/// The place of the quote that ends a JSON string whose inside begins at
/// `from`: the first quote that no backslash escapes; the length of `e`
/// where there is none.
pub open spec fn json_string_end(e: Seq<u8>, from: int) -> int
    decreases e.len() - from,
{
    if from < 0 || from >= e.len() {
        e.len() as int
    } else if e[from] == 34 {
        from
    } else if e[from] == 92 && from + 1 < e.len() {
        json_string_end(e, from + 2)
    } else {
        json_string_end(e, from + 1)
    }
}

/// A reader that goes through a written string from the left finds the
/// quote that ends it right behind the escaped text, whatever follows, and
/// so gets back the text.
pub proof fn lemma_json_string_ends(before: Seq<u8>, s: Seq<u8>, rest: Seq<u8>)
    ensures
        ({
            let e = before + json_escaped(s) + seq![34u8] + rest;
            let end = json_string_end(e, before.len() as int);
            &&& end == before.len() + json_escaped(s).len()
            &&& json_unescaped(e.subrange(before.len() as int, end)) == s
        }),
    decreases s.len(),
{
    let e = before + json_escaped(s) + seq![34u8] + rest;
    let from = before.len() as int;
    if s.len() == 0 {
        assert(json_escaped(s) =~= Seq::<u8>::empty());
        assert(e[from] == 34);
        assert(e.subrange(from, from) =~= Seq::<u8>::empty());
        assert(json_unescaped(Seq::<u8>::empty()) =~= s);
    } else {
        let x = s[0];
        let tail = s.subrange(1, s.len() as int);
        assert(s =~= seq![x] + tail);
        lemma_json_escaped_from_left(x, tail);
        let head = json_byte(x);
        lemma_json_string_ends(before + head, tail, rest);
        assert(before + head + json_escaped(tail) + seq![34u8] + rest =~= e);
        assert(e[from] == head[0]);
        if head.len() == 2 {
            assert(e[from + 1] == head[1]);
        }
        assert(json_string_end(e, from) == json_string_end(e, from + head.len()));
        lemma_json_round_trip(s);
        assert(e.subrange(from, from + json_escaped(s).len()) =~= json_escaped(s));
    }
}

} // verus!
