//! The canonical JSON text that every fingerprint in the crate hashes.
//!
//! Values are built as a `JsonValue` tree and written out byte by byte:
//! objects keep the key order they were built with, strings are escaped the
//! way the canonical writer escapes them (quote, backslash and the control
//! bytes below 0x20, everything else verbatim), integers are plain decimal.
use vstd::prelude::*;
use vstd::utf8::encode_utf8;
use crate::order::{bytes_ord, compare_str, lemma_sort_seq_map, sort_by_order, sort_seq, sorted_indices, str_ord, str_order};

verus! {

/// The mathematical JSON value a `JsonValue` stands for.
pub enum Json {
    Null,
    Bool(bool),
    Num(int),
    /// A string, held as its UTF-8 bytes.
    Str(Seq<u8>),
    Arr(Seq<Json>),
    Obj(Seq<(Seq<u8>, Json)>),
}

pub enum JsonValue {
    Null,
    Bool(bool),
    UInt(u64),
    Int(i64),
    Str(String),
    /// A string given by its UTF-8 bytes (text that is itself canonical JSON).
    Text(Vec<u8>),
    Arr(Vec<JsonValue>),
    Obj(Vec<(String, JsonValue)>),
}

pub open spec fn json_view(j: JsonValue) -> Json
    decreases j, 1int,
{
    match j {
        JsonValue::Null => Json::Null,
        JsonValue::Bool(b) => Json::Bool(b),
        JsonValue::UInt(n) => Json::Num(n as int),
        JsonValue::Int(n) => Json::Num(n as int),
        JsonValue::Str(s) => Json::Str(encode_utf8(s@)),
        JsonValue::Text(b) => Json::Str(b@),
        JsonValue::Arr(v) => Json::Arr(json_view_seq(v@)),
        JsonValue::Obj(v) => Json::Obj(json_view_fields(v@)),
    }
}

pub open spec fn json_view_seq(s: Seq<JsonValue>) -> Seq<Json>
    decreases s, 0int,
{
    if s.len() == 0 {
        Seq::empty()
    } else {
        json_view_seq(s.drop_last()).push(json_view(s.last()))
    }
}

pub open spec fn json_view_fields(s: Seq<(String, JsonValue)>) -> Seq<(Seq<u8>, Json)>
    decreases s, 0int,
{
    if s.len() == 0 {
        Seq::empty()
    } else {
        json_view_fields(s.drop_last()).push((encode_utf8(s.last().0@), json_view(s.last().1)))
    }
}


pub open spec fn hex_lower(d: u8) -> u8 {
    if d < 10 { (48 + d) as u8 } else { (87 + d) as u8 }
}

/// How one byte of a string body is written.
pub open spec fn esc_byte(b: u8) -> Seq<u8> {
    if b == 0x22 {
        seq![0x5cu8, 0x22u8]
    } else if b == 0x5c {
        seq![0x5cu8, 0x5cu8]
    } else if b == 0x08 {
        seq![0x5cu8, 0x62u8]
    } else if b == 0x0c {
        seq![0x5cu8, 0x66u8]
    } else if b == 0x0a {
        seq![0x5cu8, 0x6eu8]
    } else if b == 0x0d {
        seq![0x5cu8, 0x72u8]
    } else if b == 0x09 {
        seq![0x5cu8, 0x74u8]
    } else if b < 0x20 {
        seq![0x5cu8, 0x75u8, 0x30u8, 0x30u8, hex_lower(b / 16), hex_lower(b % 16)]
    } else {
        seq![b]
    }
}

pub open spec fn esc(bs: Seq<u8>) -> Seq<u8>
    decreases bs.len(),
{
    if bs.len() == 0 {
        Seq::empty()
    } else {
        esc(bs.drop_last()) + esc_byte(bs.last())
    }
}

pub open spec fn enc_str(s: Seq<u8>) -> Seq<u8> {
    seq![0x22u8] + esc(s) + seq![0x22u8]
}

pub open spec fn dec_digits(n: nat) -> Seq<u8>
    decreases n,
{
    if n < 10 {
        seq![(48 + n) as u8]
    } else {
        dec_digits(n / 10).push((48 + n % 10) as u8)
    }
}

pub open spec fn enc_num(n: int) -> Seq<u8> {
    if n < 0 {
        seq![0x2du8] + dec_digits((-n) as nat)
    } else {
        dec_digits(n as nat)
    }
}

/// The canonical text of a JSON value.
pub open spec fn enc(j: Json) -> Seq<u8>
    decreases j, 1int,
{
    match j {
        Json::Null => seq![0x6eu8, 0x75u8, 0x6cu8, 0x6cu8],
        Json::Bool(b) => if b {
            seq![0x74u8, 0x72u8, 0x75u8, 0x65u8]
        } else {
            seq![0x66u8, 0x61u8, 0x6cu8, 0x73u8, 0x65u8]
        },
        Json::Num(n) => enc_num(n),
        Json::Str(s) => enc_str(s),
        Json::Arr(items) => seq![0x5bu8] + enc_items(items) + seq![0x5du8],
        Json::Obj(fields) => seq![0x7bu8] + enc_fields(fields) + seq![0x7du8],
    }
}

pub open spec fn enc_items(s: Seq<Json>) -> Seq<u8>
    decreases s, 0int,
{
    if s.len() == 0 {
        Seq::empty()
    } else if s.len() == 1 {
        enc(s[0])
    } else {
        enc_items(s.drop_last()) + seq![0x2cu8] + enc(s.last())
    }
}

pub open spec fn enc_fields(s: Seq<(Seq<u8>, Json)>) -> Seq<u8>
    decreases s, 0int,
{
    if s.len() == 0 {
        Seq::empty()
    } else if s.len() == 1 {
        enc_str(s[0].0) + seq![0x3au8] + enc(s[0].1)
    } else {
        enc_fields(s.drop_last()) + seq![0x2cu8] + enc_str(s.last().0) + seq![0x3au8] + enc(
            s.last().1,
        )
    }
}

pub proof fn lemma_view_seq_len(s: Seq<JsonValue>)
    ensures
        json_view_seq(s).len() == s.len(),
    decreases s.len(),
{
    if s.len() > 0 {
        lemma_view_seq_len(s.drop_last());
    }
}

pub proof fn lemma_view_fields_len(s: Seq<(String, JsonValue)>)
    ensures
        json_view_fields(s).len() == s.len(),
    decreases s.len(),
{
    if s.len() > 0 {
        lemma_view_fields_len(s.drop_last());
    }
}

pub proof fn lemma_enc_items_push(s: Seq<Json>, x: Json)
    ensures
        enc_items(s.push(x)) == if s.len() == 0 {
            enc(x)
        } else {
            enc_items(s) + seq![0x2cu8] + enc(x)
        },
{
    assert(s.push(x).drop_last() =~= s);
    if s.len() == 0 {
        assert(s.push(x)[0] == x);
    }
}

pub proof fn lemma_enc_fields_push(s: Seq<(Seq<u8>, Json)>, k: Seq<u8>, x: Json)
    ensures
        enc_fields(s.push((k, x))) == if s.len() == 0 {
            enc_str(k) + seq![0x3au8] + enc(x)
        } else {
            enc_fields(s) + seq![0x2cu8] + enc_str(k) + seq![0x3au8] + enc(x)
        },
{
    assert(s.push((k, x)).drop_last() =~= s);
    if s.len() == 0 {
        assert(s.push((k, x))[0] == (k, x));
    }
}

fn write_byte_escaped(b: u8, out: &mut Vec<u8>)
    ensures
        final(out)@ == old(out)@ + esc_byte(b),
{
    if b == 0x22 || b == 0x5c {
        out.push(0x5c);
        out.push(b);
    } else if b == 0x08 {
        out.push(0x5c);
        out.push(0x62);
    } else if b == 0x0c {
        out.push(0x5c);
        out.push(0x66);
    } else if b == 0x0a {
        out.push(0x5c);
        out.push(0x6e);
    } else if b == 0x0d {
        out.push(0x5c);
        out.push(0x72);
    } else if b == 0x09 {
        out.push(0x5c);
        out.push(0x74);
    } else if b < 0x20 {
        let hi = b / 16;
        let lo = b % 16;
        out.push(0x5c);
        out.push(0x75);
        out.push(0x30);
        out.push(0x30);
        out.push(if hi < 10 { 48 + hi } else { 87 + hi });
        out.push(if lo < 10 { 48 + lo } else { 87 + lo });
    } else {
        out.push(b);
    }
    assert(final(out)@ =~= old(out)@ + esc_byte(b));
}

pub fn write_str(bytes: &[u8], out: &mut Vec<u8>)
    ensures
        final(out)@ == old(out)@ + enc_str(bytes@),
{
    let ghost start = out@;
    out.push(0x22);
    let n = bytes.len();
    let mut i: usize = 0;
    while i < n
        invariant
            n == bytes@.len(),
            i <= n,
            out@ == start + seq![0x22u8] + esc(bytes@.take(i as int)),
        decreases n - i,
    {
        write_byte_escaped(bytes[i], out);
        assert(bytes@.take(i + 1).drop_last() =~= bytes@.take(i as int));
        i += 1;
        assert(out@ =~= start + seq![0x22u8] + esc(bytes@.take(i as int)));
    }
    assert(bytes@.take(n as int) =~= bytes@);
    out.push(0x22);
    assert(out@ =~= start + enc_str(bytes@));
}

pub fn write_u64(n: u64, out: &mut Vec<u8>)
    ensures
        final(out)@ == old(out)@ + dec_digits(n as nat),
    decreases n,
{
    let ghost start = out@;
    if n >= 10 {
        write_u64(n / 10, out);
    }
    out.push(48 + (n % 10) as u8);
    assert(out@ =~= start + dec_digits(n as nat));
}

pub fn write_i64(n: i64, out: &mut Vec<u8>)
    ensures
        final(out)@ == old(out)@ + enc_num(n as int),
{
    let ghost start = out@;
    if n < 0 {
        out.push(0x2d);
        let mag: u64 = if n == i64::MIN { 9223372036854775808u64 } else { (-n) as u64 };
        write_u64(mag, out);
    } else {
        write_u64(n as u64, out);
    }
    assert(out@ =~= start + enc_num(n as int));
}

/// Writes the canonical text of `j` after what `out` already holds.
pub fn write_json(j: &JsonValue, out: &mut Vec<u8>)
    ensures
        final(out)@ == old(out)@ + enc(json_view(*j)),
    decreases j,
{
    let ghost start = out@;
    match j {
        JsonValue::Null => {
            out.push(0x6e);
            out.push(0x75);
            out.push(0x6c);
            out.push(0x6c);
        },
        JsonValue::Bool(b) => {
            if *b {
                out.push(0x74);
                out.push(0x72);
                out.push(0x75);
                out.push(0x65);
            } else {
                out.push(0x66);
                out.push(0x61);
                out.push(0x6c);
                out.push(0x73);
                out.push(0x65);
            }
        },
        JsonValue::UInt(n) => {
            write_u64(*n, out);
        },
        JsonValue::Int(n) => {
            write_i64(*n, out);
        },
        JsonValue::Str(s) => {
            write_str(s.as_str().as_bytes(), out);
        },
        JsonValue::Text(b) => {
            write_str(b.as_slice(), out);
        },
        JsonValue::Arr(items) => {
            out.push(0x5b);
            let n = items.len();
            let mut i: usize = 0;
            while i < n
                invariant
                    n == items@.len(),
                    i <= n,
                    *j == JsonValue::Arr(*items),
                    out@ == start + seq![0x5bu8] + enc_items(json_view_seq(items@.take(i as int))),
                decreases n - i,
            {
                let ghost before = out@;
                if i > 0 {
                    out.push(0x2c);
                }
                proof {
                    assert(decreases_to!(*j => (*j)->Arr_0));
                    assert(decreases_to!(*items => items@));
                    assert(decreases_to!(items@ => items@[i as int]));
                    assert(decreases_to!(*j => items@[i as int]));
                }
                write_json(&items[i], out);
                proof {
                    let t = items@.take(i + 1);
                    assert(t.drop_last() =~= items@.take(i as int));
                    assert(t.last() == items@[i as int]);
                    lemma_view_seq_len(items@.take(i as int));
                    lemma_enc_items_push(
                        json_view_seq(items@.take(i as int)),
                        json_view(items@[i as int]),
                    );
                }
                i += 1;
                assert(out@ =~= start + seq![0x5bu8] + enc_items(json_view_seq(items@.take(i as int))));
            }
            assert(items@.take(n as int) =~= items@);
            out.push(0x5d);
        },
        JsonValue::Obj(fields) => {
            out.push(0x7b);
            let n = fields.len();
            let mut i: usize = 0;
            while i < n
                invariant
                    n == fields@.len(),
                    i <= n,
                    *j == JsonValue::Obj(*fields),
                    out@ == start + seq![0x7bu8] + enc_fields(json_view_fields(fields@.take(i as int))),
                decreases n - i,
            {
                if i > 0 {
                    out.push(0x2c);
                }
                let (k, v) = &fields[i];
                write_str(k.as_str().as_bytes(), out);
                out.push(0x3a);
                proof {
                    assert(decreases_to!(*j => (*j)->Obj_0));
                    assert(decreases_to!(*fields => fields@));
                    assert(decreases_to!(fields@ => fields@[i as int]));
                    assert(decreases_to!(fields@[i as int] => fields@[i as int].1));
                    assert(decreases_to!(*j => fields@[i as int].1));
                }
                write_json(v, out);
                proof {
                    let t = fields@.take(i + 1);
                    assert(t.drop_last() =~= fields@.take(i as int));
                    assert(t.last() == fields@[i as int]);
                    lemma_view_fields_len(fields@.take(i as int));
                    lemma_enc_fields_push(
                        json_view_fields(fields@.take(i as int)),
                        encode_utf8(k@),
                        json_view(*v),
                    );
                }
                i += 1;
                assert(out@ =~= start + seq![0x7bu8] + enc_fields(json_view_fields(fields@.take(i as int))));
            }
            assert(fields@.take(n as int) =~= fields@);
            out.push(0x7d);
        },
    }
    assert(out@ =~= start + enc(json_view(*j)));
}


/// The canonical text of `j`.
pub fn to_bytes(j: &JsonValue) -> (b: Vec<u8>)
    ensures
        b@ == enc(json_view(*j)),
{
    let mut out = Vec::new();
    write_json(j, &mut out);
    assert(out@ =~= enc(json_view(*j)));
    out
}

pub open spec fn jstr(s: Seq<char>) -> Json {
    Json::Str(encode_utf8(s))
}

pub fn str_json(s: &str) -> (j: JsonValue)
    ensures
        json_view(j) == jstr(s@),
{
    JsonValue::Str(s.to_owned())
}

pub fn opt_str_json(s: &Option<String>) -> (j: JsonValue)
    ensures
        json_view(j) == match s {
            Some(v) => jstr(v@),
            None => Json::Null,
        },
{
    match s {
        Some(v) => JsonValue::Str(v.clone()),
        None => JsonValue::Null,
    }
}

/// Appends `key: v` to an object under construction.
pub fn push_field(fields: &mut Vec<(String, JsonValue)>, key: &str, v: JsonValue)
    ensures
        json_view_fields(final(fields)@) == json_view_fields(old(fields)@).push(
            (encode_utf8(key@), json_view(v)),
        ),
{
    let ghost before = fields@;
    fields.push((key.to_owned(), v));
    assert(fields@.drop_last() =~= before);
}

/// A JSON array holding `conv` of each item, in order.
pub fn json_array<T, F: Fn(&T) -> JsonValue>(items: &Vec<T>, conv: F, Ghost(f): Ghost<
    spec_fn(T) -> Json,
>) -> (j: JsonValue)
    requires
        forall|x: &T| #[trigger] conv.requires((x,)),
        forall|x: &T, r: JsonValue| #[trigger] conv.ensures((x,), r) ==> json_view(r) == f(*x),
    ensures
        json_view(j) == Json::Arr(items@.map_values(f)),
{
    let mut out: Vec<JsonValue> = Vec::new();
    let n = items.len();
    let mut i: usize = 0;
    while i < n
        invariant
            n == items@.len(),
            i <= n,
            json_view_seq(out@) == items@.take(i as int).map_values(f),
            forall|x: &T| #[trigger] conv.requires((x,)),
            forall|x: &T, r: JsonValue| #[trigger] conv.ensures((x,), r) ==> json_view(r) == f(*x),
        decreases n - i,
    {
        let v = conv(&items[i]);
        let ghost before = out@;
        out.push(v);
        assert(out@.drop_last() =~= before);
        assert(items@.take(i + 1).map_values(f) =~= items@.take(i as int).map_values(f).push(
            f(items@[i as int]),
        ));
        i += 1;
    }
    assert(items@.take(n as int) =~= items@);
    JsonValue::Arr(out)
}

pub open spec fn strs_json(s: Seq<String>) -> Json {
    Json::Arr(s.map_values(str_elem_json_fn()))
}

pub fn strs_to_json(items: &Vec<String>) -> (j: JsonValue)
    ensures
        json_view(j) == strs_json(items@),
{
    let conv = |x: &String| -> (r: JsonValue)
        ensures
            json_view(r) == jstr(x@),
        { str_json(x.as_str()) };
    json_array(items, conv, Ghost(str_elem_json_fn()))
}


/// A JSON array holding `conv` of each item, the items taken in the order a
/// stable sort under `order` gives.
pub fn json_array_sorted<T, G: Fn(&T, &T) -> i8, F: Fn(&T) -> JsonValue>(
    items: &Vec<T>,
    compare: G,
    Ghost(order): Ghost<spec_fn(T, T) -> int>,
    conv: F,
    Ghost(f): Ghost<spec_fn(T) -> Json>,
) -> (j: JsonValue)
    requires
        forall|a: &T, b: &T| #[trigger] compare.requires((a, b)),
        forall|a: &T, b: &T, x: i8| #[trigger] compare.ensures((a, b), x) ==> ((x > 0) <==> (order(*a, *b) > 0)),
        forall|x: &T| #[trigger] conv.requires((x,)),
        forall|x: &T, r: JsonValue| #[trigger] conv.ensures((x,), r) ==> json_view(r) == f(*x),
    ensures
        json_view(j) == Json::Arr(sort_seq(items@, order).map_values(f)),
{
    let idx = sorted_indices(items, compare, Ghost(order));
    let ghost vs = items@;
    let mut out: Vec<JsonValue> = Vec::new();
    let n = idx.len();
    let mut k: usize = 0;
    while k < n
        invariant
            n == idx@.len(),
            k <= n,
            vs == items@,
            forall|m: int| 0 <= m < idx@.len() ==> #[trigger] idx@[m] < items@.len(),
            json_view_seq(out@) == Seq::new(k as nat, |m: int| f(vs[idx@[m] as int])),
            forall|x: &T| #[trigger] conv.requires((x,)),
            forall|x: &T, r: JsonValue| #[trigger] conv.ensures((x,), r) ==> json_view(r) == f(*x),
        decreases n - k,
    {
        assert(idx@[k as int] < items@.len());
        let v = conv(&items[idx[k]]);
        let ghost before = out@;
        out.push(v);
        assert(out@.drop_last() =~= before);
        k += 1;
        assert(json_view_seq(out@) =~= Seq::new(k as nat, |m: int| f(vs[idx@[m] as int])));
    }
    proof {
        let sorted = sort_seq(items@, order);
        assert(idx@.map_values(|i: usize| items@[i as int]) == sorted);
        assert forall|m: int| 0 <= m < n implies #[trigger] sorted.map_values(f)[m] == f(
            vs[idx@[m] as int],
        ) by {
            assert(idx@.map_values(|i: usize| items@[i as int])[m] == items@[idx@[m] as int]);
        }
        assert(json_view_seq(out@) =~= sorted.map_values(f));
    }
    JsonValue::Arr(out)
}


pub open spec fn str_elem_json_fn() -> spec_fn(String) -> Json {
    |x: String| jstr(x@)
}

/// A JSON array of the strings, sorted.
pub fn sorted_strs_to_json(items: &Vec<String>) -> (j: JsonValue)
    ensures
        json_view(j) == Json::Arr(sort_seq(items@, str_order()).map_values(str_elem_json_fn())),
{
    let by_order = |a: &String, b: &String| -> (r: i8)
        ensures
            r as int == str_order()(*a, *b),
        { compare_str(a.as_str(), b.as_str()) };
    let conv = |x: &String| -> (r: JsonValue)
        ensures
            json_view(r) == jstr(x@),
        { str_json(x.as_str()) };
    json_array_sorted(items, by_order, Ghost(str_order()), conv, Ghost(str_elem_json_fn()))
}


/// Object fields ordered by the bytes of their keys.
pub open spec fn field_key_order() -> spec_fn((Seq<u8>, Json), (Seq<u8>, Json)) -> int {
    |a: (Seq<u8>, Json), b: (Seq<u8>, Json)| bytes_ord(a.0, b.0)
}

/// `j` with the fields of every object, at every depth, sorted by key (the
/// form a JSON value takes after a round trip through a key-sorted map).
pub open spec fn sort_keys(j: Json) -> Json
    decreases j, 2int,
{
    match j {
        Json::Arr(items) => Json::Arr(sort_keys_items(items)),
        Json::Obj(fields) => Json::Obj(sort_seq(sort_keys_fields(fields), field_key_order())),
        _ => j,
    }
}

pub open spec fn sort_keys_items(s: Seq<Json>) -> Seq<Json>
    decreases s, 1int,
{
    if s.len() == 0 {
        s
    } else {
        sort_keys_items(s.drop_last()).push(sort_keys(s.last()))
    }
}

pub open spec fn sort_keys_fields(s: Seq<(Seq<u8>, Json)>) -> Seq<(Seq<u8>, Json)>
    decreases s, 1int,
{
    if s.len() == 0 {
        s
    } else {
        sort_keys_fields(s.drop_last()).push((s.last().0, sort_keys(s.last().1)))
    }
}

pub open spec fn field_view(f: (String, JsonValue)) -> (Seq<u8>, Json) {
    (encode_utf8(f.0@), json_view(f.1))
}

pub open spec fn field_view_fn() -> spec_fn((String, JsonValue)) -> (Seq<u8>, Json) {
    |f: (String, JsonValue)| field_view(f)
}

pub open spec fn value_field_order() -> spec_fn((String, JsonValue), (String, JsonValue)) -> int {
    |a: (String, JsonValue), b: (String, JsonValue)| str_ord(a.0@, b.0@)
}

proof fn lemma_fields_map(s: Seq<(String, JsonValue)>)
    ensures
        json_view_fields(s) == s.map_values(field_view_fn()),
    decreases s.len(),
{
    if s.len() > 0 {
        lemma_fields_map(s.drop_last());
        assert(s.map_values(field_view_fn()) =~= s.drop_last().map_values(field_view_fn()).push(
            field_view(s.last()),
        ));
    } else {
        assert(s.map_values(field_view_fn()) =~= Seq::<(Seq<u8>, Json)>::empty());
    }
}

/// `j` with every object's fields sorted by key, at every depth.
pub fn sort_json_keys(j: JsonValue) -> (r: JsonValue)
    ensures
        json_view(r) == sort_keys(json_view(j)),
    decreases j,
{
    match j {
        JsonValue::Arr(items) => {
            let ghost orig = items@;
            let mut out: Vec<JsonValue> = Vec::new();
            let mut rest = items;
            let n = rest.len();
            let mut i: usize = 0;
            while i < n
                invariant
                    n == orig.len(),
                    i <= n,
                    rest@ == orig.skip(i as int),
                    json_view_seq(out@) == sort_keys_items(json_view_seq(orig.take(i as int))),
                    forall|k: int| 0 <= k < orig.len() ==> decreases_to!(j => #[trigger] orig[k]),
                decreases n - i,
            {
                let x = rest.remove(0);
                assert(x == orig[i as int]);
                let y = sort_json_keys(x);
                let ghost before = out@;
                out.push(y);
                proof {
                    assert(out@.drop_last() =~= before);
                    assert(orig.take(i + 1).drop_last() =~= orig.take(i as int));
                    assert(orig.skip(i as int).remove(0) =~= orig.skip(i + 1));
                    let a = json_view_seq(orig.take(i as int));
                    let b = json_view_seq(orig.take(i + 1));
                    assert(b == a.push(json_view(orig[i as int])));
                    assert(b.drop_last() =~= a);
                }
                i += 1;
            }
            assert(orig.take(n as int) =~= orig);
            JsonValue::Arr(out)
        },
        JsonValue::Obj(fields) => {
            let ghost orig = fields@;
            let mut mapped: Vec<(String, JsonValue)> = Vec::new();
            let mut rest = fields;
            let n = rest.len();
            let mut i: usize = 0;
            while i < n
                invariant
                    n == orig.len(),
                    i <= n,
                    rest@ == orig.skip(i as int),
                    json_view_fields(mapped@) == sort_keys_fields(json_view_fields(orig.take(i as int))),
                    forall|k: int| 0 <= k < orig.len() ==> decreases_to!(j => #[trigger] orig[k].1),
                decreases n - i,
            {
                let (k, x) = rest.remove(0);
                assert(x == orig[i as int].1);
                let y = sort_json_keys(x);
                let ghost before = mapped@;
                mapped.push((k, y));
                proof {
                    assert(mapped@.drop_last() =~= before);
                    assert(orig.take(i + 1).drop_last() =~= orig.take(i as int));
                    assert(orig.skip(i as int).remove(0) =~= orig.skip(i + 1));
                    let a = json_view_fields(orig.take(i as int));
                    let b = json_view_fields(orig.take(i + 1));
                    assert(b == a.push((encode_utf8(orig[i as int].0@), json_view(orig[i as int].1))));
                    assert(b.drop_last() =~= a);
                }
                i += 1;
            }
            assert(orig.take(n as int) =~= orig);
            let by_key = |a: &(String, JsonValue), b: &(String, JsonValue)| -> (r: i8)
                ensures
                    r as int == str_ord(a.0@, b.0@),
                { compare_str(a.0.as_str(), b.0.as_str()) };
            let ghost m = mapped@;
            let sorted = sort_by_order(mapped, by_key, Ghost(value_field_order()));
            proof {
                lemma_sort_seq_map(m, value_field_order(), field_key_order(), field_view_fn());
                lemma_fields_map(m);
                lemma_fields_map(sorted@);
            }
            JsonValue::Obj(sorted)
        },
        other => other,
    }
}


/// Appends `x` to an array under construction.
pub fn push_item(items: &mut Vec<JsonValue>, x: JsonValue)
    ensures
        json_view_seq(final(items)@) == json_view_seq(old(items)@).push(json_view(x)),
{
    let ghost before = items@;
    items.push(x);
    assert(items@.drop_last() =~= before);
}

/// `String::from_utf8`: std documents that it gives the text whose UTF-8
/// encoding is exactly `bytes`, and fails exactly when they are not valid
/// UTF-8.
#[verifier::external_body]
pub fn text_from_utf8(bytes: Vec<u8>) -> (r: Option<String>)
    ensures
        r matches Some(s) ==> vstd::utf8::encode_utf8(s@) == bytes@,
        vstd::utf8::valid_utf8(bytes@) <==> r is Some,
{
    String::from_utf8(bytes).ok()
}

} // verus!
