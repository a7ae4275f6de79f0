//! GGUF files as their writers lay them out, and what is read from them.
use vstd::prelude::*;
use vstd::utf8::{decode_utf8, valid_utf8};
use crate::api::gguf::{
    entries_at, entry_at, field_of, fixed_size, gguf_metadata, greatest, head_counts_entry,
    int_size, ints_at, le, no_metadata, number_entry, pattern_entry, string_at, value_end,
    values_end, with_number, GgufErrorView, GgufField, GgufView,
};
use crate::text::has_suffix;

verus! {

/// A value of an entry. A scalar is its type and its bytes.
pub enum GgufValue {
    Scalar { tag: u32, bytes: Seq<u8> },
    Text(Seq<u8>),
    List { elem: u32, items: Seq<GgufValue> },
}

/// An entry: a key and a value.
pub struct GgufEntry {
    pub key: Seq<u8>,
    pub value: GgufValue,
}

/// The types that the format numbers: three of one byte (`uint8`, `int8`, `bool`), two of two
/// (`uint16`, `int16`), three of four (`uint32`, `int32`, `float32`) and three of eight (`uint64`,
/// `int64`, `float64`).
pub open spec fn scalar_width(tag: u32) -> nat {
    match tag {
        0 => 1,
        1 => 1,
        2 => 2,
        3 => 2,
        4 => 4,
        5 => 4,
        6 => 4,
        7 => 1,
        10 => 8,
        11 => 8,
        12 => 8,
        _ => 0,
    }
}

/// The number of a value's type.
pub open spec fn tag_of(v: GgufValue) -> u32 {
    match v {
        GgufValue::Scalar { tag, .. } => tag,
        GgufValue::Text(_) => 8,
        GgufValue::List { .. } => 9,
    }
}

/// Whether bytes can be a string of a file.
pub open spec fn is_string(bytes: Seq<u8>) -> bool {
    valid_utf8(bytes) && bytes.len() <= 1_000_000
}

/// Whether a value is one of the format: a scalar in the width of its type, a string, or a list of
/// values of one type.
pub open spec fn is_value(v: GgufValue) -> bool
    decreases v,
{
    match v {
        GgufValue::Scalar { tag, bytes } => bytes.len() > 0 && bytes.len() == scalar_width(tag),
        GgufValue::Text(bytes) => is_string(bytes),
        GgufValue::List { elem, items } => {
            &&& items.len() <= u64::MAX
            &&& forall|i: int|
                #![trigger items[i]]
                0 <= i < items.len() ==> is_value(items[i]) && tag_of(items[i]) == elem
        },
    }
}

/// A number in `k` bytes, the lowest first.
pub open spec fn le_bytes(n: int, k: nat) -> Seq<u8>
    decreases k,
{
    if k == 0 {
        Seq::empty()
    } else {
        seq![(n % 256) as u8] + le_bytes(n / 256, (k - 1) as nat)
    }
}

/// The bytes of a value.
pub open spec fn value_bytes(v: GgufValue) -> Seq<u8>
    decreases v, 0nat,
{
    match v {
        GgufValue::Scalar { bytes, .. } => bytes,
        GgufValue::Text(bytes) => le_bytes(bytes.len() as int, 8) + bytes,
        GgufValue::List { elem, items } => le_bytes(elem as int, 4) + le_bytes(
            items.len() as int,
            8,
        ) + item_bytes(items, items.len()),
    }
}

/// The bytes of the last `n` items of a list.
pub open spec fn item_bytes(items: Seq<GgufValue>, n: nat) -> Seq<u8>
    decreases items, n,
{
    if 0 < n <= items.len() {
        value_bytes(items[items.len() - n]) + item_bytes(items, (n - 1) as nat)
    } else {
        Seq::empty()
    }
}

/// The bytes of an entry: the key, the type and the value.
pub open spec fn entry_bytes(e: GgufEntry) -> Seq<u8> {
    le_bytes(e.key.len() as int, 8) + e.key + le_bytes(tag_of(e.value) as int, 4) + value_bytes(
        e.value,
    )
}

/// The bytes of entries, in order.
pub open spec fn entries_bytes(es: Seq<GgufEntry>) -> Seq<u8>
    decreases es.len(),
{
    if es.len() == 0 {
        Seq::empty()
    } else {
        entries_bytes(es.drop_last()) + entry_bytes(es.last())
    }
}

/// The bytes of a file: the magic, the version and the number of tensors, the number of entries,
/// the entries, and whatever follows.
pub open spec fn file_bytes(
    version: Seq<u8>,
    tensors: Seq<u8>,
    es: Seq<GgufEntry>,
    rest: Seq<u8>,
) -> Seq<u8> {
    seq![0x47u8, 0x47u8, 0x55u8, 0x46u8] + version + tensors + le_bytes(es.len() as int, 8)
        + entries_bytes(es) + rest
}

/// Whether an entry is one of the format.
pub open spec fn is_entry(e: GgufEntry) -> bool {
    is_string(e.key) && is_value(e.value)
}

/// The number that a value of an integer type stands for: its four lowest bytes.
pub open spec fn integer_of(v: GgufValue) -> Option<u32> {
    match v {
        GgufValue::Scalar { tag, bytes } => if tag == 4 || tag == 5 || tag == 10 || tag == 11 {
            Some((bytes[0] + 256 * bytes[1] + 65536 * bytes[2] + 16777216 * bytes[3]) as u32)
        } else {
            None
        },
        _ => None,
    }
}

/// The numbers of a list of integers; `None` for any other value. A list without items is one.
pub open spec fn integers_of(v: GgufValue) -> Option<Seq<u32>> {
    match v {
        GgufValue::List { elem, items } => if elem == 4 || elem == 5 || elem == 10 || elem == 11
            || items.len() == 0 {
            Some(Seq::new(items.len(), |i: int| integer_of(items[i])->0))
        } else {
            None
        },
        _ => None,
    }
}

/// The flags of a list of booleans; `None` for any other value.
pub open spec fn flags_of(v: GgufValue) -> Option<Seq<bool>> {
    match v {
        GgufValue::List { elem, items } => if elem == 7 {
            Some(Seq::new(items.len(), |i: int| items[i]->bytes[0] != 0))
        } else {
            None
        },
        _ => None,
    }
}

/// Whether an entry's key ends in `suffix`, whatever architecture it begins with.
pub open spec fn is_about(e: GgufEntry, suffix: Seq<char>) -> bool {
    has_suffix(decode_utf8(e.key), suffix)
}

/// The last number that entries with a key give.
pub open spec fn last_number(es: Seq<GgufEntry>, suffix: Seq<char>) -> Option<u32>
    decreases es.len(),
{
    if es.len() == 0 {
        None
    } else if is_about(es.last(), suffix) && integer_of(es.last().value) is Some {
        integer_of(es.last().value)
    } else {
        last_number(es.drop_last(), suffix)
    }
}

/// The last list of numbers that entries with a key give.
pub open spec fn last_numbers(es: Seq<GgufEntry>, suffix: Seq<char>) -> Option<Seq<u32>>
    decreases es.len(),
{
    if es.len() == 0 {
        None
    } else if is_about(es.last(), suffix) && integers_of(es.last().value) is Some {
        integers_of(es.last().value)
    } else {
        last_numbers(es.drop_last(), suffix)
    }
}

/// The last list of flags that entries with a key give.
pub open spec fn last_flags(es: Seq<GgufEntry>, suffix: Seq<char>) -> Option<Seq<bool>>
    decreases es.len(),
{
    if es.len() == 0 {
        None
    } else if is_about(es.last(), suffix) && flags_of(es.last().value) is Some {
        flags_of(es.last().value)
    } else {
        last_flags(es.drop_last(), suffix)
    }
}

/// The number of kv heads: the last number, or the greatest of the last numbers, that entries give.
pub open spec fn last_heads(es: Seq<GgufEntry>, suffix: Seq<char>) -> Option<u32>
    decreases es.len(),
{
    if es.len() == 0 {
        None
    } else if is_about(es.last(), suffix) && integer_of(es.last().value) is Some {
        integer_of(es.last().value)
    } else if is_about(es.last(), suffix) && integers_of(es.last().value) is Some && integers_of(
        es.last().value,
    )->0.len() > 0 {
        greatest(integers_of(es.last().value)->0)
    } else {
        last_heads(es.drop_last(), suffix)
    }
}

/// What entries say of a model.
pub open spec fn described(es: Seq<GgufEntry>) -> GgufView {
    GgufView {
        context_length: last_number(es, ".context_length"@),
        block_count: last_number(es, ".block_count"@),
        embedding_length: last_number(es, ".embedding_length"@),
        head_count: last_number(es, ".attention.head_count"@),
        head_count_kv: last_heads(es, ".attention.head_count_kv"@),
        key_length: last_number(es, ".attention.key_length"@),
        value_length: last_number(es, ".attention.value_length"@),
        key_length_swa: last_number(es, ".attention.key_length_swa"@),
        value_length_swa: last_number(es, ".attention.value_length_swa"@),
        sliding_window: last_number(es, ".attention.sliding_window"@),
        expert_count: last_number(es, ".expert_count"@),
        head_count_kv_per_layer: last_numbers(es, ".attention.head_count_kv"@),
        sliding_window_pattern: last_flags(es, ".attention.sliding_window_pattern"@),
    }
}

/// Whether bytes stand in `s` from position `p` on.
spec fn at(s: Seq<u8>, p: int, b: Seq<u8>) -> bool {
    0 <= p && p + b.len() <= s.len() && s.subrange(p, p + b.len()) == b
}

/// The parts of bytes stand one behind the other.
proof fn lemma_at_parts(s: Seq<u8>, p: int, a: Seq<u8>, b: Seq<u8>)
    requires
        at(s, p, a + b),
    ensures
        at(s, p, a),
        at(s, p + a.len(), b),
{
    let all = s.subrange(p, p + (a + b).len());
    assert(s.subrange(p, p + a.len()) =~= a) by {
        assert forall|i: int| 0 <= i < a.len() implies s[p + i] == a[i] by {
            assert(all[i] == (a + b)[i]);
        }
    }
    let q = p + a.len();
    assert(s.subrange(q, q + b.len()) =~= b) by {
        assert forall|i: int| 0 <= i < b.len() implies s[q + i] == b[i] by {
            assert(all[a.len() + i] == (a + b)[a.len() + i]);
        }
    }
}

/// A byte of bytes.
proof fn lemma_at_byte(s: Seq<u8>, p: int, b: Seq<u8>, i: int)
    requires
        at(s, p, b),
        0 <= i < b.len(),
    ensures
        s[p + i] == b[i],
{
    assert(s.subrange(p, p + b.len())[i] == b[i]);
}

/// 256 to the power of `k`.
spec fn range(k: nat) -> int
    decreases k,
{
    if k == 0 {
        1
    } else {
        256 * range((k - 1) as nat)
    }
}

proof fn lemma_le_len(n: int, k: nat)
    ensures
        le_bytes(n, k).len() == k,
    decreases k,
{
    if k > 0 {
        lemma_le_len(n / 256, (k - 1) as nat);
    }
}

/// A number that was written is read.
proof fn lemma_le_at(s: Seq<u8>, p: int, n: int, k: nat)
    requires
        at(s, p, le_bytes(n, k)),
        0 <= n < range(k),
    ensures
        le(s, p, k) == n,
        le_bytes(n, k).len() == k,
    decreases k,
{
    lemma_le_len(n, k);
    if k > 0 {
        let low = seq![(n % 256) as u8];
        let high = le_bytes(n / 256, (k - 1) as nat);
        lemma_at_parts(s, p, low, high);
        lemma_at_byte(s, p, low, 0);
        lemma_le_at(s, p + 1, n / 256, (k - 1) as nat);
        assert(n == 256 * (n / 256) + n % 256);
    }
}

proof fn lemma_ranges()
    ensures
        range(4) == 4294967296,
        range(8) == 18446744073709551616,
{
    reveal_with_fuel(range, 9);
}

/// A string that was written is read.
proof fn lemma_string_read(s: Seq<u8>, p: int, b: Seq<u8>)
    requires
        at(s, p, le_bytes(b.len() as int, 8) + b),
        is_string(b),
    ensures
        string_at(s, p) == Ok::<(Seq<char>, int), GgufErrorView>(
            (decode_utf8(b), p + 8 + b.len()),
        ),
{
    lemma_ranges();
    lemma_le_len(b.len() as int, 8);
    lemma_at_parts(s, p, le_bytes(b.len() as int, 8), b);
    lemma_le_at(s, p, b.len() as int, 8);
}

/// A value of the format has bytes.
proof fn lemma_value_len(v: GgufValue)
    requires
        is_value(v),
    ensures
        value_bytes(v).len() > 0,
{
    match v {
        GgufValue::Text(b) => {
            lemma_le_len(b.len() as int, 8);
        },
        GgufValue::List { elem, items } => {
            lemma_le_len(elem as int, 4);
        },
        _ => {},
    }
}

/// A value that was written is passed over as a whole.
proof fn lemma_value_passed(s: Seq<u8>, p: int, v: GgufValue)
    requires
        is_value(v),
        at(s, p, value_bytes(v)),
    ensures
        value_end(s, p, tag_of(v)) == Ok::<int, GgufErrorView>(p + value_bytes(v).len()),
    decreases v, 0nat,
{
    match v {
        GgufValue::Scalar { tag, bytes } => {
            assert(fixed_size(tag) == Some(bytes.len()));
        },
        GgufValue::Text(b) => {
            lemma_le_len(b.len() as int, 8);
            lemma_string_read(s, p, b);
        },
        GgufValue::List { elem, items } => {
            lemma_list_head(s, p, elem, items);
            lemma_items_passed(s, p + 12, elem, items, items.len());
        },
    }
}

/// The head of a list that was written: the type of its items and their number.
proof fn lemma_list_head(s: Seq<u8>, p: int, elem: u32, items: Seq<GgufValue>)
    requires
        items.len() <= u64::MAX,
        at(s, p, value_bytes(GgufValue::List { elem, items })),
    ensures
        le(s, p, 4) == elem,
        le(s, p + 4, 8) == items.len(),
        at(s, p + 12, item_bytes(items, items.len())),
        p + 12 <= s.len(),
        value_bytes(GgufValue::List { elem, items }).len() == 12 + item_bytes(
            items,
            items.len(),
        ).len(),
{
    lemma_ranges();
    lemma_le_len(elem as int, 4);
    lemma_le_len(items.len() as int, 8);
    let a = le_bytes(elem as int, 4);
    let b = le_bytes(items.len() as int, 8);
    lemma_at_parts(s, p, a + b, item_bytes(items, items.len()));
    lemma_at_parts(s, p, a, b);
    lemma_le_at(s, p, elem as int, 4);
    lemma_le_at(s, p + 4, items.len() as int, 8);
}

/// The last `n` items of a list that was written are passed over.
proof fn lemma_items_passed(s: Seq<u8>, p: int, elem: u32, items: Seq<GgufValue>, n: nat)
    requires
        n <= items.len(),
        forall|i: int|
            #![trigger items[i]]
            0 <= i < items.len() ==> is_value(items[i]) && tag_of(items[i]) == elem,
        at(s, p, item_bytes(items, n)),
    ensures
        values_end(s, p, elem, n) == Ok::<int, GgufErrorView>(p + item_bytes(items, n).len()),
    decreases items, n,
{
    if n > 0 {
        let v = items[items.len() - n];
        let rest = item_bytes(items, (n - 1) as nat);
        lemma_at_parts(s, p, value_bytes(v), rest);
        lemma_value_passed(s, p, v);
        lemma_value_len(v);
        lemma_items_passed(s, p + value_bytes(v).len(), elem, items, (n - 1) as nat);
    }
}

/// The lowest bytes of an integer that was written.
proof fn lemma_integer_read(s: Seq<u8>, p: int, v: GgufValue)
    requires
        is_value(v),
        integer_of(v) is Some,
        at(s, p, value_bytes(v)),
    ensures
        le(s, p, 4) as u32 == integer_of(v)->0,
        int_size(tag_of(v)) == Some(value_bytes(v).len()),
        p + value_bytes(v).len() <= s.len(),
{
    let b = value_bytes(v);
    lemma_at_byte(s, p, b, 0);
    lemma_at_byte(s, p, b, 1);
    lemma_at_byte(s, p, b, 2);
    lemma_at_byte(s, p, b, 3);
    reveal_with_fuel(le, 5);
    let x = b[0] as int;
    let y = b[1] as int;
    let z = b[2] as int;
    let w = b[3] as int;
    assert(le(s, p, 4) == x + 256 * (y + 256 * (z + 256 * (w + 256 * 0))));
}

/// Items of one width stand at equal distances.
proof fn lemma_item_at(s: Seq<u8>, p: int, items: Seq<GgufValue>, width: nat, n: nat, i: int)
    requires
        n <= items.len(),
        forall|k: int|
            #![trigger items[k]]
            0 <= k < items.len() ==> value_bytes(items[k]).len() == width,
        at(s, p, item_bytes(items, n)),
        0 <= i < n,
    ensures
        at(s, p + i * width, value_bytes(items[items.len() - n + i])),
    decreases n,
{
    let v = items[items.len() - n];
    let rest = item_bytes(items, (n - 1) as nat);
    lemma_at_parts(s, p, value_bytes(v), rest);
    if i > 0 {
        lemma_item_at(s, p + width, items, width, (n - 1) as nat, i - 1);
        assert(p + width + (i - 1) * width == p + i * width) by (nonlinear_arith);
    } else {
        assert(0 * width == 0);
    }
}

/// How many bytes the last `n` items of one width have.
proof fn lemma_items_len(items: Seq<GgufValue>, width: nat, n: nat)
    requires
        n <= items.len(),
        forall|k: int|
            #![trigger items[k]]
            0 <= k < items.len() ==> value_bytes(items[k]).len() == width,
    ensures
        item_bytes(items, n).len() == n * width,
    decreases n,
{
    if n > 0 {
        lemma_items_len(items, width, (n - 1) as nat);
        assert((n - 1) * width + width == n * width) by (nonlinear_arith);
    } else {
        assert(0 * width == 0);
    }
}

/// The first `n` integers of a list that was written.
proof fn lemma_integers_read(s: Seq<u8>, p: int, elem: u32, items: Seq<GgufValue>, n: nat)
    requires
        n <= items.len(),
        elem == 4 || elem == 5 || elem == 10 || elem == 11,
        forall|i: int|
            #![trigger items[i]]
            0 <= i < items.len() ==> is_value(items[i]) && tag_of(items[i]) == elem,
        at(s, p, item_bytes(items, items.len())),
    ensures
        ints_at(s, p, elem, n) == Ok::<(Seq<u32>, int), GgufErrorView>(
            (
                Seq::new(n, |i: int| integer_of(items[i])->0),
                p + n * scalar_width(elem),
            ),
        ),
    decreases n,
{
    let width = scalar_width(elem);
    assert forall|k: int| #![trigger items[k]] 0 <= k < items.len() implies value_bytes(
        items[k],
    ).len() == width by {
        assert(is_value(items[k]));
    }
    if n > 0 {
        lemma_integers_read(s, p, elem, items, (n - 1) as nat);
        let i = n - 1;
        lemma_item_at(s, p, items, width, items.len(), i);
        assert(is_value(items[i]) && integer_of(items[i]) is Some);
        lemma_integer_read(s, p + i * width, items[i]);
        assert(p + (n - 1) * width + width == p + n * width) by (nonlinear_arith);
        let before = Seq::new((n - 1) as nat, |i: int| integer_of(items[i])->0);
        assert(before.push(integer_of(items[i])->0) =~= Seq::new(
            n,
            |i: int| integer_of(items[i])->0,
        ));
    } else {
        assert(Seq::new(0, |i: int| integer_of(items[i])->0) =~= Seq::<u32>::empty());
        assert(0 * width == 0);
    }
}

/// A character near the end of a text with a suffix.
proof fn lemma_suffix_char(key: Seq<char>, suffix: Seq<char>, back: int)
    requires
        has_suffix(key, suffix),
        1 <= back <= suffix.len(),
    ensures
        key.len() >= back,
        key[key.len() - back] == suffix[suffix.len() - back],
{
    let part = key.subrange(key.len() - suffix.len(), key.len() as int);
    assert(part[suffix.len() - back] == suffix[suffix.len() - back]);
}

/// A key is about one thing at most: the ends of the keys that are looked for exclude each other.
proof fn lemma_one_field(key: Seq<char>)
    ensures
        has_suffix(key, ".attention.head_count_kv"@) <==> field_of(key) == GgufField::HeadCountKv,
        has_suffix(key, ".attention.sliding_window_pattern"@) <==> field_of(key)
            == GgufField::SlidingWindowPattern,
        has_suffix(key, ".context_length"@) <==> field_of(key) == GgufField::ContextLength,
        has_suffix(key, ".block_count"@) <==> field_of(key) == GgufField::BlockCount,
        has_suffix(key, ".embedding_length"@) <==> field_of(key) == GgufField::EmbeddingLength,
        has_suffix(key, ".attention.head_count"@) <==> field_of(key) == GgufField::HeadCount,
        has_suffix(key, ".attention.key_length_swa"@) <==> field_of(key)
            == GgufField::KeyLengthSwa,
        has_suffix(key, ".attention.value_length_swa"@) <==> field_of(key)
            == GgufField::ValueLengthSwa,
        has_suffix(key, ".attention.key_length"@) <==> field_of(key) == GgufField::KeyLength,
        has_suffix(key, ".attention.value_length"@) <==> field_of(key) == GgufField::ValueLength,
        has_suffix(key, ".attention.sliding_window"@) <==> field_of(key)
            == GgufField::SlidingWindow,
        has_suffix(key, ".expert_count"@) <==> field_of(key) == GgufField::ExpertCount,
{
    reveal_strlit(".attention.head_count_kv");
    reveal_strlit(".attention.sliding_window_pattern");
    reveal_strlit(".context_length");
    reveal_strlit(".block_count");
    reveal_strlit(".embedding_length");
    reveal_strlit(".attention.head_count");
    reveal_strlit(".attention.key_length_swa");
    reveal_strlit(".attention.value_length_swa");
    reveal_strlit(".attention.key_length");
    reveal_strlit(".attention.value_length");
    reveal_strlit(".attention.sliding_window");
    reveal_strlit(".expert_count");
    let n = key.len() as int;
    if has_suffix(key, ".attention.head_count_kv"@) {
        lemma_suffix_char(key, ".attention.head_count_kv"@, 1);
        assert(key[n - 1] == 'v');
    }
    if has_suffix(key, ".attention.sliding_window_pattern"@) {
        lemma_suffix_char(key, ".attention.sliding_window_pattern"@, 1);
        assert(key[n - 1] == 'n');
    }
    if has_suffix(key, ".context_length"@) {
        lemma_suffix_char(key, ".context_length"@, 1);
        lemma_suffix_char(key, ".context_length"@, 8);
        assert(key[n - 1] == 'h' && key[n - 8] == 't');
    }
    if has_suffix(key, ".block_count"@) {
        lemma_suffix_char(key, ".block_count"@, 1);
        lemma_suffix_char(key, ".block_count"@, 7);
        assert(key[n - 1] == 't' && key[n - 7] == 'k');
    }
    if has_suffix(key, ".embedding_length"@) {
        lemma_suffix_char(key, ".embedding_length"@, 1);
        lemma_suffix_char(key, ".embedding_length"@, 8);
        assert(key[n - 1] == 'h' && key[n - 8] == 'g');
    }
    if has_suffix(key, ".attention.head_count"@) {
        lemma_suffix_char(key, ".attention.head_count"@, 1);
        lemma_suffix_char(key, ".attention.head_count"@, 7);
        assert(key[n - 1] == 't' && key[n - 7] == 'd');
    }
    if has_suffix(key, ".attention.key_length_swa"@) {
        lemma_suffix_char(key, ".attention.key_length_swa"@, 1);
        lemma_suffix_char(key, ".attention.key_length_swa"@, 12);
        assert(key[n - 1] == 'a' && key[n - 12] == 'y');
    }
    if has_suffix(key, ".attention.value_length_swa"@) {
        lemma_suffix_char(key, ".attention.value_length_swa"@, 1);
        lemma_suffix_char(key, ".attention.value_length_swa"@, 12);
        assert(key[n - 1] == 'a' && key[n - 12] == 'e');
    }
    if has_suffix(key, ".attention.key_length"@) {
        lemma_suffix_char(key, ".attention.key_length"@, 1);
        lemma_suffix_char(key, ".attention.key_length"@, 8);
        assert(key[n - 1] == 'h' && key[n - 8] == 'y');
    }
    if has_suffix(key, ".attention.value_length"@) {
        lemma_suffix_char(key, ".attention.value_length"@, 1);
        lemma_suffix_char(key, ".attention.value_length"@, 8);
        assert(key[n - 1] == 'h' && key[n - 8] == 'e');
    }
    if has_suffix(key, ".attention.sliding_window"@) {
        lemma_suffix_char(key, ".attention.sliding_window"@, 1);
        assert(key[n - 1] == 'w');
    }
    if has_suffix(key, ".expert_count"@) {
        lemma_suffix_char(key, ".expert_count"@, 1);
        lemma_suffix_char(key, ".expert_count"@, 7);
        assert(key[n - 1] == 't' && key[n - 7] == 't');
    }
}

/// Reading the value of a field with one number.
proof fn lemma_number_field(s: Seq<u8>, p: int, v: GgufValue, f: GgufField, m: GgufView)
    requires
        is_value(v),
        at(s, p, value_bytes(v)),
    ensures
        number_entry(s, p, tag_of(v), f, m) == Ok::<(GgufView, int), GgufErrorView>(
            (
                match integer_of(v) {
                    Some(n) => with_number(m, f, n),
                    None => m,
                },
                p + value_bytes(v).len(),
            ),
        ),
{
    if integer_of(v) is Some {
        lemma_integer_read(s, p, v);
    } else {
        lemma_value_passed(s, p, v);
        assert(int_size(tag_of(v)) is None);
    }
}

/// Reading the head counts.
proof fn lemma_heads_field(s: Seq<u8>, p: int, v: GgufValue, m: GgufView)
    requires
        is_value(v),
        at(s, p, value_bytes(v)),
    ensures
        ({
            let next = if integer_of(v) is Some {
                GgufView { head_count_kv: integer_of(v), ..m }
            } else if integers_of(v) is Some {
                GgufView {
                    head_count_kv: if integers_of(v)->0.len() > 0 {
                        greatest(integers_of(v)->0)
                    } else {
                        m.head_count_kv
                    },
                    head_count_kv_per_layer: integers_of(v),
                    ..m
                }
            } else {
                m
            };
            head_counts_entry(s, p, tag_of(v), m) == Ok::<(GgufView, int), GgufErrorView>(
                (next, p + value_bytes(v).len()),
            )
        }),
{
    match v {
        GgufValue::List { elem, items } => {
            lemma_list_head(s, p, elem, items);
            if elem == 4 || elem == 5 || elem == 10 || elem == 11 {
                lemma_integers_read(s, p + 12, elem, items, items.len());
                assert forall|k: int| #![trigger items[k]] 0 <= k < items.len() implies value_bytes(
                    items[k],
                ).len() == scalar_width(elem) by {
                    assert(is_value(items[k]));
                }
                lemma_items_len(items, scalar_width(elem), items.len());
                lemma_greatest(integers_of(v)->0);
            } else if items.len() == 0 {
                assert(integers_of(v)->0 =~= Seq::empty());
                assert(greatest(integers_of(v)->0) is None);
            } else {
                lemma_value_passed(s, p, v);
            }
        },
        _ => {
            lemma_number_field(s, p, v, GgufField::HeadCountKv, m);
        },
    }
}

proof fn lemma_greatest(v: Seq<u32>)
    ensures
        v.len() > 0 ==> greatest(v) is Some,
        v.len() == 0 ==> greatest(v) is None,
    decreases v.len(),
{
    if v.len() > 0 {
        lemma_greatest(v.drop_last());
    }
}

/// Reading the layer pattern.
proof fn lemma_pattern_field(s: Seq<u8>, p: int, v: GgufValue, m: GgufView)
    requires
        is_value(v),
        at(s, p, value_bytes(v)),
    ensures
        ({
            let next = if flags_of(v) is Some {
                GgufView { sliding_window_pattern: flags_of(v), ..m }
            } else {
                m
            };
            pattern_entry(s, p, tag_of(v), m) == Ok::<(GgufView, int), GgufErrorView>(
                (next, p + value_bytes(v).len()),
            )
        }),
{
    match v {
        GgufValue::List { elem, items } => {
            lemma_list_head(s, p, elem, items);
            if elem == 7 {
                assert forall|k: int| #![trigger items[k]] 0 <= k < items.len() implies value_bytes(
                    items[k],
                ).len() == 1 by {
                    assert(is_value(items[k]));
                }
                lemma_items_len(items, 1, items.len());
                let from = p + 12;
                let flags = Seq::new(items.len(), |i: int| s[from + i] != 0);
                assert forall|i: int| 0 <= i < items.len() implies #[trigger] flags[i]
                    == flags_of(v)->0[i] by {
                    lemma_item_at(s, from, items, 1, items.len(), i);
                    assert(is_value(items[i]) && tag_of(items[i]) == 7);
                    lemma_at_byte(s, from + i, value_bytes(items[i]), 0);
                }
                assert(flags =~= flags_of(v)->0);
            } else {
                lemma_value_passed(s, p, v);
            }
        },
        _ => {
            lemma_value_passed(s, p, v);
        },
    }
}

/// Reading an entry behind others.
proof fn lemma_entry_read(s: Seq<u8>, p: int, es: Seq<GgufEntry>, e: GgufEntry)
    requires
        is_entry(e),
        at(s, p, entry_bytes(e)),
    ensures
        entry_at(s, p, described(es)) == Ok::<(GgufView, int), GgufErrorView>(
            (described(es.push(e)), p + entry_bytes(e).len()),
        ),
{
    let m = described(es);
    let all = es.push(e);
    assert(all.drop_last() =~= es);
    let key = decode_utf8(e.key);
    let t = tag_of(e.value);
    let a = le_bytes(e.key.len() as int, 8) + e.key;
    let b = le_bytes(t as int, 4);
    lemma_le_len(e.key.len() as int, 8);
    lemma_le_len(t as int, 4);
    lemma_ranges();
    lemma_at_parts(s, p, a + b, value_bytes(e.value));
    lemma_at_parts(s, p, a, b);
    lemma_string_read(s, p, e.key);
    let q = p + 8 + e.key.len();
    lemma_le_at(s, q, t as int, 4);
    let r = q + 4;
    lemma_one_field(key);
    match field_of(key) {
        GgufField::HeadCountKv => {
            lemma_heads_field(s, r, e.value, m);
        },
        GgufField::SlidingWindowPattern => {
            lemma_pattern_field(s, r, e.value, m);
        },
        GgufField::Other => {
            lemma_value_passed(s, r, e.value);
        },
        f => {
            lemma_number_field(s, r, e.value, f, m);
        },
    }
    assert(entry_at(s, p, m)->Ok_0.0 =~= described(all));
}

/// Reading entries.
proof fn lemma_entries_read(s: Seq<u8>, p: int, es: Seq<GgufEntry>)
    requires
        forall|i: int| 0 <= i < es.len() ==> is_entry(#[trigger] es[i]),
        at(s, p, entries_bytes(es)),
    ensures
        entries_at(s, p, es.len()) == Ok::<(GgufView, int), GgufErrorView>(
            (described(es), p + entries_bytes(es).len()),
        ),
    decreases es.len(),
{
    if es.len() == 0 {
        assert(described(es) =~= no_metadata());
    } else {
        let less = es.drop_last();
        assert forall|i: int| 0 <= i < less.len() implies is_entry(#[trigger] less[i]) by {
            assert(less[i] == es[i]);
        }
        lemma_at_parts(s, p, entries_bytes(less), entry_bytes(es.last()));
        lemma_entries_read(s, p, less);
        assert(is_entry(es[es.len() - 1]));
        lemma_entry_read(s, p + entries_bytes(less).len(), less, es.last());
        assert(less.push(es.last()) =~= es);
    }
}

/// What a file says of its model is read: under each key the last number of an integer type, in
/// whatever width it was written, and the lists of head counts and of layers with a sliding window.
/// Scalars of every type, strings and lists, nested ones among them, that stand between are passed
/// over as wholes.
pub proof fn law_files_are_read(
    version: Seq<u8>,
    tensors: Seq<u8>,
    es: Seq<GgufEntry>,
    rest: Seq<u8>,
)
    requires
        version.len() == 4,
        tensors.len() == 8,
        es.len() <= 10_000,
        forall|i: int| 0 <= i < es.len() ==> is_entry(#[trigger] es[i]),
    ensures
        gguf_metadata(file_bytes(version, tensors, es, rest)) == Ok::<GgufView, GgufErrorView>(
            described(es),
        ),
{
    let s = file_bytes(version, tensors, es, rest);
    let magic = seq![0x47u8, 0x47u8, 0x55u8, 0x46u8];
    let count = le_bytes(es.len() as int, 8);
    lemma_le_len(es.len() as int, 8);
    lemma_ranges();
    assert(s.subrange(16, 24) =~= count);
    assert(at(s, 16, count));
    lemma_le_at(s, 16, es.len() as int, 8);
    let body = entries_bytes(es);
    assert(s.subrange(24, (24 + body.len()) as int) =~= body);
    lemma_entries_read(s, 24, es);
    assert(s[0] == magic[0] && s[1] == magic[1] && s[2] == magic[2] && s[3] == magic[3]);
}

/// More than ten thousand entries, a string of more than a million bytes, and a type that the
/// format does not number, are refused; so is a file that does not begin with the magic.
pub proof fn law_bad_files_are_refused(s: Seq<u8>, p: int, t: u32)
    requires
        s.len() >= 24,
        0 <= p && p + 8 <= s.len(),
    ensures
        s.take(4) != seq![0x47u8, 0x47u8, 0x55u8, 0x46u8] ==> gguf_metadata(s) == Err::<
            GgufView,
            GgufErrorView,
        >(GgufErrorView::NotGguf),
        s.take(4) == seq![0x47u8, 0x47u8, 0x55u8, 0x46u8] && le(s, 16, 8) > 10_000
            ==> gguf_metadata(s) is Err,
        le(s, p, 8) > 1_000_000 ==> string_at(s, p) is Err,
        t > 12 ==> value_end(s, p, t) == Err::<int, GgufErrorView>(GgufErrorView::UnknownType(t)),
{
    let magic = seq![0x47u8, 0x47u8, 0x55u8, 0x46u8];
    if s[0] == 0x47 && s[1] == 0x47 && s[2] == 0x55 && s[3] == 0x46 {
        assert(s.take(4) =~= magic);
    } else if s.take(4) == magic {
        assert(s.take(4)[0] == magic[0] && s.take(4)[1] == magic[1] && s.take(4)[2] == magic[2]
            && s.take(4)[3] == magic[3]);
    }
}

} // verus!
