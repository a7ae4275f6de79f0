//! What an entry that no field looks for does to the metadata of a file.
use vstd::prelude::*;
use crate::api::gguf::{
    entries_at, entry_at, field_of, gguf_metadata, head_counts_entry, int_size, ints_at, le,
    lemma_entry_prefix, lemma_ints_prefix, lemma_le_fits, lemma_string_prefix,
    lemma_value_end_prefix, lemma_values_end_prefix, number_entry, pattern_entry, skipped,
    string_at, value_end, values_end, GgufErrorView, GgufField, GgufView, MAX_ENTRIES,
};

verus! {

/// Whether the bytes of `s` from `p` to `e` stand in `t`, `d` bytes further on.
spec fn copied(s: Seq<u8>, t: Seq<u8>, p: int, e: int, d: int) -> bool {
    &&& 0 <= p <= e <= s.len()
    &&& 0 <= p + d
    &&& e + d <= t.len()
    &&& forall|i: int| p <= i < e ==> t[i + d] == #[trigger] s[i]
}

/// Whether `s` and `t` end with the copied bytes.
spec fn to_the_end(s: Seq<u8>, t: Seq<u8>, e: int, d: int) -> bool {
    e == s.len() && e + d == t.len()
}

/// What was read, `d` bytes further on.
spec fn moved<A>(r: Result<(A, int), GgufErrorView>, d: int) -> Result<(A, int), GgufErrorView> {
    match r {
        Ok((a, q)) => Ok((a, q + d)),
        Err(e) => Err(e),
    }
}

/// A position, `d` bytes further on.
spec fn moved_end(r: Result<int, GgufErrorView>, d: int) -> Result<int, GgufErrorView> {
    match r {
        Ok(q) => Ok(q + d),
        Err(e) => Err(e),
    }
}

/// Reading goes forward, within the bytes.
proof fn lemma_string_end(s: Seq<u8>, p: int)
    requires
        0 <= p <= s.len(),
    ensures
        string_at(s, p) matches Ok((_, q)) ==> p < q <= s.len(),
{
    if string_at(s, p) is Ok {
        lemma_string_prefix(s, Seq::empty(), p);
    }
}

proof fn lemma_value_ends(s: Seq<u8>, p: int, tag: u32)
    requires
        0 <= p <= s.len(),
    ensures
        value_end(s, p, tag) matches Ok(q) ==> p < q <= s.len(),
{
    if value_end(s, p, tag) is Ok {
        lemma_value_end_prefix(s, Seq::empty(), p, tag);
    }
}

proof fn lemma_values_ends(s: Seq<u8>, p: int, tag: u32, n: nat)
    requires
        0 <= p <= s.len(),
    ensures
        values_end(s, p, tag, n) matches Ok(q) ==> p <= q <= s.len(),
{
    if values_end(s, p, tag, n) is Ok {
        lemma_values_end_prefix(s, Seq::empty(), p, tag, n);
    }
}

proof fn lemma_ints_end(s: Seq<u8>, p: int, tag: u32, n: nat)
    requires
        0 <= p <= s.len(),
        n > 0 ==> int_size(tag) is Some,
    ensures
        ints_at(s, p, tag, n) matches Ok((_, q)) ==> p <= q <= s.len(),
{
    if ints_at(s, p, tag, n) is Ok {
        lemma_ints_prefix(s, Seq::empty(), p, tag, n);
    }
}

proof fn lemma_entry_end(s: Seq<u8>, p: int, m: GgufView)
    requires
        0 <= p <= s.len(),
    ensures
        entry_at(s, p, m) matches Ok((_, q)) ==> p <= q <= s.len(),
{
    if entry_at(s, p, m) is Ok {
        lemma_entry_prefix(s, Seq::empty(), p, m);
    }
}

proof fn lemma_le_moved(s: Seq<u8>, t: Seq<u8>, p: int, e: int, d: int, n: nat)
    requires
        copied(s, t, p, e, d),
        p + n <= e,
    ensures
        le(t, p + d, n) == le(s, p, n),
    decreases n,
{
    if n > 0 {
        assert(t[p + d] == s[p]);
        lemma_le_moved(s, t, p + 1, e, d, (n - 1) as nat);
    }
}

proof fn lemma_string_moved(s: Seq<u8>, t: Seq<u8>, p: int, e: int, d: int)
    requires
        copied(s, t, p, e, d),
    ensures
        (string_at(s, p) matches Ok((_, q)) && q <= e) || to_the_end(s, t, e, d)
            ==> string_at(t, p + d) == moved(string_at(s, p), d),
{
    lemma_le_fits(s, p);
    if p + 8 <= e {
        lemma_le_moved(s, t, p, e, d, 8);
        let len = le(s, p, 8);
        let q = p + 8;
        if q + len <= e {
            let here = s.subrange(q, q + len);
            let there = t.subrange(q + d, q + d + len);
            assert forall|i: int| 0 <= i < len implies #[trigger] there[i] == here[i] by {
                assert(t[(q + i) + d] == s[q + i]);
            }
            assert(there =~= here);
        }
    }
}

proof fn lemma_value_moved(s: Seq<u8>, t: Seq<u8>, p: int, e: int, d: int, tag: u32)
    requires
        copied(s, t, p, e, d),
    ensures
        (value_end(s, p, tag) matches Ok(q) && q <= e) || to_the_end(s, t, e, d)
            ==> value_end(t, p + d, tag) == moved_end(value_end(s, p, tag), d),
    decreases s.len() - p, 0int,
{
    if tag == 9 && p + 12 <= s.len() {
        lemma_le_fits(s, p + 4);
        lemma_values_ends(s, p + 12, le(s, p, 4) as u32, le(s, p + 4, 8) as nat);
    }
    if tag == 8 {
        lemma_string_moved(s, t, p, e, d);
    } else if tag == 9 && p + 12 <= e {
        lemma_le_moved(s, t, p, e, d, 4);
        lemma_le_moved(s, t, p + 4, e, d, 8);
        lemma_values_moved(s, t, p + 12, e, d, le(s, p, 4) as u32, le(s, p + 4, 8) as nat);
    }
}

proof fn lemma_values_moved(s: Seq<u8>, t: Seq<u8>, p: int, e: int, d: int, tag: u32, n: nat)
    requires
        copied(s, t, p, e, d),
    ensures
        (values_end(s, p, tag, n) matches Ok(q) && q <= e) || to_the_end(s, t, e, d)
            ==> values_end(t, p + d, tag, n) == moved_end(values_end(s, p, tag, n), d),
    decreases s.len() - p, 1int,
{
    if n > 0 {
        lemma_value_moved(s, t, p, e, d, tag);
        lemma_value_ends(s, p, tag);
        match value_end(s, p, tag) {
            Ok(q) => {
                lemma_values_ends(s, q, tag, (n - 1) as nat);
                if p < q <= e {
                    lemma_values_moved(s, t, q, e, d, tag, (n - 1) as nat);
                }
            },
            Err(_) => {},
        }
    }
}

proof fn lemma_ints_moved(s: Seq<u8>, t: Seq<u8>, p: int, e: int, d: int, tag: u32, n: nat)
    requires
        copied(s, t, p, e, d),
        n > 0 ==> int_size(tag) is Some,
    ensures
        (ints_at(s, p, tag, n) matches Ok((_, q)) && q <= e) || to_the_end(s, t, e, d)
            ==> ints_at(t, p + d, tag, n) == moved(ints_at(s, p, tag, n), d),
    decreases n,
{
    if n > 0 {
        lemma_ints_moved(s, t, p, e, d, tag, (n - 1) as nat);
        lemma_ints_end(s, p, tag, (n - 1) as nat);
        match ints_at(s, p, tag, (n - 1) as nat) {
            Ok((_, q)) => {
                if q + int_size(tag)->0 <= e {
                    lemma_le_moved(s, t, q, e, d, 4);
                }
            },
            Err(_) => {},
        }
    }
}

proof fn lemma_number_moved(
    s: Seq<u8>,
    t: Seq<u8>,
    p: int, e: int,
    d: int,
    tag: u32,
    f: GgufField,
    m: GgufView,
)
    requires
        copied(s, t, p, e, d),
    ensures
        (number_entry(s, p, tag, f, m) matches Ok((_, q)) && q <= e) || to_the_end(s, t, e, d)
            ==> number_entry(t, p + d, tag, f, m) == moved(number_entry(s, p, tag, f, m), d),
{
    match int_size(tag) {
        Some(size) => {
            if p + size <= e {
                lemma_le_moved(s, t, p, e, d, 4);
            }
        },
        None => {
            lemma_value_moved(s, t, p, e, d, tag);
        },
    }
}

/// The value of an entry ends behind its beginning.
proof fn lemma_read_ends(s: Seq<u8>, p: int, tag: u32, f: GgufField, m: GgufView)
    requires
        0 <= p <= s.len(),
    ensures
        head_counts_entry(s, p, tag, m) matches Ok((_, q)) ==> p < q && (tag == 9 ==> p + 12 <= q),
        pattern_entry(s, p, tag, m) matches Ok((_, q)) ==> p < q && (tag == 9 ==> p + 12 <= q),
        skipped(s, p, tag, m) matches Ok((_, q)) ==> p < q && (tag == 9 ==> p + 12 <= q),
        number_entry(s, p, tag, f, m) matches Ok((_, q)) ==> p < q,
{
    lemma_value_ends(s, p, tag);
    lemma_le_fits(s, p + 4);
    if tag == 9 && p + 12 <= s.len() {
        let elem = le(s, p, 4) as u32;
        let count = le(s, p + 4, 8) as nat;
        lemma_values_ends(s, p + 12, elem, count);
        if int_size(elem) is Some || count == 0 {
            lemma_ints_end(s, p + 12, elem, count);
        }
    }
}

proof fn lemma_head_counts_moved(
    s: Seq<u8>,
    t: Seq<u8>,
    p: int, e: int,
    d: int,
    tag: u32,
    m: GgufView,
)
    requires
        copied(s, t, p, e, d),
    ensures
        (head_counts_entry(s, p, tag, m) matches Ok((_, q)) && q <= e) || to_the_end(s, t, e, d)
            ==> head_counts_entry(t, p + d, tag, m) == moved(head_counts_entry(s, p, tag, m), d),
{
    lemma_read_ends(s, p, tag, GgufField::HeadCountKv, m);
    if tag != 9 {
        lemma_number_moved(s, t, p, e, d, tag, GgufField::HeadCountKv, m);
    } else if p + 12 <= e {
        lemma_le_moved(s, t, p, e, d, 4);
        lemma_le_moved(s, t, p + 4, e, d, 8);
        lemma_le_fits(s, p + 4);
        let elem = le(s, p, 4) as u32;
        let count = le(s, p + 4, 8) as nat;
        if int_size(elem) is Some || count == 0 {
            lemma_ints_moved(s, t, p + 12, e, d, elem, count);
        } else {
            lemma_value_moved(s, t, p, e, d, tag);
        }
    }
}

proof fn lemma_pattern_moved(s: Seq<u8>, t: Seq<u8>, p: int, e: int, d: int, tag: u32, m: GgufView)
    requires
        copied(s, t, p, e, d),
    ensures
        (pattern_entry(s, p, tag, m) matches Ok((_, q)) && q <= e) || to_the_end(s, t, e, d)
            ==> pattern_entry(t, p + d, tag, m) == moved(pattern_entry(s, p, tag, m), d),
{
    lemma_read_ends(s, p, tag, GgufField::SlidingWindowPattern, m);
    lemma_value_moved(s, t, p, e, d, tag);
    if tag == 9 && p + 12 <= e {
        lemma_le_moved(s, t, p, e, d, 4);
        lemma_le_moved(s, t, p + 4, e, d, 8);
        lemma_le_fits(s, p + 4);
        let count = le(s, p + 4, 8);
        let from = p + 12;
        let to = p + d + 12;
        if from + count <= e {
            let here = Seq::new(count as nat, |i: int| s[from + i] != 0);
            let there = Seq::new(count as nat, |i: int| t[to + i] != 0);
            assert forall|i: int| 0 <= i < count implies #[trigger] there[i] == here[i] by {
                assert(t[(from + i) + d] == s[from + i]);
            }
            assert(there =~= here);
        }
    }
}

proof fn lemma_entry_moved(s: Seq<u8>, t: Seq<u8>, p: int, e: int, d: int, m: GgufView)
    requires
        copied(s, t, p, e, d),
    ensures
        (entry_at(s, p, m) matches Ok((_, q)) && q <= e) || to_the_end(s, t, e, d)
            ==> entry_at(t, p + d, m) == moved(entry_at(s, p, m), d),
{
    lemma_string_moved(s, t, p, e, d);
    lemma_string_end(s, p);
    match string_at(s, p) {
        Ok((key, q)) => {
            if q + 4 <= s.len() {
                lemma_read_ends(s, q + 4, le(s, q, 4) as u32, field_of(key), m);
            }
            if q + 4 <= e {
                lemma_le_moved(s, t, q, e, d, 4);
                let tag = le(s, q, 4) as u32;
                let r = q + 4;
                assert(copied(s, t, r, e, d));
                match field_of(key) {
                    GgufField::HeadCountKv => {
                        lemma_head_counts_moved(s, t, r, e, d, tag, m);
                    },
                    GgufField::SlidingWindowPattern => {
                        lemma_pattern_moved(s, t, r, e, d, tag, m);
                    },
                    GgufField::Other => {
                        lemma_value_moved(s, t, r, e, d, tag);
                    },
                    f => {
                        lemma_number_moved(s, t, r, e, d, tag, f, m);
                    },
                }
            }
        },
        Err(_) => {},
    }
}

/// The entries before a place are read alike where their bytes are the same.
proof fn lemma_entries_before(s: Seq<u8>, b: Seq<u8>, p: int, n: nat, e: int)
    requires
        copied(s, b, p, e, 0),
        entries_at(s, p, n) matches Ok((_, q)) && q <= e,
    ensures
        entries_at(b, p, n) == entries_at(s, p, n),
        entries_at(s, p, n) matches Ok((_, q)) && p <= q,
    decreases n,
{
    if n > 0 {
        let (m, q) = entries_at(s, p, (n - 1) as nat)->Ok_0;
        lemma_entries_end(s, p, (n - 1) as nat);
        lemma_entry_end(s, q, m);
        lemma_entries_before(s, b, p, (n - 1) as nat, e);
        lemma_entry_moved(s, b, q, e, 0, m);
    }
}

proof fn lemma_entries_end(s: Seq<u8>, p: int, n: nat)
    requires
        0 <= p <= s.len(),
    ensures
        entries_at(s, p, n) matches Ok((_, q)) ==> p <= q <= s.len(),
    decreases n,
{
    if n > 0 {
        lemma_entries_end(s, p, (n - 1) as nat);
        match entries_at(s, p, (n - 1) as nat) {
            Ok((m, q)) => {
                lemma_entry_end(s, q, m);
            },
            Err(_) => {},
        }
    }
}

/// The entries behind a place are read alike where the bytes behind it are the same and what was
/// read before it is.
proof fn lemma_entries_after(s: Seq<u8>, b: Seq<u8>, k: nat, n: nat, d: int)
    requires
        24 <= s.len(),
        24 <= b.len(),
        k <= n,
        entries_at(s, 24, k) matches Ok((_, q)) && copied(s, b, q, s.len() as int, d),
        b.len() == s.len() + d,
        entries_at(b, 24, k + 1) == moved(entries_at(s, 24, k), d),
    ensures
        entries_at(b, 24, n + 1) == moved(entries_at(s, 24, n), d),
    decreases n - k,
{
    if k < n {
        lemma_entries_after(s, b, k, (n - 1) as nat, d);
        match entries_at(s, 24, (n - 1) as nat) {
            Ok((m, q)) => {
                lemma_entries_order(s, k, (n - 1) as nat);
                assert(copied(s, b, q, s.len() as int, d));
                lemma_entry_moved(s, b, q, s.len() as int, d, m);
            },
            Err(_) => {},
        }
    }
}

/// More entries end further on.
proof fn lemma_entries_order(s: Seq<u8>, k: nat, n: nat)
    requires
        24 <= s.len(),
        k <= n,
        entries_at(s, 24, n) is Ok,
    ensures
        entries_at(s, 24, k) is Ok,
        24 <= entries_at(s, 24, k)->Ok_0.1 <= entries_at(s, 24, n)->Ok_0.1 <= s.len(),
    decreases n - k,
{
    lemma_entries_end(s, 24, n);
    if k < n {
        lemma_entries_order(s, k, (n - 1) as nat);
        let (m, q) = entries_at(s, 24, (n - 1) as nat)->Ok_0;
        lemma_entry_end(s, q, m);
    } else {
        lemma_entries_end(s, 24, k);
    }
}

/// Whether bytes are one whole entry that no field looks for: a string key, a type tag and a value
/// of that type.
pub open spec fn is_other_entry(e: Seq<u8>) -> bool {
    match string_at(e, 0) {
        Ok((key, a)) => {
            &&& field_of(key) == GgufField::Other
            &&& a + 4 <= e.len()
            &&& value_end(e, a + 4, le(e, a, 4) as u32) == Ok::<int, GgufErrorView>(e.len() as int)
        },
        Err(_) => false,
    }
}

/// Whether `b` is the file `s` with the bytes `e` put in as one entry more, behind its first `k`
/// entries.
pub open spec fn has_entry_more(s: Seq<u8>, b: Seq<u8>, e: Seq<u8>, k: nat) -> bool {
    &&& s.len() >= 24
    &&& b.len() >= 24
    &&& s.take(16) == b.take(16)
    &&& le(b, 16, 8) == le(s, 16, 8) + 1
    &&& k <= le(s, 16, 8)
    &&& match entries_at(s, 24, k) {
        Ok((_, q)) => b.skip(24) == s.subrange(24, q) + e + s.skip(q),
        Err(_) => false,
    }
}

/// Such an entry is passed over.
proof fn lemma_other_entry(e: Seq<u8>, m: GgufView)
    requires
        is_other_entry(e),
    ensures
        entry_at(e, 0, m) == Ok::<(GgufView, int), GgufErrorView>((m, e.len() as int)),
{
}

/// Which bytes of the longer file are whose.
proof fn lemma_layout(s: Seq<u8>, b: Seq<u8>, e: Seq<u8>, q: int)
    requires
        24 <= q <= s.len(),
        24 <= b.len(),
        b.skip(24) == s.subrange(24, q) + e + s.skip(q),
    ensures
        b.len() == s.len() + e.len(),
        copied(s, b, 24, q, 0),
        copied(e, b, 0, e.len() as int, q),
        copied(s, b, q, s.len() as int, e.len() as int),
{
    let d = e.len() as int;
    let tail = s.subrange(24, q) + e + s.skip(q);
    assert(b.skip(24).len() == b.len() - 24);
    assert(tail.len() == (q - 24) + d + (s.len() - q));
    assert forall|i: int| 24 <= i < q implies b[i + 0] == #[trigger] s[i] by {
        assert(b.skip(24)[i - 24] == tail[i - 24]);
    }
    assert forall|i: int| 0 <= i < d implies b[i + q] == #[trigger] e[i] by {
        assert(b.skip(24)[i + q - 24] == tail[i + q - 24]);
    }
    assert forall|i: int| q <= i < s.len() implies b[i + d] == #[trigger] s[i] by {
        assert(b.skip(24)[i + d - 24] == tail[i + d - 24]);
    }
}

/// An entry that no field looks for, put in at any place among a file's entries, changes nothing:
/// the metadata, or the reason why there is none, is what it was.
pub proof fn law_other_entries_change_nothing(s: Seq<u8>, b: Seq<u8>, e: Seq<u8>, k: nat)
    requires
        is_other_entry(e),
        has_entry_more(s, b, e, k),
        le(b, 16, 8) <= MAX_ENTRIES,
    ensures
        gguf_metadata(b) == gguf_metadata(s),
{
    let n = le(s, 16, 8) as nat;
    let (m, q) = entries_at(s, 24, k)->Ok_0;
    let d = e.len() as int;
    lemma_le_fits(s, 16);
    lemma_entries_end(s, 24, k);
    lemma_layout(s, b, e, q);
    lemma_entries_before(s, b, 24, k, q);
    lemma_other_entry(e, m);
    lemma_entry_moved(e, b, 0, d, q, m);
    assert(entries_at(b, 24, k + 1) == moved(entries_at(s, 24, k), d));
    lemma_entries_after(s, b, k, n, d);
    assert forall|i: int| 0 <= i < 4 implies s[i] == b[i] by {
        assert(s.take(16)[i] == b.take(16)[i]);
    }
}

} // verus!
