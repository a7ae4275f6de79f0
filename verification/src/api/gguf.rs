//! Architecture metadata from the header of a GGUF model file.
//!
//! A file begins with the magic `GGUF`, a version (4 bytes), the number of tensors (8 bytes) and
//! the number of entries (8 bytes). Each entry is a string key, a type tag (4 bytes) and a value.
//! All numbers are little-endian.
use vstd::prelude::*;
use vstd::string::StringExecFns;
use vstd::utf8::{decode_utf8, valid_utf8};
use crate::text::{dec, dec_text, ends_with, has_suffix};

verus! {

/// Architecture metadata of a model.
#[derive(Debug, Clone)]
pub struct GgufMetadata {
    pub context_length: Option<u32>,
    pub block_count: Option<u32>,
    pub embedding_length: Option<u32>,
    pub head_count: Option<u32>,
    /// The number of kv heads; the greatest where it differs between layers.
    pub head_count_kv: Option<u32>,
    pub key_length: Option<u32>,
    pub value_length: Option<u32>,
    pub key_length_swa: Option<u32>,
    pub value_length_swa: Option<u32>,
    pub sliding_window: Option<u32>,
    pub expert_count: Option<u32>,
    /// The number of kv heads of each layer.
    pub head_count_kv_per_layer: Option<Vec<u32>>,
    /// Which layers use sliding-window attention.
    pub sliding_window_pattern: Option<Vec<bool>>,
}

/// The model of the metadata.
#[verifier::ext_equal]
pub struct GgufView {
    pub context_length: Option<u32>,
    pub block_count: Option<u32>,
    pub embedding_length: Option<u32>,
    pub head_count: Option<u32>,
    pub head_count_kv: Option<u32>,
    pub key_length: Option<u32>,
    pub value_length: Option<u32>,
    pub key_length_swa: Option<u32>,
    pub value_length_swa: Option<u32>,
    pub sliding_window: Option<u32>,
    pub expert_count: Option<u32>,
    pub head_count_kv_per_layer: Option<Seq<u32>>,
    pub sliding_window_pattern: Option<Seq<bool>>,
}

/// The view of an optional list.
pub open spec fn opt_seq<T>(o: Option<Vec<T>>) -> Option<Seq<T>> {
    match o {
        Some(v) => Some(v@),
        None => None,
    }
}

impl View for GgufMetadata {
    type V = GgufView;

    open spec fn view(&self) -> GgufView {
        GgufView {
            context_length: self.context_length,
            block_count: self.block_count,
            embedding_length: self.embedding_length,
            head_count: self.head_count,
            head_count_kv: self.head_count_kv,
            key_length: self.key_length,
            value_length: self.value_length,
            key_length_swa: self.key_length_swa,
            value_length_swa: self.value_length_swa,
            sliding_window: self.sliding_window,
            expert_count: self.expert_count,
            head_count_kv_per_layer: opt_seq(self.head_count_kv_per_layer),
            sliding_window_pattern: opt_seq(self.sliding_window_pattern),
        }
    }
}

/// Nothing known.
pub open spec fn no_metadata() -> GgufView {
    GgufView {
        context_length: None,
        block_count: None,
        embedding_length: None,
        head_count: None,
        head_count_kv: None,
        key_length: None,
        value_length: None,
        key_length_swa: None,
        value_length_swa: None,
        sliding_window: None,
        expert_count: None,
        head_count_kv_per_layer: None,
        sliding_window_pattern: None,
    }
}

impl Default for GgufMetadata {
    fn default() -> (r: GgufMetadata)
        ensures
            r@ == no_metadata(),
    {
        GgufMetadata {
            context_length: None,
            block_count: None,
            embedding_length: None,
            head_count: None,
            head_count_kv: None,
            key_length: None,
            value_length: None,
            key_length_swa: None,
            value_length_swa: None,
            sliding_window: None,
            expert_count: None,
            head_count_kv_per_layer: None,
            sliding_window_pattern: None,
        }
    }
}

/// What was being read when the data ended.
#[derive(Debug, Clone, Copy, PartialEq, Eq, Structural)]
pub enum GgufPart {
    Magic,
    Version,
    TensorCount,
    EntryCount,
    StringLength,
    StringData,
    Type,
    Value,
}

/// Why metadata could not be read.
#[derive(Debug, PartialEq, Eq)]
pub enum GgufError {
    Truncated(GgufPart),
    NotGguf,
    TooManyEntries(u64),
    StringTooLong(u64),
    /// A string is not UTF-8; the decoder's reason.
    InvalidUtf8(String),
    UnknownType(u32),
}

/// The model of such an error.
pub enum GgufErrorView {
    Truncated(GgufPart),
    NotGguf,
    TooManyEntries(u64),
    StringTooLong(u64),
    InvalidUtf8(Seq<char>),
    UnknownType(u32),
}

impl View for GgufError {
    type V = GgufErrorView;

    open spec fn view(&self) -> GgufErrorView {
        match self {
            GgufError::Truncated(part) => GgufErrorView::Truncated(*part),
            GgufError::NotGguf => GgufErrorView::NotGguf,
            GgufError::TooManyEntries(n) => GgufErrorView::TooManyEntries(*n),
            GgufError::StringTooLong(n) => GgufErrorView::StringTooLong(*n),
            GgufError::InvalidUtf8(reason) => GgufErrorView::InvalidUtf8(reason@),
            GgufError::UnknownType(t) => GgufErrorView::UnknownType(*t),
        }
    }
}

/// The entries that are looked for.
#[derive(Debug, Clone, Copy, PartialEq, Eq, Structural)]
pub enum GgufField {
    HeadCountKv,
    SlidingWindowPattern,
    ContextLength,
    BlockCount,
    EmbeddingLength,
    HeadCount,
    KeyLengthSwa,
    ValueLengthSwa,
    KeyLength,
    ValueLength,
    SlidingWindow,
    ExpertCount,
    Other,
}

/// The most entries that a file may have.
pub const MAX_ENTRIES: u64 = 10_000;

/// The longest string that a file may have.
pub const MAX_STRING: u64 = 1_000_000;

/// The little-endian number in the `n` bytes from `p` on.
pub open spec fn le(s: Seq<u8>, p: int, n: nat) -> int
    decreases n,
{
    if n == 0 {
        0
    } else {
        s[p] as int + 256 * le(s, p + 1, (n - 1) as nat)
    }
}

/// Which entry a key stands for, whatever the architecture that it begins with.
pub open spec fn field_of(key: Seq<char>) -> GgufField {
    if has_suffix(key, ".attention.head_count_kv"@) {
        GgufField::HeadCountKv
    } else if has_suffix(key, ".attention.sliding_window_pattern"@) {
        GgufField::SlidingWindowPattern
    } else if has_suffix(key, ".context_length"@) {
        GgufField::ContextLength
    } else if has_suffix(key, ".block_count"@) {
        GgufField::BlockCount
    } else if has_suffix(key, ".embedding_length"@) {
        GgufField::EmbeddingLength
    } else if has_suffix(key, ".attention.head_count"@) {
        GgufField::HeadCount
    } else if has_suffix(key, ".attention.key_length_swa"@) {
        GgufField::KeyLengthSwa
    } else if has_suffix(key, ".attention.value_length_swa"@) {
        GgufField::ValueLengthSwa
    } else if has_suffix(key, ".attention.key_length"@) {
        GgufField::KeyLength
    } else if has_suffix(key, ".attention.value_length"@) {
        GgufField::ValueLength
    } else if has_suffix(key, ".attention.sliding_window"@) {
        GgufField::SlidingWindow
    } else if has_suffix(key, ".expert_count"@) {
        GgufField::ExpertCount
    } else {
        GgufField::Other
    }
}

/// Which entry a key stands for.
fn field_of_key(key: &str) -> (r: GgufField)
    ensures
        r == field_of(key@),
{
    if ends_with(key, ".attention.head_count_kv") {
        GgufField::HeadCountKv
    } else if ends_with(key, ".attention.sliding_window_pattern") {
        GgufField::SlidingWindowPattern
    } else if ends_with(key, ".context_length") {
        GgufField::ContextLength
    } else if ends_with(key, ".block_count") {
        GgufField::BlockCount
    } else if ends_with(key, ".embedding_length") {
        GgufField::EmbeddingLength
    } else if ends_with(key, ".attention.head_count") {
        GgufField::HeadCount
    } else if ends_with(key, ".attention.key_length_swa") {
        GgufField::KeyLengthSwa
    } else if ends_with(key, ".attention.value_length_swa") {
        GgufField::ValueLengthSwa
    } else if ends_with(key, ".attention.key_length") {
        GgufField::KeyLength
    } else if ends_with(key, ".attention.value_length") {
        GgufField::ValueLength
    } else if ends_with(key, ".attention.sliding_window") {
        GgufField::SlidingWindow
    } else if ends_with(key, ".expert_count") {
        GgufField::ExpertCount
    } else {
        GgufField::Other
    }
}

/// Reading a number of `n` bytes at `p`, as part of `part`.
pub open spec fn number_at(s: Seq<u8>, p: int, n: nat, part: GgufPart) -> Result<
    (int, int),
    GgufErrorView,
> {
    if p + n <= s.len() {
        Ok((le(s, p, n), p + n))
    } else {
        Err(GgufErrorView::Truncated(part))
    }
}

/// Reading a string at `p`: its length in 8 bytes, then its bytes in UTF-8.
pub open spec fn string_at(s: Seq<u8>, p: int) -> Result<(Seq<char>, int), GgufErrorView> {
    match number_at(s, p, 8, GgufPart::StringLength) {
        Err(e) => Err(e),
        Ok((len, q)) => if len > MAX_STRING {
            Err(GgufErrorView::StringTooLong(len as u64))
        } else if q + len > s.len() {
            Err(GgufErrorView::Truncated(GgufPart::StringData))
        } else if !valid_utf8(s.subrange(q, q + len)) {
            Err(GgufErrorView::InvalidUtf8(utf8_reason(s.subrange(q, q + len))))
        } else {
            Ok((decode_utf8(s.subrange(q, q + len)), q + len))
        },
    }
}

/// The size of a value of a fixed-size type; `None` for strings, arrays and unknown types.
pub open spec fn fixed_size(t: u32) -> Option<nat> {
    if t == 0 || t == 1 || t == 7 {
        Some(1)
    } else if t == 2 || t == 3 {
        Some(2)
    } else if 4 <= t <= 6 {
        Some(4)
    } else if 10 <= t <= 12 {
        Some(8)
    } else {
        None
    }
}

/// The position after a value of type `t` at `p`. An array is its element type (4 bytes), its
/// length (8 bytes) and its elements.
pub open spec fn value_end(s: Seq<u8>, p: int, t: u32) -> Result<int, GgufErrorView>
    decreases s.len() - p, 0int,
{
    match fixed_size(t) {
        Some(n) => if p + n <= s.len() {
            Ok(p + n)
        } else {
            Err(GgufErrorView::Truncated(GgufPart::Value))
        },
        None => if t == 8 {
            match string_at(s, p) {
                Ok((_, q)) => Ok(q),
                Err(e) => Err(e),
            }
        } else if t == 9 {
            if p + 12 <= s.len() {
                values_end(s, p + 12, le(s, p, 4) as u32, le(s, p + 4, 8) as nat)
            } else {
                Err(GgufErrorView::Truncated(GgufPart::Value))
            }
        } else {
            Err(GgufErrorView::UnknownType(t))
        },
    }
}

/// The position after `n` values of type `t`, the first of them at `p`.
pub open spec fn values_end(s: Seq<u8>, p: int, t: u32, n: nat) -> Result<int, GgufErrorView>
    decreases s.len() - p, 1int,
{
    if n == 0 {
        Ok(p)
    } else {
        match value_end(s, p, t) {
            Ok(q) => if p < q <= s.len() {
                values_end(s, q, t, (n - 1) as nat)
            } else {
                Err(GgufErrorView::UnknownType(t))
            },
            Err(e) => Err(e),
        }
    }
}

/// The size of a value of an integer type; `None` for any other type.
pub open spec fn int_size(t: u32) -> Option<nat> {
    if t == 4 || t == 5 {
        Some(4)
    } else if t == 10 || t == 11 {
        Some(8)
    } else {
        None
    }
}

/// Reading `n` integers of type `t` at `p`. An integer counts modulo 2^32: its low 4 bytes.
pub open spec fn ints_at(s: Seq<u8>, p: int, t: u32, n: nat) -> Result<(Seq<u32>, int), GgufErrorView>
    decreases n,
{
    let size = int_size(t)->0;
    if n == 0 {
        Ok((Seq::empty(), p))
    } else {
        match ints_at(s, p, t, (n - 1) as nat) {
            Err(e) => Err(e),
            Ok((before, q)) => if q + size <= s.len() {
                Ok((before.push(le(s, q, 4) as u32), q + size))
            } else {
                Err(GgufErrorView::Truncated(GgufPart::Value))
            },
        }
    }
}

/// The greatest of some numbers.
pub open spec fn greatest(v: Seq<u32>) -> Option<u32>
    decreases v.len(),
{
    if v.len() == 0 {
        None
    } else {
        match greatest(v.drop_last()) {
            Some(m) => if m >= v.last() {
                Some(m)
            } else {
                Some(v.last())
            },
            None => Some(v.last()),
        }
    }
}

/// Storing a number under a field.
pub open spec fn with_number(m: GgufView, f: GgufField, n: u32) -> GgufView {
    match f {
        GgufField::HeadCountKv => GgufView { head_count_kv: Some(n), ..m },
        GgufField::ContextLength => GgufView { context_length: Some(n), ..m },
        GgufField::BlockCount => GgufView { block_count: Some(n), ..m },
        GgufField::EmbeddingLength => GgufView { embedding_length: Some(n), ..m },
        GgufField::HeadCount => GgufView { head_count: Some(n), ..m },
        GgufField::KeyLengthSwa => GgufView { key_length_swa: Some(n), ..m },
        GgufField::ValueLengthSwa => GgufView { value_length_swa: Some(n), ..m },
        GgufField::KeyLength => GgufView { key_length: Some(n), ..m },
        GgufField::ValueLength => GgufView { value_length: Some(n), ..m },
        GgufField::SlidingWindow => GgufView { sliding_window: Some(n), ..m },
        GgufField::ExpertCount => GgufView { expert_count: Some(n), ..m },
        _ => m,
    }
}

/// Passing over a value.
pub open spec fn skipped(s: Seq<u8>, p: int, t: u32, m: GgufView) -> Result<
    (GgufView, int),
    GgufErrorView,
> {
    match value_end(s, p, t) {
        Ok(q) => Ok((m, q)),
        Err(e) => Err(e),
    }
}

/// Reading the value of a field that holds one number; a value of another type is passed over.
pub open spec fn number_entry(s: Seq<u8>, p: int, t: u32, f: GgufField, m: GgufView) -> Result<
    (GgufView, int),
    GgufErrorView,
> {
    match int_size(t) {
        Some(size) => if p + size <= s.len() {
            Ok((with_number(m, f, le(s, p, 4) as u32), p + size))
        } else {
            Err(GgufErrorView::Truncated(GgufPart::Value))
        },
        None => skipped(s, p, t, m),
    }
}

/// Reading the head counts: one number, or an array with one number for each layer. An array
/// gives the numbers and their greatest; an array of another type is passed over.
pub open spec fn head_counts_entry(s: Seq<u8>, p: int, t: u32, m: GgufView) -> Result<
    (GgufView, int),
    GgufErrorView,
> {
    if t != 9 {
        number_entry(s, p, t, GgufField::HeadCountKv, m)
    } else if p + 12 > s.len() {
        Err(GgufErrorView::Truncated(GgufPart::Value))
    } else {
        let elem = le(s, p, 4) as u32;
        let count = le(s, p + 4, 8) as nat;
        if int_size(elem) is Some || count == 0 {
            match ints_at(s, p + 12, elem, count) {
                Err(e) => Err(e),
                Ok((values, q)) => Ok(
                    (
                        GgufView {
                            head_count_kv: match greatest(values) {
                                Some(n) => Some(n),
                                None => m.head_count_kv,
                            },
                            head_count_kv_per_layer: Some(values),
                            ..m
                        },
                        q,
                    ),
                ),
            }
        } else {
            skipped(s, p, t, m)
        }
    }
}

/// Reading the layer pattern: an array of booleans, one byte each. Any other value is passed over.
pub open spec fn pattern_entry(s: Seq<u8>, p: int, t: u32, m: GgufView) -> Result<
    (GgufView, int),
    GgufErrorView,
> {
    if t != 9 {
        skipped(s, p, t, m)
    } else if p + 12 > s.len() {
        Err(GgufErrorView::Truncated(GgufPart::Value))
    } else {
        let elem = le(s, p, 4) as u32;
        let count = le(s, p + 4, 8);
        if elem != 7 {
            skipped(s, p, t, m)
        } else if p + 12 + count > s.len() {
            Err(GgufErrorView::Truncated(GgufPart::Value))
        } else {
            let flags = Seq::new(count as nat, |i: int| s[p + 12 + i] != 0);
            Ok((GgufView { sliding_window_pattern: Some(flags), ..m }, p + 12 + count))
        }
    }
}

/// Reading an entry at `p`.
pub open spec fn entry_at(s: Seq<u8>, p: int, m: GgufView) -> Result<(GgufView, int), GgufErrorView> {
    match string_at(s, p) {
        Err(e) => Err(e),
        Ok((key, q)) => match number_at(s, q, 4, GgufPart::Type) {
            Err(e) => Err(e),
            Ok((tag, r)) => {
                let t = tag as u32;
                match field_of(key) {
                    GgufField::HeadCountKv => head_counts_entry(s, r, t, m),
                    GgufField::SlidingWindowPattern => pattern_entry(s, r, t, m),
                    GgufField::Other => skipped(s, r, t, m),
                    f => number_entry(s, r, t, f, m),
                }
            },
        },
    }
}

/// Reading `n` entries, the first of them at `p`.
pub open spec fn entries_at(s: Seq<u8>, p: int, n: nat) -> Result<(GgufView, int), GgufErrorView>
    decreases n,
{
    if n == 0 {
        Ok((no_metadata(), p))
    } else {
        match entries_at(s, p, (n - 1) as nat) {
            Err(e) => Err(e),
            Ok((m, q)) => entry_at(s, q, m),
        }
    }
}

/// The metadata in the header of a file that begins with the bytes `s`.
pub open spec fn gguf_metadata(s: Seq<u8>) -> Result<GgufView, GgufErrorView> {
    if s.len() < 4 {
        Err(GgufErrorView::Truncated(GgufPart::Magic))
    } else if !(s[0] == 0x47 && s[1] == 0x47 && s[2] == 0x55 && s[3] == 0x46) {
        Err(GgufErrorView::NotGguf)
    } else if s.len() < 8 {
        Err(GgufErrorView::Truncated(GgufPart::Version))
    } else if s.len() < 16 {
        Err(GgufErrorView::Truncated(GgufPart::TensorCount))
    } else if s.len() < 24 {
        Err(GgufErrorView::Truncated(GgufPart::EntryCount))
    } else if le(s, 16, 8) > MAX_ENTRIES {
        Err(GgufErrorView::TooManyEntries(le(s, 16, 8) as u64))
    } else {
        match entries_at(s, 24, le(s, 16, 8) as nat) {
            Ok((m, _)) => Ok(m),
            Err(e) => Err(e),
        }
    }
}

/// 256 to the power of `n`.
spec fn pow256(n: nat) -> int
    decreases n,
{
    if n == 0 {
        1
    } else {
        256 * pow256((n - 1) as nat)
    }
}

/// A number of `n` bytes is below 256 to the power of `n`.
proof fn lemma_le_bound(s: Seq<u8>, p: int, n: nat)
    ensures
        0 <= le(s, p, n) < pow256(n),
    decreases n,
{
    if n > 0 {
        lemma_le_bound(s, p + 1, (n - 1) as nat);
    }
}

/// Numbers of 4 and of 8 bytes fit their types.
pub proof fn lemma_le_fits(s: Seq<u8>, p: int)
    ensures
        0 <= le(s, p, 4) <= u32::MAX,
        0 <= le(s, p, 8) <= u64::MAX,
{
    lemma_le_bound(s, p, 4);
    lemma_le_bound(s, p, 8);
    reveal_with_fuel(pow256, 9);
}

/// The number in the `n` bytes from `p` on.
fn read_le(data: &[u8], p: usize, n: usize) -> (r: u64)
    requires
        p + n <= data@.len() <= usize::MAX,
        n <= 8,
    ensures
        r == le(data@, p as int, n as nat),
    decreases n,
{
    if n == 0 {
        0
    } else {
        let high: u64 = read_le(data, p + 1, n - 1);
        proof {
            lemma_le_bound(data@, p + 1, (n - 1) as nat);
            reveal_with_fuel(pow256, 9);
            assert(n - 1 == 0 || n - 1 == 1 || n - 1 == 2 || n - 1 == 3 || n - 1 == 4 || n - 1 == 5
                || n - 1 == 6 || n - 1 == 7);
            assert(high < 0x100_0000_0000_0000);
        }
        data[p] as u64 + 256 * high
    }
}

/// The number of 4 bytes at `p`.
fn read_u32(data: &[u8], p: usize) -> (r: u32)
    requires
        p + 4 <= data@.len() <= usize::MAX,
    ensures
        r == le(data@, p as int, 4),
{
    let n: u64 = read_le(data, p, 4);
    proof {
        lemma_le_fits(data@, p as int);
    }
    n as u32
}

/// Whether `n` bytes are left at `p`.
fn left(data: &[u8], p: usize, n: u64) -> (r: bool)
    requires
        p <= data@.len(),
    ensures
        r == (p + n <= data@.len()),
        data@.len() <= usize::MAX,
{
    n <= (data.len() - p) as u64
}

/// The words in which `String::from_utf8` says what is wrong with bytes.
pub uninterp spec fn utf8_reason(bytes: Seq<u8>) -> Seq<char>;

/// `String::from_utf8`, with its error in its own words. The claims: it succeeds exactly on valid
/// UTF-8 and decodes it, and the words of the error are determined by the bytes.
#[verifier::external_body]
fn string_from_utf8(bytes: &[u8]) -> (r: Result<String, String>)
    ensures
        match r {
            Ok(s) => valid_utf8(bytes@) && s@ == decode_utf8(bytes@),
            Err(reason) => !valid_utf8(bytes@) && reason@ == utf8_reason(bytes@),
        },
{
    String::from_utf8(bytes.to_vec()).map_err(|e| e.to_string())
}

/// Whether a position, or the error in its place, is the expected one.
pub open spec fn same_end(r: Result<usize, GgufError>, e: Result<int, GgufErrorView>) -> bool {
    match (r, e) {
        (Ok(a), Ok(b)) => a == b,
        (Err(a), Err(b)) => a@ == b,
        _ => false,
    }
}

/// Reads the string at `p`.
fn read_string(data: &[u8], p: usize) -> (r: Result<(String, usize), GgufError>)
    requires
        p <= data@.len(),
    ensures
        match r {
            Ok((text, q)) => string_at(data@, p as int) == Ok::<(Seq<char>, int), GgufErrorView>(
                (text@, q as int),
            ) && p < q <= data@.len(),
            Err(e) => string_at(data@, p as int) == Err::<(Seq<char>, int), GgufErrorView>(e@),
        },
{
    if !left(data, p, 8) {
        return Err(GgufError::Truncated(GgufPart::StringLength));
    }
    let len: u64 = read_le(data, p, 8);
    if len > MAX_STRING {
        return Err(GgufError::StringTooLong(len));
    }
    let q: usize = p + 8;
    if !left(data, q, len) {
        return Err(GgufError::Truncated(GgufPart::StringData));
    }
    let end: usize = q + len as usize;
    match string_from_utf8(vstd::slice::slice_subrange(data, q, end)) {
        Ok(text) => Ok((text, end)),
        Err(reason) => Err(GgufError::InvalidUtf8(reason)),
    }
}

/// The size of a value of a fixed-size type.
fn size_of_type(t: u32) -> (r: Option<usize>)
    ensures
        match r {
            Some(n) => fixed_size(t) == Some(n as nat) && 0 < n,
            None => fixed_size(t) is None,
        },
{
    if t == 0 || t == 1 || t == 7 {
        Some(1)
    } else if t == 2 || t == 3 {
        Some(2)
    } else if 4 <= t && t <= 6 {
        Some(4)
    } else if 10 <= t && t <= 12 {
        Some(8)
    } else {
        None
    }
}

/// Passes over the value of type `t` at `p`.
fn skip_value(data: &[u8], p: usize, t: u32) -> (r: Result<usize, GgufError>)
    requires
        p <= data@.len(),
    ensures
        same_end(r, value_end(data@, p as int, t)),
        r is Ok ==> p < r->Ok_0 <= data@.len(),
    decreases data@.len() - p, 0int,
{
    match size_of_type(t) {
        Some(n) => if left(data, p, n as u64) {
            Ok(p + n)
        } else {
            Err(GgufError::Truncated(GgufPart::Value))
        },
        None => if t == 8 {
            match read_string(data, p) {
                Ok((_, q)) => Ok(q),
                Err(e) => Err(e),
            }
        } else if t == 9 {
            if !left(data, p, 12) {
                return Err(GgufError::Truncated(GgufPart::Value));
            }
            let elem = read_u32(data, p);
            let count: u64 = read_le(data, p + 4, 8);
            skip_values(data, p + 12, elem, count)
        } else {
            Err(GgufError::UnknownType(t))
        },
    }
}

/// Passes over `n` values of type `t`, the first of them at `p`.
fn skip_values(data: &[u8], p: usize, t: u32, n: u64) -> (r: Result<usize, GgufError>)
    requires
        p <= data@.len(),
    ensures
        same_end(r, values_end(data@, p as int, t, n as nat)),
        r is Ok ==> p <= r->Ok_0 <= data@.len(),
    decreases data@.len() - p, 1int,
{
    let mut q: usize = p;
    let mut rest: u64 = n;
    while rest > 0
        invariant
            p <= q <= data@.len(),
            rest <= n,
            values_end(data@, p as int, t, n as nat) == values_end(
                data@,
                q as int,
                t,
                rest as nat,
            ),
        decreases rest,
    {
        match skip_value(data, q, t) {
            Ok(next) => {
                q = next;
            },
            Err(e) => {
                return Err(e);
            },
        }
        rest -= 1;
    }
    Ok(q)
}

/// The size of a value of an integer type.
fn size_of_int(t: u32) -> (r: Option<usize>)
    ensures
        match r {
            Some(n) => int_size(t) == Some(n as nat) && (n == 4 || n == 8),
            None => int_size(t) is None,
        },
{
    if t == 4 || t == 5 {
        Some(4)
    } else if t == 10 || t == 11 {
        Some(8)
    } else {
        None
    }
}

/// An error in reading some of the integers is an error in reading all.
proof fn lemma_ints_err(s: Seq<u8>, p: int, t: u32, i: nat, n: nat)
    requires
        i <= n,
        ints_at(s, p, t, i) is Err,
    ensures
        ints_at(s, p, t, n) == ints_at(s, p, t, i),
    decreases n - i,
{
    if i < n {
        lemma_ints_err(s, p, t, i, (n - 1) as nat);
    }
}

/// Reads `n` integers of type `t`, whose size is `size`.
fn read_ints(data: &[u8], p: usize, t: u32, size: usize, n: u64) -> (r: Result<
    (Vec<u32>, Option<u32>, usize),
    GgufError,
>)
    requires
        p <= data@.len(),
        n > 0 ==> int_size(t) == Some(size as nat) && 4 <= size <= 8,
    ensures
        match r {
            Ok((v, max, q)) => ints_at(data@, p as int, t, n as nat) == Ok::<
                (Seq<u32>, int),
                GgufErrorView,
            >((v@, q as int)) && max == greatest(v@) && p <= q <= data@.len(),
            Err(e) => ints_at(data@, p as int, t, n as nat) == Err::<
                (Seq<u32>, int),
                GgufErrorView,
            >(e@),
        },
{
    let mut values: Vec<u32> = Vec::new();
    let mut max: Option<u32> = None;
    let mut q: usize = p;
    let mut i: u64 = 0;
    while i < n
        invariant
            i <= n,
            p <= q <= data@.len(),
            n > 0 ==> int_size(t) == Some(size as nat) && 4 <= size <= 8,
            ints_at(data@, p as int, t, i as nat) == Ok::<(Seq<u32>, int), GgufErrorView>(
                (values@, q as int),
            ),
            max == greatest(values@),
        decreases n - i,
    {
        if !left(data, q, size as u64) {
            proof {
                lemma_ints_err(data@, p as int, t, (i + 1) as nat, n as nat);
            }
            return Err(GgufError::Truncated(GgufPart::Value));
        }
        let v = read_u32(data, q);
        max =
        match max {
            Some(m) => if m >= v {
                Some(m)
            } else {
                Some(v)
            },
            None => Some(v),
        };
        assert(values@.push(v).drop_last() =~= values@);
        values.push(v);
        q += size;
        i += 1;
    }
    Ok((values, max, q))
}

/// Stores a number under a field.
fn set_number(m: &mut GgufMetadata, f: GgufField, n: u32)
    ensures
        final(m)@ == with_number(old(m)@, f, n),
{
    match f {
        GgufField::HeadCountKv => m.head_count_kv = Some(n),
        GgufField::ContextLength => m.context_length = Some(n),
        GgufField::BlockCount => m.block_count = Some(n),
        GgufField::EmbeddingLength => m.embedding_length = Some(n),
        GgufField::HeadCount => m.head_count = Some(n),
        GgufField::KeyLengthSwa => m.key_length_swa = Some(n),
        GgufField::ValueLengthSwa => m.value_length_swa = Some(n),
        GgufField::KeyLength => m.key_length = Some(n),
        GgufField::ValueLength => m.value_length = Some(n),
        GgufField::SlidingWindow => m.sliding_window = Some(n),
        GgufField::ExpertCount => m.expert_count = Some(n),
        _ => {},
    }
}

/// Whether the metadata and position, or the error in their place, are the expected ones.
pub open spec fn same_entry(
    r: Result<usize, GgufError>,
    m: GgufView,
    e: Result<(GgufView, int), GgufErrorView>,
) -> bool {
    match (r, e) {
        (Ok(a), Ok((v, b))) => a == b && m == v,
        (Err(a), Err(b)) => a@ == b,
        _ => false,
    }
}

/// Reads the value of a field that holds one number.
fn read_number_entry(data: &[u8], p: usize, t: u32, f: GgufField, m: &mut GgufMetadata) -> (r:
    Result<usize, GgufError>)
    requires
        p <= data@.len(),
    ensures
        same_entry(r, final(m)@, number_entry(data@, p as int, t, f, old(m)@)),
        r is Ok ==> r->Ok_0 <= data@.len(),
{
    match size_of_int(t) {
        Some(size) => if left(data, p, size as u64) {
            set_number(m, f, read_u32(data, p));
            Ok(p + size)
        } else {
            Err(GgufError::Truncated(GgufPart::Value))
        },
        None => skip_value(data, p, t),
    }
}

/// Reads the head counts.
fn read_head_counts(data: &[u8], p: usize, t: u32, m: &mut GgufMetadata) -> (r: Result<
    usize,
    GgufError,
>)
    requires
        p <= data@.len(),
    ensures
        same_entry(r, final(m)@, head_counts_entry(data@, p as int, t, old(m)@)),
        r is Ok ==> r->Ok_0 <= data@.len(),
{
    if t != 9 {
        return read_number_entry(data, p, t, GgufField::HeadCountKv, m);
    }
    if !left(data, p, 12) {
        return Err(GgufError::Truncated(GgufPart::Value));
    }
    let elem = read_u32(data, p);
    let count: u64 = read_le(data, p + 4, 8);
    let size: usize = match size_of_int(elem) {
        Some(n) => n,
        None => 0,
    };
    if size == 0 && count > 0 {
        return skip_value(data, p, t);
    }
    match read_ints(data, p + 12, elem, size, count) {
        Ok((values, max, q)) => {
            if max.is_some() {
                m.head_count_kv = max;
            }
            m.head_count_kv_per_layer = Some(values);
            Ok(q)
        },
        Err(e) => Err(e),
    }
}

/// Reads the layer pattern.
fn read_pattern(data: &[u8], p: usize, t: u32, m: &mut GgufMetadata) -> (r: Result<
    usize,
    GgufError,
>)
    requires
        p <= data@.len(),
    ensures
        same_entry(r, final(m)@, pattern_entry(data@, p as int, t, old(m)@)),
        r is Ok ==> r->Ok_0 <= data@.len(),
{
    if t != 9 {
        return skip_value(data, p, t);
    }
    if !left(data, p, 12) {
        return Err(GgufError::Truncated(GgufPart::Value));
    }
    let elem = read_u32(data, p);
    let count: u64 = read_le(data, p + 4, 8);
    if elem != 7 {
        return skip_value(data, p, t);
    }
    let q: usize = p + 12;
    if !left(data, q, count) {
        return Err(GgufError::Truncated(GgufPart::Value));
    }
    let n: usize = count as usize;
    let mut flags: Vec<bool> = Vec::new();
    let mut i: usize = 0;
    while i < n
        invariant
            i <= n,
            q + n <= data@.len() <= usize::MAX,
            flags@.len() == i,
            forall|j: int| 0 <= j < i ==> flags@[j] == (data@[q + j] != 0),
        decreases n - i,
    {
        flags.push(data[q + i] != 0);
        i += 1;
    }
    assert(flags@ =~= Seq::new(count as nat, |i: int| data@[p + 12 + i] != 0));
    m.sliding_window_pattern = Some(flags);
    Ok(q + n)
}

/// Reads the entry at `p`.
fn read_entry(data: &[u8], p: usize, m: &mut GgufMetadata) -> (r: Result<usize, GgufError>)
    requires
        p <= data@.len(),
    ensures
        same_entry(r, final(m)@, entry_at(data@, p as int, old(m)@)),
        r is Ok ==> r->Ok_0 <= data@.len(),
{
    let (key, q) = match read_string(data, p) {
        Ok(x) => x,
        Err(e) => {
            return Err(e);
        },
    };
    if !left(data, q, 4) {
        return Err(GgufError::Truncated(GgufPart::Type));
    }
    let t = read_u32(data, q);
    let r: usize = q + 4;
    match field_of_key(&key) {
        GgufField::HeadCountKv => read_head_counts(data, r, t, m),
        GgufField::SlidingWindowPattern => read_pattern(data, r, t, m),
        GgufField::Other => skip_value(data, r, t),
        f => read_number_entry(data, r, t, f, m),
    }
}

/// An error in reading some of the entries is an error in reading all.
proof fn lemma_entries_err(s: Seq<u8>, p: int, i: nat, n: nat)
    requires
        i <= n,
        entries_at(s, p, i) is Err,
    ensures
        entries_at(s, p, n) == entries_at(s, p, i),
    decreases n - i,
{
    if i < n {
        lemma_entries_err(s, p, i, (n - 1) as nat);
    }
}

/// Reads the metadata from the first bytes of a file. `Truncated` says that the bytes end before
/// the header does.
pub fn read_gguf_metadata(data: &[u8]) -> (r: Result<GgufMetadata, GgufError>)
    ensures
        match (r, gguf_metadata(data@)) {
            (Ok(m), Ok(v)) => m@ == v,
            (Err(a), Err(b)) => a@ == b,
            _ => false,
        },
{
    if data.len() < 4 {
        return Err(GgufError::Truncated(GgufPart::Magic));
    }
    if !(data[0] == 0x47 && data[1] == 0x47 && data[2] == 0x55 && data[3] == 0x46) {
        return Err(GgufError::NotGguf);
    }
    if data.len() < 8 {
        return Err(GgufError::Truncated(GgufPart::Version));
    }
    if data.len() < 16 {
        return Err(GgufError::Truncated(GgufPart::TensorCount));
    }
    if data.len() < 24 {
        return Err(GgufError::Truncated(GgufPart::EntryCount));
    }
    let n: u64 = read_le(data, 16, 8);
    if n > MAX_ENTRIES {
        return Err(GgufError::TooManyEntries(n));
    }
    let mut m = GgufMetadata::default();
    let mut p: usize = 24;
    let mut i: u64 = 0;
    while i < n
        invariant
            n == le(data@, 16, 8),
            n <= MAX_ENTRIES,
            data@.len() >= 24,
            gguf_metadata(data@) == (match entries_at(data@, 24, n as nat) {
                Ok((v, _)) => Ok::<GgufView, GgufErrorView>(v),
                Err(e) => Err(e),
            }),
            i <= n,
            p <= data@.len(),
            entries_at(data@, 24, i as nat) == Ok::<(GgufView, int), GgufErrorView>((m@, p as int)),
        decreases n - i,
    {
        match read_entry(data, p, &mut m) {
            Ok(q) => {
                p = q;
            },
            Err(e) => {
                proof {
                    lemma_entries_err(data@, 24, (i + 1) as nat, n as nat);
                }
                return Err(e);
            },
        }
        i += 1;
    }
    Ok(m)
}

impl GgufErrorView {
    /// The error in words.
    pub open spec fn text(self) -> Seq<char> {
        match self {
            GgufErrorView::Truncated(GgufPart::Magic) => "read magic: early eof"@,
            GgufErrorView::Truncated(GgufPart::Version) => "read version: early eof"@,
            GgufErrorView::Truncated(GgufPart::TensorCount) => "read n_tensors: early eof"@,
            GgufErrorView::Truncated(GgufPart::EntryCount) => "read n_kv: early eof"@,
            GgufErrorView::Truncated(GgufPart::StringLength) => "read string len: early eof"@,
            GgufErrorView::Truncated(GgufPart::StringData) => "read string data: early eof"@,
            GgufErrorView::Truncated(GgufPart::Type) => "read type: early eof"@,
            GgufErrorView::Truncated(GgufPart::Value) => "early eof"@,
            GgufErrorView::NotGguf => "not a GGUF file"@,
            GgufErrorView::TooManyEntries(n) => "GGUF n_kv too large: "@ + dec(n as nat)
                + " (max 10000)"@,
            GgufErrorView::StringTooLong(n) => "string too long: "@ + dec(n as nat),
            GgufErrorView::InvalidUtf8(reason) => "invalid utf8: "@ + reason,
            GgufErrorView::UnknownType(t) => "unknown GGUF type: "@ + dec(t as nat),
        }
    }
}

impl GgufError {
    /// The error in words.
    pub fn message(&self) -> (r: String)
        ensures
            r@ == self@.text(),
    {
        match self {
            GgufError::Truncated(part) => match part {
                GgufPart::Magic => "read magic: early eof".to_owned(),
                GgufPart::Version => "read version: early eof".to_owned(),
                GgufPart::TensorCount => "read n_tensors: early eof".to_owned(),
                GgufPart::EntryCount => "read n_kv: early eof".to_owned(),
                GgufPart::StringLength => "read string len: early eof".to_owned(),
                GgufPart::StringData => "read string data: early eof".to_owned(),
                GgufPart::Type => "read type: early eof".to_owned(),
                GgufPart::Value => "early eof".to_owned(),
            },
            GgufError::NotGguf => "not a GGUF file".to_owned(),
            GgufError::TooManyEntries(n) => "GGUF n_kv too large: ".to_owned().concat(
                &dec_text(*n as u128),
            ).concat(" (max 10000)"),
            GgufError::StringTooLong(n) => "string too long: ".to_owned().concat(
                &dec_text(*n as u128),
            ),
            GgufError::InvalidUtf8(reason) => "invalid utf8: ".to_owned().concat(reason),
            GgufError::UnknownType(t) => "unknown GGUF type: ".to_owned().concat(
                &dec_text(*t as u128),
            ),
        }
    }
}

/// A number lies in the bytes that it is read from.
proof fn lemma_le_prefix(s: Seq<u8>, more: Seq<u8>, p: int, n: nat)
    requires
        0 <= p,
        p + n <= s.len(),
    ensures
        le(s + more, p, n) == le(s, p, n),
    decreases n,
{
    if n > 0 {
        lemma_le_prefix(s, more, p + 1, (n - 1) as nat);
    }
}

/// A string that could be read, or whose error is not that the bytes end, reads the same with
/// more bytes behind it.
pub proof fn lemma_string_prefix(s: Seq<u8>, more: Seq<u8>, p: int)
    requires
        0 <= p <= s.len(),
        !(string_at(s, p) matches Err(GgufErrorView::Truncated(_))),
    ensures
        string_at(s + more, p) == string_at(s, p),
        string_at(s, p) matches Ok((_, q)) ==> p < q <= s.len(),
{
    lemma_le_prefix(s, more, p, 8);
    lemma_le_fits(s, p);
    let len = le(s, p, 8);
    if len <= MAX_STRING {
        assert((s + more).subrange(p + 8, p + 8 + len) =~= s.subrange(p + 8, p + 8 + len));
    }
}

/// Likewise for the end of a value.
pub proof fn lemma_value_end_prefix(s: Seq<u8>, more: Seq<u8>, p: int, t: u32)
    requires
        0 <= p <= s.len(),
        !(value_end(s, p, t) matches Err(GgufErrorView::Truncated(_))),
    ensures
        value_end(s + more, p, t) == value_end(s, p, t),
        value_end(s, p, t) matches Ok(q) ==> p < q <= s.len(),
    decreases s.len() - p, 0int,
{
    if t == 8 {
        lemma_string_prefix(s, more, p);
    } else if t == 9 {
        lemma_le_prefix(s, more, p, 4);
        lemma_le_prefix(s, more, p + 4, 8);
        lemma_values_end_prefix(s, more, p + 12, le(s, p, 4) as u32, le(s, p + 4, 8) as nat);
    }
}

/// Likewise for the end of several values.
pub proof fn lemma_values_end_prefix(s: Seq<u8>, more: Seq<u8>, p: int, t: u32, n: nat)
    requires
        0 <= p <= s.len(),
        !(values_end(s, p, t, n) matches Err(GgufErrorView::Truncated(_))),
    ensures
        values_end(s + more, p, t, n) == values_end(s, p, t, n),
        values_end(s, p, t, n) matches Ok(q) ==> p <= q <= s.len(),
    decreases s.len() - p, 1int,
{
    if n > 0 {
        lemma_value_end_prefix(s, more, p, t);
        match value_end(s, p, t) {
            Ok(q) => {
                lemma_values_end_prefix(s, more, q, t, (n - 1) as nat);
            },
            Err(_) => {},
        }
    }
}

/// Likewise for integers.
pub proof fn lemma_ints_prefix(s: Seq<u8>, more: Seq<u8>, p: int, t: u32, n: nat)
    requires
        0 <= p <= s.len(),
        n > 0 ==> int_size(t) is Some,
        !(ints_at(s, p, t, n) matches Err(GgufErrorView::Truncated(_))),
    ensures
        ints_at(s + more, p, t, n) == ints_at(s, p, t, n),
        ints_at(s, p, t, n) matches Ok((_, q)) && p <= q <= s.len(),
    decreases n,
{
    if n > 0 {
        lemma_ints_prefix(s, more, p, t, (n - 1) as nat);
        match ints_at(s, p, t, (n - 1) as nat) {
            Ok((_, q)) => {
                lemma_le_prefix(s, more, q, 4);
            },
            Err(_) => {},
        }
    }
}

/// Likewise for an entry.
pub proof fn lemma_entry_prefix(s: Seq<u8>, more: Seq<u8>, p: int, m: GgufView)
    requires
        0 <= p <= s.len(),
        !(entry_at(s, p, m) matches Err(GgufErrorView::Truncated(_))),
    ensures
        entry_at(s + more, p, m) == entry_at(s, p, m),
        entry_at(s, p, m) matches Ok((_, q)) ==> p <= q <= s.len(),
{
    lemma_string_prefix(s, more, p);
    match string_at(s, p) {
        Ok((key, q)) => {
            lemma_le_prefix(s, more, q, 4);
            lemma_le_fits(s, q);
            let t = le(s, q, 4) as u32;
            let r = q + 4;
            match field_of(key) {
                GgufField::HeadCountKv => {
                    if t != 9 {
                        lemma_number_prefix(s, more, r, t, GgufField::HeadCountKv, m);
                    } else {
                        lemma_le_prefix(s, more, r, 4);
                        lemma_le_prefix(s, more, r + 4, 8);
                        lemma_le_fits(s, r + 4);
                        let elem = le(s, r, 4) as u32;
                        let count = le(s, r + 4, 8) as nat;
                        if int_size(elem) is Some || count == 0 {
                            lemma_ints_prefix(s, more, r + 12, elem, count);
                        } else {
                            lemma_value_end_prefix(s, more, r, t);
                        }
                    }
                },
                GgufField::SlidingWindowPattern => {
                    if t != 9 {
                        lemma_value_end_prefix(s, more, r, t);
                    } else {
                        lemma_le_prefix(s, more, r, 4);
                        lemma_le_prefix(s, more, r + 4, 8);
                        lemma_le_fits(s, r + 4);
                        if le(s, r, 4) as u32 != 7 {
                            lemma_value_end_prefix(s, more, r, t);
                        } else {
                            let count = le(s, r + 4, 8) as nat;
                            assert(Seq::new(count, |i: int| (s + more)[r + 12 + i] != 0)
                                =~= Seq::new(count, |i: int| s[r + 12 + i] != 0));
                        }
                    }
                },
                GgufField::Other => {
                    lemma_value_end_prefix(s, more, r, t);
                },
                f => {
                    lemma_number_prefix(s, more, r, t, f, m);
                },
            }
        },
        Err(_) => {},
    }
}

/// Likewise for a number.
proof fn lemma_number_prefix(
    s: Seq<u8>,
    more: Seq<u8>,
    p: int,
    t: u32,
    f: GgufField,
    m: GgufView,
)
    requires
        0 <= p <= s.len(),
        !(number_entry(s, p, t, f, m) matches Err(GgufErrorView::Truncated(_))),
    ensures
        number_entry(s + more, p, t, f, m) == number_entry(s, p, t, f, m),
        number_entry(s, p, t, f, m) matches Ok((_, q)) ==> p <= q <= s.len(),
{
    if int_size(t) is Some {
        lemma_le_prefix(s, more, p, 4);
    } else {
        lemma_value_end_prefix(s, more, p, t);
    }
}

/// Likewise for several entries.
proof fn lemma_entries_prefix(s: Seq<u8>, more: Seq<u8>, p: int, n: nat)
    requires
        0 <= p <= s.len(),
        !(entries_at(s, p, n) matches Err(GgufErrorView::Truncated(_))),
    ensures
        entries_at(s + more, p, n) == entries_at(s, p, n),
        entries_at(s, p, n) matches Ok((_, q)) ==> p <= q <= s.len(),
    decreases n,
{
    if n > 0 {
        lemma_entries_prefix(s, more, p, (n - 1) as nat);
        match entries_at(s, p, (n - 1) as nat) {
            Ok((m, q)) => {
                lemma_entry_prefix(s, more, q, m);
            },
            Err(_) => {},
        }
    }
}

/// The first bytes of a file suffice: metadata that could be read from them, and every error but
/// `Truncated`, is what the whole file gives.
pub proof fn law_first_bytes_suffice(s: Seq<u8>, more: Seq<u8>)
    requires
        !(gguf_metadata(s) matches Err(GgufErrorView::Truncated(_))),
    ensures
        gguf_metadata(s + more) == gguf_metadata(s),
{
    assert(s.len() >= 4);
    if s[0] == 0x47 && s[1] == 0x47 && s[2] == 0x55 && s[3] == 0x46 {
        lemma_le_prefix(s, more, 16, 8);
        lemma_le_fits(s, 16);
        if le(s, 16, 8) <= MAX_ENTRIES {
            lemma_entries_prefix(s, more, 24, le(s, 16, 8) as nat);
        }
    }
}

/// The head count that is kept of an array is the greatest of its numbers.
pub proof fn law_greatest_is_an_upper_bound(v: Seq<u32>)
    requires
        v.len() > 0,
    ensures
        greatest(v) is Some,
        v.contains(greatest(v)->0),
        forall|i: int| 0 <= i < v.len() ==> v[i] <= greatest(v)->0,
    decreases v.len(),
{
    if v.len() == 1 {
        assert(greatest(v.drop_last()) is None);
        assert(v[0] == v.last());
    } else {
        law_greatest_is_an_upper_bound(v.drop_last());
        let m = greatest(v.drop_last())->0;
        let i = choose|i: int| 0 <= i < v.drop_last().len() && v.drop_last()[i] == m;
        assert(v[i] == m);
        assert(v[v.len() - 1] == v.last());
        assert forall|j: int| 0 <= j < v.len() implies v[j] <= greatest(v)->0 by {
            if j < v.len() - 1 {
                assert(v.drop_last()[j] == v[j]);
            }
        }
    }
}

} // verus!
