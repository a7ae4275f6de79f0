//! Model downloads from HuggingFace: which files to take, what they are called and where they go.
use vstd::prelude::*;
use vstd::string::StringExecFns;
use vstd::utf8::{decode_utf8, encode_utf8, encode_utf8_decode_utf8};
use crate::json::{json_views, no_fields, text_views, Json, JsonView, ObjectBuilder};
use crate::text::{
    chars_of, contains, dec, dec_text, ends_with, has_prefix, has_suffix, lower, occurs, opt_view,
    sort_strings, sorted, split, split_on, starts_with, str_eq, to_lowercase, trim, trimmed, views,
};

verus! {

/// A file of a repository.
#[derive(Debug)]
pub struct HfFileEntry {
    pub file_type: String,
    pub path: String,
    pub size: Option<u64>,
}

/// The size of a file; zero where it is not known.
pub open spec fn file_size(f: HfFileEntry) -> u64 {
    match f.size {
        Some(n) => n,
        None => 0,
    }
}

/// Whether `path` names a multimodal projector at the root of a repository.
pub open spec fn mmproj_name(path: Seq<char>) -> bool {
    &&& !path.contains('/')
    &&& has_prefix(path, "mmproj-"@) || has_prefix(path, "mmproj_"@)
    &&& has_suffix(path, ".gguf"@)
}

/// Whether a text holds a character.
fn has_char(s: &str, c: char) -> (r: bool)
    ensures
        r == s@.contains(c),
{
    let v = chars_of(s);
    let mut i: usize = 0;
    while i < v.len()
        invariant
            v@ == s@,
            i <= v@.len(),
            forall|j: int| 0 <= j < i ==> v@[j] != c,
        decreases v@.len() - i,
    {
        if v[i] == c {
            assert(s@[i as int] == c);
            return true;
        }
        i += 1;
    }
    false
}

/// Whether `path` names a multimodal projector at the root of a repository: `mmproj-*.gguf` or
/// `mmproj_*.gguf`.
pub fn is_mmproj_filename(path: &str) -> (r: bool)
    ensures
        r == mmproj_name(path@),
{
    if has_char(path, '/') {
        return false;
    }
    (starts_with(path, "mmproj-") || starts_with(path, "mmproj_")) && ends_with(path, ".gguf")
}

/// Whether a file is wanted: every file without a filter, else those listed; a projector always.
pub open spec fn wanted(path: Seq<char>, filter: Option<Seq<Seq<char>>>) -> bool {
    mmproj_name(path) || match filter {
        None => true,
        Some(list) => list.contains(path),
    }
}

/// The view of an optional filter.
pub open spec fn filter_view(filter: Option<&[String]>) -> Option<Seq<Seq<char>>> {
    match filter {
        Some(list) => Some(views(list@)),
        None => None,
    }
}

/// Whether a file is wanted.
pub fn should_include(path: &str, filter: Option<&[String]>) -> (r: bool)
    ensures
        r == wanted(path@, filter_view(filter)),
{
    if is_mmproj_filename(path) {
        return true;
    }
    match filter {
        None => true,
        Some(list) => {
            let ghost all = views(list@);
            let mut i: usize = 0;
            while i < list.len()
                invariant
                    all == views(list@),
                    filter_view(filter) == Some(all),
                    i <= list@.len(),
                    forall|j: int| 0 <= j < i ==> all[j] != path@,
                decreases list@.len() - i,
            {
                assert(all[i as int] == list@[i as int]@);
                if str_eq(&list[i], path) {
                    assert(all.contains(path@));
                    return true;
                }
                i += 1;
            }
            false
        },
    }
}

/// Whether an entry is a file that belongs to the model, and not to the repository's own records.
pub open spec fn is_model_file(f: HfFileEntry) -> bool {
    &&& f.file_type@ == "file"@
    &&& !has_prefix(f.path@, ".gitattributes"@)
    &&& !has_prefix(f.path@, ".gitignore"@)
    &&& !has_prefix(f.path@, ".git"@)
}

/// Whether an entry is a file that belongs to the model.
fn model_file(f: &HfFileEntry) -> (r: bool)
    ensures
        r == is_model_file(*f),
{
    str_eq(&f.file_type, "file") && !starts_with(&f.path, ".gitattributes") && !starts_with(
        &f.path,
        ".gitignore",
    ) && !starts_with(&f.path, ".git")
}

/// The entry for a file in a listing.
pub open spec fn listed_file(f: HfFileEntry) -> JsonView {
    JsonView::Object(
        no_fields().push(("path"@, JsonView::Text(f.path@))).push(
            ("size"@, JsonView::Number(dec(file_size(f) as nat))),
        ),
    )
}

/// The entries for all files that belong to the model.
pub open spec fn listed_files(files: Seq<HfFileEntry>) -> Seq<JsonView>
    decreases files.len(),
{
    if files.len() == 0 {
        Seq::empty()
    } else {
        let before = listed_files(files.drop_last());
        if is_model_file(files.last()) {
            before.push(listed_file(files.last()))
        } else {
            before
        }
    }
}

/// The body that lists the files of a repository.
pub fn list_repo_files(files: &Vec<HfFileEntry>) -> (r: Json)
    ensures
        r@ == JsonView::Object(no_fields().push(("files"@, JsonView::Array(listed_files(files@))))),
{
    let mut out: Vec<Json> = Vec::new();
    let mut i: usize = 0;
    assert(json_views(out@) =~= Seq::empty());
    while i < files.len()
        invariant
            i <= files@.len(),
            json_views(out@) == listed_files(files@.take(i as int)),
        decreases files@.len() - i,
    {
        assert(files@.take(i + 1).drop_last() =~= files@.take(i as int));
        if model_file(&files[i]) {
            let ghost before = out@;
            let size: u64 = files[i].size.unwrap_or(0);
            let entry = ObjectBuilder::new().with("path", Json::str(&files[i].path)).with(
                "size",
                Json::unsigned(size as u128),
            ).done();
            out.push(entry);
            assert(json_views(out@) =~= json_views(before).push(entry@));
        }
        i += 1;
    }
    assert(files@.take(i as int) =~= files@);
    ObjectBuilder::new().with("files", Json::array(out)).done()
}

/// The files that a download takes, in order.
pub open spec fn downloadable(
    files: Seq<HfFileEntry>,
    filter: Option<Seq<Seq<char>>>,
) -> Seq<HfFileEntry> {
    files.filter(|f: HfFileEntry| is_model_file(f) && wanted(f.path@, filter))
}

/// The files that a download takes, in order; an error where there are none.
pub fn list_downloadable_files(files: Vec<HfFileEntry>, filter: Option<&[String]>) -> (r: Result<
    Vec<HfFileEntry>,
    &'static str,
>)
    ensures
        match r {
            Ok(v) => v@ == downloadable(files@, filter_view(filter)) && v@.len() > 0,
            Err(e) => downloadable(files@, filter_view(filter)).len() == 0 && e@
                == "No files found in repository"@,
        },
{
    let ghost all = files@;
    let ghost keep = |f: HfFileEntry| is_model_file(f) && wanted(f.path@, filter_view(filter));
    let mut out: Vec<HfFileEntry> = Vec::new();
    proof {
        reveal(Seq::filter);
    }
    for f in it: files
        invariant
            it.seq() == all,
            keep == (|f: HfFileEntry| is_model_file(f) && wanted(f.path@, filter_view(filter))),
            out@ == all.take(it.index()).filter(keep),
    {
        proof {
            reveal(Seq::filter);
            assert(all.take(it.index() + 1).drop_last() =~= all.take(it.index()));
        }
        if model_file(&f) && should_include(&f.path, filter) {
            out.push(f);
        }
    }
    assert(all.take(all.len() as int) =~= all);
    if out.len() == 0 {
        Err("No files found in repository")
    } else {
        Ok(out)
    }
}

/// Whether file `i` is the largest with the given ending; the first of several that are.
pub open spec fn is_largest(files: Seq<HfFileEntry>, ending: Seq<char>, i: int) -> bool {
    &&& 0 <= i < files.len()
    &&& has_suffix(files[i].path@, ending)
    &&& forall|j: int|
        0 <= j < files.len() && has_suffix((#[trigger] files[j]).path@, ending) ==> file_size(
            files[j],
        ) <= file_size(files[i])
    &&& forall|j: int|
        0 <= j < i && has_suffix((#[trigger] files[j]).path@, ending) ==> file_size(files[j])
            < file_size(files[i])
}

/// Whether no file has the given ending.
pub open spec fn none_ends(files: Seq<HfFileEntry>, ending: Seq<char>) -> bool {
    forall|j: int| 0 <= j < files.len() ==> !has_suffix((#[trigger] files[j]).path@, ending)
}

/// The position of the largest file with the given ending.
fn largest_with(files: &[HfFileEntry], ending: &str) -> (r: Option<usize>)
    ensures
        match r {
            Some(i) => is_largest(files@, ending@, i as int),
            None => none_ends(files@, ending@),
        },
{
    let mut best: Option<usize> = None;
    let mut i: usize = 0;
    assert(files@.take(0) =~= Seq::empty());
    while i < files.len()
        invariant
            i <= files@.len(),
            match best {
                Some(k) => k < i && is_largest(files@.take(i as int), ending@, k as int),
                None => none_ends(files@.take(i as int), ending@),
            },
        decreases files@.len() - i,
    {
        let ghost old_part = files@.take(i as int);
        let ghost part = files@.take(i + 1);
        assert forall|j: int| 0 <= j < i implies #[trigger] part[j] == old_part[j] by {}
        if ends_with(&files[i].path, ending) {
            let size: u64 = files[i].size.unwrap_or(0);
            match best {
                Some(k) => {
                    if size > files[k].size.unwrap_or(0) {
                        best = Some(i);
                        assert(is_largest(part, ending@, i as int));
                    } else {
                        assert(is_largest(part, ending@, k as int));
                    }
                },
                None => {
                    best = Some(i);
                    assert(is_largest(part, ending@, i as int));
                },
            }
        } else {
            match best {
                Some(k) => {
                    assert(is_largest(part, ending@, k as int));
                },
                None => {
                    assert(none_ends(part, ending@));
                },
            }
        }
        i += 1;
    }
    assert(files@.take(i as int) =~= files@);
    best
}

/// Whether file `i` is the model's main file: the largest `.gguf` file, or the largest
/// `.safetensors` file where there is no `.gguf` file.
pub open spec fn is_primary(files: Seq<HfFileEntry>, i: int) -> bool {
    ||| is_largest(files, ".gguf"@, i)
    ||| none_ends(files, ".gguf"@) && is_largest(files, ".safetensors"@, i)
}

/// The model's main file.
pub fn detect_primary_file(files: &[HfFileEntry]) -> (r: Option<String>)
    ensures
        match r {
            Some(path) => exists|i: int| #[trigger]
                is_primary(files@, i) && path@ == files@[i].path@,
            None => none_ends(files@, ".gguf"@) && none_ends(files@, ".safetensors"@),
        },
{
    match largest_with(files, ".gguf") {
        Some(i) => {
            assert(is_primary(files@, i as int));
            Some(files[i].path.clone())
        },
        None => match largest_with(files, ".safetensors") {
            Some(i) => {
                assert(is_primary(files@, i as int));
                Some(files[i].path.clone())
            },
            None => None,
        },
    }
}

/// Whether a name, in small letters, holds a mark.
pub open spec fn marked(name: Seq<char>, mark: Seq<char>) -> bool {
    occurs(lower(name), mark)
}

/// The precision that a projector's name states, as a rank: `f16` before `bf16` before `f32`
/// before anything else.
pub open spec fn variant_rank(name: Seq<char>) -> int {
    if marked(name, "f16"@) && !marked(name, "bf16"@) {
        0
    } else if marked(name, "bf16"@) {
        1
    } else if marked(name, "f32"@) {
        2
    } else {
        3
    }
}

/// Whether name `i` is the first of the best rank.
pub open spec fn is_preferred(names: Seq<Seq<char>>, i: int) -> bool {
    &&& 0 <= i < names.len()
    &&& forall|j: int| 0 <= j < names.len() ==> variant_rank(names[i]) <= variant_rank(names[j])
    &&& forall|j: int| 0 <= j < i ==> variant_rank(names[i]) < variant_rank(names[j])
}

/// The rank of a projector's name.
fn rank_of(name: &str) -> (r: u8)
    ensures
        r == variant_rank(name@),
{
    let lc = to_lowercase(name);
    if contains(&lc, "f16") && !contains(&lc, "bf16") {
        0
    } else if contains(&lc, "bf16") {
        1
    } else if contains(&lc, "f32") {
        2
    } else {
        3
    }
}

/// The first name of the best rank.
pub fn pick_mmproj_variant(names: &[String]) -> (r: String)
    requires
        names@.len() > 0,
    ensures
        exists|i: int| #[trigger] is_preferred(views(names@), i) && r@ == views(names@)[i],
{
    let ghost all = views(names@);
    let mut best: usize = 0;
    let mut rank: u8 = rank_of(&names[0]);
    let mut i: usize = 1;
    while i < names.len()
        invariant
            all == views(names@),
            best < i <= names@.len(),
            rank == variant_rank(all[best as int]),
            forall|j: int| 0 <= j < i ==> rank <= variant_rank(all[j]),
            forall|j: int| 0 <= j < best ==> rank < variant_rank(all[j]),
        decreases names@.len() - i,
    {
        let next: u8 = rank_of(&names[i]);
        assert(all[i as int] == names@[i as int]@);
        if next < rank {
            best = i;
            rank = next;
        }
        i += 1;
    }
    assert(is_preferred(all, best as int));
    names[best].clone()
}

/// The projectors among the files.
pub open spec fn mmproj_names(files: Seq<HfFileEntry>) -> Seq<Seq<char>>
    decreases files.len(),
{
    if files.len() == 0 {
        Seq::empty()
    } else {
        let before = mmproj_names(files.drop_last());
        if mmproj_name(files.last().path@) {
            before.push(files.last().path@)
        } else {
            before
        }
    }
}

/// The projector to use: the first, in order of names, of the best precision; none where there is
/// no projector.
pub fn detect_mmproj_file(files: &[HfFileEntry]) -> (r: Option<String>)
    ensures
        match r {
            Some(name) => exists|i: int| #[trigger]
                is_preferred(sorted(mmproj_names(files@)), i) && name@ == sorted(
                    mmproj_names(files@),
                )[i],
            None => mmproj_names(files@).len() == 0,
        },
{
    let mut candidates: Vec<String> = Vec::new();
    let mut i: usize = 0;
    assert(views(candidates@) =~= Seq::empty());
    assert(files@.take(0) =~= Seq::empty());
    while i < files.len()
        invariant
            i <= files@.len(),
            views(candidates@) == mmproj_names(files@.take(i as int)),
        decreases files@.len() - i,
    {
        assert(files@.take(i + 1).drop_last() =~= files@.take(i as int));
        if is_mmproj_filename(&files[i].path) {
            let ghost before = candidates@;
            candidates.push(files[i].path.clone());
            assert(views(candidates@) =~= views(before).push(files@[i as int].path@));
        }
        i += 1;
    }
    assert(files@.take(i as int) =~= files@);
    assert(views(candidates@).len() == candidates@.len());
    if candidates.len() == 0 {
        return None;
    }
    let ordered = sort_strings(&candidates);
    proof {
        crate::text::lemma_sorted_len(views(candidates@));
        assert(views(ordered@).len() == ordered@.len());
    }
    Some(pick_mmproj_variant(&ordered))
}

/// The quotient, rounded to the nearest integer, halves to the even one.
pub open spec fn round_half_even(n: int, d: int) -> int {
    let q = n / d;
    let r = n % d;
    if 2 * r > d || (2 * r == d && q % 2 == 1) {
        q + 1
    } else {
        q
    }
}

/// The distance between neighbouring numbers of 53 significant bits, at `n`.
pub open spec fn spacing(n: int) -> int
    decreases n,
{
    if n < 0x20_0000_0000_0000 {
        1
    } else {
        2 * spacing(n / 2)
    }
}

/// `n` rounded to 53 significant bits.
pub open spec fn to_53_bits(n: int) -> int {
    round_half_even(n, spacing(n)) * spacing(n)
}

/// `n` in units of `unit` with one decimal place, followed by the unit's name.
pub open spec fn in_units(n: int, unit: int, name: Seq<char>) -> Seq<char> {
    let tenths = round_half_even(to_53_bits(n) * 10, unit);
    dec((tenths / 10) as nat) + "."@ + dec((tenths % 10) as nat) + name
}

/// A number of bytes in words: in the largest binary unit that it reaches.
pub open spec fn bytes_text(n: int) -> Seq<char> {
    if n >= 0x100_0000_0000 {
        in_units(n, 0x100_0000_0000, " TB"@)
    } else if n >= 0x4000_0000 {
        in_units(n, 0x4000_0000, " GB"@)
    } else if n >= 0x10_0000 {
        in_units(n, 0x10_0000, " MB"@)
    } else if n >= 0x400 {
        in_units(n, 0x400, " KB"@)
    } else {
        dec(n as nat) + " B"@
    }
}

/// The quotient, rounded to the nearest integer, halves to the even one.
fn div_round(n: u128, d: u128) -> (r: u128)
    requires
        0 < d <= 0x1000_0000_0000_0000_0000,
        n <= 0x1000_0000_0000_0000_0000_0000,
    ensures
        r == round_half_even(n as int, d as int),
        r <= n + 1,
{
    let q: u128 = n / d;
    let m: u128 = n % d;
    assert(q <= n) by (nonlinear_arith)
        requires
            q == n / d,
            d > 0,
            n >= 0,
    ;
    if 2 * m > d || (2 * m == d && q % 2 == 1) {
        q + 1
    } else {
        q
    }
}

/// The distance between neighbouring numbers of 53 significant bits, at `n`.
fn spacing_at(n: u64) -> (r: u64)
    ensures
        r == spacing(n as int),
        1 <= r <= n + 1,
        n >= 0x20_0000_0000_0000 ==> r * 0x10_0000_0000_0000 <= n,
        n < 0x20_0000_0000_0000 ==> r == 1,
    decreases n,
{
    if n < 0x20_0000_0000_0000 {
        1
    } else {
        2 * spacing_at(n / 2)
    }
}

/// `n` in units of `unit` with one decimal place, followed by the unit's name.
fn text_in_units(n: u64, unit: u64, name: &str) -> (r: String)
    requires
        unit > 0,
    ensures
        r@ == in_units(n as int, unit as int, name@),
{
    let step: u64 = spacing_at(n);
    let k: u128 = div_round(n as u128, step as u128);
    proof {
        lemma_rounded_bound(n as int, step as int);
    }
    let rounded: u128 = k * (step as u128);
    let tenths: u128 = div_round(rounded * 10, unit as u128);
    let whole = dec_text(tenths / 10);
    let part = dec_text(tenths % 10);
    whole.concat(".").concat(&part).concat(name)
}

/// Rounding to a multiple moves a number by at most that multiple.
proof fn lemma_rounded_bound(n: int, d: int)
    requires
        0 <= n,
        1 <= d <= n + 1,
    ensures
        0 <= round_half_even(n, d) * d <= n + d,
{
    let q = n / d;
    let r = n % d;
    assert(n == d * q + r && 0 <= r < d && q >= 0) by (nonlinear_arith)
        requires
            q == n / d,
            r == n % d,
            d > 0,
            n >= 0,
    ;
    assert((q + 1) * d == d * q + d) by (nonlinear_arith);
    assert(q * d == d * q) by (nonlinear_arith);
    assert(0 <= d * q) by (nonlinear_arith)
        requires
            d > 0,
            q >= 0,
    ;
}

/// A number of bytes in words.
pub fn format_bytes(bytes: u64) -> (r: String)
    ensures
        r@ == bytes_text(bytes as int),
{
    if bytes >= 0x100_0000_0000 {
        text_in_units(bytes, 0x100_0000_0000, " TB")
    } else if bytes >= 0x4000_0000 {
        text_in_units(bytes, 0x4000_0000, " GB")
    } else if bytes >= 0x10_0000 {
        text_in_units(bytes, 0x10_0000, " MB")
    } else if bytes >= 0x400 {
        text_in_units(bytes, 0x400, " KB")
    } else {
        dec_text(bytes as u128).concat(" B")
    }
}

/// The hexadecimal digit, in capitals, with value `d`.
pub open spec fn hex_digit(d: int) -> char {
    if d < 10 {
        (48 + d) as char
    } else {
        (55 + d) as char
    }
}

/// A byte as a percent sign and two hexadecimal digits.
pub open spec fn percent(b: u8) -> Seq<char> {
    seq!['%', hex_digit(b as int / 16), hex_digit(b as int % 16)]
}

/// Bytes, each as a percent sign and two hexadecimal digits.
pub open spec fn percents(bytes: Seq<u8>) -> Seq<char>
    decreases bytes.len(),
{
    if bytes.len() == 0 {
        Seq::empty()
    } else {
        percents(bytes.drop_last()) + percent(bytes.last())
    }
}

/// Whether a character stands for itself in a query.
pub open spec fn unreserved(c: char) -> bool {
    'A' <= c <= 'Z' || 'a' <= c <= 'z' || '0' <= c <= '9' || c == '-' || c == '_' || c == '.' || c
        == '~'
}

/// A character in a query: a space is a plus sign, and what does not stand for itself is given by
/// the bytes of its UTF-8 form.
pub open spec fn encoded_char(c: char) -> Seq<char> {
    if unreserved(c) {
        seq![c]
    } else if c == ' ' {
        seq!['+']
    } else {
        percents(encode_utf8(seq![c]))
    }
}

/// A text in a query.
pub open spec fn url_encoded(s: Seq<char>) -> Seq<char>
    decreases s.len(),
{
    if s.len() == 0 {
        Seq::empty()
    } else {
        url_encoded(s.drop_last()) + encoded_char(s.last())
    }
}

/// The hexadecimal digit with value `d`.
fn hex_char(d: u8) -> (c: char)
    requires
        d < 16,
    ensures
        c == hex_digit(d as int),
{
    if d < 10 {
        (48 + d) as char
    } else {
        (55 + d) as char
    }
}

/// A text in a query.
pub fn urlencoded(s: &str) -> (r: String)
    ensures
        r@ == url_encoded(s@),
{
    let v = chars_of(s);
    let mut out = String::new();
    let mut i: usize = 0;
    while i < v.len()
        invariant
            v@ == s@,
            i <= v@.len(),
            out@ == url_encoded(s@.take(i as int)),
        decreases v@.len() - i,
    {
        assert(s@.take(i + 1).drop_last() =~= s@.take(i as int));
        let c = v[i];
        let ghost before = out@;
        if ('A' <= c && c <= 'Z') || ('a' <= c && c <= 'z') || ('0' <= c && c <= '9') || c == '-'
            || c == '_' || c == '.' || c == '~' {
            out.push(c);
            assert(out@ =~= before + seq![c]);
        } else if c == ' ' {
            out.push('+');
            assert(out@ =~= before + seq!['+']);
        } else {
            let mut one = String::new();
            one.push(c);
            assert(one@ =~= seq![c]);
            let bytes = one.as_str().as_bytes();
            let mut k: usize = 0;
            assert(before + percents(bytes@.take(0)) =~= before);
            while k < bytes.len()
                invariant
                    k <= bytes@.len(),
                    out@ == before + percents(bytes@.take(k as int)),
                decreases bytes@.len() - k,
            {
                assert(bytes@.take(k + 1).drop_last() =~= bytes@.take(k as int));
                let b: u8 = bytes[k];
                out.push('%');
                out.push(hex_char(b / 16));
                out.push(hex_char(b % 16));
                assert(out@ =~= before + (percents(bytes@.take(k as int)) + percent(b)));
                k += 1;
            }
            assert(bytes@.take(k as int) =~= bytes@);
        }
        i += 1;
    }
    assert(s@.take(i as int) =~= s@);
    out
}

/// Whether a character is a hexadecimal digit in capitals.
pub open spec fn is_hex_digit(c: char) -> bool {
    '0' <= c <= '9' || 'A' <= c <= 'F'
}

/// Whether a text may stand in a query: it is made of characters that stand for themselves, plus
/// signs, and percent signs with two hexadecimal digits behind each.
pub open spec fn query_safe(s: Seq<char>) -> bool {
    forall|i: int|
        #![trigger s[i]]
        0 <= i < s.len() ==> {
            ||| unreserved(s[i])
            ||| s[i] == '+'
            ||| s[i] == '%' && i + 2 < s.len() && is_hex_digit(s[i + 1]) && is_hex_digit(s[i + 2])
        }
}

/// Two safe texts make a safe one.
proof fn lemma_safe_join(a: Seq<char>, b: Seq<char>)
    requires
        query_safe(a),
        query_safe(b),
    ensures
        query_safe(a + b),
{
    let s = a + b;
    assert forall|i: int| #![trigger s[i]] 0 <= i < s.len() implies {
        ||| unreserved(s[i])
        ||| s[i] == '+'
        ||| s[i] == '%' && i + 2 < s.len() && is_hex_digit(s[i + 1]) && is_hex_digit(s[i + 2])
    } by {
        if i < a.len() {
            assert(s[i] == a[i]);
            if i + 2 < a.len() {
                assert(s[i + 1] == a[i + 1]);
                assert(s[i + 2] == a[i + 2]);
            }
        } else {
            let k = i - a.len();
            assert(s[i] == b[k]);
            if k + 2 < b.len() {
                assert(s[i + 1] == b[k + 1]);
                assert(s[i + 2] == b[k + 2]);
            }
        }
    }
}

/// Percent-encoded bytes are safe in a query.
proof fn lemma_percents_safe(bytes: Seq<u8>)
    ensures
        query_safe(percents(bytes)),
    decreases bytes.len(),
{
    if bytes.len() > 0 {
        lemma_percents_safe(bytes.drop_last());
        let b = bytes.last();
        let p = percent(b);
        assert(p[1] == hex_digit(b as int / 16) && is_hex_digit(p[1]));
        assert(p[2] == hex_digit(b as int % 16) && is_hex_digit(p[2]));
        lemma_safe_join(percents(bytes.drop_last()), p);
    }
}

/// An encoded text holds nothing that has a meaning of its own in a URL, and each percent sign in
/// it has two hexadecimal digits behind it.
pub proof fn law_encoding_is_safe(s: Seq<char>)
    ensures
        query_safe(url_encoded(s)),
    decreases s.len(),
{
    if s.len() > 0 {
        law_encoding_is_safe(s.drop_last());
        lemma_percents_safe(encode_utf8(seq![s.last()]));
        lemma_safe_join(url_encoded(s.drop_last()), encoded_char(s.last()));
    }
}

/// The value of a hexadecimal digit in capitals.
pub open spec fn hex_value(c: char) -> int {
    if c <= '9' {
        c as int - 48
    } else {
        c as int - 55
    }
}

/// The bytes that a text in a query stands for: a plus sign is a space, a percent sign gives a byte
/// by the two digits behind it, and any other character is its UTF-8 form.
pub open spec fn url_decoded(s: Seq<char>) -> Seq<u8>
    decreases s.len(),
{
    if s.len() == 0 {
        Seq::empty()
    } else if s[0] == '%' && s.len() >= 3 {
        seq![(16 * hex_value(s[1]) + hex_value(s[2])) as u8] + url_decoded(s.skip(3))
    } else if s[0] == '+' {
        encode_utf8(seq![' ']) + url_decoded(s.skip(1))
    } else {
        encode_utf8(seq![s[0]]) + url_decoded(s.skip(1))
    }
}

/// A byte in percent form is read back.
proof fn lemma_percent_decoded(b: u8, rest: Seq<char>)
    ensures
        url_decoded(percent(b) + rest) == seq![b] + url_decoded(rest),
{
    let s = percent(b) + rest;
    let high = b as int / 16;
    let low = b as int % 16;
    assert(s[0] == '%');
    assert(s[1] == hex_digit(high));
    assert(s[2] == hex_digit(low));
    assert(s.skip(3) =~= rest);
    assert(0 <= high < 16 && 0 <= low < 16);
    assert(hex_value(hex_digit(high)) == high);
    assert(hex_value(hex_digit(low)) == low);
    assert(16 * high + low == b);
}

/// Bytes in percent form are read back.
proof fn lemma_percents_decoded(bytes: Seq<u8>, rest: Seq<char>)
    ensures
        url_decoded(percents(bytes) + rest) == bytes + url_decoded(rest),
    decreases bytes.len(),
{
    if bytes.len() == 0 {
        assert(percents(bytes) + rest =~= rest);
        assert(bytes + url_decoded(rest) =~= url_decoded(rest));
    } else {
        let before = bytes.drop_last();
        let b = bytes.last();
        assert(percents(bytes) + rest =~= percents(before) + (percent(b) + rest));
        lemma_percents_decoded(before, percent(b) + rest);
        lemma_percent_decoded(b, rest);
        assert(before + (seq![b] + url_decoded(rest)) =~= bytes + url_decoded(rest));
    }
}

/// An encoded character is read back.
proof fn lemma_char_decoded(c: char, rest: Seq<char>)
    ensures
        url_decoded(encoded_char(c) + rest) == encode_utf8(seq![c]) + url_decoded(rest),
{
    let s = encoded_char(c) + rest;
    if unreserved(c) || c == ' ' {
        assert(s.skip(1) =~= rest);
    } else {
        lemma_percents_decoded(encode_utf8(seq![c]), rest);
    }
}

/// The UTF-8 form of a text is that of its characters in turn.
proof fn lemma_encode_push(s: Seq<char>, c: char)
    ensures
        encode_utf8(s.push(c)) == encode_utf8(s) + encode_utf8(seq![c]),
    decreases s.len(),
{
    let all = s.push(c);
    if s.len() == 0 {
        assert(all =~= seq![c]);
        assert(encode_utf8(s) + encode_utf8(seq![c]) =~= encode_utf8(seq![c]));
    } else {
        lemma_encode_push(s.drop_first(), c);
        assert(all.drop_first() =~= s.drop_first().push(c));
        assert(encode_utf8(all) =~= encode_utf8(s) + encode_utf8(seq![c]));
    }
}

/// An encoded text is read back, whatever stands behind it.
proof fn lemma_text_decoded(s: Seq<char>, rest: Seq<char>)
    ensures
        url_decoded(url_encoded(s) + rest) == encode_utf8(s) + url_decoded(rest),
    decreases s.len(),
{
    if s.len() == 0 {
        assert(url_encoded(s) + rest =~= rest);
        assert(encode_utf8(s) + url_decoded(rest) =~= url_decoded(rest));
    } else {
        let before = s.drop_last();
        let c = s.last();
        assert(url_encoded(s) + rest =~= url_encoded(before) + (encoded_char(c) + rest));
        lemma_text_decoded(before, encoded_char(c) + rest);
        lemma_char_decoded(c, rest);
        lemma_encode_push(before, c);
        assert(before.push(c) =~= s);
        assert(encode_utf8(before) + (encode_utf8(seq![c]) + url_decoded(rest)) =~= encode_utf8(s)
            + url_decoded(rest));
    }
}

/// Decoding an encoded text gives back its bytes, and so the text.
pub proof fn law_encoding_is_undone(s: Seq<char>)
    ensures
        url_decoded(url_encoded(s)) == encode_utf8(s),
        decode_utf8(url_decoded(url_encoded(s))) == s,
{
    lemma_text_decoded(s, Seq::empty());
    assert(url_encoded(s) + Seq::<char>::empty() =~= url_encoded(s));
    assert(encode_utf8(s) + url_decoded(Seq::empty()) =~= encode_utf8(s));
    encode_utf8_decode_utf8(s);
}

/// What a search asks for.
#[derive(Debug)]
pub struct SearchQuery {
    pub q: Option<String>,
    pub task: Option<String>,
    pub tags: Option<String>,
    pub offset: Option<usize>,
    pub limit: Option<usize>,
}

/// A repository that a search found.
#[derive(Debug)]
pub struct HfModelResult {
    pub model_id: Option<String>,
    pub id: Option<String>,
    pub downloads: Option<u64>,
    pub likes: Option<u64>,
    pub pipeline_tag: Option<String>,
    pub tags: Option<Vec<String>>,
}

/// Whether only repositories with GGUF in their name are wanted.
pub open spec fn gguf_only(p: SearchQuery) -> bool {
    opt_view(p.tags) == Some("gguf"@)
}

/// How many results to pass over.
pub open spec fn search_offset(p: SearchQuery) -> int {
    match p.offset {
        Some(n) => n as int,
        None => 0,
    }
}

/// How many results to give: 20 unless asked otherwise, and at most 100.
pub open spec fn search_limit(p: SearchQuery) -> int {
    match p.limit {
        Some(n) => if n < 100 {
            n as int
        } else {
            100
        },
        None => 20,
    }
}

/// How many results to ask for: three times as many where some will be left out.
pub open spec fn remote_limit(p: SearchQuery) -> int {
    if gguf_only(p) {
        (search_limit(p) + search_offset(p)) * 3
    } else {
        search_limit(p) + search_offset(p)
    }
}

/// The text under an option, or the empty text.
pub open spec fn or_empty(o: Option<String>) -> Seq<char> {
    match o {
        Some(s) => s@,
        None => Seq::empty(),
    }
}

/// The words to search for; GGUF is added where only such repositories are wanted.
pub open spec fn search_words(p: SearchQuery) -> Seq<char> {
    let q = or_empty(p.q);
    if gguf_only(p) && !occurs(lower(q), "gguf"@) {
        q + " GGUF"@
    } else {
        q
    }
}

/// The tag parameters of a search, one for each of the given tags.
pub open spec fn tag_params(tags: Seq<Seq<char>>) -> Seq<char>
    decreases tags.len(),
{
    if tags.len() == 0 {
        Seq::empty()
    } else {
        tag_params(tags.drop_last()) + "&tags="@ + url_encoded(trimmed(tags.last()))
    }
}

/// The address of a search.
pub open spec fn search_url(p: SearchQuery) -> Seq<char> {
    let task = or_empty(p.task);
    let base = "https://huggingface.co/api/models?search="@ + url_encoded(search_words(p))
        + "&sort=downloads&direction=-1&limit="@ + dec(remote_limit(p) as nat);
    let with_task = if task.len() > 0 && task != "any"@ {
        base + "&pipeline_tag="@ + url_encoded(task)
    } else {
        base
    };
    match p.tags {
        Some(tags) => with_task + tag_params(split_on(tags@, ',')),
        None => with_task,
    }
}

/// Whether only repositories with GGUF in their name are wanted.
fn wants_gguf(p: &SearchQuery) -> (r: bool)
    ensures
        r == gguf_only(*p),
{
    match &p.tags {
        Some(t) => str_eq(t, "gguf"),
        None => false,
    }
}

/// How many results to pass over, and how many to give.
fn search_page(p: &SearchQuery) -> (r: (usize, usize))
    ensures
        r.0 == search_offset(*p),
        r.1 == search_limit(*p),
{
    let offset: usize = p.offset.unwrap_or(0);
    let limit: usize = match p.limit {
        Some(n) => if n < 100 {
            n
        } else {
            100
        },
        None => 20,
    };
    (offset, limit)
}

/// The address of a search.
pub fn build_search_url(p: &SearchQuery) -> (r: String)
    requires
        remote_limit(*p) <= usize::MAX,
        search_limit(*p) + search_offset(*p) <= usize::MAX,
    ensures
        r@ == search_url(*p),
{
    let mut query = match &p.q {
        Some(q) => q.clone(),
        None => String::new(),
    };
    let task = match &p.task {
        Some(t) => t.clone(),
        None => String::new(),
    };
    let (offset, limit) = search_page(p);
    let gguf = wants_gguf(p);
    if gguf {
        let lc = to_lowercase(&query);
        if !contains(&lc, "gguf") {
            query = query.concat(" GGUF");
        }
    }
    let wanted: usize = if gguf {
        (limit + offset) * 3
    } else {
        limit + offset
    };
    let mut url = "https://huggingface.co/api/models?search=".to_owned().concat(
        &urlencoded(&query),
    ).concat("&sort=downloads&direction=-1&limit=").concat(&dec_text(wanted as u128));
    if !task.as_str().is_empty() && !str_eq(&task, "any") {
        url = url.concat("&pipeline_tag=").concat(&urlencoded(&task));
    }
    if let Some(tags) = &p.tags {
        let list = split(tags, ',');
        let ghost base = url@;
        let ghost all = views(list@);
        let mut i: usize = 0;
        assert(all.take(0) =~= Seq::empty());
        assert(base + Seq::<char>::empty() =~= base);
        while i < list.len()
            invariant
                all == views(list@),
                i <= list@.len(),
                url@ == base + tag_params(all.take(i as int)),
            decreases list@.len() - i,
        {
            assert(all.take(i + 1).drop_last() =~= all.take(i as int));
            assert(all.take(i + 1).last() == list@[i as int]@);
            let ghost before = tag_params(all.take(i as int));
            let tag = urlencoded(&trim(&list[i]));
            url = url.concat("&tags=").concat(&tag);
            assert(base + before + "&tags="@ + tag@ =~= base + (before + "&tags="@ + tag@));
            i += 1;
        }
        assert(all.take(i as int) =~= all);
    }
    url
}

/// The identifier of a repository.
pub open spec fn result_id(m: HfModelResult) -> Seq<char> {
    match m.model_id {
        Some(id) => id@,
        None => or_empty(m.id),
    }
}

/// The entry for a repository in a search result.
pub open spec fn result_entry(m: HfModelResult) -> JsonView {
    JsonView::Object(
        no_fields().push(("id"@, JsonView::Text(result_id(m)))).push(
            (
                "downloads"@,
                JsonView::Number(
                    dec(
                        match m.downloads {
                            Some(n) => n as nat,
                            None => 0,
                        },
                    ),
                ),
            ),
        ).push(
            (
                "likes"@,
                JsonView::Number(
                    dec(
                        match m.likes {
                            Some(n) => n as nat,
                            None => 0,
                        },
                    ),
                ),
            ),
        ).push(
            (
                "pipeline_tag"@,
                match m.pipeline_tag {
                    Some(t) => JsonView::Text(t@),
                    None => JsonView::Null,
                },
            ),
        ).push(
            (
                "tags"@,
                JsonView::Array(
                    match m.tags {
                        Some(t) => text_views(t@),
                        None => Seq::empty(),
                    },
                ),
            ),
        ),
    )
}

/// The entries for all repositories that are wanted.
pub open spec fn result_entries(ms: Seq<HfModelResult>, gguf: bool) -> Seq<JsonView>
    decreases ms.len(),
{
    if ms.len() == 0 {
        Seq::empty()
    } else {
        let before = result_entries(ms.drop_last(), gguf);
        if gguf && !occurs(lower(result_id(ms.last())), "gguf"@) {
            before
        } else {
            before.push(result_entry(ms.last()))
        }
    }
}

/// At most `limit` items, after the first `offset`.
pub open spec fn page(all: Seq<JsonView>, offset: int, limit: int) -> Seq<JsonView> {
    let from = if offset <= all.len() {
        offset
    } else {
        all.len() as int
    };
    let to = if from + limit <= all.len() {
        from + limit
    } else {
        all.len() as int
    };
    all.subrange(from, to)
}

/// Pages of results fit together: a page and the one after it hold, in order, what one page of
/// both sizes would, and no page is longer than asked for.
pub proof fn law_pages_fit_together(all: Seq<JsonView>, offset: int, first: int, second: int)
    requires
        0 <= offset,
        0 <= first,
        0 <= second,
    ensures
        page(all, offset, first) + page(all, offset + first, second) == page(
            all,
            offset,
            first + second,
        ),
        page(all, offset, first).len() <= first,
{
    assert(page(all, offset, first) + page(all, offset + first, second) =~= page(
        all,
        offset,
        first + second,
    ));
}

/// The entry for a repository in a search result.
fn make_result_entry(m: &HfModelResult, id: &str) -> (r: Json)
    requires
        id@ == result_id(*m),
    ensures
        r@ == result_entry(*m),
{
    let tag = match &m.pipeline_tag {
        Some(t) => Json::str(t),
        None => Json::Null,
    };
    let tags = match &m.tags {
        Some(t) => Json::strings(t),
        None => {
            let none: Vec<Json> = Vec::new();
            assert(json_views(none@) =~= Seq::empty());
            Json::array(none)
        },
    };
    let downloads: u64 = m.downloads.unwrap_or(0);
    let likes: u64 = m.likes.unwrap_or(0);
    ObjectBuilder::new().with("id", Json::str(id)).with(
        "downloads",
        Json::unsigned(downloads as u128),
    ).with("likes", Json::unsigned(likes as u128)).with("pipeline_tag", tag).with(
        "tags",
        tags,
    ).done()
}

/// A page of results, and whether there are more behind it.
pub open spec fn found_json(p: SearchQuery, found: Seq<HfModelResult>) -> JsonView {
    let all = result_entries(found, gguf_only(p));
    JsonView::Object(
        no_fields().push(
            ("models"@, JsonView::Array(page(all, search_offset(p), search_limit(p)))),
        ).push(("has_more"@, JsonView::Bool(all.len() > search_offset(p) + search_limit(p)))),
    )
}

/// The body of a search result: the page that was asked for, and whether there is more.
pub fn search_models(p: &SearchQuery, found: &Vec<HfModelResult>) -> (r: Json)
    requires
        search_limit(*p) + search_offset(*p) <= usize::MAX,
    ensures
        r@ == found_json(*p, found@),
{
    let (offset, limit) = search_page(p);
    let gguf = wants_gguf(p);
    let ghost all = result_entries(found@, gguf);
    let ghost from = if offset <= all.len() {
        offset as int
    } else {
        all.len() as int
    };
    let mut models: Vec<Json> = Vec::new();
    let mut seen: usize = 0;
    let mut i: usize = 0;
    assert(found@.take(0) =~= Seq::empty());
    assert(json_views(models@) =~= page(Seq::empty(), offset as int, limit as int));
    while i < found.len()
        invariant
            i <= found@.len(),
            seen <= i,
            offset + limit <= usize::MAX,
            seen == result_entries(found@.take(i as int), gguf).len(),
            json_views(models@) == page(
                result_entries(found@.take(i as int), gguf),
                offset as int,
                limit as int,
            ),
        decreases found@.len() - i,
    {
        assert(found@.take(i + 1).drop_last() =~= found@.take(i as int));
        let ghost sofar = result_entries(found@.take(i as int), gguf);
        let m = &found[i];
        let id = match &m.model_id {
            Some(id) => id.clone(),
            None => match &m.id {
                Some(id) => id.clone(),
                None => String::new(),
            },
        };
        let mut keep = true;
        if gguf {
            let lc = to_lowercase(&id);
            keep = contains(&lc, "gguf");
        }
        if keep {
            let ghost before = json_views(models@);
            let ghost next = sofar.push(result_entry(*m));
            if offset <= seen && seen - offset < limit {
                let entry = make_result_entry(m, &id);
                models.push(entry);
                assert(json_views(models@) =~= before.push(entry@));
                assert(before.push(entry@) =~= page(next, offset as int, limit as int));
            } else {
                assert(before =~= page(next, offset as int, limit as int));
            }
            seen += 1;
        }
        i += 1;
    }
    assert(found@.take(i as int) =~= found@);
    ObjectBuilder::new().with("models", Json::array(models)).with(
        "has_more",
        Json::Bool(seen > offset + limit),
    ).done()
}

} // verus!
