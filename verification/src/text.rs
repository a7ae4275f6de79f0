//! Text as sequences of characters: the string operations that the rest of the
//! library builds on, each stated over `Seq<char>`.
use vstd::prelude::*;
use vstd::string::StringExecFns;
use vstd::string::StrSliceExecFns;

verus! {

/// `String::push` appends one character at the end.
pub assume_specification[ String::push ](s: &mut String, c: char)
    ensures
        final(s)@ == old(s)@.push(c),
;

/// The characters of a string.
pub fn chars_of(s: &str) -> (v: Vec<char>)
    ensures
        v@ == s@,
{
    let mut v: Vec<char> = Vec::new();
    for c in it: s.chars()
        invariant
            it.seq() == s@,
            v@ == s@.take(it.index()),
    {
        assert(s@.take(it.index() + 1) =~= s@.take(it.index()).push(s@[it.index()]));
        v.push(c);
    }
    assert(s@.take(s@.len() as int) =~= s@);
    v
}

/// The string made of the given characters.
pub fn string_of(v: &[char]) -> (s: String)
    ensures
        s@ == v@,
{
    let mut s = String::new();
    let mut i: usize = 0;
    while i < v.len()
        invariant
            i <= v@.len(),
            s@ == v@.take(i as int),
        decreases v@.len() - i,
    {
        assert(v@.take(i + 1) =~= v@.take(i as int).push(v@[i as int]));
        s.push(v[i]);
        i += 1;
    }
    assert(v@.take(i as int) =~= v@);
    s
}

/// Whether two strings hold the same characters.
pub fn str_eq(a: &str, b: &str) -> (r: bool)
    ensures
        r == (a@ == b@),
{
    a.to_owned() == b.to_owned()
}

/// Concatenation of two pieces.
pub fn cat(a: &str, b: &str) -> (r: String)
    ensures
        r@ == a@ + b@,
{
    a.to_owned().concat(b)
}

/// Whether `s` ends in `p`.
pub open spec fn has_suffix(s: Seq<char>, p: Seq<char>) -> bool {
    p.len() <= s.len() && s.subrange(s.len() - p.len(), s.len() as int) == p
}

/// Whether `s` begins with `p`.
pub open spec fn has_prefix(s: Seq<char>, p: Seq<char>) -> bool {
    p.len() <= s.len() && s.subrange(0, p.len() as int) == p
}

/// Whether `p` occurs in `s` at position `i`.
pub open spec fn occurs_at(s: Seq<char>, p: Seq<char>, i: int) -> bool {
    0 <= i && i + p.len() <= s.len() && s.subrange(i, i + p.len()) == p
}

/// Whether `p` occurs anywhere in `s`.
pub open spec fn occurs(s: Seq<char>, p: Seq<char>) -> bool {
    exists|i: int| occurs_at(s, p, i)
}

/// Whether `p` occurs in `v` at position `i`.
pub fn matches_at(v: &[char], p: &[char], i: usize) -> (r: bool)
    ensures
        r == occurs_at(v@, p@, i as int),
{
    if i > v.len() || v.len() - i < p.len() {
        return false;
    }
    let n: usize = v.len();
    let mut k: usize = 0;
    while k < p.len()
        invariant
            n == v@.len(),
            i + p@.len() <= n,
            k <= p@.len(),
            forall|j: int| 0 <= j < k ==> v@[i + j] == p@[j],
        decreases p@.len() - k,
    {
        if v[i + k] != p[k] {
            assert(v@.subrange(i as int, i + p@.len())[k as int] != p@[k as int]);
            return false;
        }
        k += 1;
    }
    assert(v@.subrange(i as int, i + p@.len()) =~= p@);
    true
}

/// `str::starts_with` on a literal or another string.
pub fn starts_with(s: &str, p: &str) -> (r: bool)
    ensures
        r == has_prefix(s@, p@),
{
    let v = chars_of(s);
    let w = chars_of(p);
    matches_at(&v, &w, 0)
}

/// `str::ends_with` on a literal or another string.
pub fn ends_with(s: &str, p: &str) -> (r: bool)
    ensures
        r == has_suffix(s@, p@),
{
    let v = chars_of(s);
    let w = chars_of(p);
    if w.len() > v.len() {
        return false;
    }
    matches_at(&v, &w, v.len() - w.len())
}

/// The first position at or after `from` where `p` occurs in `v`.
pub fn find_from(v: &[char], p: &[char], from: usize) -> (r: Option<usize>)
    ensures
        match r {
            Some(i) => from <= i && occurs_at(v@, p@, i as int) && forall|j: int|
                from <= j < i ==> !occurs_at(v@, p@, j),
            None => forall|j: int| from <= j ==> !occurs_at(v@, p@, j),
        },
{
    let mut i: usize = from;
    while i <= v.len()
        invariant
            from <= i,
            forall|j: int| from <= j < i ==> !occurs_at(v@, p@, j),
        decreases v@.len() + 1 - i,
    {
        if matches_at(v, p, i) {
            return Some(i);
        }
        if i == v.len() {
            return None;
        }
        i += 1;
    }
    None
}

/// `str::contains` on a literal or another string.
pub fn contains(s: &str, p: &str) -> (r: bool)
    ensures
        r == occurs(s@, p@),
{
    let v = chars_of(s);
    let w = chars_of(p);
    match find_from(&v, &w, 0) {
        Some(i) => {
            assert(occurs_at(s@, p@, i as int));
            true
        },
        None => false,
    }
}

/// The part of `s` from character `from` on.
pub fn tail(s: &str, from: usize) -> (r: String)
    requires
        from <= s@.len(),
    ensures
        r@ == s@.skip(from as int),
{
    let v = chars_of(s);
    let n = v.len();
    assert(s@.skip(from as int) =~= s@.subrange(from as int, s@.len() as int));
    string_of(vstd::slice::slice_subrange(v.as_slice(), from, n))
}

/// What follows the prefix `p`, when `s` begins with it.
pub open spec fn after_prefix(s: Seq<char>, p: Seq<char>) -> Option<Seq<char>> {
    if has_prefix(s, p) {
        Some(s.skip(p.len() as int))
    } else {
        None
    }
}

/// View of an optional string.
pub open spec fn opt_view(o: Option<String>) -> Option<Seq<char>> {
    match o {
        Some(s) => Some(s@),
        None => None,
    }
}

/// View of a list of strings.
pub open spec fn views(v: Seq<String>) -> Seq<Seq<char>> {
    v.map_values(|s: String| s@)
}

/// `str::strip_prefix` on a literal or another string.
pub fn strip_prefix(s: &str, p: &str) -> (r: Option<String>)
    ensures
        opt_view(r) == after_prefix(s@, p@),
{
    if starts_with(s, p) {
        let n = chars_of(p).len();
        Some(tail(s, n))
    } else {
        None
    }
}

/// The decimal digit with value `d`.
pub open spec fn digit(d: int) -> char {
    (48 + d) as char
}

/// The decimal text of a natural number.
pub open spec fn dec(n: nat) -> Seq<char>
    decreases n,
{
    if n < 10 {
        seq![digit(n as int)]
    } else {
        dec(n / 10).push(digit((n % 10) as int))
    }
}

/// The decimal text of an integer.
pub open spec fn dec_int(n: int) -> Seq<char> {
    if n < 0 {
        seq!['-'] + dec((-n) as nat)
    } else {
        dec(n as nat)
    }
}

/// The digit character of a value below ten.
fn digit_char(d: u128) -> (c: char)
    requires
        d < 10,
    ensures
        c == digit(d as int),
{
    match d {
        0 => '0',
        1 => '1',
        2 => '2',
        3 => '3',
        4 => '4',
        5 => '5',
        6 => '6',
        7 => '7',
        8 => '8',
        _ => '9',
    }
}

/// The decimal text of an unsigned number.
pub fn dec_text(n: u128) -> (r: String)
    ensures
        r@ == dec(n as nat),
    decreases n,
{
    if n < 10 {
        let mut r = String::new();
        r.push(digit_char(n));
        assert(r@ =~= seq![digit(n as int)]);
        r
    } else {
        let mut r = dec_text(n / 10);
        r.push(digit_char(n % 10));
        r
    }
}

/// The decimal text of a signed number.
pub fn dec_int_text(n: i64) -> (r: String)
    ensures
        r@ == dec_int(n as int),
{
    if n < 0 {
        let m: i128 = -(n as i128);
        let d = dec_text(m as u128);
        let mut r = String::new();
        r.push('-');
        r.append(&d);
        assert(r@ =~= seq!['-'] + d@);
        r
    } else {
        dec_text(n as u128)
    }
}

/// The characters with the Unicode property White_Space.
pub open spec fn is_space(c: char) -> bool {
    ||| '\u{9}' <= c <= '\u{d}'
    ||| c == ' '
    ||| c == '\u{85}'
    ||| c == '\u{a0}'
    ||| c == '\u{1680}'
    ||| '\u{2000}' <= c <= '\u{200a}'
    ||| c == '\u{2028}'
    ||| c == '\u{2029}'
    ||| c == '\u{202f}'
    ||| c == '\u{205f}'
    ||| c == '\u{3000}'
}

/// Whether a character is white space.
pub fn is_whitespace(c: char) -> (r: bool)
    ensures
        r == is_space(c),
{
    ('\u{9}' <= c && c <= '\u{d}') || c == ' ' || c == '\u{85}' || c == '\u{a0}' || c == '\u{1680}'
        || ('\u{2000}' <= c && c <= '\u{200a}') || c == '\u{2028}' || c == '\u{2029}' || c
        == '\u{202f}' || c == '\u{205f}' || c == '\u{3000}'
}

/// `s` without leading white space.
pub open spec fn trim_start(s: Seq<char>) -> Seq<char>
    decreases s.len(),
{
    if s.len() > 0 && is_space(s[0]) {
        trim_start(s.skip(1))
    } else {
        s
    }
}

/// `s` without trailing white space.
pub open spec fn trim_end(s: Seq<char>) -> Seq<char>
    decreases s.len(),
{
    if s.len() > 0 && is_space(s.last()) {
        trim_end(s.drop_last())
    } else {
        s
    }
}

/// `s` without leading and trailing white space.
pub open spec fn trimmed(s: Seq<char>) -> Seq<char> {
    trim_end(trim_start(s))
}

/// Skipping one character more.
proof fn lemma_skip_next(s: Seq<char>, i: int)
    requires
        0 <= i < s.len(),
    ensures
        s.skip(i).skip(1) == s.skip(i + 1),
        s.skip(i)[0] == s[i],
{
    assert(s.skip(i).skip(1) =~= s.skip(i + 1));
}

/// `str::trim`.
pub fn trim(s: &str) -> (r: String)
    ensures
        r@ == trimmed(s@),
{
    let v = chars_of(s);
    let n = v.len();
    let mut a: usize = 0;
    assert(s@.skip(0) =~= s@);
    while a < n && is_whitespace(v[a])
        invariant
            v@ == s@,
            n == v@.len(),
            a <= n,
            trim_start(s@) == trim_start(s@.skip(a as int)),
        decreases n - a,
    {
        proof {
            lemma_skip_next(s@, a as int);
        }
        a += 1;
    }
    assert(trim_start(s@) == s@.skip(a as int)) by {
        if a < n {
            lemma_skip_next(s@, a as int);
        }
    }
    let mut b: usize = n;
    assert(s@.skip(a as int) =~= s@.subrange(a as int, b as int));
    while b > a && is_whitespace(v[b - 1])
        invariant
            v@ == s@,
            n == v@.len(),
            a <= b <= n,
            trim_start(s@) == s@.skip(a as int),
            trim_end(s@.skip(a as int)) == trim_end(s@.subrange(a as int, b as int)),
        decreases b,
    {
        assert(s@.subrange(a as int, b as int).drop_last() =~= s@.subrange(a as int, b - 1));
        b -= 1;
    }
    string_of(vstd::slice::slice_subrange(v.as_slice(), a, b))
}

/// The position of the first `c` in `s`; the length of `s` where it does not occur.
pub open spec fn find_char(s: Seq<char>, c: char) -> int
    decreases s.len(),
{
    if s.len() == 0 || s[0] == c {
        0
    } else {
        1 + find_char(s.skip(1), c)
    }
}

/// What `find_char` finds, counted from a later start.
pub proof fn lemma_find_char(s: Seq<char>, c: char, i: int)
    requires
        0 <= i <= s.len(),
        forall|j: int| 0 <= j < i ==> s[j] != c,
    ensures
        find_char(s, c) == i + find_char(s.skip(i), c),
        i == s.len() || s[i] == c ==> find_char(s, c) == i,
    decreases i,
{
    if i == 0 {
        assert(s.skip(0) =~= s);
    } else {
        lemma_find_char(s.skip(1), c, i - 1);
        assert(s.skip(1).skip(i - 1) =~= s.skip(i));
    }
}

/// What `find_char` promises of the position it gives.
pub proof fn lemma_find_char_first(s: Seq<char>, c: char)
    ensures
        0 <= find_char(s, c) <= s.len(),
        forall|j: int| 0 <= j < find_char(s, c) ==> s[j] != c,
        find_char(s, c) < s.len() ==> s[find_char(s, c)] == c,
    decreases s.len(),
{
    if s.len() > 0 && s[0] != c {
        lemma_find_char_first(s.skip(1), c);
        assert forall|j: int| 0 <= j < find_char(s, c) implies s[j] != c by {
            if j > 0 {
                assert(s.skip(1)[j - 1] == s[j]);
            }
        }
    }
}

/// The position of the first `c` in `v` at or after `from`.
pub fn position_of(v: &[char], c: char, from: usize) -> (r: usize)
    requires
        from <= v@.len(),
    ensures
        from <= r <= v@.len(),
        r == from + find_char(v@.skip(from as int), c),
{
    let n = v.len();
    let mut i: usize = from;
    while i < n && v[i] != c
        invariant
            n == v@.len(),
            from <= i <= n,
            forall|j: int| from <= j < i ==> v@[j] != c,
        decreases n - i,
    {
        i += 1;
    }
    proof {
        lemma_find_char(v@.skip(from as int), c, i - from);
    }
    i
}

/// A character with an ASCII capital turned into the small letter.
pub open spec fn ascii_lower_char(c: char) -> char {
    if 'A' <= c <= 'Z' {
        (c as int + 32) as char
    } else {
        c
    }
}

/// A text with all ASCII capitals turned into small letters.
pub open spec fn ascii_lower(s: Seq<char>) -> Seq<char> {
    s.map_values(|c: char| ascii_lower_char(c))
}

/// What `str::to_lowercase` makes of a text.
pub uninterp spec fn lower(s: Seq<char>) -> Seq<char>;

/// `str::to_lowercase`. The claims: the result is determined by the text, and in an ASCII text
/// exactly the capitals are turned into small letters.
#[verifier::external_body]
pub(crate) fn to_lowercase(s: &str) -> (r: String)
    ensures
        r@ == lower(s@),
        vstd::utf8::is_ascii_chars(s@) ==> r@ == ascii_lower(s@),
{
    s.to_lowercase()
}

/// The small letter for an ASCII capital; any other character as it is.
fn lower_char(c: char) -> (r: char)
    ensures
        r == ascii_lower_char(c),
{
    if 'A' <= c && c <= 'Z' {
        let n: u8 = c as u8 + 32;
        n as char
    } else {
        c
    }
}

/// `str::eq_ignore_ascii_case`: whether two texts differ at most in the case of ASCII letters.
pub fn eq_ignore_ascii_case(a: &str, b: &str) -> (r: bool)
    ensures
        r == (ascii_lower(a@) == ascii_lower(b@)),
{
    let v = chars_of(a);
    let w = chars_of(b);
    if v.len() != w.len() {
        assert(ascii_lower(a@).len() != ascii_lower(b@).len());
        return false;
    }
    let mut i: usize = 0;
    while i < v.len()
        invariant
            v@ == a@,
            w@ == b@,
            v@.len() == w@.len(),
            i <= v@.len(),
            forall|j: int| 0 <= j < i ==> ascii_lower(a@)[j] == ascii_lower(b@)[j],
        decreases v@.len() - i,
    {
        if lower_char(v[i]) != lower_char(w[i]) {
            assert(ascii_lower(a@)[i as int] != ascii_lower(b@)[i as int]);
            return false;
        }
        i += 1;
    }
    assert(ascii_lower(a@) =~= ascii_lower(b@));
    true
}

/// The pieces between the occurrences of `c`.
pub open spec fn split_on(s: Seq<char>, c: char) -> Seq<Seq<char>>
    decreases s.len(),
{
    let i = find_char(s, c);
    if 0 <= i < s.len() {
        seq![s.take(i)] + split_on(s.skip(i + 1), c)
    } else {
        seq![s]
    }
}

/// `str::split` at a character.
pub fn split(s: &str, c: char) -> (r: Vec<String>)
    ensures
        views(r@) == split_on(s@, c),
{
    let v = chars_of(s);
    let n = v.len();
    let mut out: Vec<String> = Vec::new();
    let mut start: usize = 0;
    let mut end: usize = position_of(v.as_slice(), c, 0);
    assert(s@.skip(0) =~= s@);
    assert(views(out@) =~= Seq::empty());
    assert(Seq::<Seq<char>>::empty() + split_on(s@, c) =~= split_on(s@, c));
    while end < n
        invariant
            v@ == s@,
            n == s@.len(),
            start <= end <= n,
            end == start + find_char(s@.skip(start as int), c),
            split_on(s@, c) == views(out@) + split_on(s@.skip(start as int), c),
        decreases n - start,
    {
        let ghost rest = s@.skip(start as int);
        let ghost sofar = views(out@);
        assert(s@.subrange(start as int, end as int) =~= rest.take(end - start));
        assert(rest.skip(end - start + 1) =~= s@.skip(end + 1));
        let piece = string_of(vstd::slice::slice_subrange(v.as_slice(), start, end));
        out.push(piece);
        assert(views(out@) =~= sofar.push(piece@));
        assert(sofar + (seq![piece@] + split_on(s@.skip(end + 1), c)) =~= sofar.push(piece@)
            + split_on(s@.skip(end + 1), c));
        start = end + 1;
        end = position_of(v.as_slice(), c, start);
    }
    let ghost sofar = views(out@);
    assert(s@.skip(start as int) =~= s@.subrange(start as int, n as int));
    let last = string_of(vstd::slice::slice_subrange(v.as_slice(), start, n));
    out.push(last);
    assert(views(out@) =~= sofar + seq![last@]);
    out
}

/// The position of the first white space in `s`; the length of `s` where there is none.
pub open spec fn find_space(s: Seq<char>) -> int
    decreases s.len(),
{
    if s.len() == 0 || is_space(s[0]) {
        0
    } else {
        1 + find_space(s.skip(1))
    }
}

/// What `find_space` finds, counted from a later start.
proof fn lemma_find_space(s: Seq<char>, i: int)
    requires
        0 <= i <= s.len(),
        forall|j: int| 0 <= j < i ==> !is_space(s[j]),
        i == s.len() || is_space(s[i]),
    ensures
        find_space(s) == i,
    decreases i,
{
    if i > 0 {
        lemma_find_space(s.skip(1), i - 1);
    }
}

/// Leading white space is at most the whole text.
proof fn lemma_trim_start_len(s: Seq<char>)
    ensures
        trim_start(s).len() <= s.len(),
        trim_start(s).len() > 0 ==> !is_space(trim_start(s)[0]),
    decreases s.len(),
{
    if s.len() > 0 && is_space(s[0]) {
        lemma_trim_start_len(s.skip(1));
    }
}

/// The words of a text: what stands between white space.
pub open spec fn words(s: Seq<char>) -> Seq<Seq<char>>
    decreases s.len(),
{
    let t = trim_start(s);
    let i = find_space(t);
    if 0 < t.len() <= s.len() && 0 < i <= t.len() {
        seq![t.take(i)] + words(t.skip(i))
    } else {
        Seq::empty()
    }
}

/// `str::split_whitespace`.
pub fn split_whitespace(s: &str) -> (r: Vec<String>)
    ensures
        views(r@) == words(s@),
{
    let v = chars_of(s);
    let n = v.len();
    let mut out: Vec<String> = Vec::new();
    let mut i: usize = 0;
    assert(s@.skip(0) =~= s@);
    assert(views(out@) =~= Seq::empty());
    assert(Seq::<Seq<char>>::empty() + words(s@) =~= words(s@));
    while i < n
        invariant
            v@ == s@,
            n == s@.len(),
            i <= n,
            words(s@) == views(out@) + words(s@.skip(i as int)),
        decreases n - i,
    {
        let ghost rest = s@.skip(i as int);
        let ghost from = i;
        assert(trim_start(rest) == trim_start(s@.skip(i as int)));
        while i < n && is_whitespace(v[i])
            invariant
                v@ == s@,
                n == s@.len(),
                from <= i <= n,
                trim_start(rest) == trim_start(s@.skip(i as int)),
            decreases n - i,
        {
            proof {
                lemma_skip_next(s@, i as int);
            }
            i += 1;
        }
        let ghost t = s@.skip(i as int);
        proof {
            if i < n {
                lemma_skip_next(s@, i as int);
            }
            assert(trim_start(rest) == t);
        }
        let start: usize = i;
        while i < n && !is_whitespace(v[i])
            invariant
                v@ == s@,
                n == s@.len(),
                start <= i <= n,
                forall|j: int| start <= j < i ==> !is_space(s@[j]),
            decreases n - i,
        {
            i += 1;
        }
        proof {
            lemma_find_space(t, i - start);
            assert(t.skip(i - start) =~= s@.skip(i as int));
            assert(t.take(i - start) =~= s@.subrange(start as int, i as int));
        }
        if i > start {
            let ghost sofar = views(out@);
            let word = string_of(vstd::slice::slice_subrange(v.as_slice(), start, i));
            out.push(word);
            assert(views(out@) =~= sofar.push(word@));
            assert(sofar + (seq![word@] + words(s@.skip(i as int))) =~= sofar.push(word@) + words(
                s@.skip(i as int),
            ));
        } else {
            assert(i == n);
            assert(words(rest) =~= Seq::empty());
            assert(words(s@.skip(i as int)) =~= Seq::empty());
        }
    }
    assert(views(out@) + Seq::<Seq<char>>::empty() =~= views(out@));
    out
}

/// `s` without a carriage return at its end.
pub open spec fn without_cr(s: Seq<char>) -> Seq<char> {
    if s.len() > 0 && s.last() == '\r' {
        s.drop_last()
    } else {
        s
    }
}

/// The lines of a text, without their ends.
pub open spec fn lines_of(s: Seq<char>) -> Seq<Seq<char>>
    decreases s.len(),
{
    let i = find_char(s, '\n');
    if 0 <= i < s.len() {
        seq![without_cr(s.take(i))] + lines_of(s.skip(i + 1))
    } else if s.len() > 0 {
        seq![s]
    } else {
        Seq::empty()
    }
}

/// `str::lines`.
pub fn lines(s: &str) -> (r: Vec<String>)
    ensures
        views(r@) == lines_of(s@),
{
    let v = chars_of(s);
    let n = v.len();
    let mut out: Vec<String> = Vec::new();
    let mut start: usize = 0;
    let mut end: usize = position_of(v.as_slice(), '\n', 0);
    assert(s@.skip(0) =~= s@);
    assert(views(out@) =~= Seq::empty());
    assert(Seq::<Seq<char>>::empty() + lines_of(s@) =~= lines_of(s@));
    while end < n
        invariant
            v@ == s@,
            n == s@.len(),
            start <= end <= n,
            end == start + find_char(s@.skip(start as int), '\n'),
            lines_of(s@) == views(out@) + lines_of(s@.skip(start as int)),
        decreases n - start,
    {
        let ghost rest = s@.skip(start as int);
        let ghost sofar = views(out@);
        assert(s@.subrange(start as int, end as int) =~= rest.take(end - start));
        assert(rest.skip(end - start + 1) =~= s@.skip(end + 1));
        let mut stop: usize = end;
        if end > start && v[end - 1] == '\r' {
            stop = end - 1;
            assert(s@.subrange(start as int, stop as int) =~= rest.take(end - start).drop_last());
        }
        let line = string_of(vstd::slice::slice_subrange(v.as_slice(), start, stop));
        assert(line@ == without_cr(rest.take(end - start)));
        out.push(line);
        assert(views(out@) =~= sofar.push(line@));
        assert(sofar + (seq![line@] + lines_of(s@.skip(end + 1))) =~= sofar.push(line@)
            + lines_of(s@.skip(end + 1)));
        start = end + 1;
        end = position_of(v.as_slice(), '\n', start);
    }
    let ghost sofar = views(out@);
    assert(s@.skip(start as int) =~= s@.subrange(start as int, n as int));
    if start < n {
        let last = string_of(vstd::slice::slice_subrange(v.as_slice(), start, n));
        out.push(last);
        assert(views(out@) =~= sofar + seq![last@]);
    } else {
        assert(sofar + Seq::<Seq<char>>::empty() =~= sofar);
    }
    out
}

/// `s` with every `c` replaced by `with`.
pub open spec fn replaced(s: Seq<char>, c: char, with: Seq<char>) -> Seq<char>
    decreases s.len(),
{
    if s.len() == 0 {
        Seq::empty()
    } else {
        replaced(s.drop_last(), c, with) + if s.last() == c {
            with
        } else {
            seq![s.last()]
        }
    }
}

/// `str::replace` of a character by a text.
pub fn replace(s: &str, c: char, with: &str) -> (r: String)
    ensures
        r@ == replaced(s@, c, with@),
{
    let v = chars_of(s);
    let mut out = String::new();
    let mut i: usize = 0;
    while i < v.len()
        invariant
            v@ == s@,
            i <= v@.len(),
            out@ == replaced(s@.take(i as int), c, with@),
        decreases v@.len() - i,
    {
        assert(s@.take(i + 1).drop_last() =~= s@.take(i as int));
        let ghost before = out@;
        if v[i] == c {
            out.append(with);
        } else {
            out.push(v[i]);
            assert(out@ =~= before + seq![v@[i as int]]);
        }
        i += 1;
    }
    assert(s@.take(i as int) =~= s@);
    out
}

/// Why a text is not a number.
#[derive(Debug, Clone, Copy, PartialEq, Eq, Structural)]
pub enum NumberError {
    Empty,
    InvalidDigit,
    Overflow,
}

/// Whether a character is a decimal digit.
pub open spec fn is_digit(c: char) -> bool {
    '0' <= c <= '9'
}

/// The number that decimal digits stand for, as long as each prefix is at most `max`.
pub open spec fn digits_value(s: Seq<char>, max: int) -> Result<int, NumberError>
    decreases s.len(),
{
    if s.len() == 0 {
        Ok(0)
    } else {
        match digits_value(s.drop_last(), max) {
            Err(e) => Err(e),
            Ok(n) => if !is_digit(s.last()) {
                Err(NumberError::InvalidDigit)
            } else if n * 10 + (s.last() as int - 48) > max {
                Err(NumberError::Overflow)
            } else {
                Ok(n * 10 + (s.last() as int - 48))
            },
        }
    }
}

/// The number that a text stands for: decimal digits, with a plus sign before them or without.
pub open spec fn number_value(s: Seq<char>, max: int) -> Result<int, NumberError> {
    if s.len() == 0 {
        Err(NumberError::Empty)
    } else if s[0] == '+' {
        if s.len() == 1 {
            Err(NumberError::InvalidDigit)
        } else {
            digits_value(s.skip(1), max)
        }
    } else {
        digits_value(s, max)
    }
}

/// An error in some of the digits is an error in all.
proof fn lemma_digits_err(s: Seq<char>, max: int, i: int)
    requires
        0 <= i <= s.len(),
        digits_value(s.take(i), max) is Err,
    ensures
        digits_value(s, max) == digits_value(s.take(i), max),
    decreases s.len() - i,
{
    if i == s.len() {
        assert(s.take(i) =~= s);
    } else {
        assert(s.take(i + 1).drop_last() =~= s.take(i));
        lemma_digits_err(s, max, i + 1);
    }
}

/// `u64`'s `FromStr`, with a greatest number of its own.
pub fn parse_unsigned(s: &str, max: u64) -> (r: Result<u64, NumberError>)
    ensures
        match r {
            Ok(n) => number_value(s@, max as int) == Ok::<int, NumberError>(n as int),
            Err(e) => number_value(s@, max as int) == Err::<int, NumberError>(e),
        },
{
    let v = chars_of(s);
    if v.len() == 0 {
        return Err(NumberError::Empty);
    }
    let mut start: usize = 0;
    if v[0] == '+' {
        if v.len() == 1 {
            return Err(NumberError::InvalidDigit);
        }
        start = 1;
    }
    let ghost digits = s@.skip(start as int);
    assert(start == 0 ==> digits =~= s@);
    assert(number_value(s@, max as int) == digits_value(digits, max as int));
    let mut n: u64 = 0;
    let mut i: usize = start;
    assert(digits.take(0) =~= Seq::empty());
    while i < v.len()
        invariant
            v@ == s@,
            digits == s@.skip(start as int),
            number_value(s@, max as int) == digits_value(digits, max as int),
            start <= i <= v@.len(),
            n <= max,
            digits_value(digits.take(i - start), max as int) == Ok::<int, NumberError>(n as int),
        decreases v@.len() - i,
    {
        let ghost k = i - start;
        assert(digits.take(k + 1).drop_last() =~= digits.take(k));
        assert(digits.take(k + 1).last() == v@[i as int]);
        let c = v[i];
        if !('0' <= c && c <= '9') {
            proof {
                lemma_digits_err(digits, max as int, k + 1);
            }
            return Err(NumberError::InvalidDigit);
        }
        let d: u128 = (c as u32 - 48) as u128;
        let m: u128 = n as u128 * 10 + d;
        if m > max as u128 {
            proof {
                lemma_digits_err(digits, max as int, k + 1);
            }
            return Err(NumberError::Overflow);
        }
        n = m as u64;
        i += 1;
    }
    assert(digits.take(i - start) =~= digits);
    Ok(n)
}

impl NumberError {
    /// The error in words.
    pub open spec fn text(self) -> Seq<char> {
        match self {
            NumberError::Empty => "cannot parse integer from empty string"@,
            NumberError::InvalidDigit => "invalid digit found in string"@,
            NumberError::Overflow => "number too large to fit in target type"@,
        }
    }

    /// The error in words.
    pub fn message(&self) -> (r: &'static str)
        ensures
            r@ == self.text(),
    {
        match self {
            NumberError::Empty => "cannot parse integer from empty string",
            NumberError::InvalidDigit => "invalid digit found in string",
            NumberError::Overflow => "number too large to fit in target type",
        }
    }
}

/// Whether `a` comes before `b`, or is equal to it, in the order of code points.
pub open spec fn lex_le(a: Seq<char>, b: Seq<char>) -> bool
    decreases a.len(),
{
    if a.len() == 0 {
        true
    } else if b.len() == 0 {
        false
    } else if a[0] != b[0] {
        a[0] < b[0]
    } else {
        lex_le(a.skip(1), b.skip(1))
    }
}

/// Passing over characters that agree.
proof fn lemma_lex_skip(a: Seq<char>, b: Seq<char>, i: int)
    requires
        0 <= i <= a.len(),
        i <= b.len(),
        forall|j: int| 0 <= j < i ==> a[j] == b[j],
    ensures
        lex_le(a, b) == lex_le(a.skip(i), b.skip(i)),
    decreases i,
{
    if i == 0 {
        assert(a.skip(0) =~= a);
        assert(b.skip(0) =~= b);
    } else {
        lemma_lex_skip(a.skip(1), b.skip(1), i - 1);
        assert(a.skip(1).skip(i - 1) =~= a.skip(i));
        assert(b.skip(1).skip(i - 1) =~= b.skip(i));
    }
}

/// Whether `a` comes before `b`, or is equal to it, in the order of code points.
pub fn at_most(a: &str, b: &str) -> (r: bool)
    ensures
        r == lex_le(a@, b@),
{
    let v = chars_of(a);
    let w = chars_of(b);
    let mut i: usize = 0;
    while i < v.len() && i < w.len() && v[i] == w[i]
        invariant
            v@ == a@,
            w@ == b@,
            i <= v@.len(),
            i <= w@.len(),
            forall|j: int| 0 <= j < i ==> a@[j] == b@[j],
        decreases v@.len() - i,
    {
        i += 1;
    }
    proof {
        lemma_lex_skip(a@, b@, i as int);
    }
    if i == v.len() {
        true
    } else if i == w.len() {
        false
    } else {
        v[i] < w[i]
    }
}

/// `x` put into a sorted list, after everything that is at most `x`.
pub open spec fn inserted(s: Seq<Seq<char>>, x: Seq<char>) -> Seq<Seq<char>>
    decreases s.len(),
{
    if s.len() == 0 || lex_le(s.last(), x) {
        s.push(x)
    } else {
        inserted(s.drop_last(), x).push(s.last())
    }
}

/// The texts in the order of code points.
pub open spec fn sorted(s: Seq<Seq<char>>) -> Seq<Seq<char>>
    decreases s.len(),
{
    if s.len() == 0 {
        s
    } else {
        inserted(sorted(s.drop_last()), s.last())
    }
}

/// Puts `x` into a sorted list.
fn insert_sorted(v: &mut Vec<String>, x: String)
    ensures
        views(final(v)@) == inserted(views(old(v)@), x@),
{
    let ghost before = views(v@);
    let n = v.len();
    let mut i: usize = n;
    assert(before.take(n as int) =~= before);
    assert(before.skip(n as int) =~= Seq::empty());
    assert(inserted(before, x@) + Seq::<Seq<char>>::empty() =~= inserted(before, x@));
    while i > 0 && !at_most(&v[i - 1], &x)
        invariant
            *v == *old(v),
            before == views(v@),
            n == v@.len(),
            i <= n,
            inserted(before, x@) == inserted(before.take(i as int), x@) + before.skip(i as int),
        decreases i,
    {
        let ghost head = before.take(i as int);
        assert(head.drop_last() =~= before.take(i - 1));
        assert(head.last() == before[i - 1]);
        assert(inserted(head.drop_last(), x@).push(head.last()) + before.skip(i as int)
            =~= inserted(head.drop_last(), x@) + before.skip(i - 1));
        i -= 1;
    }
    proof {
        let head = before.take(i as int);
        if i > 0 {
            assert(head.last() == before[i - 1]);
        }
        assert(inserted(head, x@) == head.push(x@));
    }
    v.insert(i, x);
    assert(views(v@) =~= before.take(i as int).push(x@) + before.skip(i as int));
}

/// `sort` on texts.
pub fn sort_strings(v: &Vec<String>) -> (r: Vec<String>)
    ensures
        views(r@) == sorted(views(v@)),
{
    let mut out: Vec<String> = Vec::new();
    let mut i: usize = 0;
    assert(views(out@) =~= Seq::empty());
    assert(views(v@).take(0) =~= Seq::empty());
    while i < v.len()
        invariant
            i <= v@.len(),
            views(out@) == sorted(views(v@).take(i as int)),
        decreases v@.len() - i,
    {
        assert(views(v@).take(i + 1).drop_last() =~= views(v@).take(i as int));
        insert_sorted(&mut out, v[i].clone());
        i += 1;
    }
    assert(views(v@).take(i as int) =~= views(v@));
    out
}

/// The order of code points is total.
pub proof fn lemma_lex_total(a: Seq<char>, b: Seq<char>)
    ensures
        lex_le(a, b) || lex_le(b, a),
    decreases a.len(),
{
    if a.len() > 0 && b.len() > 0 && a[0] == b[0] {
        lemma_lex_total(a.skip(1), b.skip(1));
    }
}

/// The order of code points is transitive.
pub proof fn lemma_lex_transitive(a: Seq<char>, b: Seq<char>, c: Seq<char>)
    requires
        lex_le(a, b),
        lex_le(b, c),
    ensures
        lex_le(a, c),
    decreases a.len(),
{
    if a.len() > 0 && b.len() > 0 && c.len() > 0 && a[0] == b[0] && b[0] == c[0] {
        lemma_lex_transitive(a.skip(1), b.skip(1), c.skip(1));
    }
}

/// Putting a text into a sorted list keeps it sorted and adds nothing else.
proof fn lemma_inserted(s: Seq<Seq<char>>, x: Seq<char>)
    requires
        forall|i: int, j: int| 0 <= i <= j < s.len() ==> lex_le(s[i], s[j]),
    ensures
        ({
            let t = inserted(s, x);
            &&& t.len() == s.len() + 1
            &&& forall|i: int, j: int| 0 <= i <= j < t.len() ==> lex_le(t[i], t[j])
            &&& t.to_multiset() == s.to_multiset().insert(x)
        }),
    decreases s.len(),
{
    broadcast use vstd::seq_lib::group_to_multiset_ensures;

    lemma_lex_total(x, x);
    let t = inserted(s, x);
    if s.len() == 0 || lex_le(s.last(), x) {
        assert forall|i: int, j: int| 0 <= i <= j < t.len() implies lex_le(t[i], t[j]) by {
            if j == s.len() && i < j {
                lemma_lex_transitive(s[i], s.last(), x);
            }
        }
    } else {
        let u = inserted(s.drop_last(), x);
        lemma_inserted(s.drop_last(), x);
        lemma_lex_total(s.last(), x);
        assert(s.drop_last().push(s.last()) =~= s);
        assert forall|i: int, j: int| 0 <= i <= j < t.len() implies lex_le(t[i], t[j]) by {
            if j == u.len() && i < j {
                assert(u.to_multiset().contains(u[i])) by {
                    assert(u.contains(u[i]));
                }
                assert(u[i] == x || s.drop_last().to_multiset().contains(u[i]));
                if u[i] != x {
                    assert(s.drop_last().contains(u[i]));
                    let k = choose|k: int|
                        0 <= k < s.drop_last().len() && s.drop_last()[k] == u[i];
                    assert(lex_le(s[k], s[s.len() - 1]));
                }
            } else if i == u.len() {
                lemma_lex_total(s.last(), s.last());
            }
        }
        assert(t.to_multiset() =~= s.to_multiset().insert(x));
    }
}

/// Sorting keeps the number of texts.
pub proof fn lemma_sorted_len(s: Seq<Seq<char>>)
    ensures
        sorted(s).len() == s.len(),
    decreases s.len(),
{
    if s.len() > 0 {
        lemma_sorted_len(s.drop_last());
        lemma_inserted_len(sorted(s.drop_last()), s.last());
    }
}

/// Putting a text into a list makes it longer by one.
proof fn lemma_inserted_len(s: Seq<Seq<char>>, x: Seq<char>)
    ensures
        inserted(s, x).len() == s.len() + 1,
    decreases s.len(),
{
    if s.len() > 0 && !lex_le(s.last(), x) {
        lemma_inserted_len(s.drop_last(), x);
    }
}

/// Sorting gives the same texts in the order of code points.
pub proof fn law_sorting(s: Seq<Seq<char>>)
    ensures
        forall|i: int, j: int| 0 <= i <= j < sorted(s).len() ==> lex_le(sorted(s)[i], sorted(s)[j]),
        sorted(s).to_multiset() == s.to_multiset(),
    decreases s.len(),
{
    broadcast use vstd::seq_lib::group_to_multiset_ensures;

    if s.len() > 0 {
        law_sorting(s.drop_last());
        lemma_inserted(sorted(s.drop_last()), s.last());
        assert(s.drop_last().push(s.last()) =~= s);
    }
}

/// Two texts, each at most the other, are the same.
proof fn lemma_lex_antisymmetric(a: Seq<char>, b: Seq<char>)
    requires
        lex_le(a, b),
        lex_le(b, a),
    ensures
        a == b,
    decreases a.len(),
{
    if a.len() > 0 && b.len() > 0 && a[0] == b[0] {
        lemma_lex_antisymmetric(a.skip(1), b.skip(1));
        assert(a =~= seq![a[0]] + a.skip(1));
        assert(b =~= seq![b[0]] + b.skip(1));
    } else {
        assert(a =~= b);
    }
}

/// Sorting does not depend on the order in which the texts come.
pub proof fn law_sorting_ignores_order(s: Seq<Seq<char>>, t: Seq<Seq<char>>)
    requires
        s.to_multiset() == t.to_multiset(),
    ensures
        sorted(s) == sorted(t),
{
    let leq = |a: Seq<char>, b: Seq<char>| lex_le(a, b);
    law_sorting(s);
    law_sorting(t);
    assert(vstd::relations::total_ordering(leq)) by {
        assert forall|a: Seq<char>| #[trigger] leq(a, a) by {
            lemma_lex_total(a, a);
        }
        assert forall|a: Seq<char>, b: Seq<char>| #[trigger] leq(a, b) && #[trigger] leq(b, a) implies a
            == b by {
            lemma_lex_antisymmetric(a, b);
        }
        assert forall|a: Seq<char>, b: Seq<char>, c: Seq<char>| #[trigger]
            leq(a, b) && #[trigger] leq(b, c) implies leq(a, c) by {
            lemma_lex_transitive(a, b, c);
        }
        assert forall|a: Seq<char>, b: Seq<char>| #[trigger] leq(a, b) || #[trigger] leq(b, a) by {
            lemma_lex_total(a, b);
        }
    }
    vstd::seq_lib::lemma_sorted_unique(sorted(s), sorted(t), leq);
}

} // verus!
