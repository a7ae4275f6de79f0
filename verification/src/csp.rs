//! The content security policy of the portal: which inline scripts it may run.
use vstd::arithmetic::power::pow;
use vstd::prelude::*;
use vstd::string::StringExecFns;
use vstd::utf8::encode_utf8;
use crate::text::{
    chars_of, find_from, has_prefix, occurs_at, starts_with, string_of, views,
};

verus! {

/// The first position at or after `i` where `p` occurs in `s`.
pub open spec fn find_text(s: Seq<char>, p: Seq<char>, i: int) -> Option<int>
    decreases s.len() - i,
{
    if i < 0 || i + p.len() > s.len() {
        None
    } else if occurs_at(s, p, i) {
        Some(i)
    } else if i < s.len() {
        find_text(s, p, i + 1)
    } else {
        None
    }
}

/// Where `find_text` finds a text.
pub proof fn lemma_find_text(s: Seq<char>, p: Seq<char>, i: int, k: int)
    requires
        0 <= i <= k,
        forall|j: int| i <= j < k ==> !occurs_at(s, p, j),
    ensures
        occurs_at(s, p, k) ==> find_text(s, p, i) == Some(k),
        (forall|j: int| k <= j ==> !occurs_at(s, p, j)) ==> find_text(s, p, i) is None,
    decreases s.len() - i,
{
    if i + p.len() > s.len() {
    } else if i == k {
        if !occurs_at(s, p, i) && i < s.len() && (forall|j: int| k <= j ==> !occurs_at(s, p, j)) {
            lemma_find_text(s, p, i + 1, k + 1);
        }
    } else if i < s.len() {
        lemma_find_text(s, p, i + 1, k);
    }
}

/// The opening mark of an inline script.
pub open spec fn open_mark() -> Seq<char> {
    "<script>"@
}

/// The closing mark of a script.
pub open spec fn close_mark() -> Seq<char> {
    "</script>"@
}

/// The inline scripts of a page from position `from` on: what stands between an opening mark,
/// which has no attributes, and the next closing mark. A script that is not closed ends the
/// search.
pub open spec fn inline_scripts(html: Seq<char>, from: int) -> Seq<Seq<char>>
    decreases html.len() - from,
{
    match find_text(html, open_mark(), from) {
        None => Seq::empty(),
        Some(i) => {
            let start = i + open_mark().len();
            match find_text(html, close_mark(), start) {
                None => Seq::empty(),
                Some(j) => {
                    let next = j + close_mark().len();
                    if from < next <= html.len() {
                        seq![html.subrange(start, j)] + inline_scripts(html, next)
                    } else {
                        Seq::empty()
                    }
                },
            }
        },
    }
}

/// The SHA-256 digest of bytes.
pub uninterp spec fn sha256(bytes: Seq<u8>) -> Seq<u8>;

/// The character for six bits in the standard alphabet of base64.
pub open spec fn base64_char(d: int) -> char {
    if d < 26 {
        (65 + d) as char
    } else if d < 52 {
        (71 + d) as char
    } else if d < 62 {
        (d - 4) as char
    } else if d == 62 {
        '+'
    } else {
        '/'
    }
}

/// The four characters for the 24 bits of `n`.
pub open spec fn base64_group(n: int) -> Seq<char> {
    Seq::new(4, |i: int| base64_char(n / pow(64, (3 - i) as nat) % 64))
}

/// The standard base64 form of bytes: four characters for each three bytes. One byte or two that
/// are left are filled up with zero bits, and the characters that hold no bit of them are `=`.
pub open spec fn base64(bytes: Seq<u8>) -> Seq<char>
    decreases bytes.len(),
{
    if bytes.len() == 0 {
        Seq::empty()
    } else if bytes.len() == 1 {
        base64_group(65536 * bytes[0]).take(2).push('=').push('=')
    } else if bytes.len() == 2 {
        base64_group(65536 * bytes[0] + 256 * bytes[1]).take(3).push('=')
    } else {
        base64_group(65536 * bytes[0] + 256 * bytes[1] + bytes[2]) + base64(bytes.skip(3))
    }
}

/// `sha2::Sha256::digest`. The claims: the digest is determined by the bytes and has 32 bytes.
#[verifier::external_body]
fn sha256_digest(bytes: &[u8]) -> (r: Vec<u8>)
    ensures
        r@ == sha256(bytes@),
        r@.len() == 32,
{
    <sha2::Sha256 as sha2::Digest>::digest(bytes).to_vec()
}

/// `base64::Engine::encode` with the standard alphabet and padding. The claim: the text is
/// the base64 form of the bytes. More bytes than a text has room for would make it panic.
#[verifier::external_body]
fn base64_encode(bytes: &Vec<u8>) -> (r: String)
    requires
        bytes@.len() <= u16::MAX,
    ensures
        r@ == base64(bytes@),
{
    base64::Engine::encode(&base64::engine::general_purpose::STANDARD, bytes)
}

/// The source expression that allows a script with the given text.
pub open spec fn script_hash(content: Seq<char>) -> Seq<char> {
    "sha256-"@ + base64(sha256(encode_utf8(content)))
}

/// The source expressions for all inline scripts of a page.
pub open spec fn script_hashes(html: Seq<char>) -> Seq<Seq<char>> {
    inline_scripts(html, 0).map_values(|c: Seq<char>| script_hash(c))
}

/// The source expression that allows a script with the given text.
fn hash_script(content: &str) -> (r: String)
    ensures
        r@ == script_hash(content@),
{
    let digest = sha256_digest(content.as_bytes());
    "sha256-".to_owned().concat(&base64_encode(&digest))
}

/// The inline scripts of a page.
pub fn extract_inline_scripts(html: &str) -> (r: Vec<String>)
    ensures
        views(r@) == inline_scripts(html@, 0),
{
    let v = chars_of(html);
    let open = chars_of("<script>");
    let close = chars_of("</script>");
    let n = v.len();
    let mut out: Vec<String> = Vec::new();
    let mut from: usize = 0;
    let ghost s = html@;
    assert(views(out@) + inline_scripts(s, 0) =~= inline_scripts(s, 0));
    proof {
        reveal_strlit("<script>");
        reveal_strlit("</script>");
    }
    loop
        invariant
            s == html@,
            v@ == s,
            n == s.len(),
            open@ == open_mark(),
            close@ == close_mark(),
            open@.len() == 8,
            close@.len() == 9,
            from <= n,
            inline_scripts(s, 0) == views(out@) + inline_scripts(s, from as int),
        ensures
            views(out@) == inline_scripts(s, 0),
        decreases n - from,
    {
        let ghost sofar = views(out@);
        let found = find_from(v.as_slice(), open.as_slice(), from);
        let i: usize = match found {
            Some(i) => {
                proof {
                    lemma_find_text(s, open_mark(), from as int, i as int);
                }
                i
            },
            None => {
                proof {
                    lemma_find_text(s, open_mark(), from as int, from as int);
                    assert(sofar + Seq::<Seq<char>>::empty() =~= sofar);
                }
                break ;
            },
        };
        let start: usize = i + 8;
        let closing = find_from(v.as_slice(), close.as_slice(), start);
        let j: usize = match closing {
            Some(j) => {
                proof {
                    lemma_find_text(s, close_mark(), start as int, j as int);
                }
                j
            },
            None => {
                proof {
                    lemma_find_text(s, close_mark(), start as int, start as int);
                    assert(sofar + Seq::<Seq<char>>::empty() =~= sofar);
                }
                break ;
            },
        };
        let content = string_of(vstd::slice::slice_subrange(v.as_slice(), start, j));
        out.push(content);
        let ghost rest = inline_scripts(s, j + 9);
        proof {
            assert(inline_scripts(s, from as int) == seq![content@] + rest);
            assert(views(out@) =~= sofar.push(content@));
            assert(sofar + (seq![content@] + rest) =~= sofar.push(content@) + rest);
        }
        from = j + 9;
    }
    out
}

/// The source expressions for all inline scripts of a page.
pub fn extract_inline_script_hashes(html: &str) -> (r: Vec<String>)
    ensures
        views(r@) == script_hashes(html@),
{
    let scripts = extract_inline_scripts(html);
    let mut out: Vec<String> = Vec::new();
    let mut i: usize = 0;
    while i < scripts.len()
        invariant
            i == out@.len(),
            i <= scripts@.len(),
            forall|k: int| 0 <= k < i ==> (#[trigger] out@[k])@ == script_hash(scripts@[k]@),
        decreases scripts@.len() - i,
    {
        out.push(hash_script(&scripts[i]));
        i += 1;
    }
    assert(views(out@) =~= views(scripts@).map_values(|c: Seq<char>| script_hash(c)));
    out
}

/// There is one source expression for each closed inline script.
pub proof fn law_one_hash_for_each_script(html: Seq<char>)
    ensures
        script_hashes(html).len() == inline_scripts(html, 0).len(),
{
}

/// Source expressions in quotes, with a space between them.
pub open spec fn quoted_list(hashes: Seq<Seq<char>>) -> Seq<char>
    decreases hashes.len(),
{
    if hashes.len() == 0 {
        Seq::empty()
    } else if hashes.len() == 1 {
        "'"@ + hashes[0] + "'"@
    } else {
        quoted_list(hashes.drop_last()) + " "@ + ("'"@ + hashes.last() + "'"@)
    }
}

/// The policy that allows the given scripts.
pub open spec fn csp_text(hashes: Seq<Seq<char>>) -> Seq<char> {
    "default-src 'self'; script-src 'self' "@ + quoted_list(hashes)
        + "; style-src 'self' 'unsafe-inline'; img-src 'self' data:; connect-src 'self'"@
}

/// The policy that allows the given scripts.
pub fn build_csp(hashes: &Vec<String>) -> (r: String)
    ensures
        r@ == csp_text(views(hashes@)),
{
    let ghost all = views(hashes@);
    let mut list = String::new();
    let mut i: usize = 0;
    assert(all.take(0) =~= Seq::empty());
    while i < hashes.len()
        invariant
            all == views(hashes@),
            i <= hashes@.len(),
            list@ == quoted_list(all.take(i as int)),
        decreases hashes@.len() - i,
    {
        let ghost next = all.take(i + 1);
        assert(next.drop_last() =~= all.take(i as int));
        assert(next.last() == hashes@[i as int]@);
        let item = "'".to_owned().concat(&hashes[i]).concat("'");
        if i == 0 {
            list = item;
            assert(next[0] == hashes@[0]@);
        } else {
            list = list.concat(" ").concat(&item);
        }
        i += 1;
    }
    assert(all.take(i as int) =~= all);
    "default-src 'self'; script-src 'self' ".to_owned().concat(&list).concat(
        "; style-src 'self' 'unsafe-inline'; img-src 'self' data:; connect-src 'self'",
    )
}

/// The policy for the portal's page; for one script that is known where there is no page.
pub fn init_csp_header(html: Option<&str>) -> (r: String)
    ensures
        r@ == csp_text(
            match html {
                Some(h) => script_hashes(h@),
                None => Seq::empty().push("sha256-CNK91oXKaUIpki3MXfrcGislo8qcATLtfVWO7y4j0rM="@),
            },
        ),
{
    match html {
        Some(h) => build_csp(&extract_inline_script_hashes(h)),
        None => {
            let mut hashes: Vec<String> = Vec::new();
            hashes.push("sha256-CNK91oXKaUIpki3MXfrcGislo8qcATLtfVWO7y4j0rM=".to_owned());
            assert(views(hashes@) =~= Seq::empty().push(
                "sha256-CNK91oXKaUIpki3MXfrcGislo8qcATLtfVWO7y4j0rM="@,
            ));
            build_csp(&hashes)
        },
    }
}

/// The views of header names and values.
pub open spec fn header_views(s: Seq<(&'static str, String)>) -> Seq<(Seq<char>, Seq<char>)> {
    s.map_values(|h: (&'static str, String)| (h.0@, h.1@))
}

/// The headers that every response gets.
pub open spec fn common_headers() -> Seq<(Seq<char>, Seq<char>)> {
    Seq::empty().push(("x-content-type-options"@, "nosniff"@)).push(
        ("x-frame-options"@, "DENY"@),
    ).push(("strict-transport-security"@, "max-age=31536000; includeSubDomains"@)).push(
        ("referrer-policy"@, "strict-origin-when-cross-origin"@),
    ).push(("permissions-policy"@, "camera=(), microphone=(), geolocation=(), payment=()"@))
}

/// The headers that a response gets: the policy goes to the portal only, because other pages have
/// policies of their own.
pub fn security_headers(path: &str, csp: Option<&str>) -> (r: Vec<(&'static str, String)>)
    ensures
        header_views(r@) == (if has_prefix(path@, "/portal"@) && csp is Some {
            common_headers().push(("content-security-policy"@, csp->0@))
        } else {
            common_headers()
        }),
{
    let mut out: Vec<(&'static str, String)> = Vec::new();
    out.push(("x-content-type-options", "nosniff".to_owned()));
    out.push(("x-frame-options", "DENY".to_owned()));
    out.push(("strict-transport-security", "max-age=31536000; includeSubDomains".to_owned()));
    out.push(("referrer-policy", "strict-origin-when-cross-origin".to_owned()));
    out.push(
        ("permissions-policy", "camera=(), microphone=(), geolocation=(), payment=()".to_owned()),
    );
    assert(header_views(out@) =~= common_headers());
    if starts_with(path, "/portal") {
        if let Some(text) = csp {
            let ghost before = out@;
            out.push(("content-security-policy", text.to_owned()));
            assert(header_views(out@) =~= header_views(before).push(
                ("content-security-policy"@, text@),
            ));
        }
    }
    out
}

} // verus!
