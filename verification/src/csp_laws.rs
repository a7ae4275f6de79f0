//! What the content security policy amounts to.
use vstd::arithmetic::power::pow;
use vstd::prelude::*;
use vstd::utf8::encode_utf8;
use crate::csp::{
    base64, base64_char, base64_group, close_mark, common_headers, csp_text, inline_scripts,
    lemma_find_text, open_mark, quoted_list, script_hash, sha256,
};
use crate::text::{has_prefix, occurs_at};

verus! {

/// The six bits that a character of base64 stands for.
pub open spec fn sextet(c: char) -> int {
    if 'A' <= c <= 'Z' {
        c as int - 'A' as int
    } else if 'a' <= c <= 'z' {
        c as int - 'a' as int + 26
    } else if '0' <= c <= '9' {
        c as int - '0' as int + 52
    } else if c == '+' {
        62
    } else {
        63
    }
}

/// The 24 bits of four characters; a sign that fills up counts nothing.
pub open spec fn bits_of(s: Seq<char>) -> int {
    262144 * sextet(s[0]) + 4096 * sextet(s[1]) + 64 * (if s[2] == '=' {
        0
    } else {
        sextet(s[2])
    }) + (if s[3] == '=' {
        0
    } else {
        sextet(s[3])
    })
}

/// The bytes that a text in base64 stands for.
pub open spec fn unbase64(s: Seq<char>) -> Seq<u8>
    decreases s.len(),
{
    if s.len() < 4 {
        Seq::empty()
    } else {
        let n = bits_of(s);
        let bytes = seq![(n / 65536) as u8, (n / 256 % 256) as u8, (n % 256) as u8];
        (if s[2] == '=' {
            bytes.take(1)
        } else if s[3] == '=' {
            bytes.take(2)
        } else {
            bytes
        }) + unbase64(s.skip(4))
    }
}

proof fn lemma_char(d: int)
    requires
        0 <= d < 64,
    ensures
        sextet(base64_char(d)) == d,
        base64_char(d) != '=',
{
}

proof fn lemma_group(n: int)
    requires
        0 <= n < 16777216,
    ensures
        ({
            let g = base64_group(n);
            let a = n / 262144;
            let b = n / 4096 % 64;
            let c = n / 64 % 64;
            let d = n % 64;
            &&& g.len() == 4
            &&& g[0] == base64_char(a) && g[1] == base64_char(b) && g[2] == base64_char(c)
            &&& g[3] == base64_char(d)
            &&& 0 <= a < 64 && 0 <= b < 64 && 0 <= c < 64 && 0 <= d < 64
            &&& n == 262144 * a + 4096 * b + 64 * c + d
        }),
{
    reveal_with_fuel(pow, 4);
    assert(pow(64, 0) == 1);
    assert(pow(64, 1) == 64);
    assert(pow(64, 2) == 4096);
    assert(pow(64, 3) == 262144);
    let g = base64_group(n);
    assert(g[0] == base64_char(n / 262144 % 64));
    assert(g[1] == base64_char(n / 4096 % 64));
    assert(g[2] == base64_char(n / 64 % 64));
    assert(g[3] == base64_char(n / 1 % 64));
}

/// The bits of characters that are filled up at the end.
proof fn lemma_filled_bits(n: int, s: Seq<char>)
    requires
        0 <= n < 16777216,
        s.len() == 4,
        s[0] == base64_group(n)[0] && s[1] == base64_group(n)[1],
        s[2] == base64_group(n)[2] || (s[2] == '=' && n % 4096 == 0),
        s[3] == '=' && n % 64 == 0,
    ensures
        bits_of(s) == n,
        s[2] == base64_group(n)[2] ==> s[2] != '=',
{
    lemma_group(n);
    lemma_char(n / 262144);
    lemma_char(n / 4096 % 64);
    lemma_char(n / 64 % 64);
    if s[2] == '=' {
        assert(n / 64 % 64 == 0);
    }
}

/// One byte that is left at the end.
proof fn lemma_one_byte(x: u8)
    ensures
        unbase64(base64(seq![x])) == seq![x],
        base64(seq![x]).len() == 4,
{
    let one = seq![x];
    let s = base64(one);
    let n = 65536 * x;
    lemma_parts(x, 0, 0);
    lemma_group(n);
    assert(s == base64_group(n).take(2).push('=').push('='));
    assert(n % 4096 == 0 && n % 64 == 0);
    lemma_filled_bits(n, s);
    lemma_last_group(s, n, x, 0);
    assert(seq![x].take(1) =~= one);
}

/// Two bytes that are left at the end.
proof fn lemma_two_bytes(x: u8, y: u8)
    ensures
        unbase64(base64(seq![x, y])) == seq![x, y],
        base64(seq![x, y]).len() == 4,
{
    let two = seq![x, y];
    let s = base64(two);
    let n = 65536 * x + 256 * y;
    lemma_parts(x, y, 0);
    lemma_group(n);
    assert(s == base64_group(n).take(3).push('='));
    assert(n % 64 == 0);
    lemma_filled_bits(n, s);
    lemma_last_group(s, n, x, y);
}

/// The last four characters, where they are filled up.
proof fn lemma_last_group(s: Seq<char>, n: int, x: u8, y: u8)
    requires
        s.len() == 4,
        bits_of(s) == n,
        s[3] == '=',
        (n / 65536) as u8 == x,
        (n / 256 % 256) as u8 == y,
    ensures
        unbase64(s) == (if s[2] == '=' {
            seq![x]
        } else {
            seq![x, y]
        }),
{
    let bytes = seq![(n / 65536) as u8, (n / 256 % 256) as u8, (n % 256) as u8];
    assert(s.skip(4) =~= Seq::empty());
    assert(unbase64(s.skip(4)) =~= Seq::empty());
    assert(bytes.take(1) + Seq::<u8>::empty() =~= seq![x]);
    assert(bytes.take(2) + Seq::<u8>::empty() =~= seq![x, y]);
}

/// The bytes of 24 bits.
proof fn lemma_parts(x: u8, y: u8, z: u8)
    ensures
        ({
            let n = 65536 * x + 256 * y + z;
            &&& 0 <= n < 16777216
            &&& (n / 65536) as u8 == x
            &&& (n / 256 % 256) as u8 == y
            &&& (n % 256) as u8 == z
        }),
{
}

/// The bits of four characters that none of fills up.
proof fn lemma_bits(n: int)
    requires
        0 <= n < 16777216,
    ensures
        ({
            let g = base64_group(n);
            &&& g.len() == 4
            &&& bits_of(g) == n
            &&& g[2] != '=' && g[3] != '='
        }),
{
    lemma_group(n);
    lemma_char(n / 262144);
    lemma_char(n / 4096 % 64);
    lemma_char(n / 64 % 64);
    lemma_char(n % 64);
}

/// Three bytes and more.
proof fn lemma_three_bytes(x: u8, y: u8, z: u8, rest: Seq<char>)
    ensures
        ({
            let g = base64_group(65536 * x + 256 * y + z);
            &&& g.len() == 4
            &&& unbase64(g + rest) == seq![x, y, z] + unbase64(rest)
        }),
{
    let n = 65536 * x + 256 * y + z;
    lemma_parts(x, y, z);
    lemma_bits(n);
    lemma_decode(base64_group(n), rest, n, x, y, z);
}

proof fn lemma_decode(g: Seq<char>, rest: Seq<char>, n: int, x: u8, y: u8, z: u8)
    requires
        g.len() == 4,
        bits_of(g) == n,
        g[2] != '=' && g[3] != '=',
        (n / 65536) as u8 == x,
        (n / 256 % 256) as u8 == y,
        (n % 256) as u8 == z,
    ensures
        unbase64(g + rest) == seq![x, y, z] + unbase64(rest),
{
    let s = g + rest;
    assert(s[0] == g[0] && s[1] == g[1] && s[2] == g[2] && s[3] == g[3]);
    assert(bits_of(s) == bits_of(g));
    assert(s.skip(4) =~= rest);
}

/// Decoding a text in base64 gives back the bytes, and the text is four characters for each three
/// bytes or part of three.
pub proof fn law_base64_is_undone(bytes: Seq<u8>)
    ensures
        unbase64(base64(bytes)) == bytes,
        base64(bytes).len() == (bytes.len() + 2) / 3 * 4,
    decreases bytes.len(),
{
    if bytes.len() == 0 {
        assert(unbase64(base64(bytes)) =~= bytes);
    } else if bytes.len() == 1 {
        lemma_one_byte(bytes[0]);
        assert(bytes =~= seq![bytes[0]]);
    } else if bytes.len() == 2 {
        lemma_two_bytes(bytes[0], bytes[1]);
        assert(bytes =~= seq![bytes[0], bytes[1]]);
    } else {
        let rest = bytes.skip(3);
        law_base64_is_undone(rest);
        lemma_three_bytes(bytes[0], bytes[1], bytes[2], base64(rest));
        assert(seq![bytes[0], bytes[1], bytes[2]] + rest =~= bytes);
    }
}

/// A script is allowed by the digest of its text: the source expression names the digest, and the
/// digest can be read back from it.
pub proof fn law_scripts_are_named_by_their_digest(code: Seq<char>)
    ensures
        has_prefix(script_hash(code), "sha256-"@),
        unbase64(script_hash(code).skip(7)) == sha256(encode_utf8(code)),
{
    reveal_strlit("sha256-");
    let h = script_hash(code);
    let b = base64(sha256(encode_utf8(code)));
    assert(h.subrange(0, 7) =~= "sha256-"@);
    assert(h.skip(7) =~= b);
    law_base64_is_undone(sha256(encode_utf8(code)));
}

/// The scripts of a page are what stands between an opening mark and the next closing mark; the
/// search goes on behind that.
pub proof fn law_scripts_of_a_page(html: Seq<char>, from: int, a: int, b: int)
    requires
        0 <= from <= a,
        occurs_at(html, "<script>"@, a),
        forall|i: int| from <= i < a ==> !occurs_at(html, "<script>"@, i),
        a + 8 <= b,
        occurs_at(html, "</script>"@, b),
        forall|i: int| a + 8 <= i < b ==> !occurs_at(html, "</script>"@, i),
    ensures
        inline_scripts(html, from) == seq![html.subrange(a + 8, b)] + inline_scripts(html, b + 9),
{
    reveal_strlit("<script>");
    reveal_strlit("</script>");
    lemma_find_text(html, open_mark(), from, a);
    lemma_find_text(html, close_mark(), a + 8, b);
}

/// A page without an opening mark has no scripts, and a script that is not closed is none.
pub proof fn law_pages_without_scripts(html: Seq<char>, from: int, a: int)
    requires
        0 <= from <= a,
    ensures
        (forall|i: int| from <= i ==> !occurs_at(html, "<script>"@, i)) ==> inline_scripts(
            html,
            from,
        ).len() == 0,
        occurs_at(html, "<script>"@, a) && (forall|i: int|
            from <= i < a ==> !occurs_at(html, "<script>"@, i)) && (forall|i: int|
            a + 8 <= i ==> !occurs_at(html, "</script>"@, i)) ==> inline_scripts(html, from).len()
            == 0,
{
    reveal_strlit("<script>");
    reveal_strlit("</script>");
    if forall|i: int| from <= i ==> !occurs_at(html, "<script>"@, i) {
        lemma_find_text(html, open_mark(), from, from);
    }
    if occurs_at(html, "<script>"@, a) && (forall|i: int|
        from <= i < a ==> !occurs_at(html, "<script>"@, i)) && (forall|i: int|
        a + 8 <= i ==> !occurs_at(html, "</script>"@, i)) {
        lemma_find_text(html, open_mark(), from, a);
        lemma_find_text(html, close_mark(), a + 8, a + 8);
    }
}

/// The policy allows the portal's own scripts and the ones with a known digest, each in quotes.
pub proof fn law_policies_allow_known_scripts(hashes: Seq<Seq<char>>, h: Seq<char>)
    ensures
        has_prefix(
            csp_text(hashes),
            "default-src 'self'; script-src 'self' "@ + quoted_list(hashes) + "; "@,
        ),
        quoted_list(seq![h]) == "'"@ + h + "'"@,
        hashes.len() > 0 ==> quoted_list(hashes.push(h)) == quoted_list(hashes) + " "@ + ("'"@ + h
            + "'"@),
{
    let one = seq![h];
    assert(one[0] == h);
    reveal_strlit("; ");
    reveal_strlit("; style-src 'self' 'unsafe-inline'; img-src 'self' data:; connect-src 'self'");
    let t = csp_text(hashes);
    let head = "default-src 'self'; script-src 'self' "@ + quoted_list(hashes) + "; "@;
    assert(t.subrange(0, head.len() as int) =~= head);
    if hashes.len() > 0 {
        let all = hashes.push(h);
        assert(all.drop_last() =~= hashes);
    }
}

/// Every page tells browsers to trust the stated types, not to be framed, to keep to HTTPS, and
/// what to send of addresses.
pub proof fn law_common_headers()
    ensures
        common_headers().contains(("x-content-type-options"@, "nosniff"@)),
        common_headers().contains(("x-frame-options"@, "DENY"@)),
        common_headers().contains(
            ("strict-transport-security"@, "max-age=31536000; includeSubDomains"@),
        ),
        common_headers().contains(("referrer-policy"@, "strict-origin-when-cross-origin"@)),
        common_headers().contains(
            ("permissions-policy"@, "camera=(), microphone=(), geolocation=(), payment=()"@),
        ),
{
    let h = common_headers();
    assert(h[0] == ("x-content-type-options"@, "nosniff"@));
    assert(h[1] == ("x-frame-options"@, "DENY"@));
    assert(h[2] == ("strict-transport-security"@, "max-age=31536000; includeSubDomains"@));
    assert(h[3] == ("referrer-policy"@, "strict-origin-when-cross-origin"@));
    assert(h[4] == (
        "permissions-policy"@,
        "camera=(), microphone=(), geolocation=(), payment=()"@,
    ));
}

} // verus!
