//! The Base64url text of bytes (RFC 4648, URL-safe alphabet, no padding), which names
//! the topic of a peer's address and part of a message's id.
use vstd::prelude::*;

verus! {

/// The character of the 6-bit value `v` in the URL-safe alphabet: `A`-`Z`, `a`-`z`,
/// `0`-`9`, `-`, `_`.
pub open spec fn base64url_char(v: int) -> char {
    if v < 26 {
        (65 + v) as char
    } else if v < 52 {
        (97 + (v - 26)) as char
    } else if v < 62 {
        (48 + (v - 52)) as char
    } else if v == 62 {
        '-'
    } else {
        '_'
    }
}

/// The Base64url text of `bytes`: each group of three bytes gives four characters of six
/// bits each, most significant bits first; a final group of one or two bytes gives two or
/// three characters, its missing low bits zero; there is no padding.
pub open spec fn base64url_encoding(bytes: Seq<u8>) -> Seq<char>
    decreases bytes.len(),
{
    if bytes.len() == 0 {
        Seq::empty()
    } else if bytes.len() == 1 {
        seq![base64url_char((bytes[0] as int) / 4), base64url_char(((bytes[0] as int) % 4) * 16)]
    } else if bytes.len() == 2 {
        seq![
            base64url_char((bytes[0] as int) / 4),
            base64url_char(((bytes[0] as int) % 4) * 16 + (bytes[1] as int) / 16),
            base64url_char(((bytes[1] as int) % 16) * 4),
        ]
    } else {
        seq![
            base64url_char((bytes[0] as int) / 4),
            base64url_char(((bytes[0] as int) % 4) * 16 + (bytes[1] as int) / 16),
            base64url_char(((bytes[1] as int) % 16) * 4 + (bytes[2] as int) / 64),
            base64url_char((bytes[2] as int) % 64),
        ] + base64url_encoding(bytes.skip(3))
    }
}

proof fn lemma_char_injective(v: int, w: int)
    requires
        0 <= v < 64,
        0 <= w < 64,
        base64url_char(v) == base64url_char(w),
    ensures
        v == w,
{
    let cv = base64url_char(v) as int;
    let cw = base64url_char(w) as int;
    assert(cv == cw);
}

proof fn lemma_group_injective(a0: u8, a1: u8, a2: u8, b0: u8, b1: u8, b2: u8)
    requires
        (a0 as int) / 4 == (b0 as int) / 4,
        ((a0 as int) % 4) * 16 + (a1 as int) / 16 == ((b0 as int) % 4) * 16 + (b1 as int) / 16,
        ((a1 as int) % 16) * 4 + (a2 as int) / 64 == ((b1 as int) % 16) * 4 + (b2 as int) / 64,
        (a2 as int) % 64 == (b2 as int) % 64,
    ensures
        a0 == b0,
        a1 == b1,
        a2 == b2,
{
    assert(a0 == b0 && a1 == b1 && a2 == b2) by (bit_vector)
        requires
            a0 / 4 == b0 / 4,
            (a0 % 4) * 16 + a1 / 16 == (b0 % 4) * 16 + b1 / 16,
            (a1 % 16) * 4 + a2 / 64 == (b1 % 16) * 4 + b2 / 64,
            a2 % 64 == b2 % 64,
    ;
}

/// The length of the Base64url text of `n` bytes: `(4n + 2) / 3` characters.
pub proof fn lemma_base64url_length(bytes: Seq<u8>)
    ensures
        base64url_encoding(bytes).len() == (4 * bytes.len() + 2) / 3,
    decreases bytes.len(),
{
    if bytes.len() >= 3 {
        lemma_base64url_length(bytes.skip(3));
    }
}

/// Distinct byte strings of one length have distinct Base64url texts: the encoding can be
/// read back.
pub proof fn lemma_base64url_injective(a: Seq<u8>, b: Seq<u8>)
    requires
        a.len() == b.len(),
        base64url_encoding(a) == base64url_encoding(b),
    ensures
        a == b,
    decreases a.len(),
{
    let ea = base64url_encoding(a);
    let eb = base64url_encoding(b);
    if a.len() == 0 {
        assert(a =~= b);
    } else if a.len() == 1 {
        assert(ea[0] == eb[0] && ea[1] == eb[1]);
        lemma_char_injective((a[0] as int) / 4, (b[0] as int) / 4);
        lemma_char_injective(((a[0] as int) % 4) * 16, ((b[0] as int) % 4) * 16);
        lemma_group_injective(a[0], 0, 0, b[0], 0, 0);
        assert(a =~= b);
    } else if a.len() == 2 {
        assert(ea[0] == eb[0] && ea[1] == eb[1] && ea[2] == eb[2]);
        lemma_char_injective((a[0] as int) / 4, (b[0] as int) / 4);
        lemma_char_injective(((a[0] as int) % 4) * 16 + (a[1] as int) / 16, ((b[0] as int) % 4) * 16 + (b[1] as int) / 16);
        lemma_char_injective(((a[1] as int) % 16) * 4, ((b[1] as int) % 16) * 4);
        lemma_group_injective(a[0], a[1], 0, b[0], b[1], 0);
        assert(a =~= b);
    } else {
        let ga = seq![
            base64url_char((a[0] as int) / 4),
            base64url_char(((a[0] as int) % 4) * 16 + (a[1] as int) / 16),
            base64url_char(((a[1] as int) % 16) * 4 + (a[2] as int) / 64),
            base64url_char((a[2] as int) % 64),
        ];
        let gb = seq![
            base64url_char((b[0] as int) / 4),
            base64url_char(((b[0] as int) % 4) * 16 + (b[1] as int) / 16),
            base64url_char(((b[1] as int) % 16) * 4 + (b[2] as int) / 64),
            base64url_char((b[2] as int) % 64),
        ];
        let ra = base64url_encoding(a.skip(3));
        let rb = base64url_encoding(b.skip(3));
        assert(ea == ga + ra);
        assert(eb == gb + rb);
        assert(ga =~= ea.take(4));
        assert(gb =~= eb.take(4));
        assert(ra =~= ea.skip(4));
        assert(rb =~= eb.skip(4));
        assert(ga[0] == gb[0] && ga[1] == gb[1] && ga[2] == gb[2] && ga[3] == gb[3]);
        lemma_char_injective((a[0] as int) / 4, (b[0] as int) / 4);
        lemma_char_injective(((a[0] as int) % 4) * 16 + (a[1] as int) / 16, ((b[0] as int) % 4) * 16 + (b[1] as int) / 16);
        lemma_char_injective(((a[1] as int) % 16) * 4 + (a[2] as int) / 64, ((b[1] as int) % 16) * 4 + (b[2] as int) / 64);
        lemma_char_injective((a[2] as int) % 64, (b[2] as int) % 64);
        lemma_group_injective(a[0], a[1], a[2], b[0], b[1], b[2]);
        lemma_base64url_injective(a.skip(3), b.skip(3));
        assert(a =~= a.take(3) + a.skip(3));
        assert(b =~= b.take(3) + b.skip(3));
        assert(a.take(3) =~= b.take(3));
    }
}

} // verus!
