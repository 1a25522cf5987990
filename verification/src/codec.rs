use vstd::prelude::*;
use vstd::string::StringSliceAdditionalSpecFns;

verus! {

/// The character that the URL-safe base64 alphabet gives the 6-bit value `x`.
pub open spec fn base64_url_char(x: int) -> char {
    if x < 26 {
        (x + 65) as char
    } else if x < 52 {
        (x - 26 + 97) as char
    } else if x < 62 {
        (x - 52 + 48) as char
    } else if x == 62 {
        '-'
    } else {
        '_'
    }
}

/// URL-safe base64 (RFC 4648, section 5) of `b`; `pad` adds the trailing `=`
/// that fill the last group of four characters.
pub open spec fn base64_url(b: Seq<u8>, pad: bool) -> Seq<char>
    decreases b.len(),
{
    let b0 = if b.len() > 0 { b[0] as int } else { 0 };
    let b1 = if b.len() > 1 { b[1] as int } else { 0 };
    let b2 = if b.len() > 2 { b[2] as int } else { 0 };
    if b.len() >= 3 {
        seq![
            base64_url_char(b0 / 4),
            base64_url_char((b0 % 4) * 16 + b1 / 16),
            base64_url_char((b1 % 16) * 4 + b2 / 64),
            base64_url_char(b2 % 64),
        ] + base64_url(b.skip(3), pad)
    } else if b.len() == 2 {
        seq![
            base64_url_char(b0 / 4),
            base64_url_char((b0 % 4) * 16 + b1 / 16),
            base64_url_char((b1 % 16) * 4),
        ] + if pad {
            seq!['=']
        } else {
            Seq::empty()
        }
    } else if b.len() == 1 {
        seq![base64_url_char(b0 / 4), base64_url_char((b0 % 4) * 16)] + if pad {
            seq!['=', '=']
        } else {
            Seq::empty()
        }
    } else {
        Seq::empty()
    }
}

/// The two base64 configurations the service uses.
#[derive(Debug, Clone, Copy, PartialEq, Eq)]
pub enum Base64Config {
    /// URL-safe alphabet with `=` padding.
    UrlSafe,
    /// URL-safe alphabet without padding.
    UrlSafeNoPad,
}

/// `base64::encode_config` from the `base64` crate (0.13) with `URL_SAFE` or
/// `URL_SAFE_NO_PAD`: the contract claims that it returns the URL-safe base64
/// of the UTF-8 bytes of `text`, padded exactly for `URL_SAFE`. The crate
/// panics only when the output length overflows `usize`, which no string that
/// fits in memory reaches.
#[verifier::external_body]
pub(crate) fn encode_base64(text: &str, config: Base64Config) -> (r: String)
    ensures
        r@ == base64_url(text.spec_bytes(), config is UrlSafe),
{
    match config {
        Base64Config::UrlSafe => base64::encode_config(text, base64::URL_SAFE),
        Base64Config::UrlSafeNoPad => base64::encode_config(text, base64::URL_SAFE_NO_PAD),
    }
}

/// The value of a hexadecimal digit (either case), or `None`.
pub open spec fn hex_value(c: char) -> Option<int> {
    if '0' <= c <= '9' {
        Some(c as int - '0' as int)
    } else if 'a' <= c <= 'f' {
        Some(c as int - 'a' as int + 10)
    } else if 'A' <= c <= 'F' {
        Some(c as int - 'A' as int + 10)
    } else {
        None
    }
}

/// The lower-case hexadecimal digit for `v` in `0..16`.
pub open spec fn lower_hex_digit(v: int) -> char {
    if v < 10 {
        (v + 48) as char
    } else {
        (v - 10 + 97) as char
    }
}

/// The 12 bytes that a 24-digit hexadecimal object id denotes; `None` for any
/// other text.
pub open spec fn object_id_bytes(text: Seq<char>) -> Option<Seq<u8>> {
    if text.len() == 24 && forall|i: int| 0 <= i < 24 ==> #[trigger] hex_value(text[i]) is Some {
        Some(
            Seq::new(
                12,
                |i: int|
                    (hex_value(text[2 * i]).unwrap() * 16 + hex_value(text[2 * i + 1]).unwrap()) as u8,
            ),
        )
    } else {
        None
    }
}

/// The lower-case hexadecimal text of `bytes`, two digits per byte.
pub open spec fn object_id_text(bytes: Seq<u8>) -> Seq<char> {
    Seq::new(
        2 * bytes.len(),
        |i: int|
            if i % 2 == 0 {
                lower_hex_digit(bytes[i / 2] as int / 16)
            } else {
                lower_hex_digit(bytes[i / 2] as int % 16)
            },
    )
}

/// The hexadecimal text of an object id reads back as the same id.
pub proof fn lemma_object_id_round_trip(bytes: Seq<u8>)
    requires
        bytes.len() == 12,
    ensures
        object_id_bytes(object_id_text(bytes)) == Some(bytes),
{
    let t = object_id_text(bytes);
    assert forall|v: int| 0 <= v < 16 implies #[trigger] hex_value(lower_hex_digit(v)) == Some(v) by {
        if v < 10 {
            assert(lower_hex_digit(v) as int == v + 48);
        } else {
            assert(lower_hex_digit(v) as int == v - 10 + 97);
        }
    }
    assert forall|i: int| 0 <= i < 24 implies #[trigger] hex_value(t[i]) is Some by {
        if i % 2 == 0 {
            assert(hex_value(lower_hex_digit(bytes[i / 2] as int / 16)) is Some);
        } else {
            assert(hex_value(lower_hex_digit(bytes[i / 2] as int % 16)) is Some);
        }
    }
    let back = object_id_bytes(t).unwrap();
    assert forall|i: int| 0 <= i < 12 implies #[trigger] back[i] == bytes[i] by {
        let b = bytes[i] as int;
        assert(t[2 * i] == lower_hex_digit(b / 16));
        assert(t[2 * i + 1] == lower_hex_digit(b % 16));
        assert(hex_value(t[2 * i]) == Some(b / 16));
        assert(hex_value(t[2 * i + 1]) == Some(b % 16));
        assert((b / 16) * 16 + b % 16 == b);
    }
    assert(back =~= bytes);
}

/// `bson::oid::ObjectId::parse_str`: the contract claims that it accepts
/// exactly the texts of 24 hexadecimal digits (either case) and yields the 12
/// bytes they spell, two digits per byte, high digit first.
#[verifier::external_body]
pub(crate) fn parse_object_id(text: &str) -> (r: Option<[u8; 12]>)
    ensures
        match r {
            Some(b) => object_id_bytes(text@) == Some(b@),
            None => object_id_bytes(text@) is None,
        },
{
    match mongodb::bson::oid::ObjectId::parse_str(text) {
        Ok(oid) => Some(oid.bytes()),
        Err(_) => None,
    }
}

/// `bson::oid::ObjectId::to_hex` on the object id made of `bytes`: the
/// contract claims that it returns the lower-case hexadecimal digits of the
/// 12 bytes, two per byte.
#[verifier::external_body]
pub(crate) fn object_id_hex(bytes: [u8; 12]) -> (r: String)
    ensures
        r@ == object_id_text(bytes@),
{
    mongodb::bson::oid::ObjectId::from_bytes(bytes).to_hex()
}

/// The decimal digits of `n`, without leading zeros.
pub open spec fn decimal(n: nat) -> Seq<char>
    decreases n,
{
    if n < 10 {
        seq![(n + 48) as char]
    } else {
        decimal(n / 10) + seq![(n % 10 + 48) as char]
    }
}

/// The digit for `d`.
fn digit_text(d: u16) -> (r: &'static str)
    requires
        d < 10,
    ensures
        r@ == seq![(d + 48) as char],
{
    let r = match d {
        0 => "0",
        1 => "1",
        2 => "2",
        3 => "3",
        4 => "4",
        5 => "5",
        6 => "6",
        7 => "7",
        8 => "8",
        _ => "9",
    };
    proof {
        reveal_strlit("0");
        reveal_strlit("1");
        reveal_strlit("2");
        reveal_strlit("3");
        reveal_strlit("4");
        reveal_strlit("5");
        reveal_strlit("6");
        reveal_strlit("7");
        reveal_strlit("8");
        reveal_strlit("9");
        assert(r@ =~= seq![(d + 48) as char]);
    }
    r
}

/// The decimal text of `n`, as `format!("{}", n)` writes it.
pub(crate) fn u16_text(n: u16) -> (r: String)
    ensures
        r@ == decimal(n as nat),
    decreases n,
{
    if n < 10 {
        String::from_str(digit_text(n))
    } else {
        let mut s = u16_text(n / 10);
        s.append(digit_text(n % 10));
        s
    }
}

/// The number that a text of decimal digits spells.
pub open spec fn digits_value(s: Seq<char>) -> int
    decreases s.len(),
{
    if s.len() == 0 {
        0
    } else {
        digits_value(s.drop_last()) * 10 + (s.last() as int - '0' as int)
    }
}

/// The decimal text of `n` is made of digits, has no leading zero (but for
/// `0` itself) and spells `n`.
pub proof fn lemma_decimal_spells(n: nat)
    ensures
        decimal(n).len() > 0,
        forall|i: int| 0 <= i < decimal(n).len() ==> '0' <= #[trigger] decimal(n)[i] <= '9',
        n > 0 ==> decimal(n)[0] != '0',
        digits_value(decimal(n)) == n,
    decreases n,
{
    if n >= 10 {
        lemma_decimal_spells(n / 10);
        let s = decimal(n);
        let h = decimal(n / 10);
        assert(s == h + seq![(n % 10 + 48) as char]);
        assert(s.drop_last() =~= h);
        assert(s[0] == h[0]);
        assert forall|i: int| 0 <= i < s.len() implies '0' <= #[trigger] s[i] <= '9' by {
            if i < h.len() {
                assert(s[i] == h[i]);
            }
        }
        assert(s.last() == (n % 10 + 48) as char);
        assert((s.last() as int) == n % 10 + 48);
        assert(n == (n / 10) * 10 + n % 10);
        assert(('0' as int) == 48);
        assert(digits_value(s) == digits_value(h) * 10 + (s.last() as int - '0' as int));
    } else {
        let s = decimal(n);
        assert(s.drop_last() =~= Seq::<char>::empty());
        assert((s.last() as int) == n + 48);
        assert(('0' as int) == 48);
        assert(digits_value(s) == digits_value(s.drop_last()) * 10 + (s.last() as int - '0' as int));
        assert(digits_value(Seq::<char>::empty()) == 0);
    }
}

/// An object id text is accepted exactly when it has 24 characters, each a
/// hexadecimal digit of either case.
pub proof fn lemma_object_id_accepts(text: Seq<char>)
    ensures
        object_id_bytes(text) is Some <==> (text.len() == 24 && forall|i: int|
            0 <= i < 24 ==> ('0' <= #[trigger] text[i] <= '9' || 'a' <= text[i] <= 'f' || 'A' <= text[i] <= 'F')),
{
    if text.len() == 24 {
        if forall|i: int| 0 <= i < 24 ==> #[trigger] hex_value(text[i]) is Some {
            assert forall|i: int| 0 <= i < 24 implies ('0' <= #[trigger] text[i] <= '9' || 'a' <= text[i] <= 'f'
                || 'A' <= text[i] <= 'F') by {
                assert(hex_value(text[i]) is Some);
            }
        }
        if forall|i: int|
            0 <= i < 24 ==> ('0' <= #[trigger] text[i] <= '9' || 'a' <= text[i] <= 'f' || 'A' <= text[i] <= 'F') {
            assert forall|i: int| 0 <= i < 24 implies #[trigger] hex_value(text[i]) is Some by {
                assert('0' <= text[i] <= '9' || 'a' <= text[i] <= 'f' || 'A' <= text[i] <= 'F');
            }
        }
    }
}

/// A character of the URL-safe base64 alphabet.
pub open spec fn is_url_safe_char(c: char) -> bool {
    ('A' <= c <= 'Z') || ('a' <= c <= 'z') || ('0' <= c <= '9') || c == '-' || c == '_'
}

proof fn lemma_base64_url_char(x: int)
    requires
        0 <= x < 64,
    ensures
        is_url_safe_char(base64_url_char(x)),
{
}

/// URL-safe base64 writes four characters for every three bytes, rounded up
/// to whole groups with `=` when padded and to whole characters otherwise,
/// and uses only the URL-safe alphabet (and `=` for padding).
pub proof fn lemma_base64_url_shape(b: Seq<u8>, pad: bool)
    ensures
        pad ==> base64_url(b, pad).len() == 4 * ((b.len() + 2) / 3),
        !pad ==> base64_url(b, pad).len() == (4 * b.len() + 2) / 3,
        forall|i: int|
            0 <= i < base64_url(b, pad).len() ==> is_url_safe_char(#[trigger] base64_url(b, pad)[i])
                || (pad && base64_url(b, pad)[i] == '='),
    decreases b.len(),
{
    let r = base64_url(b, pad);
    let b0 = if b.len() > 0 { b[0] as int } else { 0 };
    let b1 = if b.len() > 1 { b[1] as int } else { 0 };
    let b2 = if b.len() > 2 { b[2] as int } else { 0 };
    if b.len() > 0 {
        lemma_base64_url_char(b0 / 4);
        lemma_base64_url_char((b0 % 4) * 16 + b1 / 16);
        lemma_base64_url_char((b1 % 16) * 4 + b2 / 64);
        lemma_base64_url_char((b1 % 16) * 4);
        lemma_base64_url_char(b2 % 64);
        lemma_base64_url_char((b0 % 4) * 16);
    }
    if b.len() >= 3 {
        lemma_base64_url_shape(b.skip(3), pad);
        let head = seq![
            base64_url_char(b0 / 4),
            base64_url_char((b0 % 4) * 16 + b1 / 16),
            base64_url_char((b1 % 16) * 4 + b2 / 64),
            base64_url_char(b2 % 64),
        ];
        let tail = base64_url(b.skip(3), pad);
        assert(r == head + tail);
        assert forall|i: int| 0 <= i < r.len() implies is_url_safe_char(#[trigger] r[i]) || (pad && r[i] == '=') by {
            if i >= 4 {
                assert(r[i] == tail[i - 4]);
            }
        }
    }
}

} // verus!
