use sha2::Digest;
use vstd::prelude::*;
use vstd::string::StringSliceAdditionalSpecFns;
use vstd::utf8::{encode_scalar, encode_utf8};

verus! {

/// Character `'1'` or `'0'` for the bit of `x` that has weight `d`.
pub open spec fn bit_char(x: u8, d: int) -> char {
    if (x as int / d) % 2 == 1 {
        '1'
    } else {
        '0'
    }
}

/// The eight binary digits of a byte, most significant first, zero-padded.
pub open spec fn byte_bits(x: u8) -> Seq<char> {
    seq![
        bit_char(x, 128),
        bit_char(x, 64),
        bit_char(x, 32),
        bit_char(x, 16),
        bit_char(x, 8),
        bit_char(x, 4),
        bit_char(x, 2),
        bit_char(x, 1),
    ]
}

/// The difficulty string of a byte sequence: the bits of each byte in turn.
pub open spec fn binary_text(b: Seq<u8>) -> Seq<char>
    decreases b.len(),
{
    if b.len() == 0 {
        Seq::empty()
    } else {
        binary_text(b.drop_last()) + byte_bits(b.last())
    }
}

fn push_bit(res: &mut String, x: u8, d: u8)
    requires
        d > 0,
    ensures
        final(res)@ == old(res)@.push(bit_char(x, d as int)),
{
    proof {
        reveal_strlit("1");
        reveal_strlit("0");
    }
    if (x / d) % 2 == 1 {
        res.append("1");
    } else {
        res.append("0");
    }
}

fn push_byte_bits(res: &mut String, x: u8)
    ensures
        final(res)@ == old(res)@ + byte_bits(x),
{
    push_bit(res, x, 128);
    push_bit(res, x, 64);
    push_bit(res, x, 32);
    push_bit(res, x, 16);
    push_bit(res, x, 8);
    push_bit(res, x, 4);
    push_bit(res, x, 2);
    push_bit(res, x, 1);
    assert(final(res)@ =~= old(res)@ + byte_bits(x));
}

/// Renders each byte as exactly eight binary digits and concatenates them.
pub fn hash_to_binary(hash: &[u8]) -> (res: String)
    ensures
        res@ == binary_text(hash@),
{
    let mut res = String::new();
    let mut i: usize = 0;
    while i < hash.len()
        invariant
            i <= hash@.len(),
            res@ == binary_text(hash@.subrange(0, i as int)),
        decreases hash@.len() - i,
    {
        let x = hash[i];
        push_byte_bits(&mut res, x);
        let ghost next = hash@.subrange(0, i + 1);
        assert(next.drop_last() =~= hash@.subrange(0, i as int));
        assert(next.last() == x);
        assert(binary_text(next) == binary_text(next.drop_last()) + byte_bits(next.last()));
        i = i + 1;
    }
    assert(hash@.subrange(0, i as int) =~= hash@);
    res
}


/// The difficulty prefix: the leading binary digits a block's hash must show.
pub open spec fn difficulty_prefix() -> Seq<char> {
    seq!['0', '0']
}

/// Whether a difficulty string starts with the difficulty prefix.
pub open spec fn meets_difficulty(bits: Seq<char>) -> bool {
    difficulty_prefix().len() <= bits.len() && bits.subrange(0, difficulty_prefix().len() as int)
        == difficulty_prefix()
}

proof fn lemma_binary_text_front(b: Seq<u8>)
    requires
        b.len() >= 1,
    ensures
        binary_text(b).len() == 8 * b.len(),
        binary_text(b).subrange(0, 8) == byte_bits(b[0]),
    decreases b.len(),
{
    if b.len() == 1 {
        assert(b.drop_last() =~= Seq::<u8>::empty());
        assert(binary_text(b.drop_last()) =~= Seq::<char>::empty());
        assert(binary_text(b) =~= byte_bits(b[0]));
    } else {
        lemma_binary_text_front(b.drop_last());
        assert(binary_text(b).subrange(0, 8) =~= binary_text(b.drop_last()).subrange(0, 8));
    }
}

/// The difficulty prefix holds exactly when the first byte is below 64.
pub proof fn lemma_difficulty_first_byte(b: Seq<u8>)
    ensures
        meets_difficulty(binary_text(b)) <==> (b.len() >= 1 && b[0] < 64),
{
    if b.len() == 0 {
        assert(binary_text(b) =~= Seq::<char>::empty());
    } else {
        lemma_binary_text_front(b);
        let t = binary_text(b);
        assert(t[0] == byte_bits(b[0])[0]);
        assert(t[1] == byte_bits(b[0])[1]);
        if b[0] < 64 {
            assert(t.subrange(0, 2) =~= difficulty_prefix());
        }
        if meets_difficulty(t) {
            assert(t.subrange(0, 2)[0] == '0');
            assert(t.subrange(0, 2)[1] == '0');
        }
    }
}

/// Whether the difficulty string of `bytes` starts with the difficulty prefix.
pub fn has_difficulty(bytes: &[u8]) -> (r: bool)
    ensures
        r == meets_difficulty(binary_text(bytes@)),
{
    proof {
        lemma_difficulty_first_byte(bytes@);
    }
    bytes.len() >= 1 && bytes[0] < 64
}

/// Decimal digits of a natural number, as ASCII bytes.
pub open spec fn decimal_text(n: nat) -> Seq<u8>
    decreases n,
{
    if n < 10 {
        seq![(48 + n) as u8]
    } else {
        decimal_text(n / 10).push((48 + n % 10) as u8)
    }
}

/// Decimal text of a signed number, with a leading `-` when negative.
pub open spec fn signed_decimal_text(t: int) -> Seq<u8> {
    if t < 0 {
        seq![45u8] + decimal_text((-t) as nat)
    } else {
        decimal_text(t as nat)
    }
}

fn push_decimal(v: &mut Vec<u8>, n: u64)
    ensures
        final(v)@ == old(v)@ + decimal_text(n as nat),
    decreases n,
{
    if n >= 10 {
        push_decimal(v, n / 10);
    }
    v.push(48 + (n % 10) as u8);
    assert(final(v)@ =~= old(v)@ + decimal_text(n as nat));
}

fn push_signed_decimal(v: &mut Vec<u8>, t: i64)
    ensures
        final(v)@ == old(v)@ + signed_decimal_text(t as int),
{
    if t < 0 {
        v.push(45);
        let magnitude: u64 = (-(t + 1)) as u64 + 1;
        push_decimal(v, magnitude);
        assert(final(v)@ =~= old(v)@ + signed_decimal_text(t as int));
    } else {
        push_decimal(v, t as u64);
    }
}

fn push_ascii(v: &mut Vec<u8>, s: &str)
    requires
        s.is_ascii(),
    ensures
        final(v)@ == old(v)@ + s.spec_bytes(),
{
    let b = s.as_bytes();
    let mut i: usize = 0;
    while i < b.len()
        invariant
            i <= b@.len(),
            b@ == s.spec_bytes(),
            v@ == old(v)@ + b@.subrange(0, i as int),
        decreases b@.len() - i,
    {
        v.push(b[i]);
        assert(v@ =~= old(v)@ + b@.subrange(0, i + 1));
        i = i + 1;
    }
    assert(b@.subrange(0, i as int) =~= b@);
}

/// Names the JSON string literal that serde_json writes for `s`, as UTF-8 bytes.
pub uninterp spec fn json_string_of(s: Seq<char>) -> Seq<u8>;

/// Relies on serde_json's writer for `Value::String`: the text of `s` as a quoted,
/// escaped JSON string; the result depends on the characters alone.
#[verifier::external_body]
fn json_string(s: &str) -> (r: Vec<u8>)
    ensures
        r@ == json_string_of(s@),
{
    serde_json::Value::String(s.to_string()).to_string().into_bytes()
}

/// The canonical text that a block's digest covers: a JSON object of the five
/// fields, keys in sorted order, no whitespace.
pub open spec fn canonical_text(
    id: u64,
    timestamp: i64,
    previous_hash: Seq<char>,
    data: Seq<char>,
    pow: u64,
) -> Seq<u8> {
    "{\"data\":".spec_bytes() + json_string_of(data) + ",\"id\":".spec_bytes() + decimal_text(
        id as nat,
    ) + ",\"pow\":".spec_bytes() + decimal_text(pow as nat) + ",\"previous_hash\":".spec_bytes()
        + json_string_of(previous_hash) + ",\"timestamp\":".spec_bytes() + signed_decimal_text(
        timestamp as int,
    ) + "}".spec_bytes()
}

/// Names the SHA-256 digest of a byte sequence.
pub uninterp spec fn sha256_of(data: Seq<u8>) -> Seq<u8>;

/// Relies on sha2's `Sha256::digest`: the 32-byte SHA-256 digest of `data`.
#[verifier::external_body]
fn sha256(data: &[u8]) -> (r: Vec<u8>)
    ensures
        r@ == sha256_of(data@),
        r@.len() == 32,
{
    sha2::Sha256::digest(data).to_vec()
}

/// The digest of a block's fields.
pub open spec fn block_digest(
    id: u64,
    timestamp: i64,
    previous_hash: Seq<char>,
    data: Seq<char>,
    pow: u64,
) -> Seq<u8> {
    sha256_of(canonical_text(id, timestamp, previous_hash, data, pow))
}

/// Serialises the five hashed fields canonically and digests the text with SHA-256.
pub fn calculate_hash(id: u64, timestamp: i64, previous_hash: &str, data: &str, pow: u64) -> (r:
    Vec<u8>)
    ensures
        r@ == block_digest(id, timestamp, previous_hash@, data@, pow),
        r@.len() == 32,
{
    let mut text: Vec<u8> = Vec::new();
    proof {
        reveal_strlit("{\"data\":");
        reveal_strlit(",\"id\":");
        reveal_strlit(",\"pow\":");
        reveal_strlit(",\"previous_hash\":");
        reveal_strlit(",\"timestamp\":");
        reveal_strlit("}");
    }
    push_ascii(&mut text, "{\"data\":");
    let quoted_data = json_string(data);
    text.extend_from_slice(quoted_data.as_slice());
    push_ascii(&mut text, ",\"id\":");
    push_decimal(&mut text, id);
    push_ascii(&mut text, ",\"pow\":");
    push_decimal(&mut text, pow);
    push_ascii(&mut text, ",\"previous_hash\":");
    let quoted_previous = json_string(previous_hash);
    text.extend_from_slice(quoted_previous.as_slice());
    push_ascii(&mut text, ",\"timestamp\":");
    push_signed_decimal(&mut text, timestamp);
    push_ascii(&mut text, "}");
    assert(text@ =~= canonical_text(id, timestamp, previous_hash@, data@, pow));
    sha256(text.as_slice())
}

/// Hex digits, lower case.
pub open spec fn hex_digits() -> Seq<char> {
    seq!['0', '1', '2', '3', '4', '5', '6', '7', '8', '9', 'a', 'b', 'c', 'd', 'e', 'f']
}

/// Two lower-case hex digits for each byte, high nibble first.
pub open spec fn hex_text(b: Seq<u8>) -> Seq<char>
    decreases b.len(),
{
    if b.len() == 0 {
        Seq::empty()
    } else {
        hex_text(b.drop_last()) + seq![
            hex_digits()[b.last() as int / 16],
            hex_digits()[b.last() as int % 16],
        ]
    }
}

proof fn lemma_hex_text_front(b: Seq<u8>)
    requires
        b.len() >= 1,
    ensures
        hex_text(b).len() == 2 * b.len(),
        hex_text(b)[0] == hex_digits()[b[0] as int / 16],
    decreases b.len(),
{
    if b.len() > 1 {
        lemma_hex_text_front(b.drop_last());
    } else {
        assert(b.drop_last() =~= Seq::<u8>::empty());
        assert(hex_text(b.drop_last()) =~= Seq::<char>::empty());
    }
}

/// A hash rendered in hex passes the difficulty check on its text's bytes
/// whenever the digest it renders passes it.
pub proof fn lemma_hex_keeps_difficulty(d: Seq<u8>)
    requires
        meets_difficulty(binary_text(d)),
    ensures
        meets_difficulty(binary_text(encode_utf8(hex_text(d)))),
{
    lemma_difficulty_first_byte(d);
    lemma_hex_text_front(d);
    let h = hex_text(d);
    let c = h[0];
    assert(c == '0' || c == '1' || c == '2' || c == '3');
    let v: u32 = c as u32;
    assert(v <= 51);
    assert(v & 0x7F == v) by (bit_vector)
        requires
            v <= 51,
    ;
    assert(encode_scalar(v) =~= seq![v as u8]);
    assert(encode_utf8(h) == encode_scalar(h[0] as u32) + encode_utf8(h.drop_first()));
    let e = encode_utf8(h);
    assert(e[0] == c as u8);
    lemma_difficulty_first_byte(e);
}

/// Relies on hex::encode: two lower-case hex digits for each byte, in order.
#[verifier::external_body]
pub(crate) fn hex_encode(b: &[u8]) -> (r: String)
    ensures
        r@ == hex_text(b@),
{
    hex::encode(b)
}

} // verus!
