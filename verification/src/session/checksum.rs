//! The checksum of a session file: the lower-case hexadecimal SHA-256 digest
//! of a canonical JSON text of the data, the application version and the
//! format version. The time of generation is left out, so that two exports of
//! the same data carry the same checksum.
use vstd::prelude::*;
use vstd::utf8::encode_utf8;
use crate::adapters::{json_quote, json_quoted, push_char, sha256, sha256_digest};

verus! {

/// The character of a digit below 16, in lower case.
pub open spec fn hex_digit(d: int) -> char {
    if d < 10 {
        (('0' as int) + d) as char
    } else {
        (('a' as int) + d - 10) as char
    }
}

/// Two lower-case hexadecimal digits per byte, most significant first.
pub open spec fn hex_lower(b: Seq<u8>) -> Seq<char>
    decreases b.len(),
{
    if b.len() == 0 {
        Seq::empty()
    } else {
        seq![hex_digit((b[0] / 16) as int), hex_digit((b[0] % 16) as int)] + hex_lower(b.drop_first())
    }
}

/// The decimal digits of `n`, without leading zeros.
pub open spec fn decimal(n: nat) -> Seq<char>
    decreases n,
{
    if n < 10 {
        seq![(('0' as int) + n) as char]
    } else {
        decimal(n / 10).push((('0' as int) + n % 10) as char)
    }
}

/// The canonical text that the checksum covers: a JSON object whose keys
/// come in sorted order.
pub open spec fn canonical_text(app_version_json: Seq<char>, data_json: Seq<char>, version: nat) -> Seq<char> {
    "{\"appVersion\":"@ + app_version_json + ",\"data\":"@ + data_json + ",\"version\":"@
        + decimal(version) + "}"@
}

/// The checksum of a session whose data has the JSON text `data_json`.
pub open spec fn checksum_of(data_json: Seq<char>, app_version: Seq<char>, version: nat) -> Seq<char> {
    hex_lower(sha256_digest(encode_utf8(canonical_text(json_quoted(app_version), data_json, version))))
}

proof fn lemma_hex_lower_len(b: Seq<u8>)
    ensures
        hex_lower(b).len() == 2 * b.len(),
    decreases b.len(),
{
    if b.len() > 0 {
        lemma_hex_lower_len(b.drop_first());
    }
}

/// A hex text is made of lower-case hexadecimal digits only.
pub open spec fn is_lower_hex_digit(c: char) -> bool {
    ('0' <= c && c <= '9') || ('a' <= c && c <= 'f')
}

proof fn lemma_hex_lower_digits(b: Seq<u8>)
    ensures
        forall|i: int| 0 <= i < hex_lower(b).len() ==> is_lower_hex_digit(#[trigger] hex_lower(b)[i]),
    decreases b.len(),
{
    lemma_hex_lower_len(b);
    if b.len() > 0 {
        lemma_hex_lower_digits(b.drop_first());
        lemma_hex_lower_len(b.drop_first());
        let h = seq![hex_digit((b[0] / 16) as int), hex_digit((b[0] % 16) as int)];
        assert forall|i: int| 0 <= i < hex_lower(b).len() implies is_lower_hex_digit(
            #[trigger] hex_lower(b)[i],
        ) by {
            if i >= 2 {
                assert(hex_lower(b)[i] == hex_lower(b.drop_first())[i - 2]);
            }
        }
    }
}

fn hex_char(d: u8) -> (c: char)
    requires
        d < 16,
    ensures
        c == hex_digit(d as int),
{
    if d < 10 {
        ((48u8 + d) as char)
    } else {
        ((97u8 + d - 10) as char)
    }
}

/// Writes bytes as lower-case hexadecimal, two digits per byte.
pub fn to_hex_lower(bytes: &[u8]) -> (r: String)
    ensures
        r@ == hex_lower(bytes@),
{
    let mut r = String::new();
    let mut i: usize = 0;
    proof {
        assert(bytes@.skip(0) =~= bytes@);
    }
    while i < bytes.len()
        invariant
            i <= bytes@.len(),
            hex_lower(bytes@) == r@ + hex_lower(bytes@.skip(i as int)),
        decreases bytes@.len() - i,
    {
        let b = bytes[i];
        proof {
            assert(bytes@.skip(i as int).drop_first() =~= bytes@.skip(i + 1));
            assert(bytes@.skip(i as int)[0] == b);
        }
        push_char(&mut r, hex_char(b / 16));
        push_char(&mut r, hex_char(b % 16));
        proof {
            assert(r@ + hex_lower(bytes@.skip(i + 1)) =~= r@.drop_last().drop_last() + (seq![
                hex_digit((b / 16) as int),
                hex_digit((b % 16) as int),
            ] + hex_lower(bytes@.skip(i + 1))));
        }
        i = i + 1;
    }
    assert(bytes@.skip(i as int) =~= Seq::<u8>::empty());
    assert(r@ + Seq::<char>::empty() =~= r@);
    r
}

/// Writes a number in decimal, without leading zeros.
pub fn to_decimal(n: u32) -> (r: String)
    ensures
        r@ == decimal(n as nat),
    decreases n,
{
    if n < 10 {
        let mut r = String::new();
        push_char(&mut r, ((48u8 + (n as u8)) as char));
        assert(r@ =~= decimal(n as nat));
        r
    } else {
        let mut r = to_decimal(n / 10);
        push_char(&mut r, ((48u8 + ((n % 10) as u8)) as char));
        r
    }
}

/// Computes the checksum of a session from the JSON text of its data, its
/// application version and its format version. The time of generation does
/// not enter it.
pub fn compute_checksum(data_json: &str, app_version: &str, generated_at: &str, version: u32) -> (r:
    Result<String, String>)
    ensures
        r matches Ok(h) ==> h@ == checksum_of(data_json@, app_version@, version as nat),
        r matches Ok(h) ==> h@.len() == 64 && forall|i: int|
            0 <= i < 64 ==> is_lower_hex_digit(#[trigger] h@[i]),
        r is Ok,
{
    let quoted = match json_quote(app_version) {
        Ok(q) => q,
        Err(e) => {
            return Err(String::from_str("serialization error: ").concat(e.as_str()));
        },
    };
    let mut text = String::from_str("{\"appVersion\":");
    text.append(quoted.as_str());
    text.append(",\"data\":");
    text.append(data_json);
    text.append(",\"version\":");
    let digits = to_decimal(version);
    text.append(digits.as_str());
    text.append("}");
    let digest = sha256(text.as_str().as_bytes());
    let hex = to_hex_lower(digest.as_slice());
    proof {
        lemma_hex_lower_len(digest@);
        lemma_hex_lower_digits(digest@);
    }
    Ok(hex)
}

} // verus!
