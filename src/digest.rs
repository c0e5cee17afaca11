//! Content digests and log identifiers.
use sha2::Digest as _;
use vstd::prelude::*;
use vstd::utf8::encode_utf8;

verus! {

/// The SHA-256 digest of `data`.
pub uninterp spec fn sha256_of(data: Seq<u8>) -> Seq<u8>;

/// Relies on `sha2::Sha256::digest`: the digest depends on the bytes alone.
#[verifier::external_body]
fn sha256_digest(data: &[u8]) -> (r: Vec<u8>)
    ensures
        r@ == sha256_of(data@),
{
    sha2::Sha256::digest(data).to_vec()
}

/// The lowercase hex digit of `n`, for `n` below sixteen.
pub open spec fn hex_digit(n: int) -> char {
    seq!['0', '1', '2', '3', '4', '5', '6', '7', '8', '9', 'a', 'b', 'c', 'd', 'e', 'f'][n]
}

/// Two lowercase hex digits for each byte, high digit first.
pub open spec fn hex_chars(b: Seq<u8>) -> Seq<char>
    decreases b.len(),
{
    if b.len() == 0 {
        Seq::empty()
    } else {
        hex_chars(b.drop_last()) + seq![
            hex_digit(b.last() as int / 16),
            hex_digit(b.last() as int % 16),
        ]
    }
}

/// The tag that names the digest algorithm in a rendered digest.
pub open spec fn sha256_tag() -> Seq<char> {
    seq!['s', 'h', 'a', '2', '5', '6', ':']
}

/// The rendering of the SHA-256 digest of `data`: the algorithm's tag, then
/// the digest in lowercase hex.
pub open spec fn sha256_text(data: Seq<u8>) -> Seq<char> {
    sha256_tag() + hex_chars(sha256_of(data))
}

fn hex_str(n: u8) -> (r: &'static str)
    requires
        n < 16,
    ensures
        r@ == seq![hex_digit(n as int)],
{
    let digits = "0123456789abcdef";
    proof {
        reveal_strlit("0123456789abcdef");
    }
    assert(digits@ =~= seq!['0', '1', '2', '3', '4', '5', '6', '7', '8', '9', 'a', 'b', 'c', 'd', 'e', 'f']);
    let r = digits.substring_char(n as usize, n as usize + 1);
    assert(r@ =~= seq![hex_digit(n as int)]);
    r
}

/// Renders the SHA-256 digest of `data` as `sha256:` and lowercase hex.
pub(crate) fn sha256_hex(data: &[u8]) -> (r: String)
    ensures
        r@ == sha256_text(data@),
{
    let d = sha256_digest(data);
    let mut s = String::from_str("sha256:");
    proof {
        reveal_strlit("sha256:");
    }
    assert(s@ =~= sha256_tag());
    let mut i: usize = 0;
    while i < d.len()
        invariant
            i <= d@.len(),
            s@ == sha256_tag() + hex_chars(d@.take(i as int)),
        decreases d@.len() - i,
    {
        let b = d[i];
        s.append(hex_str(b / 16));
        s.append(hex_str(b % 16));
        assert(d@.take(i + 1).drop_last() =~= d@.take(i as int));
        i = i + 1;
        assert(s@ =~= sha256_tag() + hex_chars(d@.take(i as int)));
    }
    assert(d@.take(d@.len() as int) =~= d@);
    s
}

/// Byte that tags the identity hashed into the operator log's id.
pub const OPERATOR_LOG_TAG: u8 = 0;

/// Byte that tags the identity hashed into a package log's id.
pub const PACKAGE_LOG_TAG: u8 = 1;

/// The identity whose digest is a package log's id: a tag byte, then the
/// UTF-8 bytes of the package name.
pub open spec fn package_log_identity(name: Seq<char>) -> Seq<u8> {
    seq![PACKAGE_LOG_TAG] + encode_utf8(name)
}

/// The id of the log of the named package.
pub open spec fn package_log_id_spec(name: Seq<char>) -> Seq<char> {
    sha256_text(package_log_identity(name))
}

/// The id of the operator log.
pub open spec fn operator_log_id_spec() -> Seq<char> {
    sha256_text(seq![OPERATOR_LOG_TAG])
}

/// Computes the id of the log of the named package.
pub fn package_log_id(name: &str) -> (r: String)
    ensures
        r@ == package_log_id_spec(name@),
{
    let mut identity: Vec<u8> = Vec::new();
    identity.push(PACKAGE_LOG_TAG);
    let bytes = name.as_bytes();
    let mut i: usize = 0;
    while i < bytes.len()
        invariant
            i <= bytes@.len(),
            bytes@ == encode_utf8(name@),
            identity@ == seq![PACKAGE_LOG_TAG] + bytes@.take(i as int),
        decreases bytes@.len() - i,
    {
        identity.push(bytes[i]);
        i = i + 1;
        assert(identity@ =~= seq![PACKAGE_LOG_TAG] + bytes@.take(i as int));
    }
    assert(bytes@.take(bytes@.len() as int) =~= bytes@);
    sha256_hex(identity.as_slice())
}

/// Computes the id of the operator log.
pub fn operator_log_id() -> (r: String)
    ensures
        r@ == operator_log_id_spec(),
{
    let identity: Vec<u8> = vec![OPERATOR_LOG_TAG];
    assert(identity@ =~= seq![OPERATOR_LOG_TAG]);
    sha256_hex(identity.as_slice())
}

} // verus!
