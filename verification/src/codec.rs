//! Base64 with the standard alphabet and padding, the form in which bytes travel in
//! JSON.
use base64::prelude::Engine;
use base64::prelude::BASE64_STANDARD;
use vstd::prelude::*;

verus! {

/// The symbol of a six-bit value in the standard alphabet.
pub open spec fn symbol(v: int) -> char
    recommends
        0 <= v < 64,
{
    if v < 26 {
        ('A' as int + v) as char
    } else if v < 52 {
        ('a' as int + v - 26) as char
    } else if v < 62 {
        ('0' as int + v - 52) as char
    } else if v == 62 {
        '+'
    } else {
        '/'
    }
}

/// The byte at `i`, or zero past the end.
pub open spec fn byte_or_zero(data: Seq<u8>, i: int) -> int {
    if i < data.len() {
        data[i] as int
    } else {
        0
    }
}

/// The six-bit group at position `k`: each three bytes give four groups, high bits
/// first.
pub open spec fn sextet(data: Seq<u8>, k: int) -> int {
    let a = byte_or_zero(data, k / 4 * 3);
    let b = byte_or_zero(data, k / 4 * 3 + 1);
    let c = byte_or_zero(data, k / 4 * 3 + 2);
    if k % 4 == 0 {
        a / 4
    } else if k % 4 == 1 {
        a % 4 * 16 + b / 16
    } else if k % 4 == 2 {
        b % 16 * 4 + c / 64
    } else {
        c % 64
    }
}

/// The length of the Base64 text of `n` bytes: four characters for each three bytes
/// begun.
pub open spec fn base64_len(n: nat) -> nat {
    (n + 2) / 3 * 4
}

/// The Base64 text of `data`: one symbol for each six bits begun, then `=` up to a
/// multiple of four characters.
pub open spec fn base64_text(data: Seq<u8>) -> Seq<char> {
    Seq::new(
        base64_len(data.len()),
        |k: int| if k * 3 < data.len() * 4 { symbol(sextet(data, k)) } else { '=' },
    )
}

/// The bytes that `text` is the Base64 text of, if there are any.
pub open spec fn base64_bytes(text: Seq<char>) -> Option<Seq<u8>> {
    if exists|data: Seq<u8>| #[trigger] base64_text(data) == text {
        Some(choose|data: Seq<u8>| #[trigger] base64_text(data) == text)
    } else {
        None
    }
}

/// Whether the Base64 text of `n` bytes fits in a `String`.
pub open spec fn encodable(n: nat) -> bool {
    base64_len(n) <= isize::MAX
}

/// Decides whether the Base64 text of `n` bytes fits in a `String`.
pub fn is_encodable(n: usize) -> (r: bool)
    ensures
        r == encodable(n as nat),
{
    let groups: usize = n / 3 + if n % 3 == 0 { 0usize } else { 1usize };
    groups <= isize::MAX as usize / 4
}

/// The error type of `base64`'s decoder, carried and never looked into.
#[verifier::external_type_specification]
#[verifier::external_body]
pub struct ExDecodeError(base64::DecodeError);

/// `Engine::encode` of the `base64` crate with the engine `BASE64_STANDARD`.  Claims
/// that the result is the standard, padded Base64 text of the bytes.  The call panics
/// where that text cannot be allocated, which `requires` leaves out.
#[verifier::external_body]
pub(crate) fn encode(data: &[u8]) -> (text: String)
    requires
        encodable(data@.len()),
    ensures
        text@ == base64_text(data@),
{
    BASE64_STANDARD.encode(data)
}

/// `Engine::decode` of the `base64` crate with the engine `BASE64_STANDARD`.  Claims
/// that it inverts the encoding exactly: the engine asks for canonical padding and
/// refuses stray trailing bits, so a text decodes if and only if it is the Base64 text
/// of some bytes, and then to those bytes.  Which error is given is left open.
#[verifier::external_body]
pub(crate) fn decode(text: &str) -> (r: Result<Vec<u8>, base64::DecodeError>)
    ensures
        r matches Ok(bytes) ==> base64_text(bytes@) == text@,
        r is Err ==> forall|data: Seq<u8>| #[trigger] base64_text(data) != text@,
{
    BASE64_STANDARD.decode(text)
}

/// Six-bit groups are below sixty-four.
proof fn sextet_in_range(data: Seq<u8>, k: int)
    requires
        k >= 0,
    ensures
        0 <= sextet(data, k) < 64,
{
}

/// Different six-bit values have different symbols.
proof fn symbol_is_injective(v: int, w: int)
    requires
        0 <= v < 64,
        0 <= w < 64,
        symbol(v) == symbol(w),
    ensures
        v == w,
{
}

/// A byte is made of the group at its place and the next one.
proof fn byte_from_sextets(data: Seq<u8>, i: int)
    requires
        0 <= i < data.len(),
    ensures
        ({
            let k = i / 3 * 4 + i % 3;
            let s = sextet(data, k);
            let t = sextet(data, k + 1);
            data[i] == if i % 3 == 0 {
                s * 4 + t / 16
            } else if i % 3 == 1 {
                s % 16 * 16 + t / 4
            } else {
                s % 4 * 64 + t
            }
        }),
{
    let q = i / 3;
    let k = q * 4 + i % 3;
    assert(k / 4 == q && (k + 1) / 4 == q && k % 4 == i % 3 && (k + 1) % 4 == i % 3 + 1);
}

/// Different bytes have different Base64 texts: nothing is lost in encoding.
pub proof fn base64_text_is_injective(x: Seq<u8>, y: Seq<u8>)
    requires
        base64_text(x) == base64_text(y),
    ensures
        x == y,
{
    if x.len() != y.len() {
        let (short, long) = if x.len() < y.len() {
            (x, y)
        } else {
            (y, x)
        };
        let n = short.len() as int;
        assert(base64_text(short).len() == base64_text(long).len());
        let k = n / 3 * 4 + n % 3 + 1;
        assert(base64_text(short)[k] == '=');
        sextet_in_range(long, k);
        assert(base64_text(long)[k] == symbol(sextet(long, k)));
        assert(false);
    }
    assert forall|i: int| 0 <= i < x.len() implies x[i] == y[i] by {
        let k = i / 3 * 4 + i % 3;
        byte_from_sextets(x, i);
        byte_from_sextets(y, i);
        sextet_in_range(x, k);
        sextet_in_range(y, k);
        sextet_in_range(x, k + 1);
        sextet_in_range(y, k + 1);
        assert(base64_text(x)[k] == symbol(sextet(x, k)));
        assert(base64_text(y)[k] == symbol(sextet(y, k)));
        assert(base64_text(x)[k + 1] == symbol(sextet(x, k + 1)));
        assert(base64_text(y)[k + 1] == symbol(sextet(y, k + 1)));
        symbol_is_injective(sextet(x, k), sextet(y, k));
        symbol_is_injective(sextet(x, k + 1), sextet(y, k + 1));
    }
    assert(x =~= y);
}

/// Decoding gives back exactly the bytes that were encoded.
pub proof fn decoding_inverts_encoding(data: Seq<u8>)
    ensures
        base64_bytes(base64_text(data)) == Some(data),
{
    let found = choose|d: Seq<u8>| #[trigger] base64_text(d) == base64_text(data);
    base64_text_is_injective(found, data);
}

/// Decodes Base64 text, or finds that it is none.
pub fn decode_text(text: &str) -> (r: Option<Vec<u8>>)
    ensures
        match r {
            Some(bytes) => base64_bytes(text@) == Some(bytes@),
            None => base64_bytes(text@) is None,
        },
{
    match decode(text) {
        Ok(bytes) => {
            proof {
                decoding_inverts_encoding(bytes@);
            }
            Some(bytes)
        },
        Err(_) => None,
    }
}

/// Bytes are encodable if and only if their text is no longer than a `String` can be.
pub proof fn encodable_bytes_have_a_text_that_fits(data: Seq<u8>)
    ensures
        encodable(data.len()) <==> base64_text(data).len() <= isize::MAX,
{
}

/// A text decodes if and only if it is the text of some bytes.
pub proof fn only_encoded_texts_decode(text: Seq<char>)
    ensures
        base64_bytes(text) matches Some(data) ==> base64_text(data) == text,
        base64_bytes(text) is None ==> forall|data: Seq<u8>| #[trigger] base64_text(data) != text,
{
}

} // verus!
