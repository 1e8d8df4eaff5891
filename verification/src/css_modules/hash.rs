//! Short identifier-safe tokens derived from arbitrary strings.

use std::collections::hash_map::DefaultHasher;
use std::hash::{Hash, Hasher};
use vstd::prelude::*;
use vstd::std_specs::hash::DefaultHasherAdditionalSpecFns;
use vstd::string::*;

verus! {

/// The 64 symbols that tokens are written in: the ASCII letters, the digits, `_` and `-`.
pub const ALPHABET: &'static str = "abcdefghijklmnopqrstuvwxyzABCDEFGHIJKLMNOPQRSTUVWXYZ1234567890_-";

/// The symbols of [`ALPHABET`], as a sequence.
pub open spec fn alphabet() -> Seq<char> {
    ALPHABET@
}

/// Whether `symbols` can serve as the alphabet of a base-64 encoding: 64 ASCII
/// characters, each occurring once.
pub open spec fn is_symbol_table(symbols: Seq<char>) -> bool {
    &&& symbols.len() == 64
    &&& forall|i: int| 0 <= i < 64 ==> (#[trigger] symbols[i] as u32) < 128
    &&& forall|i: int, j: int| 0 <= i < j < 64 ==> #[trigger] symbols[i] != #[trigger] symbols[j]
}

/// The byte at position `i`, or zero past the end.
pub open spec fn byte_or_zero(bytes: Seq<u8>, i: int) -> int {
    if 0 <= i < bytes.len() {
        bytes[i] as int
    } else {
        0
    }
}

/// The `k`-th group of six bits of `bytes`, the most significant bit of each byte first
/// and zeros after the last byte: three bytes make four groups.
pub open spec fn sextet(bytes: Seq<u8>, k: int) -> int {
    let first = 3 * (k / 4);
    let word = byte_or_zero(bytes, first) * 65536 + byte_or_zero(bytes, first + 1) * 256
        + byte_or_zero(bytes, first + 2);
    let unit: int = if k % 4 == 0 {
        262144
    } else if k % 4 == 1 {
        4096
    } else if k % 4 == 2 {
        64
    } else {
        1
    };
    (word / unit) % 64
}

/// The number of symbols that `n` bytes are encoded in, without padding.
pub open spec fn encoded_len(n: nat) -> nat {
    ((8 * n + 5) / 6) as nat
}

/// The unpadded base-64 encoding of `bytes` over the alphabet `symbols`.
pub open spec fn encode_symbols(symbols: Seq<char>, bytes: Seq<u8>) -> Seq<char> {
    Seq::new(encoded_len(bytes.len()), |k: int| symbols[sextet(bytes, k)])
}

/// The four bytes of `x`, the least significant first.
pub open spec fn le_bytes(x: u32) -> Seq<u8> {
    seq![
        (x % 256) as u8,
        ((x / 256) % 256) as u8,
        ((x / 65536) % 256) as u8,
        ((x / 16777216) % 256) as u8,
    ]
}

/// Whether `c` is one of the ten ASCII digits.
pub open spec fn is_digit(c: char) -> bool {
    '0' <= c <= '9'
}

/// The token for a 64-bit hash: its low 32 bits, least significant byte first, encoded
/// over [`ALPHABET`], with `_` put in front where the encoding starts with a digit.
pub open spec fn token_of(h: u64) -> Seq<char> {
    let encoded = encode_symbols(alphabet(), le_bytes((h % 0x1_0000_0000) as u32));
    if is_digit(encoded[0]) {
        seq!['_'] + encoded
    } else {
        encoded
    }
}

/// What hashing the string `s` writes to a hasher, one sequence of bytes for each write:
/// what `<str as Hash>::hash` feeds to its hasher.
pub uninterp spec fn hashed_writes(s: Seq<char>) -> Seq<Seq<u8>>;

/// The token of the string `s`: the token of its standard hash.
pub open spec fn hash_spec(s: Seq<char>) -> Seq<char> {
    token_of(DefaultHasher::spec_finish(hashed_writes(s)))
}

/// `<str as Hash>::hash`: feeds the string to the hasher. What is written depends on the
/// string alone and comes after what the hasher was fed before.
#[verifier::external_body]
fn feed_str(s: &str, state: &mut DefaultHasher)
    ensures
        final(state)@ == old(state)@ + hashed_writes(s@),
{
    s.hash(state)
}

/// `data_encoding::Specification::encoding` followed by `Encoding::encode`: builds the
/// encoding whose symbols are `symbols`, with the most significant bit first and without
/// padding, and encodes `input` with it. Every group of three bytes gives four symbols,
/// each the symbol numbered by six bits of the group; a last group of one or two bytes
/// is filled up with zero bits and gives two or three symbols.
#[verifier::external_body]
fn encode_with_symbols(symbols: &str, input: &[u8]) -> (encoded: String)
    requires
        is_symbol_table(symbols@),
        input@.len() <= usize::MAX / 512,
    ensures
        encoded@ == encode_symbols(symbols@, input@),
{
    let mut spec = data_encoding::Specification::new();
    spec.symbols.push_str(symbols);
    spec.encoding().unwrap().encode(input)
}

/// [`ALPHABET`] is a table of 64 distinct ASCII symbols, none of them a digit before
/// position 52 or after position 61.
pub proof fn lemma_alphabet()
    ensures
        is_symbol_table(alphabet()),
        forall|i: int| 0 <= i < 64 ==> (is_digit(#[trigger] alphabet()[i]) <==> 52 <= i < 62),
{
    reveal_strlit("abcdefghijklmnopqrstuvwxyzABCDEFGHIJKLMNOPQRSTUVWXYZ1234567890_-");
    let a = alphabet();
    assert(a.len() == 64);
    assert forall|i: int| 0 <= i < 64 implies (#[trigger] a[i] as u32) < 128 && (is_digit(a[i])
        <==> 52 <= i < 62) && a[i] as u32 == symbol_code(i) by {
        lemma_symbol_codes(i);
    }
    assert forall|i: int, j: int| 0 <= i < j < 64 implies #[trigger] a[i] != #[trigger] a[j] by {
        lemma_symbol_codes(i);
        lemma_symbol_codes(j);
    }
}

/// The code of the symbol at position `i` of [`ALPHABET`].
pub open spec fn symbol_code(i: int) -> u32 {
    if i < 26 {
        (97 + i) as u32
    } else if i < 52 {
        (65 + i - 26) as u32
    } else if i < 61 {
        (49 + i - 52) as u32
    } else if i == 61 {
        48
    } else if i == 62 {
        95
    } else {
        45
    }
}

proof fn lemma_symbol_codes(i: int)
    requires
        0 <= i < 64,
    ensures
        alphabet()[i] as u32 == symbol_code(i),
{
    reveal_strlit("abcdefghijklmnopqrstuvwxyzABCDEFGHIJKLMNOPQRSTUVWXYZ1234567890_-");
}

/// Every group of six bits is a number below 64.
pub proof fn lemma_sextet_bound(bytes: Seq<u8>, k: int)
    ensures
        0 <= sextet(bytes, k) < 64,
{
}

/// A token is never empty, never starts with a digit, holds six or seven symbols, and
/// holds symbols of [`ALPHABET`] only.
pub proof fn lemma_token_shape(h: u64)
    ensures
        6 <= token_of(h).len() <= 7,
        !is_digit(token_of(h)[0]),
        forall|i: int| 0 <= i < token_of(h).len() ==> alphabet().contains(#[trigger] token_of(h)[i]),
{
    lemma_alphabet();
    let bytes = le_bytes((h % 0x1_0000_0000) as u32);
    let encoded = encode_symbols(alphabet(), bytes);
    assert(encoded.len() == 6);
    assert forall|k: int| 0 <= k < 6 implies alphabet().contains(#[trigger] encoded[k]) by {
        lemma_sextet_bound(bytes, k);
        assert(encoded[k] == alphabet()[sextet(bytes, k)]);
    }
    reveal_strlit("abcdefghijklmnopqrstuvwxyzABCDEFGHIJKLMNOPQRSTUVWXYZ1234567890_-");
    assert(alphabet()[62] == '_');
    let token = token_of(h);
    assert forall|i: int| 0 <= i < token.len() implies alphabet().contains(#[trigger] token[i]) by {
        if is_digit(encoded[0]) {
            if i > 0 {
                assert(token[i] == encoded[i - 1]);
            }
        }
    }
}

/// The token of the same string is the same token, every time.
pub proof fn lemma_hash_is_a_function(s1: Seq<char>, s2: Seq<char>)
    requires
        s1 == s2,
    ensures
        hash_spec(s1) == hash_spec(s2),
{
}

/// The token for the 64-bit hash `h`.
pub fn token_from_hash(h: u64) -> (token: String)
    ensures
        token@ == token_of(h),
        token@.len() > 0,
        !is_digit(token@[0]),
{
    let x: u32 = (h % 0x1_0000_0000) as u32;
    let mut bytes: Vec<u8> = Vec::new();
    bytes.push((x % 256) as u8);
    bytes.push(((x / 256) % 256) as u8);
    bytes.push(((x / 65536) % 256) as u8);
    bytes.push(((x / 16777216) % 256) as u8);
    proof {
        lemma_alphabet();
        lemma_token_shape(h);
        assert(bytes@ =~= le_bytes(x));
    }
    let encoded = encode_with_symbols(ALPHABET, bytes.as_slice());
    let first = encoded.as_str().get_char(0);
    if '0' <= first && first <= '9' {
        let token = String::from_str("_").concat(encoded.as_str());
        proof {
            reveal_strlit("_");
            assert("_"@ =~= seq!['_']);
        }
        token
    } else {
        encoded
    }
}

/// Derives a short token from `s`: deterministic, written in [`ALPHABET`], and never
/// starting with a digit, so that it can start a CSS identifier.
pub fn hash(s: &str) -> (token: String)
    ensures
        token@ == hash_spec(s@),
        token@.len() > 0,
        !is_digit(token@[0]),
{
    let mut hasher = DefaultHasher::new();
    feed_str(s, &mut hasher);
    assert(Seq::<Seq<u8>>::empty() + hashed_writes(s@) =~= hashed_writes(s@));
    let h = hasher.finish();
    token_from_hash(h)
}

/// The name that the default pattern gives: the hash, an underscore, the name.
/// The hash comes first so that CSS grid identifiers work: a grid line may have an
/// implicit `-start` or `-end` appended.
pub fn get_hashed_name(hash: &str, name: &str) -> (hashed: String)
    ensures
        hashed@ == hash@ + seq!['_'] + name@,
{
    let mut hashed = String::from_str(hash);
    hashed.append("_");
    hashed.append(name);
    proof {
        reveal_strlit("_");
        assert("_"@ =~= seq!['_']);
    }
    hashed
}

} // verus!
