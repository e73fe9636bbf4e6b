//! Base64 text.

use base64::engine::general_purpose::{STANDARD_NO_PAD, URL_SAFE, URL_SAFE_NO_PAD};
use base64::Engine;
use vstd::prelude::*;

verus! {

/// The two alphabets, which differ in their last two symbols.
pub enum Alphabet {
    /// Ends in `+` and `/`.
    Standard,
    /// Ends in `-` and `_`.
    UrlSafe,
}

/// The symbol of the six-bit number `value`.
pub open spec fn symbol(value: nat, alphabet: Alphabet) -> char {
    if value < 26 {
        ('A' as nat + value) as char
    } else if value < 52 {
        ('a' as nat + value - 26) as char
    } else if value < 62 {
        ('0' as nat + value - 52) as char
    } else if value == 62 {
        match alphabet {
            Alphabet::Standard => '+',
            Alphabet::UrlSafe => '-',
        }
    } else {
        match alphabet {
            Alphabet::Standard => '/',
            Alphabet::UrlSafe => '_',
        }
    }
}

/// The byte at `index`, or zero behind the end.
pub open spec fn byte_or_zero(bytes: Seq<u8>, index: int) -> nat {
    if 0 <= index < bytes.len() {
        bytes[index] as nat
    } else {
        0
    }
}

/// Three bytes from `start` on as one number of twenty-four bits.
pub open spec fn triple(bytes: Seq<u8>, start: int) -> nat {
    byte_or_zero(bytes, start) * 65536 + byte_or_zero(bytes, start + 1) * 256 + byte_or_zero(
        bytes,
        start + 2,
    )
}

/// The `index`-th group of six bits in `bytes`.
pub open spec fn sextet(bytes: Seq<u8>, index: int) -> nat {
    let word = triple(bytes, 3 * (index / 4));
    if index % 4 == 0 {
        word / 262144
    } else if index % 4 == 1 {
        word / 4096 % 64
    } else if index % 4 == 2 {
        word / 64 % 64
    } else {
        word % 64
    }
}

/// How many symbols `count` bytes take.
pub open spec fn base64_len(count: nat) -> nat {
    count / 3 * 4 + (if count % 3 == 0 {
        0
    } else {
        count % 3 + 1
    })
}

/// `bytes` in base64, without padding.
pub open spec fn base64(bytes: Seq<u8>, alphabet: Alphabet) -> Seq<char> {
    Seq::new(base64_len(bytes.len()), |i: int| symbol(sextet(bytes, i), alphabet))
}

/// `bytes` in base64, with the `=` that fill the last group of four.
pub open spec fn padded_base64(bytes: Seq<u8>, alphabet: Alphabet) -> Seq<char> {
    base64(bytes, alphabet) + (if bytes.len() % 3 == 0 {
        Seq::<char>::empty()
    } else if bytes.len() % 3 == 1 {
        seq!['=', '=']
    } else {
        seq!['=']
    })
}

/// The `Display` text of the error with which `URL_SAFE.decode` refuses `text`. It names the kind
/// of the first fault found and its offset; which fault that is, is not stated.
pub uninterp spec fn url_safe_fault(text: Seq<char>) -> Seq<char>;

/// `STANDARD_NO_PAD.encode` of the `base64` crate writes the standard alphabet without padding. It
/// panics where the text would not fit the address space.
#[verifier::external_body]
pub(crate) fn standard_encode(bytes: &[u8]) -> (res: String)
    requires
        bytes@.len() <= usize::MAX / 4,
    ensures
        res@ == base64(bytes@, Alphabet::Standard),
{
    STANDARD_NO_PAD.encode(bytes)
}

/// `URL_SAFE_NO_PAD.encode` of the `base64` crate writes the URL-safe alphabet without padding. It
/// panics where the text would not fit the address space.
#[verifier::external_body]
pub(crate) fn url_safe_encode(bytes: &[u8]) -> (res: String)
    requires
        bytes@.len() <= usize::MAX / 4,
    ensures
        res@ == base64(bytes@, Alphabet::UrlSafe),
{
    URL_SAFE_NO_PAD.encode(bytes)
}

/// `URL_SAFE_NO_PAD.decode` of the `base64` crate accepts exactly the texts that encoding without
/// padding can write, and yields what they were written from.
#[verifier::external_body]
pub(crate) fn url_safe_decode_unpadded(text: &str) -> (res: Option<Vec<u8>>)
    ensures
        match res {
            Some(bytes) => text@ == base64(bytes@, Alphabet::UrlSafe),
            None => forall|bytes: Seq<u8>| text@ != #[trigger] base64(bytes, Alphabet::UrlSafe),
        },
{
    URL_SAFE_NO_PAD.decode(text).ok()
}

/// `URL_SAFE.decode` of the `base64` crate accepts exactly the texts that encoding with padding can
/// write, and yields what they were written from. The error is handed on as its text.
#[verifier::external_body]
pub(crate) fn url_safe_decode_padded(text: &str) -> (res: Result<Vec<u8>, String>)
    ensures
        match res {
            Ok(bytes) => text@ == padded_base64(bytes@, Alphabet::UrlSafe),
            Err(fault) => fault@ == url_safe_fault(text@) && forall|bytes: Seq<u8>|
                text@ != #[trigger] padded_base64(bytes, Alphabet::UrlSafe),
        },
{
    match URL_SAFE.decode(text) {
        Ok(bytes) => Ok(bytes),
        Err(error) => Err(error.to_string()),
    }
}

/// Six-bit numbers with the same symbol are the same.
proof fn lemma_symbol_injective(a: nat, b: nat, alphabet: Alphabet)
    requires
        a < 64,
        b < 64,
        symbol(a, alphabet) == symbol(b, alphabet),
    ensures
        a == b,
{
}

proof fn lemma_sextet_small(bytes: Seq<u8>, index: int)
    ensures
        sextet(bytes, index) < 64,
{
}

/// A group of six bits behind the end of the text is zero.
proof fn lemma_sextet_behind(bytes: Seq<u8>, index: int)
    requires
        index >= base64_len(bytes.len()),
    ensures
        sextet(bytes, index) == 0,
{
    let count = bytes.len();
    let start = 3 * (index / 4);
    if start >= count {
        assert(triple(bytes, start) == 0);
    } else if count % 3 == 1 {
        assert(start == count - 1);
        assert(triple(bytes, start) == byte_or_zero(bytes, start) * 65536);
    } else if count % 3 == 2 {
        assert(start == count - 2);
        assert(triple(bytes, start) % 256 == 0);
    }
}

/// Different bytes have different texts, so that reading gives back what was written.
pub proof fn base64_determines_bytes(a: Seq<u8>, b: Seq<u8>, alphabet: Alphabet)
    requires
        base64(a, alphabet) == base64(b, alphabet),
    ensures
        a == b,
{
    lemma_same_len(a, b, alphabet);
    assert forall|k: int| 0 <= k < a.len() implies a[k] == b[k] by {
        let group = k / 3;
        lemma_same_sextet(a, b, alphabet, 4 * group);
        lemma_same_sextet(a, b, alphabet, 4 * group + 1);
        lemma_same_sextet(a, b, alphabet, 4 * group + 2);
        lemma_same_sextet(a, b, alphabet, 4 * group + 3);
        lemma_word_of_sextets(a, group);
        lemma_word_of_sextets(b, group);
        lemma_bytes_of_word(a, 3 * group);
        lemma_bytes_of_word(b, 3 * group);
        assert(k == 3 * group || k == 3 * group + 1 || k == 3 * group + 2);
    }
    assert(a =~= b);
}

proof fn lemma_same_len(a: Seq<u8>, b: Seq<u8>, alphabet: Alphabet)
    requires
        base64(a, alphabet).len() == base64(b, alphabet).len(),
    ensures
        a.len() == b.len(),
{
    assert(base64_len(a.len()) == base64_len(b.len()));
}

proof fn lemma_same_sextet(a: Seq<u8>, b: Seq<u8>, alphabet: Alphabet, index: int)
    requires
        base64(a, alphabet) == base64(b, alphabet),
        a.len() == b.len(),
        0 <= index,
    ensures
        sextet(a, index) == sextet(b, index),
{
    if index < base64_len(a.len()) {
        assert(base64(a, alphabet)[index] == symbol(sextet(a, index), alphabet));
        assert(base64(b, alphabet)[index] == symbol(sextet(b, index), alphabet));
        lemma_sextet_small(a, index);
        lemma_sextet_small(b, index);
        lemma_symbol_injective(sextet(a, index), sextet(b, index), alphabet);
    } else {
        lemma_sextet_behind(a, index);
        lemma_sextet_behind(b, index);
    }
}

/// A number of twenty-four bits holds its three bytes.
proof fn lemma_bytes_of_word(bytes: Seq<u8>, start: int)
    ensures
        byte_or_zero(bytes, start) == triple(bytes, start) / 65536,
        byte_or_zero(bytes, start + 1) == triple(bytes, start) / 256 % 256,
        byte_or_zero(bytes, start + 2) == triple(bytes, start) % 256,
{
}

/// A number of twenty-four bits is made of its four groups of six.
proof fn lemma_word_of_sextets(bytes: Seq<u8>, group: int)
    requires
        0 <= group,
    ensures
        triple(bytes, 3 * group) == sextet(bytes, 4 * group) * 262144 + sextet(bytes, 4 * group + 1)
            * 4096 + sextet(bytes, 4 * group + 2) * 64 + sextet(bytes, 4 * group + 3),
{
    let word = triple(bytes, 3 * group);
    assert(sextet(bytes, 4 * group) == word / 262144) by {
        assert((4 * group) / 4 == group && (4 * group) % 4 == 0);
    }
    assert(sextet(bytes, 4 * group + 1) == word / 4096 % 64) by {
        assert((4 * group + 1) / 4 == group && (4 * group + 1) % 4 == 1);
    }
    assert(sextet(bytes, 4 * group + 2) == word / 64 % 64) by {
        assert((4 * group + 2) / 4 == group && (4 * group + 2) % 4 == 2);
    }
    assert(sextet(bytes, 4 * group + 3) == word % 64) by {
        assert((4 * group + 3) / 4 == group && (4 * group + 3) % 4 == 3);
    }
    lemma_split_word(word);
}

proof fn lemma_split_word(word: nat)
    ensures
        word == word / 262144 * 262144 + word / 4096 % 64 * 4096 + word / 64 % 64 * 64 + word % 64,
{
    let a = word / 64;
    let b = a / 64;
    let c = b / 64;
    assert(word / 4096 == b);
    assert(word / 262144 == c);
}

/// No text holds a `=` but as padding.
proof fn lemma_symbols_are_no_padding(bytes: Seq<u8>, alphabet: Alphabet, index: int)
    requires
        0 <= index < base64(bytes, alphabet).len(),
    ensures
        base64(bytes, alphabet)[index] != '=',
{
    lemma_sextet_small(bytes, index);
}

/// Reading gives back what was written with padding, too. A text that is read without padding
/// stands for the same bytes as with it.
pub proof fn padded_base64_determines_bytes(a: Seq<u8>, b: Seq<u8>, alphabet: Alphabet)
    requires
        padded_base64(a, alphabet) == padded_base64(b, alphabet) || base64(a, alphabet)
            == padded_base64(b, alphabet),
    ensures
        a == b,
{
    if base64(a, alphabet) == padded_base64(b, alphabet) {
        lemma_unpadded_text_has_no_padding(a, b, alphabet);
    } else {
        lemma_same_text_before_padding(a, b, alphabet);
    }
    base64_determines_bytes(a, b, alphabet);
}

/// A text without padding that is a text with padding is so because the padding is empty.
proof fn lemma_unpadded_text_has_no_padding(a: Seq<u8>, b: Seq<u8>, alphabet: Alphabet)
    requires
        base64(a, alphabet) == padded_base64(b, alphabet),
    ensures
        base64(a, alphabet) == base64(b, alphabet),
{
    let text = base64(a, alphabet);
    if b.len() % 3 == 0 {
        assert(text =~= base64(b, alphabet));
    } else {
        assert(text[text.len() - 1] == '=');
        lemma_symbols_are_no_padding(a, alphabet, text.len() - 1);
    }
}

/// Texts that are the same with their padding are the same before it.
proof fn lemma_same_text_before_padding(a: Seq<u8>, b: Seq<u8>, alphabet: Alphabet)
    requires
        padded_base64(a, alphabet) == padded_base64(b, alphabet),
    ensures
        base64(a, alphabet) == base64(b, alphabet),
{
    let text = padded_base64(a, alphabet);
    let plain_a = base64(a, alphabet);
    let plain_b = base64(b, alphabet);
    lemma_padding_tells_remainder(a, alphabet);
    lemma_padding_tells_remainder(b, alphabet);
    assert(a.len() % 3 == b.len() % 3);
    assert(plain_a.len() == plain_b.len());
    assert(plain_a =~= text.take(plain_a.len() as int));
    assert(plain_b =~= text.take(plain_b.len() as int));
}

/// The end of a padded text tells the remainder of the number of bytes.
proof fn lemma_padding_tells_remainder(bytes: Seq<u8>, alphabet: Alphabet)
    ensures
        ({
            let text = padded_base64(bytes, alphabet);
            let full = text.len() >= 2;
            &&& bytes.len() % 3 == 0 <==> !(full && text[text.len() - 1] == '=')
            &&& bytes.len() % 3 == 1 <==> (full && text[text.len() - 1] == '=' && text[text.len() - 2]
                == '=')
        }),
{
    let plain = base64(bytes, alphabet);
    if plain.len() > 0 {
        lemma_symbols_are_no_padding(bytes, alphabet, plain.len() - 1);
    }
}

} // verus!
