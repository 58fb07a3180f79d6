//! Handles to entries of the host's symbol table, and the text those entries hold.
//!
//! The host stores a symbol's name as UTF-8 bytes ended by a zero byte. Interning
//! hands the host such a byte string; reading takes the bytes the host holds up to
//! the first zero byte and validates them as UTF-8.

use vstd::prelude::*;
use vstd::utf8::{decode_utf8, encode_utf8, valid_utf8};

verus! {

/// A handle to an entry of the host's global symbol table, identified by the
/// entry's address. Two handles are equal exactly when they name the same entry.
#[derive(Clone, Copy, Debug, PartialEq, Eq, Structural)]
pub struct SymbolRef {
    value: usize,
}

/// Text could not be passed to, or read back from, the host's symbol table.
#[derive(Clone, Copy, Debug, PartialEq, Eq, Structural)]
pub enum EncodingError {
    /// The text holds a zero byte, which would end the host's string early.
    InteriorNul,
    /// The host's bytes are not well-formed UTF-8.
    InvalidUtf8,
}

impl View for SymbolRef {
    type V = usize;

    closed spec fn view(&self) -> usize {
        self.value
    }
}

impl SymbolRef {
    /// A handle to the entry at address `v`.
    pub fn new(v: usize) -> (r: Self)
        ensures
            r@ == v,
    {
        SymbolRef { value: v }
    }

    /// Make this handle name the same entry as `v`; no text is copied.
    pub fn assign(&mut self, v: &Self)
        ensures
            final(self)@ == v@,
            *final(self) == *v,
    {
        self.value = v.value;
    }

    /// The address of the entry this handle names.
    pub fn inner(&self) -> (r: usize)
        ensures
            r == self@,
    {
        self.value
    }
}

/// `n` is where the host's string in `raw` ends: the index of the first zero
/// byte, or the length of `raw` when it holds none.
pub open spec fn ends_at(raw: Seq<u8>, n: int) -> bool {
    &&& 0 <= n <= raw.len()
    &&& n < raw.len() ==> raw[n] == 0
    &&& forall|j: int| 0 <= j < n ==> raw[j] != 0
}

/// The name held in `raw`: its bytes before the first zero byte.
pub open spec fn name_bytes(raw: Seq<u8>) -> Seq<u8> {
    raw.take(choose|n: int| ends_at(raw, n))
}

/// What the host hands back for `raw`: the name's text, when it is well-formed UTF-8.
pub open spec fn decoded_name(raw: Seq<u8>) -> Option<Seq<char>> {
    if valid_utf8(name_bytes(raw)) {
        Some(decode_utf8(name_bytes(raw)))
    } else {
        None
    }
}

/// What the host is handed to intern `text`: its UTF-8 bytes and a zero byte,
/// when those bytes hold no zero byte of their own.
pub open spec fn encoded_name(text: Seq<char>) -> Option<Seq<u8>> {
    if encode_utf8(text).contains(0u8) {
        None
    } else {
        Some(encode_utf8(text).push(0u8))
    }
}

proof fn lemma_ends_at_unique(raw: Seq<u8>, n: int, m: int)
    requires
        ends_at(raw, n),
        ends_at(raw, m),
    ensures
        n == m,
{
    if n < m {
        assert(raw[n] != 0);
    } else if m < n {
        assert(raw[m] != 0);
    }
}

proof fn lemma_name_bytes(raw: Seq<u8>, n: int)
    requires
        ends_at(raw, n),
    ensures
        name_bytes(raw) == raw.take(n),
{
    let m = choose|m: int| ends_at(raw, m);
    lemma_ends_at_unique(raw, n, m);
}

/// Relies on `std::str::from_utf8`: it accepts exactly the well-formed UTF-8
/// byte strings, and the text it returns is the one those bytes encode.
#[verifier::external_body]
fn utf8_text(b: &[u8]) -> (r: Option<&str>)
    ensures
        r.is_some() <==> valid_utf8(b@),
        r matches Some(s) ==> s@ == decode_utf8(b@),
{
    std::str::from_utf8(b).ok()
}

/// The bytes to hand the host so that it interns `text`: the UTF-8 encoding of
/// `text` followed by a zero byte. Fails when the encoding holds a zero byte.
pub fn encode_name(text: &str) -> (r: Result<Vec<u8>, EncodingError>)
    ensures
        r matches Ok(v) ==> encoded_name(text@) == Some(v@),
        r matches Err(e) ==> e == EncodingError::InteriorNul && encoded_name(text@) is None,
        r is Ok <==> encoded_name(text@) is Some,
{
    let bytes = text.as_bytes();
    let mut out: Vec<u8> = Vec::new();
    let mut i: usize = 0;
    while i < bytes.len()
        invariant
            bytes@ == encode_utf8(text@),
            i <= bytes@.len(),
            out@ == bytes@.take(i as int),
            forall|j: int| 0 <= j < i ==> bytes@[j] != 0u8,
        decreases bytes@.len() - i,
    {
        if bytes[i] == 0 {
            assert(bytes@[i as int] == 0u8);
            return Err(EncodingError::InteriorNul);
        }
        out.push(bytes[i]);
        i = i + 1;
        assert(out@ == bytes@.take(i as int));
    }
    assert(out@ == bytes@);
    assert(!bytes@.contains(0u8)) by {
        if bytes@.contains(0u8) {
            let k = choose|k: int| 0 <= k < bytes@.len() && bytes@[k] == 0u8;
            assert(bytes@[k] != 0u8);
        }
    }
    out.push(0u8);
    Ok(out)
}

/// The text of the name the host holds in `raw`: the bytes before the first
/// zero byte (all of `raw` when it has none), read as UTF-8. The host's bytes
/// are only read.
pub fn decode_name(raw: &[u8]) -> (r: Result<String, EncodingError>)
    ensures
        r matches Ok(s) ==> decoded_name(raw@) == Some(s@),
        r matches Err(e) ==> e == EncodingError::InvalidUtf8 && decoded_name(raw@) is None,
        r is Ok <==> decoded_name(raw@) is Some,
{
    let mut n: usize = 0;
    while n < raw.len() && raw[n] != 0
        invariant
            n <= raw@.len(),
            forall|j: int| 0 <= j < n ==> raw@[j] != 0,
        decreases raw@.len() - n,
    {
        n = n + 1;
    }
    proof {
        lemma_name_bytes(raw@, n as int);
    }
    let (name, _) = raw.split_at(n);
    assert(name@ == raw@.take(n as int));
    match utf8_text(name) {
        Some(s) => Ok(s.to_owned()),
        None => Err(EncodingError::InvalidUtf8),
    }
}

/// Interning text and reading the entry back yields the text: the bytes handed
/// to the host for `text` decode to `text` again.
pub proof fn lemma_name_round_trip(text: Seq<char>)
    requires
        encoded_name(text) is Some,
    ensures
        decoded_name(encoded_name(text).unwrap()) == Some(text),
{
    let e = encode_utf8(text);
    let raw = e.push(0u8);
    assert(ends_at(raw, e.len() as int)) by {
        assert forall|j: int| 0 <= j < e.len() implies raw[j] != 0 by {
            assert(raw[j] == e[j]);
            if e[j] == 0u8 {
                assert(e.contains(0u8));
            }
        }
    }
    lemma_name_bytes(raw, e.len() as int);
    assert(raw.take(e.len() as int) == e);
    vstd::utf8::encode_utf8_valid_utf8(text);
    vstd::utf8::encode_utf8_decode_utf8(text);
}

} // verus!
