//! Decentralized identifiers: fixed-width 32-byte opaque handles, with a
//! recoverable parser for their textual form.

use crate::codec::Encodable;
use crate::system::Hash256;
use vstd::prelude::*;

verus! {

/// A hexadecimal digit, either case.
pub open spec fn is_hex_digit(c: char) -> bool {
    ('0' <= c && c <= '9') || ('a' <= c && c <= 'f') || ('A' <= c && c <= 'F')
}

/// The value of a hexadecimal digit.
pub open spec fn hex_val(c: char) -> nat {
    if '0' <= c && c <= '9' {
        (c as nat - '0' as nat) as nat
    } else if 'a' <= c && c <= 'f' {
        (c as nat - 'a' as nat + 10) as nat
    } else {
        (c as nat - 'A' as nat + 10) as nat
    }
}

/// The bytes a hexadecimal character string spells, two digits a byte, high
/// digit first.
pub open spec fn hex_bytes(s: Seq<char>) -> Seq<u8> {
    Seq::new((s.len() / 2) as nat, |i: int| (hex_val(s[2 * i]) * 16 + hex_val(s[2 * i + 1])) as u8)
}

/// Relies on hex::decode: it yields a byte for each pair of hexadecimal
/// digits, high digit first, and fails exactly on an odd count of characters
/// or a character that is no digit.
#[verifier::external_body]
fn hex_decode(s: &str) -> (r: Option<Vec<u8>>)
    ensures
        (r matches Some(b) ==> s@.len() % 2 == 0 && (forall|i: int|
            0 <= i < s@.len() ==> is_hex_digit(s@[i])) && b@ == hex_bytes(s@)),
        r is None ==> !(s@.len() % 2 == 0 && (forall|i: int|
            0 <= i < s@.len() ==> is_hex_digit(s@[i]))),
{
    match hex::decode(s) {
        Ok(v) => Some(v),
        Err(_) => None,
    }
}

/// Why a textual identifier could not be parsed.
#[derive(Debug, Clone, Copy, PartialEq, Eq)]
pub enum DidParseError {
    /// The text does not start with the identifier scheme prefix.
    BadPrefix,
    /// The text does not spell exactly 32 bytes after the prefix.
    WrongLength,
    /// A character after the prefix is no hexadecimal digit.
    BadHex,
}

/// The fixed scheme prefix of an identifier's textual form.
pub open spec fn did_prefix() -> Seq<char> {
    seq!['d', 'i', 'd', ':', 'b', 'w', 's', ':']
}

/// A well-formed textual identifier: the prefix, then 64 hexadecimal digits.
pub open spec fn did_text_ok(s: Seq<char>) -> bool {
    &&& s.len() == 72
    &&& s.subrange(0, 8) == did_prefix()
    &&& forall|i: int| 8 <= i < 72 ==> is_hex_digit(s[i])
}

/// A decentralized identifier: exactly 32 raw bytes, whichever way it was
/// constructed. Equality and ordering are byte-wise.
#[derive(Debug, Clone, Copy, PartialEq, Eq)]
pub struct Did {
    pub id: [u8; 32],
}

impl Did {
    /// An identifier from its 32 raw bytes.
    pub fn new(id: [u8; 32]) -> (r: Did)
        ensures
            r.id == id,
    {
        Did { id }
    }

    /// The raw bytes back out.
    pub fn bytes(&self) -> (r: [u8; 32])
        ensures
            r == self.id,
    {
        self.id
    }

    /// An identifier carrying the bytes of a chain-native 256-bit hash.
    pub fn from_hash(h: &Hash256) -> (r: Did)
        ensures
            r.id == h.bytes,
    {
        Did { id: h.bytes }
    }

    /// Parse the textual form `did:bws:` followed by 64 hexadecimal digits.
    /// Fails, rather than panics, on any other input: a missing prefix, a
    /// text that spells the wrong number of bytes, or a stray character.
    pub fn from_text(s: &str) -> (r: Result<Did, DidParseError>)
        ensures
            (r matches Ok(d) ==> did_text_ok(s@) && d.id@ == hex_bytes(s@.skip(8))),
            r == Err::<Did, DidParseError>(DidParseError::BadPrefix) <==> !(s@.len() >= 8
                && s@.subrange(0, 8) == did_prefix()),
            r == Err::<Did, DidParseError>(DidParseError::WrongLength) <==> (s@.len() >= 8
                && s@.subrange(0, 8) == did_prefix() && s@.len() != 72),
            r == Err::<Did, DidParseError>(DidParseError::BadHex) <==> (s@.len() == 72
                && s@.subrange(0, 8) == did_prefix() && !(forall|i: int|
                8 <= i < 72 ==> is_hex_digit(s@[i]))),
            r is Ok <==> did_text_ok(s@),
    {
        let n = s.unicode_len();
        if n < 8 {
            return Err(DidParseError::BadPrefix);
        }
        let prefix_ok = s.get_char(0) == 'd' && s.get_char(1) == 'i' && s.get_char(2) == 'd'
            && s.get_char(3) == ':' && s.get_char(4) == 'b' && s.get_char(5) == 'w' && s.get_char(
            6,
        ) == 's' && s.get_char(7) == ':';
        proof {
            if prefix_ok {
                assert(s@.subrange(0, 8) =~= did_prefix());
            } else {
                assert(s@.subrange(0, 8) != did_prefix()) by {
                    if s@.subrange(0, 8) == did_prefix() {
                        assert(forall|i: int| 0 <= i < 8 ==> s@[i] == did_prefix()[i]);
                    }
                }
            }
        }
        if !prefix_ok {
            return Err(DidParseError::BadPrefix);
        }
        if n != 72 {
            return Err(DidParseError::WrongLength);
        }
        let hex_part = s.substring_char(8, 72);
        assert(hex_part@ == s@.skip(8));
        match hex_decode(hex_part) {
            None => {
                assert(hex_part@.len() % 2 == 0);
                Err(DidParseError::BadHex)
            },
            Some(v) => {
                assert(v@.len() == 32);
                let mut id: [u8; 32] = [0u8; 32];
                let mut i: usize = 0;
                while i < 32
                    invariant
                        i <= 32,
                        v@.len() == 32,
                        forall|j: int| 0 <= j < i ==> id@[j] == v@[j],
                    decreases 32 - i,
                {
                    id[i] = v[i];
                    i = i + 1;
                }
                proof {
                    assert(id@ =~= v@);
                    assert forall|i: int| 8 <= i < 72 implies is_hex_digit(s@[i]) by {
                        assert(is_hex_digit(hex_part@[i - 8]));
                        assert(hex_part@[i - 8] == s@[i]);
                    }
                }
                Ok(Did { id })
            },
        }
    }
}

/// An identifier encodes as its 32 raw bytes, with no length prefix.
impl Encodable for Did {
    open spec fn enc(&self) -> Seq<u8> {
        self.id@
    }

    fn encode_to(&self, out: &mut Vec<u8>) {
        let mut i: usize = 0;
        proof {
            assert(out@ =~= old(out)@ + self.id@.take(0));
        }
        while i < 32
            invariant
                i <= 32,
                out@ == old(out)@ + self.id@.take(i as int),
            decreases 32 - i,
        {
            out.push(self.id[i]);
            proof {
                assert(out@ =~= old(out)@ + self.id@.take(i + 1));
            }
            i = i + 1;
        }
        proof {
            assert(self.id@.take(32) =~= self.id@);
        }
    }
}

/// Reading an identifier back: its next 32 bytes.
pub open spec fn dec_did(s: Seq<u8>) -> Option<(Seq<u8>, Seq<u8>)> {
    if s.len() >= 32 {
        Some((s.take(32), s.skip(32)))
    } else {
        None
    }
}

/// Round trip: an identifier's bytes read back as written.
pub proof fn lemma_did_round_trip(d: Did, rest: Seq<u8>)
    ensures
        dec_did(d.enc() + rest) == Some((d.id@, rest)),
{
    assert((d.enc() + rest).take(32) =~= d.id@);
    assert((d.enc() + rest).skip(32) =~= rest);
}

/// Read an identifier at `pos`.
pub fn decode_did(bytes: &Vec<u8>, pos: usize) -> (r: Option<(Did, usize)>)
    requires
        pos <= bytes@.len(),
    ensures
        (r matches Some(p) ==> pos < p.1 <= bytes@.len() && dec_did(bytes@.skip(pos as int))
            == Some((p.0.id@, bytes@.skip(p.1 as int)))),
        r is None ==> dec_did(bytes@.skip(pos as int)) is None,
{
    let len = bytes.len();
    if len - pos < 32 {
        proof {
            assert(bytes@.skip(pos as int).len() < 32);
        }
        return None;
    }
    let mut id: [u8; 32] = [0u8; 32];
    let mut i: usize = 0;
    while i < 32
        invariant
            i <= 32,
            pos + 32 <= len == bytes@.len(),
            forall|j: int| 0 <= j < i ==> id@[j] == bytes@[pos + j],
        decreases 32 - i,
    {
        id[i] = bytes[pos + i];
        i = i + 1;
    }
    proof {
        assert(id@ =~= bytes@.skip(pos as int).take(32));
        assert(bytes@.skip(pos as int).skip(32) =~= bytes@.skip(pos + 32));
    }
    Some((Did { id }, pos + 32))
}

} // verus!
