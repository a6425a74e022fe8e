use vstd::prelude::*;
use vstd::bytes::{
    spec_u64_from_le_bytes, spec_u64_to_le_bytes, u64_from_le_bytes, u64_to_le_bytes,
    lemma_auto_spec_u64_to_from_le_bytes,
};
use vstd::slice::{slice_subrange, slice_to_vec};
use vstd::string::StringSliceAdditionalSpecFns;
use vstd::utf8::{encode_utf8, valid_utf8, encode_utf8_valid_utf8, encode_utf8_decode_utf8};
use sha3::{Digest, Keccak256};
use crate::storage::clone_bytes;

verus! {

/// The Keccak-256 digest of a byte string: a name for what the digest
/// routine returns, which depends on the input bytes alone.
pub uninterp spec fn keccak256_of(bytes: Seq<u8>) -> Seq<u8>;

/// The lowercase hex digit for a nibble.
pub open spec fn hex_digit(n: u8) -> char
    recommends
        n < 16,
{
    if n == 0 {
        '0'
    } else if n == 1 {
        '1'
    } else if n == 2 {
        '2'
    } else if n == 3 {
        '3'
    } else if n == 4 {
        '4'
    } else if n == 5 {
        '5'
    } else if n == 6 {
        '6'
    } else if n == 7 {
        '7'
    } else if n == 8 {
        '8'
    } else if n == 9 {
        '9'
    } else if n == 10 {
        'a'
    } else if n == 11 {
        'b'
    } else if n == 12 {
        'c'
    } else if n == 13 {
        'd'
    } else if n == 14 {
        'e'
    } else {
        'f'
    }
}

/// The lowercase hex encoding of a byte string: two digits for each byte,
/// high nibble first.
pub open spec fn hex_chars_of(bytes: Seq<u8>) -> Seq<char> {
    Seq::new(
        bytes.len() * 2,
        |i: int|
            if i % 2 == 0 {
                hex_digit(bytes[i / 2] >> 4)
            } else {
                hex_digit(bytes[i / 2] & 0x0f)
            },
    )
}

/// The identifier of a module: the lowercase hex form of its digest.
pub open spec fn id_of(wasm: Seq<u8>) -> Seq<char> {
    hex_chars_of(keccak256_of(wasm))
}

/// The identifier in byte form: the storage key of the module's record.
pub open spec fn id_bytes_of(wasm: Seq<u8>) -> Seq<u8> {
    encode_utf8(id_of(wasm))
}

/// Hex encodings are plain ASCII, so their UTF-8 byte form is one byte per
/// digit.
pub proof fn lemma_hex_chars_ascii(bytes: Seq<u8>)
    ensures
        vstd::utf8::is_ascii_chars(hex_chars_of(bytes)),
        encode_utf8(hex_chars_of(bytes)).len() == 2 * bytes.len(),
{
    assert forall|i: int| 0 <= i < hex_chars_of(bytes).len() implies '\0' <= #[trigger] hex_chars_of(
        bytes,
    )[i] <= '\u{7f}' by {
        let n = if i % 2 == 0 {
            bytes[i / 2] >> 4
        } else {
            bytes[i / 2] & 0x0f
        };
        assert(hex_chars_of(bytes)[i] == hex_digit(n));
    }
    vstd::utf8::is_ascii_chars_encode_utf8(hex_chars_of(bytes));
}

/// Relies on sha3::Keccak256::digest: the 32-byte Keccak-256 digest of the
/// input, a function of the input bytes alone.
#[verifier::external_body]
pub(crate) fn keccak256(bytes: &Vec<u8>) -> (r: Vec<u8>)
    ensures
        r@ == keccak256_of(bytes@),
        r@.len() == 32,
{
    Keccak256::digest(bytes).to_vec()
}

/// The ASCII code of the lowercase hex digit for a nibble.
fn hex_digit_ascii(n: u8) -> (b: u8)
    requires
        n < 16,
    ensures
        b == hex_digit(n) as u8,
{
    if n < 10 {
        48 + n
    } else {
        87 + n
    }
}

/// Encode a byte string as lowercase hex: two digits for each byte, high
/// nibble first.
pub(crate) fn hex_encode(bytes: &Vec<u8>) -> (r: String)
    ensures
        r@ == hex_chars_of(bytes@),
{
    let ghost chars = hex_chars_of(bytes@);
    let n = bytes.len();
    let mut ascii: Vec<u8> = Vec::new();
    let mut i: usize = 0;
    while i < n
        invariant
            n == bytes@.len(),
            chars == hex_chars_of(bytes@),
            i <= n,
            ascii@.len() == 2 * i,
            forall|j: int| 0 <= j < 2 * i ==> ascii@[j] == (#[trigger] chars[j]) as u8,
        decreases n - i,
    {
        let b = bytes[i];
        proof {
            assert(b >> 4 < 16 && b & 0x0f < 16) by (bit_vector);
            assert(chars[2 * i as int] == hex_digit(b >> 4));
            assert(chars[2 * i as int + 1] == hex_digit(b & 0x0f));
        }
        ascii.push(hex_digit_ascii(b >> 4));
        ascii.push(hex_digit_ascii(b & 0x0f));
        i += 1;
    }
    proof {
        lemma_hex_chars_ascii(bytes@);
        vstd::utf8::is_ascii_chars_encode_utf8(chars);
        assert(ascii@ =~= encode_utf8(chars));
        encode_utf8_valid_utf8(chars);
    }
    match string_from_utf8(ascii) {
        Some(s) => {
            proof {
                lemma_id_bytes_pin_id(s@, chars);
            }
            s
        },
        None => {
            proof {
                assert(false);
            }
            String::from_str("")
        },
    }
}

/// Relies on String::from_utf8: it accepts exactly the valid UTF-8 byte
/// strings, and the accepted string's UTF-8 form is the input itself.
#[verifier::external_body]
pub(crate) fn string_from_utf8(bytes: Vec<u8>) -> (r: Option<String>)
    ensures
        r is Some <==> valid_utf8(bytes@),
        r matches Some(s) ==> encode_utf8(s@) == bytes@,
{
    String::from_utf8(bytes).ok()
}

/// Why a persisted record could not be decoded.
#[derive(Debug, Clone, PartialEq, Eq)]
pub enum CodecError {
    /// The bytes end before the framing says they should.
    Truncated,
    /// Bytes follow the last framed field.
    TrailingBytes,
    /// The identifier field is not valid UTF-8.
    InvalidUtf8,
}

impl CodecError {
    /// The error's textual form, as a sequence of characters.
    pub open spec fn text(&self) -> Seq<char> {
        match self {
            CodecError::Truncated => "live object record is truncated"@,
            CodecError::TrailingBytes => "live object record has trailing bytes"@,
            CodecError::InvalidUtf8 => "live object record id is not valid UTF-8"@,
        }
    }

    /// The error's textual form.
    pub fn describe(&self) -> (s: String)
        ensures
            s@ == self.text(),
    {
        match self {
            CodecError::Truncated => String::from_str("live object record is truncated"),
            CodecError::TrailingBytes => String::from_str(
                "live object record has trailing bytes",
            ),
            CodecError::InvalidUtf8 => String::from_str(
                "live object record id is not valid UTF-8",
            ),
        }
    }
}

/// Whether a length-prefixed field can be carved out of the bytes at an
/// offset: the 8-byte length and the field it announces both fit.
pub open spec fn spec_chunk_fits(bytes: Seq<u8>, pos: int) -> bool {
    pos + 8 <= bytes.len() && pos + 8 + spec_u64_from_le_bytes(bytes.subrange(pos, pos + 8))
        <= bytes.len()
}

/// The offset just past the length-prefixed field at an offset.
pub open spec fn spec_chunk_end(bytes: Seq<u8>, pos: int) -> int {
    pos + 8 + spec_u64_from_le_bytes(bytes.subrange(pos, pos + 8))
}

/// The error a byte string that serializes no record is refused with:
/// truncated framing first, then trailing bytes, then an identifier that
/// is not valid UTF-8.
pub open spec fn spec_decode_error(bytes: Seq<u8>) -> CodecError {
    if !spec_chunk_fits(bytes, 0) {
        CodecError::Truncated
    } else if !spec_chunk_fits(bytes, spec_chunk_end(bytes, 0)) {
        CodecError::Truncated
    } else if !spec_chunk_fits(bytes, spec_chunk_end(bytes, spec_chunk_end(bytes, 0))) {
        CodecError::Truncated
    } else if spec_chunk_end(
        bytes,
        spec_chunk_end(bytes, spec_chunk_end(bytes, 0)),
    ) != bytes.len() {
        CodecError::TrailingBytes
    } else {
        CodecError::InvalidUtf8
    }
}

/// The canonical byte serialization of a record: three length-prefixed
/// fields — identifier bytes, hash, module bytes — each preceded by its
/// length as a little-endian `u64`.
pub open spec fn spec_record_bytes(idb: Seq<u8>, hash: Seq<u8>, wasm: Seq<u8>) -> Seq<u8> {
    spec_u64_to_le_bytes(idb.len() as u64) + idb + spec_u64_to_le_bytes(hash.len() as u64) + hash
        + spec_u64_to_le_bytes(wasm.len() as u64) + wasm
}

/// Whether a byte string is the canonical serialization of the record with
/// the given fields.
pub open spec fn is_record_encoding(bytes: Seq<u8>, idb: Seq<u8>, hash: Seq<u8>, wasm: Seq<u8>) -> bool {
    &&& bytes == spec_record_bytes(idb, hash, wasm)
    &&& idb.len() <= 0xffff_ffff_ffff_ffff
    &&& hash.len() <= 0xffff_ffff_ffff_ffff
    &&& wasm.len() <= 0xffff_ffff_ffff_ffff
    &&& valid_utf8(idb)
}

/// The framing of a serialized record: each field and each length prefix
/// stands at a fixed offset determined by the lengths, so the bytes pin
/// the fields.
pub proof fn lemma_record_frame(bytes: Seq<u8>, idb: Seq<u8>, hash: Seq<u8>, wasm: Seq<u8>)
    requires
        bytes == spec_record_bytes(idb, hash, wasm),
        idb.len() <= 0xffff_ffff_ffff_ffff,
        hash.len() <= 0xffff_ffff_ffff_ffff,
        wasm.len() <= 0xffff_ffff_ffff_ffff,
    ensures
        bytes.len() == 24 + idb.len() + hash.len() + wasm.len(),
        spec_u64_from_le_bytes(bytes.subrange(0, 8)) == idb.len(),
        bytes.subrange(8, 8 + idb.len() as int) == idb,
        spec_u64_from_le_bytes(
            bytes.subrange(8 + idb.len() as int, 16 + idb.len() as int),
        ) == hash.len(),
        bytes.subrange(16 + idb.len() as int, 16 + idb.len() + hash.len() as int) == hash,
        spec_u64_from_le_bytes(
            bytes.subrange(16 + idb.len() + hash.len() as int, 24 + idb.len() + hash.len() as int),
        ) == wasm.len(),
        bytes.subrange(24 + idb.len() + hash.len() as int, 24 + idb.len() + hash.len() + wasm.len() as int)
            == wasm,
{
    lemma_auto_spec_u64_to_from_le_bytes();
    let l1 = idb.len() as int;
    let l2 = hash.len() as int;
    let l3 = wasm.len() as int;
    assert(spec_u64_to_le_bytes(idb.len() as u64).len() == 8);
    assert(spec_u64_to_le_bytes(hash.len() as u64).len() == 8);
    assert(spec_u64_to_le_bytes(wasm.len() as u64).len() == 8);
    assert(bytes.subrange(0, 8) =~= spec_u64_to_le_bytes(idb.len() as u64));
    assert(bytes.subrange(8, 8 + l1) =~= idb);
    assert(bytes.subrange(8 + l1, 16 + l1) =~= spec_u64_to_le_bytes(hash.len() as u64));
    assert(bytes.subrange(16 + l1, 16 + l1 + l2) =~= hash);
    assert(bytes.subrange(16 + l1 + l2, 24 + l1 + l2) =~= spec_u64_to_le_bytes(
        wasm.len() as u64,
    ));
    assert(bytes.subrange(24 + l1 + l2, 24 + l1 + l2 + l3) =~= wasm);
}

/// The identifier's byte form pins the identifier: UTF-8 encoding is
/// injective, so a record read back from its serialization carries the
/// identifier it was written with.
pub proof fn lemma_id_bytes_pin_id(id1: Seq<char>, id2: Seq<char>)
    requires
        encode_utf8(id1) == encode_utf8(id2),
    ensures
        id1 == id2,
{
    encode_utf8_decode_utf8(id1);
    encode_utf8_decode_utf8(id2);
}

/// A byte string is the canonical serialization of at most one record:
/// decoding what was encoded can recover nothing but the original fields.
pub proof fn lemma_record_bytes_injective(
    idb1: Seq<u8>,
    hash1: Seq<u8>,
    wasm1: Seq<u8>,
    idb2: Seq<u8>,
    hash2: Seq<u8>,
    wasm2: Seq<u8>,
)
    requires
        spec_record_bytes(idb1, hash1, wasm1) == spec_record_bytes(idb2, hash2, wasm2),
        idb1.len() <= 0xffff_ffff_ffff_ffff,
        hash1.len() <= 0xffff_ffff_ffff_ffff,
        wasm1.len() <= 0xffff_ffff_ffff_ffff,
        idb2.len() <= 0xffff_ffff_ffff_ffff,
        hash2.len() <= 0xffff_ffff_ffff_ffff,
        wasm2.len() <= 0xffff_ffff_ffff_ffff,
    ensures
        idb1 == idb2,
        hash1 == hash2,
        wasm1 == wasm2,
{
    let bytes = spec_record_bytes(idb1, hash1, wasm1);
    lemma_record_frame(bytes, idb1, hash1, wasm1);
    lemma_record_frame(bytes, idb2, hash2, wasm2);
}

/// The persisted record for one WASM module: the module bytes, their
/// Keccak-256 digest, and the digest's lowercase hex form as identifier.
/// Created once, never mutated.
pub struct LiveObjectInfo {
    pub id: String,
    pub hash: Vec<u8>,
    pub wasm_bytes: Vec<u8>,
}

impl LiveObjectInfo {
    /// A well-formed record is content-addressed: the hash is the digest
    /// of the module bytes and the identifier is the hash's hex form.
    pub open spec fn wf(&self) -> bool {
        &&& self.hash@ == keccak256_of(self.wasm_bytes@)
        &&& self.id@ == hex_chars_of(self.hash@)
    }

    /// Build the record for a module: digest the bytes and name the record
    /// after the digest.
    pub fn new(wasm_bytes: Vec<u8>) -> (info: Self)
        ensures
            info.wf(),
            info.wasm_bytes@ == wasm_bytes@,
            info.hash@.len() == 32,
            info.id@ == id_of(wasm_bytes@),
    {
        let hash = keccak256(&wasm_bytes);
        let id = hex_encode(&hash);
        LiveObjectInfo { id, hash, wasm_bytes }
    }

    /// The identifier in byte form: the key the record is stored under.
    pub fn id_bytes(&self) -> (r: Vec<u8>)
        ensures
            r@ == encode_utf8(self.id@),
    {
        self.id.as_str().as_bytes_vec()
    }

    /// Serialize the record canonically.
    pub fn to_bytes(&self) -> (r: Vec<u8>)
        ensures
            r@ == spec_record_bytes(encode_utf8(self.id@), self.hash@, self.wasm_bytes@),
            is_record_encoding(r@, encode_utf8(self.id@), self.hash@, self.wasm_bytes@),
    {
        proof {
            encode_utf8_valid_utf8(self.id@);
        }
        let idb = self.id_bytes();
        let l1 = idb.len();
        let l2 = self.hash.len();
        let l3 = self.wasm_bytes.len();
        proof {
            assert(encode_utf8(self.id@).len() == l1);
            assert(l1 <= usize::MAX && l2 <= usize::MAX && l3 <= usize::MAX);
        }
        let mut out: Vec<u8> = Vec::new();
        write_chunk(&mut out, &idb);
        write_chunk(&mut out, &self.hash);
        write_chunk(&mut out, &self.wasm_bytes);
        proof {
            assert(out@ =~= spec_record_bytes(
                encode_utf8(self.id@),
                self.hash@,
                self.wasm_bytes@,
            ));
        }
        out
    }

    /// Decode a canonically serialized record. Succeeds exactly on the
    /// byte strings that serialize some record, and recovers that
    /// record's fields.
    pub fn from_bytes(bytes: &Vec<u8>) -> (r: Result<LiveObjectInfo, CodecError>)
        ensures
            r matches Ok(info) ==> is_record_encoding(
                bytes@,
                encode_utf8(info.id@),
                info.hash@,
                info.wasm_bytes@,
            ),
            forall|idb: Seq<u8>, hash: Seq<u8>, wasm: Seq<u8>|
                is_record_encoding(bytes@, idb, hash, wasm) ==> (r matches Ok(info)
                    && encode_utf8(info.id@) == idb && info.hash@ == hash && info.wasm_bytes@
                    == wasm),
            r matches Err(e) ==> e == spec_decode_error(bytes@),
    {
        let chunk1 = match read_chunk(bytes, 0) {
            Some(c) => c,
            None => {
                proof {
                    assert forall|idb: Seq<u8>, hash: Seq<u8>, wasm: Seq<u8>|
                        !is_record_encoding(bytes@, idb, hash, wasm) by {
                        if is_record_encoding(bytes@, idb, hash, wasm) {
                            lemma_record_frame(bytes@, idb, hash, wasm);
                        }
                    }
                }
                return Err(CodecError::Truncated);
            },
        };
        let (idb, p1) = chunk1;
        let chunk2 = match read_chunk(bytes, p1) {
            Some(c) => c,
            None => {
                proof {
                    assert forall|idb0: Seq<u8>, hash: Seq<u8>, wasm: Seq<u8>|
                        !is_record_encoding(bytes@, idb0, hash, wasm) by {
                        if is_record_encoding(bytes@, idb0, hash, wasm) {
                            lemma_record_frame(bytes@, idb0, hash, wasm);
                        }
                    }
                }
                return Err(CodecError::Truncated);
            },
        };
        let (hash, p2) = chunk2;
        let chunk3 = match read_chunk(bytes, p2) {
            Some(c) => c,
            None => {
                proof {
                    assert forall|idb0: Seq<u8>, hash0: Seq<u8>, wasm: Seq<u8>|
                        !is_record_encoding(bytes@, idb0, hash0, wasm) by {
                        if is_record_encoding(bytes@, idb0, hash0, wasm) {
                            lemma_record_frame(bytes@, idb0, hash0, wasm);
                        }
                    }
                }
                return Err(CodecError::Truncated);
            },
        };
        let (wasm, p3) = chunk3;
        if p3 != bytes.len() {
            proof {
                assert forall|idb0: Seq<u8>, hash0: Seq<u8>, wasm0: Seq<u8>|
                    !is_record_encoding(bytes@, idb0, hash0, wasm0) by {
                    if is_record_encoding(bytes@, idb0, hash0, wasm0) {
                        lemma_record_frame(bytes@, idb0, hash0, wasm0);
                    }
                }
            }
            return Err(CodecError::TrailingBytes);
        }
        proof {
            lemma_auto_spec_u64_to_from_le_bytes();
            assert(bytes@ =~= spec_record_bytes(idb@, hash@, wasm@));
            assert forall|idb0: Seq<u8>, hash0: Seq<u8>, wasm0: Seq<u8>|
                is_record_encoding(bytes@, idb0, hash0, wasm0) implies idb0 == idb@ && hash0
                == hash@ && wasm0 == wasm@ by {
                lemma_record_bytes_injective(idb@, hash@, wasm@, idb0, hash0, wasm0);
            }
        }
        let ghost idb_v = idb@;
        match string_from_utf8(idb) {
            Some(id) => {
                proof {
                    vstd::utf8::encode_utf8_valid_utf8(id@);
                }
                Ok(LiveObjectInfo { id, hash, wasm_bytes: wasm })
            },
            None => {
                proof {
                    assert forall|idb0: Seq<u8>, hash0: Seq<u8>, wasm0: Seq<u8>|
                        !is_record_encoding(bytes@, idb0, hash0, wasm0) by {
                        if is_record_encoding(bytes@, idb0, hash0, wasm0) {
                            assert(idb0 == idb_v);
                        }
                    }
                }
                Err(CodecError::InvalidUtf8)
            },
        }
    }
}

/// Append one length-prefixed field to a serialization in progress.
fn write_chunk(out: &mut Vec<u8>, data: &Vec<u8>)
    ensures
        final(out)@ == old(out)@ + spec_u64_to_le_bytes(data@.len() as u64) + data@,
{
    let mut lenb = u64_to_le_bytes(data.len() as u64);
    out.append(&mut lenb);
    let mut body = clone_bytes(data);
    out.append(&mut body);
}

/// Read one length-prefixed field of a serialized record, returning the
/// field and the offset just past it.
fn read_chunk(bytes: &Vec<u8>, pos: usize) -> (r: Option<(Vec<u8>, usize)>)
    requires
        pos <= bytes@.len(),
    ensures
        r matches Some(chunk_next) ==> {
            &&& pos + 8 <= bytes@.len()
            &&& chunk_next.0@.len() == spec_u64_from_le_bytes(
                bytes@.subrange(pos as int, pos + 8),
            )
            &&& chunk_next.1 == pos + 8 + chunk_next.0@.len()
            &&& chunk_next.1 <= bytes@.len()
            &&& chunk_next.0@ == bytes@.subrange(pos + 8, chunk_next.1 as int)
        },
        r is None <==> pos + 8 > bytes@.len() || pos + 8 + spec_u64_from_le_bytes(
            bytes@.subrange(pos as int, pos + 8),
        ) > bytes@.len(),
{
    if bytes.len() < 8 || pos > bytes.len() - 8 {
        return None;
    }
    let len64 = u64_from_le_bytes(slice_subrange(bytes.as_slice(), pos, pos + 8));
    let rest = bytes.len() - (pos + 8);
    if len64 > rest as u64 {
        return None;
    }
    let len = len64 as usize;
    let chunk = slice_to_vec(slice_subrange(bytes.as_slice(), pos + 8, pos + 8 + len));
    Some((chunk, pos + 8 + len))
}

} // verus!
