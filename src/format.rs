//! The on-disk container: a magic tag, a version, and three
//! length-prefixed byte fields, all integers little-endian.
use crate::error::{FormatError, SizeError};
use vstd::prelude::*;

verus! {

/// The only container version this library reads and writes.
pub const VERSION: u16 = 1;

/// The largest length a `u16` prefix can carry.
pub const MAX_SHORT_FIELD: usize = 65535;

/// The largest length a `u32` prefix can carry.
pub const MAX_LONG_FIELD: usize = 4294967295;

/// The magic tag `RVLT` that opens every container.
pub open spec fn magic() -> Seq<u8> {
    seq![82u8, 86u8, 76u8, 84u8]
}

/// Little-endian bytes of a `u16`.
pub open spec fn le16(v: u16) -> Seq<u8> {
    seq![(v % 256) as u8, (v / 256) as u8]
}

/// Little-endian bytes of a `u32`.
pub open spec fn le32(v: u32) -> Seq<u8> {
    seq![
        (v % 256) as u8,
        ((v / 256) % 256) as u8,
        ((v / 65536) % 256) as u8,
        (v / 16777216) as u8,
    ]
}

/// The little-endian `u16` stored at offset `i` of `b`.
pub open spec fn read16(b: Seq<u8>, i: int) -> int {
    b[i] + 256 * b[i + 1]
}

/// The little-endian `u32` stored at offset `i` of `b`.
pub open spec fn read32(b: Seq<u8>, i: int) -> int {
    b[i] + 256 * b[i + 1] + 65536 * b[i + 2] + 16777216 * b[i + 3]
}

/// The container bytes for the given fields at the current version.
pub open spec fn encode_spec(salt: Seq<u8>, nonce: Seq<u8>, ciphertext: Seq<u8>) -> Seq<u8> {
    magic() + le16(VERSION) + le16(salt.len() as u16) + salt + le16(nonce.len() as u16) + nonce
        + le32(ciphertext.len() as u32) + ciphertext
}

/// What decoding `b` yields: the version, salt, nonce and ciphertext,
/// or the first problem met while reading the fields in order.
/// Bytes after the ciphertext are ignored.
pub open spec fn decode_spec(b: Seq<u8>) -> Result<(u16, Seq<u8>, Seq<u8>, Seq<u8>), FormatError> {
    if b.len() < 4 {
        Err(FormatError::Truncated)
    } else if b.subrange(0, 4) != magic() {
        Err(FormatError::BadMagic)
    } else if b.len() < 6 {
        Err(FormatError::Truncated)
    } else if read16(b, 4) != VERSION {
        Err(FormatError::UnsupportedVersion(read16(b, 4) as u16))
    } else if b.len() < 8 {
        Err(FormatError::Truncated)
    } else {
        let salt_end = 8 + read16(b, 6);
        if b.len() < salt_end + 2 {
            Err(FormatError::Truncated)
        } else {
            let nonce_end = salt_end + 2 + read16(b, salt_end);
            if b.len() < nonce_end + 4 {
                Err(FormatError::Truncated)
            } else {
                let ct_end = nonce_end + 4 + read32(b, nonce_end);
                if b.len() < ct_end {
                    Err(FormatError::Truncated)
                } else {
                    Ok(
                        (
                            VERSION,
                            b.subrange(8, salt_end),
                            b.subrange(salt_end + 2, nonce_end),
                            b.subrange(nonce_end + 4, ct_end),
                        ),
                    )
                }
            }
        }
    }
}

/// A decoded container.
#[derive(Debug)]
pub struct VaultFile {
    pub version: u16,
    pub salt: Vec<u8>,
    pub nonce: Vec<u8>,
    pub ciphertext: Vec<u8>,
}

impl View for VaultFile {
    type V = (u16, Seq<u8>, Seq<u8>, Seq<u8>);

    open spec fn view(&self) -> Self::V {
        (self.version, self.salt@, self.nonce@, self.ciphertext@)
    }
}

fn put_u16(out: &mut Vec<u8>, v: u16)
    ensures
        final(out)@ == old(out)@ + le16(v),
{
    out.push((v % 256) as u8);
    out.push((v / 256) as u8);
    assert(final(out)@ =~= old(out)@ + le16(v));
}

fn put_u32(out: &mut Vec<u8>, v: u32)
    ensures
        final(out)@ == old(out)@ + le32(v),
{
    out.push((v % 256) as u8);
    out.push(((v / 256) % 256) as u8);
    out.push(((v / 65536) % 256) as u8);
    out.push((v / 16777216) as u8);
    assert(final(out)@ =~= old(out)@ + le32(v));
}

fn get_u16(bytes: &[u8], pos: &mut usize) -> (r: Result<u16, FormatError>)
    requires
        *old(pos) <= bytes@.len(),
    ensures
        *old(pos) + 2 <= bytes@.len() ==> r == Ok::<u16, FormatError>(
            read16(bytes@, *old(pos) as int) as u16,
        ) && *final(pos) == *old(pos) + 2 && r->Ok_0 == read16(bytes@, *old(pos) as int),
        *old(pos) + 2 > bytes@.len() ==> r == Err::<u16, FormatError>(FormatError::Truncated),
{
    if bytes.len() - *pos < 2 {
        return Err(FormatError::Truncated);
    }
    let p = *pos;
    let v: u16 = bytes[p] as u16 + (bytes[p + 1] as u16) * 256;
    *pos = p + 2;
    Ok(v)
}

fn get_u32(bytes: &[u8], pos: &mut usize) -> (r: Result<u32, FormatError>)
    requires
        *old(pos) <= bytes@.len(),
    ensures
        *old(pos) + 4 <= bytes@.len() ==> r == Ok::<u32, FormatError>(
            read32(bytes@, *old(pos) as int) as u32,
        ) && *final(pos) == *old(pos) + 4 && r->Ok_0 == read32(bytes@, *old(pos) as int),
        *old(pos) + 4 > bytes@.len() ==> r == Err::<u32, FormatError>(FormatError::Truncated),
{
    if bytes.len() - *pos < 4 {
        return Err(FormatError::Truncated);
    }
    let p = *pos;
    let v: u32 = bytes[p] as u32 + (bytes[p + 1] as u32) * 256 + (bytes[p + 2] as u32) * 65536
        + (bytes[p + 3] as u32) * 16777216;
    *pos = p + 4;
    Ok(v)
}

/// Copies `len` bytes from `pos` on, after checking that they are there.
fn get_vec(bytes: &[u8], pos: &mut usize, len: usize) -> (r: Result<Vec<u8>, FormatError>)
    requires
        *old(pos) <= bytes@.len(),
    ensures
        *old(pos) + len <= bytes@.len() ==> r is Ok && r->Ok_0@ == bytes@.subrange(
            *old(pos) as int,
            *old(pos) + len,
        ) && *final(pos) == *old(pos) + len,
        *old(pos) + len > bytes@.len() ==> r == Err::<Vec<u8>, FormatError>(FormatError::Truncated),
{
    if bytes.len() - *pos < len {
        return Err(FormatError::Truncated);
    }
    let start = *pos;
    let end: usize = start + len;
    let mut v: Vec<u8> = Vec::with_capacity(len);
    let mut i: usize = 0;
    while i < len
        invariant
            i <= len,
            end == start + len,
            end <= bytes@.len(),
            v@ == bytes@.subrange(start as int, start + i),
        decreases len - i,
    {
        v.push(bytes[start + i]);
        i = i + 1;
        assert(v@ =~= bytes@.subrange(start as int, start + i));
    }
    *pos = end;
    Ok(v)
}

/// Lays out a container at the current version.
pub fn encode(salt: &[u8], nonce: &[u8], ciphertext: &[u8]) -> (r: Result<Vec<u8>, SizeError>)
    ensures
        salt@.len() > MAX_SHORT_FIELD ==> r == Err::<Vec<u8>, SizeError>(SizeError::Salt),
        salt@.len() <= MAX_SHORT_FIELD && nonce@.len() > MAX_SHORT_FIELD ==> r == Err::<
            Vec<u8>,
            SizeError,
        >(SizeError::Nonce),
        salt@.len() <= MAX_SHORT_FIELD && nonce@.len() <= MAX_SHORT_FIELD && ciphertext@.len()
            > MAX_LONG_FIELD ==> r == Err::<Vec<u8>, SizeError>(SizeError::Ciphertext),
        salt@.len() <= MAX_SHORT_FIELD && nonce@.len() <= MAX_SHORT_FIELD && ciphertext@.len()
            <= MAX_LONG_FIELD ==> r is Ok && r->Ok_0@ == encode_spec(salt@, nonce@, ciphertext@),
{
    if salt.len() > MAX_SHORT_FIELD {
        return Err(SizeError::Salt);
    }
    if nonce.len() > MAX_SHORT_FIELD {
        return Err(SizeError::Nonce);
    }
    if ciphertext.len() > MAX_LONG_FIELD {
        return Err(SizeError::Ciphertext);
    }
    let mut out: Vec<u8> = Vec::new();
    out.push(82u8);
    out.push(86u8);
    out.push(76u8);
    out.push(84u8);
    assert(out@ =~= magic());
    put_u16(&mut out, VERSION);
    put_u16(&mut out, salt.len() as u16);
    out.extend_from_slice(salt);
    put_u16(&mut out, nonce.len() as u16);
    out.extend_from_slice(nonce);
    put_u32(&mut out, ciphertext.len() as u32);
    out.extend_from_slice(ciphertext);
    Ok(out)
}

/// Reads a container, checking every length against what is left of
/// `bytes` before copying.
pub fn decode(bytes: &[u8]) -> (r: Result<VaultFile, FormatError>)
    ensures
        match r {
            Ok(f) => decode_spec(bytes@) == Ok::<_, FormatError>(f@),
            Err(e) => decode_spec(bytes@) == Err::<(u16, Seq<u8>, Seq<u8>, Seq<u8>), _>(e),
        },
{
    let b = Ghost(bytes@);
    if bytes.len() < 4 {
        return Err(FormatError::Truncated);
    }
    if !(bytes[0] == 82u8 && bytes[1] == 86u8 && bytes[2] == 76u8 && bytes[3] == 84u8) {
        assert(b@.subrange(0, 4) != magic()) by {
            if b@.subrange(0, 4) == magic() {
                assert(b@.subrange(0, 4)[0] == b@[0]);
                assert(b@.subrange(0, 4)[1] == b@[1]);
                assert(b@.subrange(0, 4)[2] == b@[2]);
                assert(b@.subrange(0, 4)[3] == b@[3]);
            }
        }
        return Err(FormatError::BadMagic);
    }
    assert(b@.subrange(0, 4) =~= magic());
    let mut pos: usize = 4;
    let version = get_u16(bytes, &mut pos)?;
    if version != VERSION {
        return Err(FormatError::UnsupportedVersion(version));
    }
    let salt_len = get_u16(bytes, &mut pos)? as usize;
    let salt = get_vec(bytes, &mut pos, salt_len)?;
    let nonce_len = get_u16(bytes, &mut pos)? as usize;
    let nonce = get_vec(bytes, &mut pos, nonce_len)?;
    let ct_len = get_u32(bytes, &mut pos)? as usize;
    let ciphertext = get_vec(bytes, &mut pos, ct_len)?;
    Ok(VaultFile { version, salt, nonce, ciphertext })
}

proof fn lemma_le16(v: u16)
    ensures
        read16(le16(v), 0) == v,
{
    let b = le16(v);
    assert(b[0] == v % 256 && b[1] == v / 256);
    assert((v % 256) + 256 * (v / 256) == v) by (nonlinear_arith);
}

proof fn lemma_le32(v: u32)
    ensures
        read32(le32(v), 0) == v,
{
    let b = le32(v);
    assert(b[0] == v % 256 && b[1] == (v / 256) % 256 && b[2] == (v / 65536) % 256 && b[3] == v
        / 16777216);
    assert((v % 256) + 256 * ((v / 256) % 256) + 65536 * ((v / 65536) % 256) + 16777216 * (v
        / 16777216) == v) by (nonlinear_arith);
}

/// Decoding what `encode` lays out gives back the current version and the
/// same salt, nonce and ciphertext.
pub proof fn lemma_decode_encode(salt: Seq<u8>, nonce: Seq<u8>, ciphertext: Seq<u8>)
    requires
        salt.len() <= MAX_SHORT_FIELD,
        nonce.len() <= MAX_SHORT_FIELD,
        ciphertext.len() <= MAX_LONG_FIELD,
    ensures
        decode_spec(encode_spec(salt, nonce, ciphertext)) == Ok::<_, FormatError>(
            (VERSION, salt, nonce, ciphertext),
        ),
{
    let e = encode_spec(salt, nonce, ciphertext);
    let sl = salt.len() as u16;
    let nl = nonce.len() as u16;
    let cl = ciphertext.len() as u32;
    lemma_le16(VERSION);
    lemma_le16(sl);
    lemma_le16(nl);
    lemma_le32(cl);
    let salt_end: int = 8 + salt.len() as int;
    let nonce_end: int = salt_end + 2 + nonce.len();
    let ct_end: int = nonce_end + 4 + ciphertext.len();
    assert(e.len() == ct_end);
    assert(e.subrange(0, 4) =~= magic());
    assert(e[4] == le16(VERSION)[0] && e[5] == le16(VERSION)[1]);
    assert(e[6] == le16(sl)[0] && e[7] == le16(sl)[1]);
    assert(read16(e, 6) == salt.len());
    assert(e.subrange(8, salt_end) =~= salt);
    assert(e[salt_end] == le16(nl)[0] && e[salt_end + 1] == le16(nl)[1]);
    assert(read16(e, salt_end) == nonce.len());
    assert(e.subrange(salt_end + 2, nonce_end) =~= nonce);
    assert(e[nonce_end] == le32(cl)[0] && e[nonce_end + 1] == le32(cl)[1] && e[nonce_end + 2]
        == le32(cl)[2] && e[nonce_end + 3] == le32(cl)[3]);
    assert(read32(e, nonce_end) == ciphertext.len());
    assert(e.subrange(nonce_end + 4, ct_end) =~= ciphertext);
}

/// A buffer with a wrong tag, an unsupported version, or a declared
/// length that runs past its end is refused with a format error; a buffer
/// that decodes carries the tag, the current version, and lengths that
/// all fit inside it.
pub proof fn lemma_format_rejection(b: Seq<u8>)
    ensures
        b.len() < 4 ==> decode_spec(b) == Err::<(u16, Seq<u8>, Seq<u8>, Seq<u8>), _>(
            FormatError::Truncated,
        ),
        b.len() >= 4 && b.subrange(0, 4) != magic() ==> decode_spec(b) == Err::<
            (u16, Seq<u8>, Seq<u8>, Seq<u8>),
            _,
        >(FormatError::BadMagic),
        b.len() >= 6 && b.subrange(0, 4) == magic() && read16(b, 4) != VERSION ==> decode_spec(b)
            == Err::<(u16, Seq<u8>, Seq<u8>, Seq<u8>), _>(
            FormatError::UnsupportedVersion(read16(b, 4) as u16),
        ),
        decode_spec(b) is Ok ==> {
            let salt_end = 8 + read16(b, 6);
            let nonce_end = salt_end + 2 + read16(b, salt_end);
            &&& b.len() >= 8
            &&& b.subrange(0, 4) == magic()
            &&& read16(b, 4) == VERSION
            &&& nonce_end + 4 <= b.len()
            &&& nonce_end + 4 + read32(b, nonce_end) <= b.len()
        },
{
}

} // verus!
