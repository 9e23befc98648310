//! Byte layouts of the `.enc` header and of the DEK manifest.
use vstd::bytes::{
    lemma_auto_spec_u32_to_from_le_bytes, spec_u32_from_le_bytes, spec_u32_to_le_bytes,
    u32_from_le_bytes, u32_to_le_bytes,
};
use vstd::prelude::*;

verus! {

/// Length of the `.enc` header; the header is also the AAD of every chunk.
pub const ENC_HEADER_LEN: usize = 44;

/// Length of the DEK manifest (plaintext of the `.keys.*` files).
pub const MANIFEST_LEN: usize = 60;

/// Plaintext bytes per STREAM chunk.
pub const CHUNK_SIZE: usize = 65536;

/// Poly1305 tag length.
pub const TAG_LEN: usize = 16;

/// Ciphertext bytes per full STREAM chunk.
pub const CT_CHUNK_LEN: usize = 65552;

/// Length of the STREAM-BE32 nonce prefix.
pub const NONCE_PREFIX_LEN: usize = 7;

/// "MORBRN01", the magic that opens every `.enc` file.
pub open spec fn enc_magic() -> Seq<u8> {
    seq![77u8, 79u8, 82u8, 66u8, 82u8, 78u8, 48u8, 49u8]
}

/// "MKEY", the magic that opens every DEK manifest.
pub open spec fn key_magic() -> Seq<u8> {
    seq![77u8, 75u8, 69u8, 89u8]
}

/// Errors of the vault format, of the bulk cipher and of keyslot handling.
#[derive(Debug, Clone, Copy, PartialEq, Eq)]
pub enum VaultError {
    /// The `.enc` header does not have its fixed length.
    HeaderLength,
    /// The `.enc` header does not start with the `.enc` magic (wrong file).
    HeaderMagic,
    /// The ciphertext ends before a full header could be read.
    TruncatedHeader,
    /// The manifest does not have its fixed length.
    ManifestLength,
    /// The manifest does not start with the manifest magic.
    ManifestMagic,
    /// `.keys` and `.enc` name different vaults.
    UuidMismatch,
    /// `.keys` and `.enc` hold different DEK versions (stale keyfile).
    VersionMismatch,
    /// The header announces a chunk size other than the supported one.
    UnsupportedChunkSize(u32),
    /// The final chunk is shorter than a tag.
    TruncatedChunk,
    /// The STREAM counter would overflow while encrypting.
    EncryptChunk,
    /// A chunk failed to authenticate (tamper or wrong key), or the STREAM
    /// counter would overflow while decrypting.
    DecryptChunk,
    /// Rotation would overflow the DEK version.
    VersionOverflow,
    /// Neither `.keys.*` file is present, or none could be opened.
    NoUsableKeyFile,
    /// No device recipient was given for the devices keyslot.
    NoRecipients,
    /// A device recipient is not a valid age X25519 recipient.
    InvalidRecipient,
    /// A device recipient is a small-order X25519 point, with which no
    /// keyslot can be wrapped.
    LowOrderRecipient,
    /// A stored device identity is not a valid age X25519 identity.
    InvalidIdentity,
    /// An age keyslot file could not be decrypted with the given keys.
    Unwrap,
}

impl VaultError {
    /// A short description of the error.
    pub fn describe(&self) -> (r: &'static str)
        ensures
            *self == VaultError::HeaderLength ==> r@ == "enc header length mismatch"@,
            *self == VaultError::HeaderMagic ==> r@ == "enc magic mismatch / wrong file"@,
            *self == VaultError::TruncatedHeader ==> r@ == "truncated enc header"@,
            *self == VaultError::ManifestLength ==> r@ == "manifest length mismatch"@,
            *self == VaultError::ManifestMagic ==> r@ == "manifest magic mismatch"@,
            *self == VaultError::UuidMismatch ==> r@ == ".keys / .enc vault_uuid mismatch"@,
            *self == VaultError::VersionMismatch ==> r@ == ".keys / .enc dek_version mismatch (stale keyfile?)"@,
            *self matches VaultError::UnsupportedChunkSize(_) ==> r@ == "unsupported chunk_size"@,
            *self == VaultError::TruncatedChunk ==> r@ == "truncated last chunk"@,
            *self == VaultError::EncryptChunk ==> r@ == "chunk encryption failed"@,
            *self == VaultError::DecryptChunk ==> r@ == "chunk decryption failed (tamper or wrong key)"@,
            *self == VaultError::VersionOverflow ==> r@ == "dek_version overflow"@,
            *self == VaultError::NoUsableKeyFile ==> r@ == "no usable .keys.* file"@,
            *self == VaultError::NoRecipients ==> r@ == "no device recipients"@,
            *self == VaultError::InvalidRecipient ==> r@ == "invalid device recipient"@,
            *self == VaultError::LowOrderRecipient ==> r@ == "device recipient is a low-order point"@,
            *self == VaultError::InvalidIdentity ==> r@ == "stored identity is not a valid age key"@,
            *self == VaultError::Unwrap ==> r@ == "keyslot could not be decrypted"@,
    {
        match self {
            VaultError::HeaderLength => "enc header length mismatch",
            VaultError::HeaderMagic => "enc magic mismatch / wrong file",
            VaultError::TruncatedHeader => "truncated enc header",
            VaultError::ManifestLength => "manifest length mismatch",
            VaultError::ManifestMagic => "manifest magic mismatch",
            VaultError::UuidMismatch => ".keys / .enc vault_uuid mismatch",
            VaultError::VersionMismatch => ".keys / .enc dek_version mismatch (stale keyfile?)",
            VaultError::UnsupportedChunkSize(_) => "unsupported chunk_size",
            VaultError::TruncatedChunk => "truncated last chunk",
            VaultError::EncryptChunk => "chunk encryption failed",
            VaultError::DecryptChunk => "chunk decryption failed (tamper or wrong key)",
            VaultError::VersionOverflow => "dek_version overflow",
            VaultError::NoUsableKeyFile => "no usable .keys.* file",
            VaultError::NoRecipients => "no device recipients",
            VaultError::InvalidRecipient => "invalid device recipient",
            VaultError::LowOrderRecipient => "device recipient is a low-order point",
            VaultError::InvalidIdentity => "stored identity is not a valid age key",
            VaultError::Unwrap => "keyslot could not be decrypted",
        }
    }
}

/// Plain header of the `.enc` file.
#[derive(Clone, Copy, Debug)]
pub struct EncHeader {
    pub vault_uuid: [u8; 16],
    pub dek_version: u32,
    pub chunk_size: u32,
    pub nonce_prefix: [u8; 7],
}

/// The 44 header bytes: magic, uuid, version (LE), chunk size (LE),
/// nonce prefix, five zero reserved bytes.
pub open spec fn header_bytes(h: EncHeader) -> Seq<u8> {
    enc_magic() + h.vault_uuid@ + spec_u32_to_le_bytes(h.dek_version) + spec_u32_to_le_bytes(
        h.chunk_size,
    ) + h.nonce_prefix@ + seq![0u8, 0u8, 0u8, 0u8, 0u8]
}

/// What `EncHeader::from_bytes` reads out of 44 well-formed bytes.
pub open spec fn header_fields_of(h: EncHeader, b: Seq<u8>) -> bool {
    &&& h.vault_uuid@ == b.subrange(8, 24)
    &&& h.dek_version == spec_u32_from_le_bytes(b.subrange(24, 28))
    &&& h.chunk_size == spec_u32_from_le_bytes(b.subrange(28, 32))
    &&& h.nonce_prefix@ == b.subrange(32, 39)
}

/// Decrypted content of a `.keys.*` file.
#[derive(Clone, Copy, Debug)]
pub struct DekManifest {
    pub vault_uuid: [u8; 16],
    pub dek_version: u32,
    pub dek: [u8; 32],
}

/// The 60 manifest bytes: magic, uuid, version (LE), DEK, four zero reserved bytes.
pub open spec fn manifest_bytes(m: DekManifest) -> Seq<u8> {
    key_magic() + m.vault_uuid@ + spec_u32_to_le_bytes(m.dek_version) + m.dek@ + seq![
        0u8,
        0u8,
        0u8,
        0u8,
    ]
}

/// What `DekManifest::from_bytes` reads out of 60 well-formed bytes.
pub open spec fn manifest_fields_of(m: DekManifest, b: Seq<u8>) -> bool {
    &&& m.vault_uuid@ == b.subrange(4, 20)
    &&& m.dek_version == spec_u32_from_le_bytes(b.subrange(20, 24))
    &&& m.dek@ == b.subrange(24, 56)
}

fn write_at<const N: usize>(buf: &mut [u8; N], off: usize, src: &[u8])
    requires
        off + src@.len() <= N,
    ensures
        final(buf)@ == old(buf)@.subrange(0, off as int) + src@ + old(buf)@.subrange(
            off + src@.len(),
            N as int,
        ),
{
    let ghost start = buf@;
    let mut i: usize = 0;
    while i < src.len()
        invariant
            off + src@.len() <= N,
            i <= src@.len(),
            buf@.len() == N,
            forall|k: int| 0 <= k < off ==> buf@[k] == start[k],
            forall|k: int| 0 <= k < i ==> buf@[off + k] == src@[k],
            forall|k: int| off + i <= k < N ==> buf@[k] == start[k],
        decreases src@.len() - i,
    {
        buf[off + i] = src[i];
        i = i + 1;
    }
    assert(buf@ =~= start.subrange(0, off as int) + src@ + start.subrange(
        off + src@.len(),
        N as int,
    ));
}

fn read_16(b: &[u8], off: usize) -> (r: [u8; 16])
    requires
        off + 16 <= b@.len(),
    ensures
        r@ == b@.subrange(off as int, off + 16),
{
    let mut r = [0u8; 16];
    let len = b.len();
    let mut i: usize = 0;
    while i < 16
        invariant
            len == b@.len(),
            off + 16 <= b@.len(),
            i <= 16,
            forall|k: int| 0 <= k < i ==> r@[k] == b@[off + k],
        decreases 16 - i,
    {
        r[i] = b[off + i];
        i = i + 1;
    }
    assert(r@ =~= b@.subrange(off as int, off + 16));
    r
}

fn read_7(b: &[u8], off: usize) -> (r: [u8; 7])
    requires
        off + 7 <= b@.len(),
    ensures
        r@ == b@.subrange(off as int, off + 7),
{
    let mut r = [0u8; 7];
    let len = b.len();
    let mut i: usize = 0;
    while i < 7
        invariant
            len == b@.len(),
            off + 7 <= b@.len(),
            i <= 7,
            forall|k: int| 0 <= k < i ==> r@[k] == b@[off + k],
        decreases 7 - i,
    {
        r[i] = b[off + i];
        i = i + 1;
    }
    assert(r@ =~= b@.subrange(off as int, off + 7));
    r
}

fn read_32(b: &[u8], off: usize) -> (r: [u8; 32])
    requires
        off + 32 <= b@.len(),
    ensures
        r@ == b@.subrange(off as int, off + 32),
{
    let mut r = [0u8; 32];
    let len = b.len();
    let mut i: usize = 0;
    while i < 32
        invariant
            len == b@.len(),
            off + 32 <= b@.len(),
            i <= 32,
            forall|k: int| 0 <= k < i ==> r@[k] == b@[off + k],
        decreases 32 - i,
    {
        r[i] = b[off + i];
        i = i + 1;
    }
    assert(r@ =~= b@.subrange(off as int, off + 32));
    r
}

/// Whether `b[off..off + m.len()]` equals `m`.
fn bytes_match_at(b: &[u8], off: usize, m: &[u8]) -> (r: bool)
    requires
        off + m@.len() <= b@.len(),
    ensures
        r == (b@.subrange(off as int, off + m@.len()) == m@),
{
    let len = b.len();
    let mut i: usize = 0;
    while i < m.len()
        invariant
            len == b@.len(),
            off + m@.len() <= b@.len(),
            i <= m@.len(),
            forall|k: int| 0 <= k < i ==> b@[off + k] == m@[k],
        decreases m@.len() - i,
    {
        if b[off + i] != m[i] {
            assert(b@.subrange(off as int, off + m@.len())[i as int] != m@[i as int]);
            return false;
        }
        i = i + 1;
    }
    assert(b@.subrange(off as int, off + m@.len()) =~= m@);
    true
}

fn enc_magic_bytes() -> (r: [u8; 8])
    ensures
        r@ == enc_magic(),
{
    let r: [u8; 8] = [77u8, 79u8, 82u8, 66u8, 82u8, 78u8, 48u8, 49u8];
    assert(r@ =~= enc_magic());
    r
}

fn key_magic_bytes() -> (r: [u8; 4])
    ensures
        r@ == key_magic(),
{
    let r: [u8; 4] = [77u8, 75u8, 69u8, 89u8];
    assert(r@ =~= key_magic());
    r
}

impl EncHeader {
    /// Serialises the header into its fixed 44-byte layout.
    pub fn to_bytes(&self) -> (r: [u8; 44])
        ensures
            r@ == header_bytes(*self),
    {
        let mut buf = [0u8; 44];
        let magic = enc_magic_bytes();
        write_at(&mut buf, 0, magic.as_slice());
        write_at(&mut buf, 8, self.vault_uuid.as_slice());
        let v = u32_to_le_bytes(self.dek_version);
        write_at(&mut buf, 24, v.as_slice());
        let c = u32_to_le_bytes(self.chunk_size);
        write_at(&mut buf, 28, c.as_slice());
        write_at(&mut buf, 32, self.nonce_prefix.as_slice());
        assert(buf@ =~= header_bytes(*self));
        buf
    }

    /// Parses a header: exactly 44 bytes that begin with the `.enc` magic.
    pub fn from_bytes(b: &[u8]) -> (r: Result<EncHeader, VaultError>)
        ensures
            b@.len() != ENC_HEADER_LEN ==> r == Err::<EncHeader, VaultError>(
                VaultError::HeaderLength,
            ),
            b@.len() == ENC_HEADER_LEN && b@.subrange(0, 8) != enc_magic() ==> r == Err::<
                EncHeader,
                VaultError,
            >(VaultError::HeaderMagic),
            b@.len() == ENC_HEADER_LEN && b@.subrange(0, 8) == enc_magic() ==> (r matches Ok(
                h,
            ) && header_fields_of(h, b@)),
    {
        if b.len() != ENC_HEADER_LEN {
            return Err(VaultError::HeaderLength);
        }
        let magic = enc_magic_bytes();
        if !bytes_match_at(b, 0, magic.as_slice()) {
            return Err(VaultError::HeaderMagic);
        }
        let uuid = read_16(b, 8);
        let ver = u32_from_le_bytes(slice_range(b, 24, 28));
        let chunk = u32_from_le_bytes(slice_range(b, 28, 32));
        let np = read_7(b, 32);
        Ok(EncHeader { vault_uuid: uuid, dek_version: ver, chunk_size: chunk, nonce_prefix: np })
    }
}

/// `&b[start..end]`.
pub fn slice_range(b: &[u8], start: usize, end: usize) -> (r: &[u8])
    requires
        start <= end <= b@.len(),
    ensures
        r@ == b@.subrange(start as int, end as int),
{
    &b[start..end]
}

impl DekManifest {
    /// Serialises the manifest into its fixed 60-byte layout.
    pub fn to_bytes(&self) -> (r: [u8; 60])
        ensures
            r@ == manifest_bytes(*self),
    {
        let mut buf = [0u8; 60];
        let magic = key_magic_bytes();
        write_at(&mut buf, 0, magic.as_slice());
        write_at(&mut buf, 4, self.vault_uuid.as_slice());
        let v = u32_to_le_bytes(self.dek_version);
        write_at(&mut buf, 20, v.as_slice());
        write_at(&mut buf, 24, self.dek.as_slice());
        assert(buf@ =~= manifest_bytes(*self));
        buf
    }

    /// Parses a manifest: exactly 60 bytes that begin with the manifest magic.
    pub fn from_bytes(b: &[u8]) -> (r: Result<DekManifest, VaultError>)
        ensures
            b@.len() != MANIFEST_LEN ==> r == Err::<DekManifest, VaultError>(
                VaultError::ManifestLength,
            ),
            b@.len() == MANIFEST_LEN && b@.subrange(0, 4) != key_magic() ==> r == Err::<
                DekManifest,
                VaultError,
            >(VaultError::ManifestMagic),
            b@.len() == MANIFEST_LEN && b@.subrange(0, 4) == key_magic() ==> (r matches Ok(m)
                && manifest_fields_of(m, b@)),
    {
        if b.len() != MANIFEST_LEN {
            return Err(VaultError::ManifestLength);
        }
        let magic = key_magic_bytes();
        if !bytes_match_at(b, 0, magic.as_slice()) {
            return Err(VaultError::ManifestMagic);
        }
        let uuid = read_16(b, 4);
        let ver = u32_from_le_bytes(slice_range(b, 20, 24));
        let dek = read_32(b, 24);
        Ok(DekManifest { vault_uuid: uuid, dek_version: ver, dek })
    }
}

/// The serialised header has the fixed length, starts with the magic and
/// carries the header's fields where `from_bytes` reads them.
pub proof fn lemma_header_bytes(h: EncHeader)
    ensures
        header_bytes(h).len() == ENC_HEADER_LEN,
        header_bytes(h).subrange(0, 8) == enc_magic(),
        header_fields_of(h, header_bytes(h)),
{
    lemma_auto_spec_u32_to_from_le_bytes();
    let b = header_bytes(h);
    assert(b.subrange(0, 8) =~= enc_magic());
    assert(b.subrange(8, 24) =~= h.vault_uuid@);
    assert(b.subrange(24, 28) =~= spec_u32_to_le_bytes(h.dek_version));
    assert(b.subrange(28, 32) =~= spec_u32_to_le_bytes(h.chunk_size));
    assert(b.subrange(32, 39) =~= h.nonce_prefix@);
}

/// Law: parsing the serialised header gives the header back.
pub proof fn lemma_header_roundtrip(h: EncHeader, parsed: EncHeader)
    requires
        header_fields_of(parsed, header_bytes(h)),
    ensures
        parsed == h,
        header_bytes(h).len() == ENC_HEADER_LEN,
        header_bytes(h).subrange(0, 8) == enc_magic(),
{
    lemma_header_bytes(h);
    assert(parsed.vault_uuid =~= h.vault_uuid);
    assert(parsed.nonce_prefix =~= h.nonce_prefix);
}

/// The serialised manifest has the fixed length, starts with the magic and
/// carries the manifest's fields where `from_bytes` reads them.
pub proof fn lemma_manifest_bytes(m: DekManifest)
    ensures
        manifest_bytes(m).len() == MANIFEST_LEN,
        manifest_bytes(m).subrange(0, 4) == key_magic(),
        manifest_fields_of(m, manifest_bytes(m)),
{
    lemma_auto_spec_u32_to_from_le_bytes();
    let b = manifest_bytes(m);
    assert(b.subrange(0, 4) =~= key_magic());
    assert(b.subrange(4, 20) =~= m.vault_uuid@);
    assert(b.subrange(20, 24) =~= spec_u32_to_le_bytes(m.dek_version));
    assert(b.subrange(24, 56) =~= m.dek@);
}

/// Law: parsing the serialised manifest gives the manifest back.
pub proof fn lemma_manifest_roundtrip(m: DekManifest, parsed: DekManifest)
    requires
        manifest_fields_of(parsed, manifest_bytes(m)),
    ensures
        parsed == m,
        manifest_bytes(m).len() == MANIFEST_LEN,
        manifest_bytes(m).subrange(0, 4) == key_magic(),
{
    lemma_manifest_bytes(m);
    assert(parsed.vault_uuid =~= m.vault_uuid);
    assert(parsed.dek =~= m.dek);
}

} // verus!
