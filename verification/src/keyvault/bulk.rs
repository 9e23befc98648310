//! The bulk `.enc` file: ChaCha20-Poly1305 STREAM-BE32 over 64 KiB chunks,
//! with the 44-byte header bound as associated data of every chunk.
use chacha20poly1305::aead::generic_array::GenericArray;
use chacha20poly1305::aead::stream::{NewStream, StreamBE32, StreamPrimitive};
use chacha20poly1305::aead::Payload;
use chacha20poly1305::{ChaCha20Poly1305, Key, KeyInit};
use vstd::bytes::{spec_u32_from_le_bytes, lemma_auto_spec_u32_to_from_le_bytes};
use vstd::prelude::*;

use crate::keyvault::format::{
    enc_magic, header_bytes, header_fields_of, lemma_header_bytes, lemma_header_roundtrip, slice_range, EncHeader,
    VaultError, CHUNK_SIZE, CT_CHUNK_LEN, ENC_HEADER_LEN, TAG_LEN,
};

verus! {

/// Name for the ciphertext (with tag) that chacha20poly1305's STREAM-BE32
/// primitive produces for one chunk: key, nonce prefix, position, last-chunk
/// flag, message and associated data.
pub uninterp spec fn stream_seal(
    key: Seq<u8>,
    nonce_prefix: Seq<u8>,
    position: u32,
    last: bool,
    msg: Seq<u8>,
    aad: Seq<u8>,
) -> Seq<u8>;

/// Name for what chacha20poly1305's STREAM-BE32 primitive decrypts one chunk
/// to (`None` when it does not authenticate).
pub uninterp spec fn stream_open(
    key: Seq<u8>,
    nonce_prefix: Seq<u8>,
    position: u32,
    last: bool,
    ct: Seq<u8>,
    aad: Seq<u8>,
) -> Option<Seq<u8>>;

/// `StreamBE32::from_aead(ChaCha20Poly1305::new(key), prefix).encrypt(position, last, payload)`.
/// Trusted: the ciphertext is the named STREAM chunk and is the message plus
/// a 16-byte tag; the call cannot fail on a message of at most one chunk
/// (chacha20poly1305 only refuses messages of 2^32 blocks or more).
#[verifier::external_body]
fn stream_encrypt(
    key: &[u8; 32],
    nonce_prefix: &[u8; 7],
    position: u32,
    last: bool,
    msg: &[u8],
    aad: &[u8],
) -> (r: Option<Vec<u8>>)
    ensures
        r matches Some(c) ==> c@ == stream_seal(key@, nonce_prefix@, position, last, msg@, aad@),
        r matches Some(c) ==> c@.len() == msg@.len() + TAG_LEN,
        msg@.len() <= CHUNK_SIZE ==> r is Some,
{
    let stream: StreamBE32<ChaCha20Poly1305> = StreamBE32::from_aead(
        ChaCha20Poly1305::new(Key::from_slice(key)),
        GenericArray::from_slice(nonce_prefix),
    );
    stream.encrypt(position, last, Payload { msg, aad }).ok()
}

/// `StreamBE32::from_aead(ChaCha20Poly1305::new(key), prefix).decrypt(position, last, payload)`.
/// Trusted: the result is the named decryption; a plaintext is the ciphertext
/// without its 16-byte tag; a ciphertext shorter than a tag is refused; and a
/// chunk sealed under the same key, prefix, position, flag and associated data
/// decrypts to the message it was sealed from (AEAD correctness).
#[verifier::external_body]
fn stream_decrypt(
    key: &[u8; 32],
    nonce_prefix: &[u8; 7],
    position: u32,
    last: bool,
    ct: &[u8],
    aad: &[u8],
) -> (r: Option<Vec<u8>>)
    ensures
        r matches Some(p) ==> stream_open(key@, nonce_prefix@, position, last, ct@, aad@) == Some(
            p@,
        ),
        r is None ==> stream_open(key@, nonce_prefix@, position, last, ct@, aad@) is None,
        r matches Some(p) ==> p@.len() + TAG_LEN == ct@.len(),
        ct@.len() < TAG_LEN ==> r is None,
        r is None ==> forall|m: Seq<u8>|
            #[trigger] stream_seal(key@, nonce_prefix@, position, last, m, aad@) != ct@,
        r matches Some(p) ==> forall|m: Seq<u8>|
            #[trigger] stream_seal(key@, nonce_prefix@, position, last, m, aad@) == ct@ ==> p@ == m,

{
    let stream: StreamBE32<ChaCha20Poly1305> = StreamBE32::from_aead(
        ChaCha20Poly1305::new(Key::from_slice(key)),
        GenericArray::from_slice(nonce_prefix),
    );
    stream.decrypt(position, last, Payload { msg: ct, aad }).ok()
}

/// The chunk ciphertexts of `pt`, starting at STREAM position `pos`: full
/// chunks are sealed as "next", the final (possibly empty) short chunk as "last".
pub open spec fn sealed_chunks(
    key: Seq<u8>,
    np: Seq<u8>,
    aad: Seq<u8>,
    pt: Seq<u8>,
    pos: nat,
) -> Seq<u8>
    decreases pt.len(),
{
    if pt.len() < CHUNK_SIZE {
        stream_seal(key, np, pos as u32, true, pt, aad)
    } else {
        stream_seal(key, np, pos as u32, false, pt.take(CHUNK_SIZE as int), aad) + sealed_chunks(
            key,
            np,
            aad,
            pt.skip(CHUNK_SIZE as int),
            pos + 1,
        )
    }
}

/// Every chunk ciphertext of `sealed_chunks` is its message plus a tag.
pub open spec fn seal_lengths_ok(
    key: Seq<u8>,
    np: Seq<u8>,
    aad: Seq<u8>,
    pt: Seq<u8>,
    pos: nat,
) -> bool
    decreases pt.len(),
{
    if pt.len() < CHUNK_SIZE {
        stream_seal(key, np, pos as u32, true, pt, aad).len() == pt.len() + TAG_LEN
    } else {
        &&& stream_seal(key, np, pos as u32, false, pt.take(CHUNK_SIZE as int), aad).len()
            == CT_CHUNK_LEN
        &&& seal_lengths_ok(key, np, aad, pt.skip(CHUNK_SIZE as int), pos + 1)
    }
}

/// The whole `.enc` file for header `h` and plaintext `pt`.
pub open spec fn sealed_file(key: Seq<u8>, h: EncHeader, pt: Seq<u8>) -> Seq<u8> {
    header_bytes(h) + sealed_chunks(key, h.nonce_prefix@, header_bytes(h), pt, 0)
}

/// The STREAM counter does not run out: at most `u32::MAX` full chunks.
pub open spec fn sealable(pt: Seq<u8>) -> bool {
    pt.len() / (CHUNK_SIZE as nat) <= u32::MAX
}

/// Law (any plaintext the STREAM counter can number is sealable): a
/// plaintext can be sealed exactly when it has at most `u32::MAX` full
/// 64 KiB chunks — its size is no other limit.
pub proof fn lemma_sealable_iff_counter_fits(pt: Seq<u8>)
    ensures
        sealable(pt) <==> pt.len() / 65536 <= u32::MAX,
        pt.len() <= 65536 * 4 ==> sealable(pt),
{
}

/// What decrypting the chunk sequence `body` from position `pos` gives.
pub open spec fn opened_chunks(
    key: Seq<u8>,
    np: Seq<u8>,
    aad: Seq<u8>,
    body: Seq<u8>,
    pos: nat,
) -> Result<Seq<u8>, VaultError>
    decreases body.len(),
{
    if body.len() < CT_CHUNK_LEN {
        if body.len() < TAG_LEN {
            Err(VaultError::TruncatedChunk)
        } else {
            match stream_open(key, np, pos as u32, true, body, aad) {
                Some(p) => Ok(p),
                None => Err(VaultError::DecryptChunk),
            }
        }
    } else if pos >= u32::MAX {
        Err(VaultError::DecryptChunk)
    } else {
        match stream_open(key, np, pos as u32, false, body.take(CT_CHUNK_LEN as int), aad) {
            None => Err(VaultError::DecryptChunk),
            Some(p) => match opened_chunks(
                key,
                np,
                aad,
                body.skip(CT_CHUNK_LEN as int),
                pos + 1,
            ) {
                Ok(q) => Ok(p + q),
                Err(e) => Err(e),
            },
        }
    }
}

/// What opening a whole `.enc` file gives, given the uuid and DEK version
/// that the keyslot manifest announces.
pub open spec fn opened_file(
    key: Seq<u8>,
    uuid: Seq<u8>,
    version: u32,
    ct: Seq<u8>,
) -> Result<Seq<u8>, VaultError> {
    if ct.len() < ENC_HEADER_LEN {
        Err(VaultError::TruncatedHeader)
    } else {
        let hb = ct.take(ENC_HEADER_LEN as int);
        if hb.take(8) != enc_magic() {
            Err(VaultError::HeaderMagic)
        } else if hb.subrange(8, 24) != uuid {
            Err(VaultError::UuidMismatch)
        } else if spec_u32_from_le_bytes(hb.subrange(24, 28)) != version {
            Err(VaultError::VersionMismatch)
        } else if spec_u32_from_le_bytes(hb.subrange(28, 32)) != CHUNK_SIZE {
            Err(VaultError::UnsupportedChunkSize(spec_u32_from_le_bytes(hb.subrange(28, 32))))
        } else {
            opened_chunks(key, hb.subrange(32, 39), hb, ct.skip(ENC_HEADER_LEN as int), 0)
        }
    }
}

/// `pt` sealed under header `h` with `key` is exactly `ct`, as `seal_bulk` made it.
pub open spec fn is_sealing_of(key: Seq<u8>, h: EncHeader, pt: Seq<u8>, ct: Seq<u8>) -> bool {
    &&& ct == sealed_file(key, h, pt)
    &&& seal_lengths_ok(key, h.nonce_prefix@, header_bytes(h), pt, 0)
    &&& sealable(pt)
    &&& h.chunk_size == CHUNK_SIZE
}

proof fn lemma_sealed_shape(key: Seq<u8>, np: Seq<u8>, aad: Seq<u8>, s: Seq<u8>, pos: nat)
    requires
        seal_lengths_ok(key, np, aad, s, pos),
    ensures
        s.len() >= CHUNK_SIZE <==> sealed_chunks(key, np, aad, s, pos).len() >= CT_CHUNK_LEN,
        s.len() >= CHUNK_SIZE ==> sealed_chunks(key, np, aad, s, pos).take(CT_CHUNK_LEN as int)
            == stream_seal(key, np, pos as u32, false, s.take(CHUNK_SIZE as int), aad),
        s.len() >= CHUNK_SIZE ==> sealed_chunks(key, np, aad, s, pos).skip(CT_CHUNK_LEN as int)
            == sealed_chunks(key, np, aad, s.skip(CHUNK_SIZE as int), pos + 1),
{
    if s.len() >= CHUNK_SIZE {
        let c = stream_seal(key, np, pos as u32, false, s.take(CHUNK_SIZE as int), aad);
        let rest = sealed_chunks(key, np, aad, s.skip(CHUNK_SIZE as int), pos + 1);
        assert((c + rest).take(CT_CHUNK_LEN as int) =~= c);
        assert((c + rest).skip(CT_CHUNK_LEN as int) =~= rest);
    }
}

/// Appends `src` to `out`.
fn append_bytes(out: &mut Vec<u8>, src: &[u8])
    ensures
        final(out)@ == old(out)@ + src@,
{
    let ghost start = out@;
    let n = src.len();
    let mut i: usize = 0;
    while i < n
        invariant
            n == src@.len(),
            i <= n,
            out@ == start + src@.take(i as int),
        decreases n - i,
    {
        out.push(src[i]);
        i = i + 1;
        assert(out@ =~= start + src@.take(i as int));
    }
    assert(src@.take(n as int) =~= src@);
}

/// Seals `plaintext` under `dek`: the header, then one STREAM chunk per 64 KiB
/// of plaintext, the last (possibly empty) chunk flagged as last.
pub fn seal_bulk(dek: &[u8; 32], header: &EncHeader, plaintext: &[u8]) -> (r: Result<
    Vec<u8>,
    VaultError,
>)
    ensures
        r is Ok <==> sealable(plaintext@),
        plaintext@.len() / 65536 <= u32::MAX ==> r is Ok,
        r is Err ==> plaintext@.len() / 65536 > u32::MAX,
        r is Err ==> r == Err::<Vec<u8>, VaultError>(VaultError::EncryptChunk),
        r matches Ok(c) ==> c@ == sealed_file(dek@, *header, plaintext@),
        r matches Ok(c) ==> seal_lengths_ok(
            dek@,
            header.nonce_prefix@,
            header_bytes(*header),
            plaintext@,
            0,
        ),
{
    let hb = header.to_bytes();
    let aad = hb.as_slice();
    let ghost key = dek@;
    let ghost np = header.nonce_prefix@;
    let ghost pt = plaintext@;
    let mut out: Vec<u8> = Vec::new();
    append_bytes(&mut out, aad);
    let len = plaintext.len();
    let mut off: usize = 0;
    let mut pos: u32 = 0;
    assert(pt.skip(0) =~= pt);
    loop
        invariant
            len == pt.len(),
            pt == plaintext@,
            key == dek@,
            np == header.nonce_prefix@,
            aad@ == header_bytes(*header),
            off <= len,
            off == pos as int * CHUNK_SIZE,
            header_bytes(*header) + sealed_chunks(key, np, aad@, pt, 0) == out@ + sealed_chunks(
                key,
                np,
                aad@,
                pt.skip(off as int),
                pos as nat,
            ),
            seal_lengths_ok(key, np, aad@, pt, 0) == seal_lengths_ok(
                key,
                np,
                aad@,
                pt.skip(off as int),
                pos as nat,
            ),
        decreases len - off,
    {
        let rest = len - off;
        if rest < CHUNK_SIZE {
            let msg = slice_range(plaintext, off, len);
            assert(msg@ =~= pt.skip(off as int));
            let ct = stream_encrypt(dek, &header.nonce_prefix, pos, true, msg, aad);
            match ct {
                Some(c) => {
                    let mut c = c;
                    out.append(&mut c);
                    assert(len as int / CHUNK_SIZE as int == pos) by (nonlinear_arith)
                        requires
                            off == pos as int * CHUNK_SIZE,
                            len - off < CHUNK_SIZE,
                            off <= len,
                    ;
                    return Ok(out);
                },
                None => {
                    return Err(VaultError::EncryptChunk);
                },
            }
        }
        if pos == u32::MAX {
            assert(len as int / CHUNK_SIZE as int > u32::MAX) by (nonlinear_arith)
                requires
                    off == pos as int * CHUNK_SIZE,
                    len - off >= CHUNK_SIZE,
                    pos == u32::MAX,
            ;
            return Err(VaultError::EncryptChunk);
        }
        let msg = slice_range(plaintext, off, off + CHUNK_SIZE);
        assert(msg@ =~= pt.skip(off as int).take(CHUNK_SIZE as int));
        let ct = stream_encrypt(dek, &header.nonce_prefix, pos, false, msg, aad);
        match ct {
            Some(c) => {
                let mut c = c;
                out.append(&mut c);
            },
            None => {
                return Err(VaultError::EncryptChunk);
            },
        }
        assert(pt.skip(off as int).skip(CHUNK_SIZE as int) =~= pt.skip(off + CHUNK_SIZE));
        off = off + CHUNK_SIZE;
        pos = pos + 1;
    }
}

/// Opens a `.enc` file: checks the header against the manifest's uuid and DEK
/// version and the supported chunk size, then decrypts chunk by chunk; a
/// chunk of fewer than `CT_CHUNK_LEN` bytes is the last one.
pub fn open_bulk(dek: &[u8; 32], expected_uuid: &[u8; 16], expected_version: u32, ciphertext: &[u8]) -> (r: Result<
    Vec<u8>,
    VaultError,
>)
    ensures
        match r {
            Ok(p) => opened_file(dek@, expected_uuid@, expected_version, ciphertext@) == Ok::<
                Seq<u8>,
                VaultError,
            >(p@),
            Err(e) => opened_file(dek@, expected_uuid@, expected_version, ciphertext@) == Err::<
                Seq<u8>,
                VaultError,
            >(e),
        },
        forall|h: EncHeader, pt: Seq<u8>|
            #![trigger is_sealing_of(dek@, h, pt, ciphertext@)]
            is_sealing_of(dek@, h, pt, ciphertext@) && h.vault_uuid@ == expected_uuid@
                && h.dek_version == expected_version ==> (r matches Ok(p) && p@ == pt),
{
    let ghost key = dek@;
    let ghost ct = ciphertext@;
    let total = ciphertext.len();
    if total < ENC_HEADER_LEN {
        assert forall|h: EncHeader, pt: Seq<u8>|
            #![trigger is_sealing_of(dek@, h, pt, ciphertext@)]
            is_sealing_of(dek@, h, pt, ciphertext@) implies false by {
            lemma_auto_spec_u32_to_from_le_bytes();
            assert(header_bytes(h).len() == ENC_HEADER_LEN);
        }
        return Err(VaultError::TruncatedHeader);
    }
    let hslice = slice_range(ciphertext, 0, ENC_HEADER_LEN);
    let ghost hb = hslice@;
    assert(hb =~= ct.take(ENC_HEADER_LEN as int));
    // Facts about any sealing of a plaintext that yields this ciphertext.
    assert forall|h: EncHeader, pt: Seq<u8>|
        #![trigger is_sealing_of(dek@, h, pt, ciphertext@)]
        is_sealing_of(dek@, h, pt, ciphertext@) implies hb == header_bytes(h) && ct.skip(
            ENC_HEADER_LEN as int,
        ) == sealed_chunks(key, h.nonce_prefix@, header_bytes(h), pt, 0) by {
        lemma_auto_spec_u32_to_from_le_bytes();
        assert(header_bytes(h).len() == ENC_HEADER_LEN);
        assert(ct.take(ENC_HEADER_LEN as int) =~= header_bytes(h));
        assert(ct.skip(ENC_HEADER_LEN as int) =~= sealed_chunks(
            key,
            h.nonce_prefix@,
            header_bytes(h),
            pt,
            0,
        ));
    }
    let header = match EncHeader::from_bytes(hslice) {
        Ok(h) => h,
        Err(e) => {
            assert forall|h: EncHeader, pt: Seq<u8>|
                #![trigger is_sealing_of(dek@, h, pt, ciphertext@)]
                is_sealing_of(dek@, h, pt, ciphertext@) implies false by {
                lemma_header_bytes(h);
            }
            assert(hb.take(8) =~= hb.subrange(0, 8));
            return Err(e);
        },
    };
    assert(hb.take(8) =~= hb.subrange(0, 8));
    assert forall|h: EncHeader, pt: Seq<u8>|
        #![trigger is_sealing_of(dek@, h, pt, ciphertext@)]
        is_sealing_of(dek@, h, pt, ciphertext@) implies header == h by {
        lemma_header_roundtrip(h, header);
    }
    if !uuid_eq(&header.vault_uuid, expected_uuid) {
        return Err(VaultError::UuidMismatch);
    }
    if header.dek_version != expected_version {
        return Err(VaultError::VersionMismatch);
    }
    if header.chunk_size as usize != CHUNK_SIZE {
        return Err(VaultError::UnsupportedChunkSize(header.chunk_size));
    }
    let ghost np = header.nonce_prefix@;
    let ghost body = ct.skip(ENC_HEADER_LEN as int);
    let ghost target = opened_chunks(key, np, hb, body, 0);
    assert(opened_file(key, expected_uuid@, expected_version, ct) == target);
    let mut out: Vec<u8> = Vec::new();
    let mut off: usize = ENC_HEADER_LEN;
    let mut pos: u32 = 0;
    assert forall|h: EncHeader, pt: Seq<u8>|
        #![trigger is_sealing_of(dek@, h, pt, ciphertext@)]
        is_sealing_of(dek@, h, pt, ciphertext@) implies out@ == pt.take(0) && pt.skip(0) == pt by {
        assert(pt.take(0) =~= out@);
        assert(pt.skip(0) =~= pt);
    }
    loop
        invariant
            total == ct.len(),
            ct == ciphertext@,
            key == dek@,
            np == header.nonce_prefix@,
            hslice@ == hb,
            ENC_HEADER_LEN <= off <= total,
            body == ct.skip(ENC_HEADER_LEN as int),
            opened_file(key, expected_uuid@, expected_version, ct) == target,
            off - ENC_HEADER_LEN == pos as int * CT_CHUNK_LEN,
            target == match opened_chunks(key, np, hb, ct.skip(off as int), pos as nat) {
                Ok(q) => Ok(out@ + q),
                Err(e) => Err(e),
            },
            forall|h: EncHeader, pt: Seq<u8>|
                #![trigger is_sealing_of(dek@, h, pt, ciphertext@)]
                is_sealing_of(dek@, h, pt, ciphertext@) ==> {
                    &&& h == header
                    &&& (pos as int) * CHUNK_SIZE <= pt.len()
                    &&& out@ == pt.take(pos as int * CHUNK_SIZE)
                    &&& ct.skip(off as int) == sealed_chunks(
                        key,
                        np,
                        hb,
                        pt.skip(pos as int * CHUNK_SIZE),
                        pos as nat,
                    )
                    &&& seal_lengths_ok(key, np, hb, pt.skip(pos as int * CHUNK_SIZE), pos as nat)
                    &&& pt.skip(pos as int * CHUNK_SIZE).len() / (CHUNK_SIZE as nat) + pos <= u32::MAX
                },
        decreases total - off,
    {
        let ghost rest = ct.skip(off as int);
        let n = total - off;
        assert(rest.len() == n);
        assert forall|h: EncHeader, pt: Seq<u8>|
            #![trigger is_sealing_of(dek@, h, pt, ciphertext@)]
            is_sealing_of(dek@, h, pt, ciphertext@) implies (n >= CT_CHUNK_LEN <==> pt.skip(
                pos as int * CHUNK_SIZE,
            ).len() >= CHUNK_SIZE) by {
            lemma_sealed_shape(key, np, hb, pt.skip(pos as int * CHUNK_SIZE), pos as nat);
        }
        if n < CT_CHUNK_LEN {
            if n < TAG_LEN {
                assert forall|h: EncHeader, pt: Seq<u8>|
                    #![trigger is_sealing_of(dek@, h, pt, ciphertext@)]
                    is_sealing_of(dek@, h, pt, ciphertext@) implies false by {
                    let s = pt.skip(pos as int * CHUNK_SIZE);
                    assert(rest == stream_seal(key, np, pos, true, s, hb));
                }
                return Err(VaultError::TruncatedChunk);
            }
            let chunk = slice_range(ciphertext, off, total);
            assert(chunk@ =~= rest);
            let p = stream_decrypt(dek, &header.nonce_prefix, pos, true, chunk, hslice);
            match p {
                Some(p) => {
                    let mut p = p;
                    let ghost before = out@;
                    out.append(&mut p);
                    assert forall|h: EncHeader, pt: Seq<u8>|
                        #![trigger is_sealing_of(dek@, h, pt, ciphertext@)]
                        is_sealing_of(dek@, h, pt, ciphertext@) implies out@ == pt by {
                        let s = pt.skip(pos as int * CHUNK_SIZE);
                        assert(rest == stream_seal(key, np, pos, true, s, hb));
                        assert(pt =~= pt.take(pos as int * CHUNK_SIZE) + s);
                    }
                    return Ok(out);
                },
                None => {
                    assert forall|h: EncHeader, pt: Seq<u8>|
                        #![trigger is_sealing_of(dek@, h, pt, ciphertext@)]
                        is_sealing_of(dek@, h, pt, ciphertext@) implies false by {
                        let s = pt.skip(pos as int * CHUNK_SIZE);
                        assert(rest == stream_seal(key, np, pos, true, s, hb));
                    }
                    return Err(VaultError::DecryptChunk);
                },
            }
        }
        if pos == u32::MAX {
            assert forall|h: EncHeader, pt: Seq<u8>|
                #![trigger is_sealing_of(dek@, h, pt, ciphertext@)]
                is_sealing_of(dek@, h, pt, ciphertext@) implies false by {
                let s = pt.skip(pos as int * CHUNK_SIZE);
                assert(s.len() / (CHUNK_SIZE as nat) >= 1) by (nonlinear_arith)
                    requires
                        s.len() >= CHUNK_SIZE,
                ;
            }
            return Err(VaultError::DecryptChunk);
        }
        let chunk = slice_range(ciphertext, off, off + CT_CHUNK_LEN);
        assert(chunk@ =~= rest.take(CT_CHUNK_LEN as int));
        let p = stream_decrypt(dek, &header.nonce_prefix, pos, false, chunk, hslice);
        match p {
            Some(p) => {
                let mut p = p;
                let ghost before = out@;
                let ghost pv = p@;
                out.append(&mut p);
                assert(rest.skip(CT_CHUNK_LEN as int) =~= ct.skip(off + CT_CHUNK_LEN));
                assert forall|h: EncHeader, pt: Seq<u8>|
                    #![trigger is_sealing_of(dek@, h, pt, ciphertext@)]
                    is_sealing_of(dek@, h, pt, ciphertext@) implies {
                        &&& (pos + 1) as int * CHUNK_SIZE <= pt.len()
                        &&& out@ == pt.take((pos + 1) as int * CHUNK_SIZE)
                        &&& ct.skip(off + CT_CHUNK_LEN) == sealed_chunks(
                            key,
                            np,
                            hb,
                            pt.skip((pos + 1) as int * CHUNK_SIZE),
                            (pos + 1) as nat,
                        )
                        &&& seal_lengths_ok(
                            key,
                            np,
                            hb,
                            pt.skip((pos + 1) as int * CHUNK_SIZE),
                            (pos + 1) as nat,
                        )
                        &&& pt.skip((pos + 1) as int * CHUNK_SIZE).len() / (CHUNK_SIZE as nat) + (
                        pos + 1) <= u32::MAX
                    } by {
                    let s = pt.skip(pos as int * CHUNK_SIZE);
                    lemma_sealed_shape(key, np, hb, s, pos as nat);
                    assert(rest.take(CT_CHUNK_LEN as int) == stream_seal(
                        key,
                        np,
                        pos,
                        false,
                        s.take(CHUNK_SIZE as int),
                        hb,
                    ));
                    assert(s.skip(CHUNK_SIZE as int) =~= pt.skip((pos + 1) as int * CHUNK_SIZE));
                    assert(pt.take((pos + 1) as int * CHUNK_SIZE) =~= pt.take(
                        pos as int * CHUNK_SIZE,
                    ) + s.take(CHUNK_SIZE as int));
                    assert(s.skip(CHUNK_SIZE as int).len() == s.len() - CHUNK_SIZE);
                    assert((s.len() - CHUNK_SIZE) as nat / (CHUNK_SIZE as nat) + 1 == s.len()
                        / (CHUNK_SIZE as nat)) by (nonlinear_arith)
                        requires
                            s.len() >= CHUNK_SIZE,
                    ;
                }
                assert(match opened_chunks(key, np, hb, rest, pos as nat) {
                    Ok(q) => Ok(before + q),
                    Err(e) => Err(e),
                } == match opened_chunks(
                    key,
                    np,
                    hb,
                    ct.skip(off + CT_CHUNK_LEN),
                    (pos + 1) as nat,
                ) {
                    Ok(q) => Ok(out@ + q),
                    Err(e) => Err::<Seq<u8>, VaultError>(e),
                }) by {
                    match opened_chunks(key, np, hb, ct.skip(off + CT_CHUNK_LEN), (pos + 1) as nat) {
                        Ok(q) => {
                            assert(before + (pv + q) =~= out@ + q);
                        },
                        Err(e) => {},
                    }
                }
                off = off + CT_CHUNK_LEN;
                pos = pos + 1;
            },
            None => {
                assert forall|h: EncHeader, pt: Seq<u8>|
                    #![trigger is_sealing_of(dek@, h, pt, ciphertext@)]
                    is_sealing_of(dek@, h, pt, ciphertext@) implies false by {
                    let s = pt.skip(pos as int * CHUNK_SIZE);
                    lemma_sealed_shape(key, np, hb, s, pos as nat);
                }
                return Err(VaultError::DecryptChunk);
            },
        }
    }
}

/// Byte-wise equality of two uuids.
fn uuid_eq(a: &[u8; 16], b: &[u8; 16]) -> (r: bool)
    ensures
        r == (a@ == b@),
{
    let mut i: usize = 0;
    while i < 16
        invariant
            i <= 16,
            forall|k: int| 0 <= k < i ==> a@[k] == b@[k],
        decreases 16 - i,
    {
        if a[i] != b[i] {
            return false;
        }
        i = i + 1;
    }
    assert(a@ =~= b@);
    true
}

} // verus!
