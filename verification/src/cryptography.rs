use vstd::prelude::*;

use crate::hex::{
    hex_decode, hex_encode, hex_encoding, is_hex_digit, is_hex_text, lemma_hex_encoding_injective,
    lemma_hex_encoding_is_hex_text,
};

verus! {

/// The 32-byte key that Argon2id (default parameters) derives from a
/// passphrase and a salt. The algorithm is deterministic in its inputs,
/// so the result is a function of them; it is far too large to write
/// out, so it only gets a name here.
pub uninterp spec fn derived_key(password: Seq<u8>, salt: Seq<u8>) -> Seq<u8>;

/// The AES-128-CTR keystream transform that AES-GCM applies to the
/// payload: the input XORed with a keystream determined by (key, nonce).
/// Encryption and decryption both apply this same transform.
pub uninterp spec fn gcm_stream(key: Seq<u8>, nonce: Seq<u8>, data: Seq<u8>) -> Seq<u8>;

/// The 16-byte GHASH authentication tag that AES-GCM computes over a
/// ciphertext under (key, nonce), with empty associated data.
pub uninterp spec fn gcm_tag(key: Seq<u8>, nonce: Seq<u8>, cipher_text: Seq<u8>) -> Seq<u8>;

/// The effective 128-bit AEAD key: the first 16 bytes of the derived key.
pub open spec fn enc_key(password: Seq<u8>, salt: Seq<u8>) -> Seq<u8> {
    derived_key(password, salt).take(16)
}

/// How one load or store of an envelope can fail.
#[derive(Clone, Copy, Debug, PartialEq, Eq, Structural)]
pub enum CryptoError {
    /// The envelope text is not `hex(nonce)/hex(ciphertext)/hex(tag)`
    /// with a 12-byte nonce.
    Format,
    /// The authentication tag does not match: a wrong passphrase, or
    /// tampered or corrupted data. The two are indistinguishable.
    Authentication,
    /// Key derivation failed; this happens only on resource exhaustion
    /// and is fatal for the operation.
    KeyDerivation,
}

/// Relies on argon2: `Argon2::default().hash_password_into` writes the
/// Argon2id hash of (password, salt) into the 32-byte output buffer.
/// With a 32-byte salt and a password no longer than 2^32 - 1 bytes the
/// inputs are within the documented bounds, so it fails only when the
/// working memory cannot be allocated.
#[verifier::external_body]
fn argon2_derive(password: &Vec<u8>, salt: &Vec<u8>) -> (r: Result<Vec<u8>, ()>)
    requires
        salt@.len() == 32,
        password@.len() <= 0xFFFF_FFFF,
    ensures
        r matches Ok(k) ==> k@ == derived_key(password@, salt@) && k@.len() == 32,
{
    let mut out: Vec<u8> = vec![0u8; 32];
    match argon2::Argon2::default().hash_password_into(password, salt, &mut out) {
        Ok(()) => Ok(out),
        Err(_) => Err(()),
    }
}

/// Relies on rand: `rand::random` draws one byte from the thread-local
/// entropy-seeded generator. Nothing can be promised of a random value.
#[verifier::external_body]
fn random_byte() -> u8 {
    rand::random()
}

/// Relies on rust-crypto: `AesGcm::encrypt` with a 16-byte key, a
/// 12-byte nonce and empty associated data applies the CTR keystream to
/// the payload and emits the 16-byte GHASH tag over the ciphertext.
/// Applying the same keystream to the ciphertext gives the payload back,
/// since the transform is an XOR with a keystream fixed by (key, nonce).
#[verifier::external_body]
fn aes_gcm_seal(key: &Vec<u8>, nonce: &Vec<u8>, data: &Vec<u8>) -> (r: (Vec<u8>, Vec<u8>))
    requires
        key@.len() == 16,
        nonce@.len() == 12,
    ensures
        r.0@ == gcm_stream(key@, nonce@, data@),
        r.0@.len() == data@.len(),
        gcm_stream(key@, nonce@, r.0@) == data@,
        r.1@ == gcm_tag(key@, nonce@, r.0@),
        r.1@.len() == 16,
{
    let mut cipher = crypto::aes_gcm::AesGcm::new(crypto::aes::KeySize::KeySize128, key, nonce, &[]);
    let mut out: Vec<u8> = vec![0u8; data.len()];
    let mut tag: Vec<u8> = vec![0u8; 16];
    crypto::aead::AeadEncryptor::encrypt(&mut cipher, data, &mut out, &mut tag);
    (out, tag)
}

/// Relies on rust-crypto: `AesGcm::decrypt` recomputes the GHASH tag
/// over the ciphertext and compares it against the given tag in fixed
/// time; only on a match does it apply the CTR keystream and succeed.
/// A tag of the wrong length never matches the 16-byte computed tag.
#[verifier::external_body]
fn aes_gcm_open(key: &Vec<u8>, nonce: &Vec<u8>, cipher_text: &Vec<u8>, tag: &Vec<u8>) -> (r: Option<
    Vec<u8>,
>)
    requires
        key@.len() == 16,
        nonce@.len() == 12,
    ensures
        r is Some <==> tag@ == gcm_tag(key@, nonce@, cipher_text@),
        r matches Some(p) ==> p@ == gcm_stream(key@, nonce@, cipher_text@),
{
    let mut decipher = crypto::aes_gcm::AesGcm::new(
        crypto::aes::KeySize::KeySize128,
        key,
        nonce,
        &[],
    );
    let mut out: Vec<u8> = vec![0u8; cipher_text.len()];
    if crypto::aead::AeadDecryptor::decrypt(&mut decipher, cipher_text, &mut out, tag) {
        Some(out)
    } else {
        None
    }
}

/// The envelope text for a (nonce, ciphertext, tag) triple: each part
/// hex-encoded, the parts joined by `/` (ASCII 47).
pub open spec fn envelope_of(nonce: Seq<u8>, cipher_text: Seq<u8>, tag: Seq<u8>) -> Seq<u8> {
    hex_encoding(nonce) + seq![47u8] + hex_encoding(cipher_text) + seq![47u8] + hex_encoding(tag)
}

/// The text is the envelope of some triple with a 12-byte nonce: three
/// hex fields separated by `/`.
pub open spec fn well_formed_envelope(env: Seq<u8>) -> bool {
    exists|nonce: Seq<u8>, cipher_text: Seq<u8>, tag: Seq<u8>|
        nonce.len() == 12 && env == #[trigger] envelope_of(nonce, cipher_text, tag)
}

/// `env` is what sealing `data` under `key` with this `nonce` produces,
/// and unsealing its ciphertext gives `data` back.
pub open spec fn seals_with(env: Seq<u8>, key: Seq<u8>, data: Seq<u8>, nonce: Seq<u8>) -> bool {
    &&& nonce.len() == 12
    &&& gcm_stream(key, nonce, data).len() == data.len()
    &&& gcm_tag(key, nonce, gcm_stream(key, nonce, data)).len() == 16
    &&& gcm_stream(key, nonce, gcm_stream(key, nonce, data)) == data
    &&& env == envelope_of(
        nonce,
        gcm_stream(key, nonce, data),
        gcm_tag(key, nonce, gcm_stream(key, nonce, data)),
    )
}

/// `env` is an encryption of `data` under `key`, for some nonce.
pub open spec fn sealed_for(env: Seq<u8>, key: Seq<u8>, data: Seq<u8>) -> bool {
    exists|nonce: Seq<u8>| seals_with(env, key, data, nonce)
}

/// The envelope's tag field is the true tag of its ciphertext under
/// `key`: decryption under `key` accepts it.
pub open spec fn authentic_envelope(env: Seq<u8>, key: Seq<u8>) -> bool {
    exists|nonce: Seq<u8>, cipher_text: Seq<u8>|
        nonce.len() == 12 && env == #[trigger] envelope_of(
            nonce,
            cipher_text,
            gcm_tag(key, nonce, cipher_text),
        )
}

/// Decrypting `env` under `key` can return `plain`: the envelope is the
/// triple (nonce, cipher_text, true tag) and `plain` is the unsealed
/// ciphertext.
pub open spec fn opens_with(
    env: Seq<u8>,
    key: Seq<u8>,
    plain: Seq<u8>,
    nonce: Seq<u8>,
    cipher_text: Seq<u8>,
) -> bool {
    &&& nonce.len() == 12
    &&& env == envelope_of(nonce, cipher_text, gcm_tag(key, nonce, cipher_text))
    &&& plain == gcm_stream(key, nonce, cipher_text)
}

/// Decrypting `env` under `key` can return `plain`.
pub open spec fn decrypts_to(env: Seq<u8>, key: Seq<u8>, plain: Seq<u8>) -> bool {
    exists|nonce: Seq<u8>, cipher_text: Seq<u8>|
        #[trigger] opens_with(env, key, plain, nonce, cipher_text)
}

/// Hex text never contains the separator.
proof fn lemma_hex_text_no_slash(s: Seq<u8>)
    requires
        is_hex_text(s),
    ensures
        forall|i: int| 0 <= i < s.len() ==> s[i] != 47,
{
    assert forall|i: int| 0 <= i < s.len() implies s[i] != 47 by {
        assert(is_hex_digit(s[i]));
    }
}

/// A text splits in only one way at a separator that neither left part
/// contains.
proof fn lemma_split_at_slash_unique(a1: Seq<u8>, b1: Seq<u8>, a2: Seq<u8>, b2: Seq<u8>)
    requires
        a1 + seq![47u8] + b1 == a2 + seq![47u8] + b2,
        forall|i: int| 0 <= i < a1.len() ==> a1[i] != 47,
        forall|i: int| 0 <= i < a2.len() ==> a2[i] != 47,
    ensures
        a1 == a2,
        b1 == b2,
{
    let s = a1 + seq![47u8] + b1;
    assert(s.len() == a1.len() + 1 + b1.len());
    assert(s.len() == a2.len() + 1 + b2.len());
    if a1.len() < a2.len() {
        assert(s[a1.len() as int] == 47);
        assert(s[a1.len() as int] == a2[a1.len() as int]);
        assert(false);
    }
    if a2.len() < a1.len() {
        assert(s[a2.len() as int] == 47);
        assert(s[a2.len() as int] == a1[a2.len() as int]);
        assert(false);
    }
    assert forall|i: int| 0 <= i < a1.len() implies a1[i] == a2[i] by {
        assert(s[i] == a1[i]);
        assert(s[i] == a2[i]);
    }
    assert(a1 =~= a2);
    assert forall|i: int| 0 <= i < b1.len() implies b1[i] == b2[i] by {
        assert(s[a1.len() + 1 + i] == b1[i]);
        assert(s[a2.len() + 1 + i] == b2[i]);
    }
    assert(b1 =~= b2);
}

/// The envelope encoding is unambiguous: equal envelope texts come from
/// equal triples.
pub proof fn lemma_envelope_of_unique(
    n1: Seq<u8>,
    c1: Seq<u8>,
    t1: Seq<u8>,
    n2: Seq<u8>,
    c2: Seq<u8>,
    t2: Seq<u8>,
)
    requires
        envelope_of(n1, c1, t1) == envelope_of(n2, c2, t2),
    ensures
        n1 == n2,
        c1 == c2,
        t1 == t2,
{
    lemma_hex_encoding_is_hex_text(n1);
    lemma_hex_encoding_is_hex_text(c1);
    lemma_hex_encoding_is_hex_text(t1);
    lemma_hex_encoding_is_hex_text(n2);
    lemma_hex_encoding_is_hex_text(c2);
    lemma_hex_encoding_is_hex_text(t2);
    lemma_hex_text_no_slash(hex_encoding(n1));
    lemma_hex_text_no_slash(hex_encoding(c1));
    lemma_hex_text_no_slash(hex_encoding(t1));
    lemma_hex_text_no_slash(hex_encoding(n2));
    lemma_hex_text_no_slash(hex_encoding(c2));
    lemma_hex_text_no_slash(hex_encoding(t2));
    let r1 = hex_encoding(c1) + seq![47u8] + hex_encoding(t1);
    let r2 = hex_encoding(c2) + seq![47u8] + hex_encoding(t2);
    assert(envelope_of(n1, c1, t1) =~= hex_encoding(n1) + seq![47u8] + r1);
    assert(envelope_of(n2, c2, t2) =~= hex_encoding(n2) + seq![47u8] + r2);
    lemma_split_at_slash_unique(hex_encoding(n1), r1, hex_encoding(n2), r2);
    lemma_hex_encoding_injective(n1, n2);
    lemma_split_at_slash_unique(hex_encoding(c1), hex_encoding(t1), hex_encoding(c2), hex_encoding(t2));
    lemma_hex_encoding_injective(c1, c2);
    lemma_hex_encoding_injective(t1, t2);
}

/// What encrypt produced, decrypt accepts.
pub proof fn lemma_sealed_is_authentic(env: Seq<u8>, key: Seq<u8>, data: Seq<u8>)
    requires
        sealed_for(env, key, data),
    ensures
        authentic_envelope(env, key),
        well_formed_envelope(env),
{
    let nonce = choose|nonce: Seq<u8>| seals_with(env, key, data, nonce);
    let c = gcm_stream(key, nonce, data);
    assert(env == envelope_of(nonce, c, gcm_tag(key, nonce, c)));
}

/// Round trip: any successful decryption of an envelope that sealed
/// `data` under `key`, under that same `key`, returns exactly `data`.
pub proof fn lemma_round_trip(
    env: Seq<u8>,
    key: Seq<u8>,
    data: Seq<u8>,
    plain: Seq<u8>,
    nonce: Seq<u8>,
    cipher_text: Seq<u8>,
)
    requires
        sealed_for(env, key, data),
        opens_with(env, key, plain, nonce, cipher_text),
    ensures
        plain == data,
{
    let n0 = choose|n0: Seq<u8>| seals_with(env, key, data, n0);
    let c0 = gcm_stream(key, n0, data);
    lemma_envelope_of_unique(
        n0,
        c0,
        gcm_tag(key, n0, c0),
        nonce,
        cipher_text,
        gcm_tag(key, nonce, cipher_text),
    );
    assert(plain == gcm_stream(key, n0, c0));
}

/// Nonce freshness is visible: two seals of the same payload under the
/// same key with distinct nonces give distinct envelopes. That each
/// encryption draws a fresh nonce is a property of randomness that no
/// contract can state; this pins what follows from it.
pub proof fn lemma_distinct_nonces_distinct_envelopes(
    env1: Seq<u8>,
    env2: Seq<u8>,
    key: Seq<u8>,
    data: Seq<u8>,
    nonce1: Seq<u8>,
    nonce2: Seq<u8>,
)
    requires
        seals_with(env1, key, data, nonce1),
        seals_with(env2, key, data, nonce2),
        nonce1 != nonce2,
    ensures
        env1 != env2,
{
    if env1 == env2 {
        let c1 = gcm_stream(key, nonce1, data);
        let c2 = gcm_stream(key, nonce2, data);
        lemma_envelope_of_unique(
            nonce1,
            c1,
            gcm_tag(key, nonce1, c1),
            nonce2,
            c2,
            gcm_tag(key, nonce2, c2),
        );
        assert(false);
    }
}

/// Tamper detection for the tag field: an envelope whose tag field holds
/// anything but the true tag of its ciphertext is rejected under `key`.
/// Flipping a hex character of the tag portion changes the decoded tag,
/// so such an envelope is never decrypted successfully.
pub proof fn lemma_tag_tamper_rejected(key: Seq<u8>, nonce: Seq<u8>, cipher_text: Seq<u8>, tag2: Seq<u8>)
    requires
        nonce.len() == 12,
        tag2 != gcm_tag(key, nonce, cipher_text),
    ensures
        !authentic_envelope(envelope_of(nonce, cipher_text, tag2), key),
{
    let env = envelope_of(nonce, cipher_text, tag2);
    if authentic_envelope(env, key) {
        let (n2, c2) = choose|n2: Seq<u8>, c2: Seq<u8>|
            n2.len() == 12 && env == #[trigger] envelope_of(n2, c2, gcm_tag(key, n2, c2));
        lemma_envelope_of_unique(nonce, cipher_text, tag2, n2, c2, gcm_tag(key, n2, c2));
        assert(false);
    }
}

/// Tamper detection for the ciphertext field: replacing the ciphertext
/// of an envelope while keeping its tag is rejected under `key`, unless
/// the two ciphertexts collide on their tag — which AES-GCM admits only
/// with negligible probability and no spec here can rule out.
pub proof fn lemma_cipher_tamper_rejected(
    key: Seq<u8>,
    nonce: Seq<u8>,
    cipher_text: Seq<u8>,
    cipher_text2: Seq<u8>,
)
    requires
        nonce.len() == 12,
        gcm_tag(key, nonce, cipher_text2) != gcm_tag(key, nonce, cipher_text),
    ensures
        !authentic_envelope(envelope_of(nonce, cipher_text2, gcm_tag(key, nonce, cipher_text)), key),
{
    let env = envelope_of(nonce, cipher_text2, gcm_tag(key, nonce, cipher_text));
    if authentic_envelope(env, key) {
        let (n2, c2) = choose|n2: Seq<u8>, c2: Seq<u8>|
            n2.len() == 12 && env == #[trigger] envelope_of(n2, c2, gcm_tag(key, n2, c2));
        lemma_envelope_of_unique(
            nonce,
            cipher_text2,
            gcm_tag(key, nonce, cipher_text),
            n2,
            c2,
            gcm_tag(key, n2, c2),
        );
        assert(false);
    }
}

/// Wrong key: an envelope sealed under `key1` with this nonce is
/// rejected under any `key2` whose tag for that nonce and ciphertext
/// differs — every other key, barring a tag collision.
pub proof fn lemma_wrong_key_rejected(
    env: Seq<u8>,
    key1: Seq<u8>,
    key2: Seq<u8>,
    data: Seq<u8>,
    nonce: Seq<u8>,
)
    requires
        seals_with(env, key1, data, nonce),
        gcm_tag(key2, nonce, gcm_stream(key1, nonce, data)) != gcm_tag(
            key1,
            nonce,
            gcm_stream(key1, nonce, data),
        ),
    ensures
        !authentic_envelope(env, key2),
{
    let c0 = gcm_stream(key1, nonce, data);
    if authentic_envelope(env, key2) {
        let (n2, c2) = choose|n2: Seq<u8>, c2: Seq<u8>|
            n2.len() == 12 && env == #[trigger] envelope_of(n2, c2, gcm_tag(key2, n2, c2));
        lemma_envelope_of_unique(nonce, c0, gcm_tag(key1, nonce, c0), n2, c2, gcm_tag(key2, n2, c2));
        assert(false);
    }
}

/// Key derivation is deterministic: any two keys derived from the same
/// passphrase and salt are equal, since `key_derivation` pins its result
/// to a function of the two inputs.
pub proof fn lemma_key_derivation_deterministic(
    password: Seq<u8>,
    salt: Seq<u8>,
    key1: Seq<u8>,
    key2: Seq<u8>,
)
    requires
        key1 == derived_key(password, salt),
        key2 == derived_key(password, salt),
    ensures
        key1 == key2,
{
}

/// Derive the 32-byte symmetric key for (passphrase, salt) with Argon2id.
/// Failure happens only on resource exhaustion and is fatal.
pub fn key_derivation(password: &Vec<u8>, salt: &Vec<u8>) -> (r: Result<Vec<u8>, CryptoError>)
    requires
        salt@.len() == 32,
        password@.len() <= 0xFFFF_FFFF,
    ensures
        r matches Ok(k) ==> k@ == derived_key(password@, salt@) && k@.len() == 32,
        r matches Err(e) ==> e == CryptoError::KeyDerivation,
{
    match argon2_derive(password, salt) {
        Ok(k) => Ok(k),
        Err(_) => Err(CryptoError::KeyDerivation),
    }
}

/// Draw `size` random bytes for a fresh nonce.
pub fn get_iv(size: usize) -> (r: Vec<u8>)
    ensures
        r@.len() == size,
{
    let mut iv: Vec<u8> = Vec::new();
    let mut i: usize = 0;
    while i < size
        invariant
            i <= size,
            iv@.len() == i,
        decreases size - i,
    {
        let b: u8 = random_byte();
        iv.push(b);
        i = i + 1;
    }
    iv
}

/// Copy the byte range `[from, to)` of a vector.
pub fn subvec(v: &Vec<u8>, from: usize, to: usize) -> (r: Vec<u8>)
    requires
        from <= to <= v@.len(),
    ensures
        r@ == v@.subrange(from as int, to as int),
{
    let mut r: Vec<u8> = Vec::new();
    let mut i: usize = from;
    while i < to
        invariant
            from <= i <= to <= v@.len(),
            r@ == v@.subrange(from as int, i as int),
        decreases to - i,
    {
        r.push(v[i]);
        proof {
            assert(r@ =~= v@.subrange(from as int, i + 1 as int));
        }
        i = i + 1;
    }
    r
}

/// Encrypt `data` under the key derived from (passphrase, salt): a fresh
/// random 12-byte nonce, AES-GCM with the 128-bit effective key, and the
/// textual envelope `hex(nonce)/hex(ciphertext)/hex(tag)`.
pub fn encrypt(data: &Vec<u8>, password: &Vec<u8>, salt: &Vec<u8>) -> (r: Result<
    Vec<u8>,
    CryptoError,
>)
    requires
        salt@.len() == 32,
        password@.len() <= 0xFFFF_FFFF,
    ensures
        r matches Ok(env) ==> sealed_for(env@, enc_key(password@, salt@), data@),
        r matches Err(e) ==> e == CryptoError::KeyDerivation,
{
    let key = match key_derivation(password, salt) {
        Ok(k) => k,
        Err(e) => {
            return Err(e);
        },
    };
    let key16 = subvec(&key, 0, 16);
    let iv = get_iv(12);
    let (cipher_text, tag) = aes_gcm_seal(&key16, &iv, data);
    let mut out = hex_encode(&iv);
    let mut hex_cipher = hex_encode(&cipher_text);
    let mut hex_tag = hex_encode(&tag);
    out.push(47u8);
    out.append(&mut hex_cipher);
    out.push(47u8);
    out.append(&mut hex_tag);
    proof {
        let k = enc_key(password@, salt@);
        assert(key16@ =~= k);
        assert(out@ =~= envelope_of(iv@, cipher_text@, tag@));
        assert(seals_with(out@, k, data@, iv@));
    }
    Ok(out)
}

/// Decrypt an envelope under the key derived from (passphrase, salt).
/// Fails with `Format` exactly when the text is not a well-formed
/// envelope; with `Authentication` only when the tag does not match,
/// which a wrong passphrase and tampered data both cause; never returns
/// anything but the exact sealed payload on success.
#[verifier::rlimit(60)]
pub fn decrypt(envelope: &Vec<u8>, password: &Vec<u8>, salt: &Vec<u8>) -> (r: Result<
    Vec<u8>,
    CryptoError,
>)
    requires
        salt@.len() == 32,
        password@.len() <= 0xFFFF_FFFF,
    ensures
        r == Err::<Vec<u8>, CryptoError>(CryptoError::Format) <==> !well_formed_envelope(envelope@),
        r matches Ok(p) ==> decrypts_to(envelope@, enc_key(password@, salt@), p@),
        r matches Ok(p) ==> authentic_envelope(envelope@, enc_key(password@, salt@)),
        r == Err::<Vec<u8>, CryptoError>(CryptoError::Authentication) ==> !authentic_envelope(
            envelope@,
            enc_key(password@, salt@),
        ),
        authentic_envelope(envelope@, enc_key(password@, salt@)) ==> !(r == Err::<
            Vec<u8>,
            CryptoError,
        >(CryptoError::Authentication)),
{
    let n = envelope.len();
    let mut first: usize = 0;
    let mut second: usize = 0;
    let mut count: usize = 0;
    let mut i: usize = 0;
    while i < n
        invariant
            n == envelope@.len(),
            i <= n,
            count <= 2,
            count == 0 ==> forall|j: int| 0 <= j < i ==> envelope@[j] != 47,
            count == 1 ==> first < i && envelope@[first as int] == 47 && forall|j: int|
                0 <= j < i && j != first ==> envelope@[j] != 47,
            count == 2 ==> first < second < i && envelope@[first as int] == 47
                && envelope@[second as int] == 47 && forall|j: int|
                0 <= j < i && j != first && j != second ==> envelope@[j] != 47,
        decreases n - i,
    {
        if envelope[i] == 47 {
            if count == 0 {
                first = i;
                count = 1;
            } else if count == 1 {
                second = i;
                count = 2;
            } else {
                proof {
                    lemma_not_well_formed_slashes(envelope@, first as int, second as int, i as int);
                }
                return Err(CryptoError::Format);
            }
        }
        i = i + 1;
    }
    if count != 2 {
        proof {
            if well_formed_envelope(envelope@) {
                let (n0, c0, t0) = choose|n0: Seq<u8>, c0: Seq<u8>, t0: Seq<u8>|
                    n0.len() == 12 && envelope@ == #[trigger] envelope_of(n0, c0, t0);
                lemma_envelope_slash_positions(envelope@, n0, c0, t0);
                let p1 = hex_encoding(n0).len() as int;
                let p2 = (hex_encoding(n0).len() + 1 + hex_encoding(c0).len()) as int;
                assert(envelope@[p1] == 47 && envelope@[p2] == 47 && p1 < p2);
                assert(false);
            }
        }
        return Err(CryptoError::Format);
    }
    let hex_nonce = subvec(envelope, 0, first);
    let hex_cipher = subvec(envelope, first + 1, second);
    let hex_tag = subvec(envelope, second + 1, n);
    proof {
        assert(envelope@ =~= hex_nonce@ + seq![47u8] + hex_cipher@ + seq![47u8] + hex_tag@);
    }
    let nonce = match hex_decode(&hex_nonce) {
        Some(v) => v,
        None => {
            proof {
                lemma_parts_pin_envelope(envelope@, hex_nonce@, hex_cipher@, hex_tag@);
            }
            return Err(CryptoError::Format);
        },
    };
    let cipher_text = match hex_decode(&hex_cipher) {
        Some(v) => v,
        None => {
            proof {
                lemma_parts_pin_envelope(envelope@, hex_nonce@, hex_cipher@, hex_tag@);
            }
            return Err(CryptoError::Format);
        },
    };
    let tag = match hex_decode(&hex_tag) {
        Some(v) => v,
        None => {
            proof {
                lemma_parts_pin_envelope(envelope@, hex_nonce@, hex_cipher@, hex_tag@);
            }
            return Err(CryptoError::Format);
        },
    };
    proof {
        assert(envelope@ =~= envelope_of(nonce@, cipher_text@, tag@));
    }
    if nonce.len() != 12 {
        proof {
            if well_formed_envelope(envelope@) {
                let (n0, c0, t0) = choose|n0: Seq<u8>, c0: Seq<u8>, t0: Seq<u8>|
                    n0.len() == 12 && envelope@ == #[trigger] envelope_of(n0, c0, t0);
                lemma_envelope_of_unique(nonce@, cipher_text@, tag@, n0, c0, t0);
                assert(false);
            }
        }
        return Err(CryptoError::Format);
    }
    proof {
        assert(envelope@ == envelope_of(nonce@, cipher_text@, tag@));
        assert(well_formed_envelope(envelope@));
    }
    let key = match key_derivation(password, salt) {
        Ok(k) => k,
        Err(_) => {
            return Err(CryptoError::KeyDerivation);
        },
    };
    let key16 = subvec(&key, 0, 16);
    proof {
        assert(key16@ =~= enc_key(password@, salt@));
    }
    match aes_gcm_open(&key16, &nonce, &cipher_text, &tag) {
        Some(p) => {
            proof {
                let k = enc_key(password@, salt@);
                assert(opens_with(envelope@, k, p@, nonce@, cipher_text@));
                assert(decrypts_to(envelope@, k, p@));
            }
            Ok(p)
        },
        None => {
            proof {
                let k = enc_key(password@, salt@);
                if authentic_envelope(envelope@, k) {
                    let (n2, c2) = choose|n2: Seq<u8>, c2: Seq<u8>|
                        n2.len() == 12 && envelope@ == #[trigger] envelope_of(
                            n2,
                            c2,
                            gcm_tag(k, n2, c2),
                        );
                    lemma_envelope_of_unique(nonce@, cipher_text@, tag@, n2, c2, gcm_tag(k, n2, c2));
                    assert(false);
                }
            }
            Err(CryptoError::Authentication)
        },
    }
}

/// In a decomposed envelope the separators stand exactly at the two
/// joining positions.
proof fn lemma_envelope_slash_positions(env: Seq<u8>, n0: Seq<u8>, c0: Seq<u8>, t0: Seq<u8>)
    requires
        env == envelope_of(n0, c0, t0),
    ensures
        env.len() == hex_encoding(n0).len() + 1 + hex_encoding(c0).len() + 1 + hex_encoding(
            t0,
        ).len(),
        env[hex_encoding(n0).len() as int] == 47,
        env[(hex_encoding(n0).len() + 1 + hex_encoding(c0).len()) as int] == 47,
        forall|j: int|
            0 <= j < env.len() && j != hex_encoding(n0).len() && j != hex_encoding(n0).len() + 1
                + hex_encoding(c0).len() ==> env[j] != 47,
{
    lemma_hex_encoding_is_hex_text(n0);
    lemma_hex_encoding_is_hex_text(c0);
    lemma_hex_encoding_is_hex_text(t0);
    lemma_hex_text_no_slash(hex_encoding(n0));
    lemma_hex_text_no_slash(hex_encoding(c0));
    lemma_hex_text_no_slash(hex_encoding(t0));
    let hn = hex_encoding(n0);
    let hc = hex_encoding(c0);
    let ht = hex_encoding(t0);
    assert forall|j: int|
        0 <= j < env.len() && j != hn.len() && j != hn.len() + 1 + hc.len() implies env[j] != 47 by {
        if j < hn.len() {
            assert(env[j] == hn[j]);
        } else if j < hn.len() + 1 + hc.len() {
            assert(env[j] == hc[j - hn.len() - 1]);
        } else {
            assert(env[j] == ht[j - hn.len() - 1 - hc.len() - 1]);
        }
    }
}

/// Three or more separators rule out any envelope decomposition.
proof fn lemma_not_well_formed_slashes(env: Seq<u8>, p1: int, p2: int, p3: int)
    requires
        0 <= p1 < p2 < p3 < env.len(),
        env[p1] == 47,
        env[p2] == 47,
        env[p3] == 47,
    ensures
        !well_formed_envelope(env),
{
    if well_formed_envelope(env) {
        let (n0, c0, t0) = choose|n0: Seq<u8>, c0: Seq<u8>, t0: Seq<u8>|
            n0.len() == 12 && env == #[trigger] envelope_of(n0, c0, t0);
        lemma_envelope_slash_positions(env, n0, c0, t0);
        assert(false);
    }
}

/// If an envelope splits into three separator-free parts and any of them
/// is not hex text, no decomposition exists; if all three are the hex
/// texts of a triple, that triple is the decomposition.
proof fn lemma_parts_pin_envelope(env: Seq<u8>, p1: Seq<u8>, p2: Seq<u8>, p3: Seq<u8>)
    requires
        env == p1 + seq![47u8] + p2 + seq![47u8] + p3,
        forall|i: int| 0 <= i < p1.len() ==> p1[i] != 47,
        forall|i: int| 0 <= i < p2.len() ==> p2[i] != 47,
        forall|i: int| 0 <= i < p3.len() ==> p3[i] != 47,
    ensures
        well_formed_envelope(env) ==> is_hex_text(p1) && is_hex_text(p2) && is_hex_text(p3),
        well_formed_envelope(env) ==> forall|n0: Seq<u8>, c0: Seq<u8>, t0: Seq<u8>|
            env == #[trigger] envelope_of(n0, c0, t0) ==> hex_encoding(n0) == p1 && hex_encoding(
                c0,
            ) == p2 && hex_encoding(t0) == p3,
{
    if well_formed_envelope(env) {
        assert forall|n0: Seq<u8>, c0: Seq<u8>, t0: Seq<u8>|
            env == #[trigger] envelope_of(n0, c0, t0) implies hex_encoding(n0) == p1
            && hex_encoding(c0) == p2 && hex_encoding(t0) == p3 by {
            lemma_hex_encoding_is_hex_text(n0);
            lemma_hex_encoding_is_hex_text(c0);
            lemma_hex_encoding_is_hex_text(t0);
            lemma_hex_text_no_slash(hex_encoding(n0));
            lemma_hex_text_no_slash(hex_encoding(c0));
            lemma_hex_text_no_slash(hex_encoding(t0));
            let r1 = p2 + seq![47u8] + p3;
            let r2 = hex_encoding(c0) + seq![47u8] + hex_encoding(t0);
            assert(env =~= p1 + seq![47u8] + r1);
            assert(env =~= hex_encoding(n0) + seq![47u8] + r2);
            lemma_split_at_slash_unique(p1, r1, hex_encoding(n0), r2);
            lemma_split_at_slash_unique(p2, p3, hex_encoding(c0), hex_encoding(t0));
        }
        let (n0, c0, t0) = choose|n0: Seq<u8>, c0: Seq<u8>, t0: Seq<u8>|
            n0.len() == 12 && env == #[trigger] envelope_of(n0, c0, t0);
        lemma_hex_encoding_is_hex_text(n0);
        lemma_hex_encoding_is_hex_text(c0);
        lemma_hex_encoding_is_hex_text(t0);
    }
}

} // verus!
