//! Per-segment encryption: key-tag resolution, IV derivation, and
//! AES-128-CBC decryption with PKCS#7 unpadding.

use vstd::prelude::*;

use aes::cipher::block_padding::Pkcs7;
use aes::cipher::{BlockModeDecrypt, BlockModeEncrypt, KeyIvInit};

use crate::error::{LivestreamDLError, LivestreamDLErrorV};
use crate::playlist::{KeyMethodV, KeyTag, KeyTagV};
use crate::text::{hex_decode, spec_hex_decode, spec_trim_start_matches, str_eq, trim_start_matches};
use crate::urlutil::{join_url, make_absolute_url};

verus! {

/// HLS encryption of one segment's payload.
#[derive(Clone, PartialEq, Eq, Debug)]
pub enum Encryption {
    /// The payload is in the clear.
    Clear,
    /// AES-128-CBC with the key fetched from `key_url` and the given IV.
    Aes128 { key_url: String, iv: Vec<u8> },
    /// SAMPLE-AES, which this pipeline does not decrypt.
    SampleAes,
}

/// Model of an [`Encryption`].
pub enum EncryptionV {
    Clear,
    Aes128 { key_url: Seq<char>, iv: Seq<u8> },
    SampleAes,
}

impl View for Encryption {
    type V = EncryptionV;

    open spec fn view(&self) -> EncryptionV {
        match self {
            Encryption::Clear => EncryptionV::Clear,
            Encryption::Aes128 { key_url, iv } => EncryptionV::Aes128 {
                key_url: key_url@,
                iv: iv@,
            },
            Encryption::SampleAes => EncryptionV::SampleAes,
        }
    }
}

/// One byte of the IV derived from a sequence number: the big-endian
/// bytes of `n`, right-aligned in 16 zero bytes.
pub open spec fn spec_iv_byte(n: u64, i: int) -> u8 {
    ((n >> (((15 - i) * 8) as u64)) & 0xff) as u8
}

/// The IV derived from sequence number `n`: `n`'s big-endian bytes
/// right-aligned in a 16-byte zero-padded buffer.
pub open spec fn spec_iv_from_seq(n: u64) -> Seq<u8> {
    Seq::new(16, |i: int| if i < 8 { 0u8 } else { spec_iv_byte(n, i) })
}

/// Derives the IV for sequence number `n`.  The derivation is a pure
/// function of `n`: independent computations for the same `n` agree.
pub fn iv_from_sequence(n: u64) -> (r: Vec<u8>)
    ensures
        r@ == spec_iv_from_seq(n),
        r@.len() == 16,
{
    let mut v: Vec<u8> = Vec::new();
    let mut i: usize = 0;
    while i < 8
        invariant
            i <= 8,
            v@.len() == i,
            forall|k: int| 0 <= k < i ==> v@[k] == 0u8,
        decreases 8 - i,
    {
        v.push(0u8);
        i += 1;
    }
    let mut j: usize = 0;
    while j < 8
        invariant
            j <= 8,
            v@.len() == 8 + j,
            forall|k: int| 0 <= k < 8 ==> v@[k] == 0u8,
            forall|k: int| 8 <= k < 8 + j ==> v@[k] == spec_iv_byte(n, k),
        decreases 8 - j,
    {
        let sh: u64 = ((7 - j) as u64) * 8;
        proof {
            assert((n >> sh) & 0xff <= 0xff) by (bit_vector);
        }
        let b: u8 = ((n >> sh) & 0xff) as u8;
        v.push(b);
        j += 1;
    }
    proof {
        assert(v@ =~= spec_iv_from_seq(n));
    }
    v
}

/// Whether a key tag's keyformat is acceptable: absent, or `identity`.
pub open spec fn spec_keyformat_ok(kf: Option<Seq<char>>) -> bool {
    match kf {
        Option::None => true,
        Option::Some(k) => k == "identity"@,
    }
}

impl EncryptionV {
    /// Well-formed when an AES IV holds exactly 16 bytes.
    pub open spec fn wf(self) -> bool {
        match self {
            EncryptionV::Aes128 { iv, .. } => iv.len() == 16,
            _ => true,
        }
    }

    /// The encryption resolved from a key tag for the segment with
    /// sequence number `seq`, with the key URI made absolute against
    /// `base`: `NONE` is clear; `AES-128` needs a URI, an acceptable
    /// keyformat, and an IV either hex-given or derived from `seq`;
    /// everything else is rejected.
    pub open spec fn spec_new(key: KeyTagV, base: Seq<char>, seq: u64) -> Result<
        EncryptionV,
        LivestreamDLErrorV,
    > {
        match key.method {
            KeyMethodV::Clear => Ok(EncryptionV::Clear),
            KeyMethodV::Aes128 => match key.uri {
                Option::None => Err(LivestreamDLErrorV::NoKeyUri),
                Option::Some(uri) => if !spec_keyformat_ok(key.keyformat) {
                    Err(
                        LivestreamDLErrorV::InvalidKeyFormat {
                            keyformat: key.keyformat.unwrap(),
                        },
                    )
                } else {
                    match join_url(base, uri) {
                        Option::None => Err(LivestreamDLErrorV::ParseUrl { url: uri }),
                        Option::Some(u) => match key.iv {
                            Option::Some(ivs) => {
                                let stripped = spec_trim_start_matches(ivs, "0x"@);
                                match spec_hex_decode(stripped) {
                                    Option::Some(b) => if b.len() == 16 {
                                        Ok(EncryptionV::Aes128 { key_url: u, iv: b })
                                    } else {
                                        Err(LivestreamDLErrorV::MalformedIv { iv: ivs })
                                    },
                                    Option::None => Err(
                                        LivestreamDLErrorV::MalformedIv { iv: ivs },
                                    ),
                                }
                            },
                            Option::None => Ok(
                                EncryptionV::Aes128 { key_url: u, iv: spec_iv_from_seq(seq) },
                            ),
                        },
                    }
                },
            },
            KeyMethodV::SampleAes => Err(
                LivestreamDLErrorV::UnsupportedMethod { method: "SAMPLE-AES"@ },
            ),
            KeyMethodV::Other { name } => Err(LivestreamDLErrorV::InvalidMethod { method: name }),
        }
    }
}

impl Encryption {
    /// Well-formed when an AES IV holds exactly 16 bytes.
    pub open spec fn wf(self) -> bool {
        self@.wf()
    }

    /// Resolves a playlist key tag into an [`Encryption`] value for the
    /// segment with sequence number `seq`.
    pub fn new(key: &KeyTag, base_url: &str, seq: u64) -> (r: Result<
        Encryption,
        LivestreamDLError,
    >)
        ensures
            match r {
                Ok(e) => EncryptionV::spec_new(key@, base_url@, seq) == Ok::<
                    EncryptionV,
                    LivestreamDLErrorV,
                >(e@) && e.wf(),
                Err(er) => EncryptionV::spec_new(key@, base_url@, seq) == Err::<
                    EncryptionV,
                    LivestreamDLErrorV,
                >(er@),
            },
    {
        match &key.method {
            crate::playlist::KeyMethod::Clear => Ok(Encryption::Clear),
            crate::playlist::KeyMethod::Aes128 => {
                let uri = match &key.uri {
                    Option::None => {
                        return Err(LivestreamDLError::NoKeyUri);
                    },
                    Option::Some(u) => u,
                };
                match &key.keyformat {
                    Option::Some(kf) => {
                        if !str_eq(kf.as_str(), "identity") {
                            return Err(
                                LivestreamDLError::InvalidKeyFormat { keyformat: kf.clone() },
                            );
                        }
                    },
                    Option::None => {},
                }
                let key_url = match make_absolute_url(base_url, uri.as_str()) {
                    Ok(u) => u,
                    Err(_) => {
                        return Err(LivestreamDLError::ParseUrl { url: uri.clone() });
                    },
                };
                match &key.iv {
                    Option::Some(iv_str) => {
                        let stripped = trim_start_matches(iv_str.as_str(), "0x");
                        match hex_decode(stripped.as_str()) {
                            Option::Some(bytes) => {
                                if bytes.len() == 16 {
                                    Ok(Encryption::Aes128 { key_url, iv: bytes })
                                } else {
                                    Err(LivestreamDLError::MalformedIv { iv: iv_str.clone() })
                                }
                            },
                            Option::None => Err(
                                LivestreamDLError::MalformedIv { iv: iv_str.clone() },
                            ),
                        }
                    },
                    Option::None => {
                        let iv = iv_from_sequence(seq);
                        Ok(Encryption::Aes128 { key_url, iv })
                    },
                }
            },
            crate::playlist::KeyMethod::SampleAes => Err(
                LivestreamDLError::UnsupportedMethod { method: String::from_str("SAMPLE-AES") },
            ),
            crate::playlist::KeyMethod::Other { name } => Err(
                LivestreamDLError::InvalidMethod { method: name.clone() },
            ),
        }
    }

    /// Decrypts a segment payload.  The caller supplies the fetched key
    /// bytes for AES (of which the first 16 are the key, as the key
    /// exchange defines); a clear payload is returned unchanged.
    pub fn decrypt(&self, key_bytes: Option<&Vec<u8>>, data: &Vec<u8>) -> (r: Result<
        Vec<u8>,
        LivestreamDLError,
    >)
        requires
            self.wf(),
            !(self@ is SampleAes),
            self@ is Aes128 ==> key_bytes is Some && key_bytes.unwrap()@.len() >= 16,
        ensures
            match self@ {
                EncryptionV::Clear => r is Ok && r.unwrap()@ == data@,
                EncryptionV::Aes128 { key_url, iv } => {
                    let key16 = key_bytes.unwrap()@.subrange(0, 16);
                    match spec_aes128_decrypt(key16, iv, data@) {
                        Option::Some(v) => r is Ok && r.unwrap()@ == v,
                        Option::None => r == Err::<Vec<u8>, LivestreamDLError>(
                            LivestreamDLError::DecryptFailed,
                        ),
                    }
                },
                EncryptionV::SampleAes => true,
            },
    {
        match self {
            Encryption::Clear => Ok(data.clone()),
            Encryption::Aes128 { key_url: _, iv } => {
                let kb = match key_bytes {
                    Option::Some(k) => k,
                    Option::None => {
                        proof {
                            assert(false);
                        }
                        return Err(LivestreamDLError::DecryptFailed);
                    },
                };
                let mut key: Vec<u8> = Vec::new();
                let mut i: usize = 0;
                while i < 16
                    invariant
                        kb@.len() >= 16,
                        i <= 16,
                        key@.len() == i,
                        forall|k: int| 0 <= k < i ==> key@[k] == kb@[k],
                    decreases 16 - i,
                {
                    key.push(kb[i]);
                    i += 1;
                }
                proof {
                    assert(key@ =~= kb@.subrange(0, 16));
                }
                match aes128_cbc_decrypt_call(&key, iv, data) {
                    Option::Some(v) => Ok(v),
                    Option::None => Err(LivestreamDLError::DecryptFailed),
                }
            },
            Encryption::SampleAes => {
                proof {
                    assert(false);
                }
                Err(LivestreamDLError::DecryptFailed)
            },
        }
    }
}

/// What AES-128-CBC encryption with PKCS#7 padding produces for a key,
/// IV and plaintext.
pub uninterp spec fn spec_aes128_encrypt(key: Seq<u8>, iv: Seq<u8>, data: Seq<u8>) -> Seq<u8>;

/// What AES-128-CBC decryption with PKCS#7 unpadding produces for a key,
/// IV and ciphertext: the plaintext, or `None` where the input is no
/// whole ciphertext under that key and IV.
pub uninterp spec fn spec_aes128_decrypt(key: Seq<u8>, iv: Seq<u8>, data: Seq<u8>) -> Option<
    Seq<u8>,
>;

/// Relies on `cbc::Encryptor::<aes::Aes128>::encrypt_padded_vec` with
/// `Pkcs7`: the ciphertext is a function of key, IV and plaintext alone,
/// and `cbc::Decryptor`'s `decrypt_padded_vec` with the same key and IV
/// inverts it.
#[verifier::external_body]
fn aes128_cbc_encrypt_call(key: &Vec<u8>, iv: &Vec<u8>, data: &Vec<u8>) -> (r: Vec<u8>)
    requires
        key@.len() == 16,
        iv@.len() == 16,
    ensures
        r@ == spec_aes128_encrypt(key@, iv@, data@),
        spec_aes128_decrypt(key@, iv@, r@) == Some(data@),
{
    let cipher = cbc::Encryptor::<aes::Aes128>::new_from_slices(key, iv).unwrap();
    cipher.encrypt_padded_vec::<Pkcs7>(data)
}

/// Relies on `cbc::Decryptor::<aes::Aes128>::decrypt_padded_vec` with
/// `Pkcs7`: the result is a function of key, IV and ciphertext alone,
/// failing exactly where the unpadded input is malformed.
#[verifier::external_body]
fn aes128_cbc_decrypt_call(key: &Vec<u8>, iv: &Vec<u8>, data: &Vec<u8>) -> (r: Option<Vec<u8>>)
    requires
        key@.len() == 16,
        iv@.len() == 16,
    ensures
        match r {
            Some(v) => spec_aes128_decrypt(key@, iv@, data@) == Some(v@),
            None => spec_aes128_decrypt(key@, iv@, data@) is None,
        },
{
    let cipher = cbc::Decryptor::<aes::Aes128>::new_from_slices(key, iv).unwrap();
    cipher.decrypt_padded_vec::<Pkcs7>(data).ok()
}

/// Encrypts a buffer with AES-128-CBC and PKCS#7 padding.  Decrypting
/// the result with the same key and IV returns the buffer exactly.
pub fn encrypt_aes128(key: &Vec<u8>, iv: &Vec<u8>, data: &Vec<u8>) -> (r: Vec<u8>)
    requires
        key@.len() == 16,
        iv@.len() == 16,
    ensures
        r@ == spec_aes128_encrypt(key@, iv@, data@),
        spec_aes128_decrypt(key@, iv@, r@) == Some(data@),
{
    aes128_cbc_encrypt_call(key, iv, data)
}

/// Decrypts a buffer with AES-128-CBC and PKCS#7 unpadding.
pub fn decrypt_aes128(key: &Vec<u8>, iv: &Vec<u8>, data: &Vec<u8>) -> (r: Option<Vec<u8>>)
    requires
        key@.len() == 16,
        iv@.len() == 16,
    ensures
        match r {
            Some(v) => spec_aes128_decrypt(key@, iv@, data@) == Some(v@),
            None => spec_aes128_decrypt(key@, iv@, data@) is None,
        },
{
    aes128_cbc_decrypt_call(key, iv, data)
}

} // verus!
