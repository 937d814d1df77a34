//! Config transcoder: applies the envelope cipher to every entry of a
//! configuration's environment mapping, converting a plaintext document into
//! an encrypted one and back, preserving all non-secret fields unchanged.

use vstd::prelude::*;
use vstd::string::StringSliceAdditionalSpecFns;
use vstd::utf8::decode_utf8_encode_utf8;
use vstd::utf8::encode_utf8;
use vstd::utf8::encode_utf8_decode_utf8;
use vstd::utf8::encode_utf8_valid_utf8;
use vstd::utf8::valid_utf8;
use crate::config::env_keys_unique;
use crate::config::Config;
use crate::config::ConfigV;
use crate::config::EncryptedConfig;
use crate::config::EncryptedConfigV;
use crate::config::EncryptedValue;
use crate::config::EncryptedValueV;
use crate::crypto;
use crate::crypto::fresh_envelope;
use crate::crypto::AEAD_P_MAX;
use crate::crypto::CryptoError;
use crate::crypto::NONCE_LEN;
use crate::crypto::SALT_LEN;
use crate::encoding::b64_decode;
use crate::encoding::b64_encode;
use crate::encoding::b64_of;
use crate::encoding::string_from_utf8;
use crate::error::GsmError;

verus! {

/// The envelope authenticates under `pass` with plaintext bytes `p`: its
/// three fields are the standard base64 of a salt, a nonce and a ciphertext
/// that form a fresh envelope for `p`.
pub open spec fn envelope_authentic(ev: EncryptedValueV, pass: Seq<u8>, p: Seq<u8>) -> bool {
    exists |salt: Seq<u8>, nonce: Seq<u8>, ct: Seq<u8>|
        #[trigger] fresh_envelope(pass, p, salt, nonce, ct)
            && ev.salt == b64_of(salt)
            && ev.nonce == b64_of(nonce)
            && ev.ciphertext == b64_of(ct)
}

/// The envelope `ev` is one that encrypting the text value `v` under the
/// passphrase `pass` can produce.
pub open spec fn envelope_for(ev: EncryptedValueV, pass: Seq<u8>, v: Seq<char>) -> bool {
    envelope_authentic(ev, pass, encode_utf8(v))
}

/// Every field of the envelope is the standard base64 of some byte string.
pub open spec fn envelope_fields_b64(ev: EncryptedValueV) -> bool {
    &&& exists |b: Seq<u8>| ev.salt == #[trigger] b64_of(b)
    &&& exists |b: Seq<u8>| ev.nonce == #[trigger] b64_of(b)
    &&& exists |b: Seq<u8>| ev.ciphertext == #[trigger] b64_of(b)
}

/// The envelope decrypts cleanly to text under `pass`: it authenticates with
/// a plaintext that is valid UTF-8.
pub open spec fn envelope_yields_text(ev: EncryptedValueV, pass: Seq<u8>) -> bool {
    exists |p: Seq<u8>| #[trigger] envelope_authentic(ev, pass, p) && valid_utf8(p)
}

/// Entry `j` is the first of the document's environment that does not
/// decrypt cleanly to text under `pass` — the entry on which `decrypt_config`
/// stops.
pub open spec fn first_failing_entry(ec: EncryptedConfigV, pass: Seq<u8>, j: int) -> bool {
    &&& 0 <= j < ec.env.len()
    &&& !envelope_yields_text(ec.env[j].1, pass)
    &&& forall |i: int| 0 <= i < j ==> envelope_yields_text(#[trigger] ec.env[i].1, pass)
}

/// `ec` is an encrypted document that encrypting `c` under `pass` can
/// produce: the same organization and repositories, and entry by entry the
/// same key with an envelope for the value.
pub open spec fn config_encrypts_to(c: ConfigV, pass: Seq<u8>, ec: EncryptedConfigV) -> bool {
    &&& ec.org == c.org
    &&& ec.repositories == c.repositories
    &&& ec.env.len() == c.env.len()
    &&& forall |i: int| 0 <= i < c.env.len() ==>
            (#[trigger] ec.env[i]).0 == c.env[i].0
                && envelope_for(ec.env[i].1, pass, c.env[i].1)
}

/// What `decrypt_config` pins down: whenever the encrypted document is one
/// that encrypting some plaintext document `c0` under the same passphrase
/// can produce, the outcome is success and the output is `c0` itself.
pub open spec fn decrypt_config_pins(
    pass: Seq<u8>,
    ec: EncryptedConfigV,
    ok: bool,
    out: ConfigV,
) -> bool {
    forall |c0: ConfigV| #[trigger] config_encrypts_to(c0, pass, ec) ==> ok && out == c0
}

/// An authentic envelope has base64 fields.
proof fn lemma_authentic_has_b64_fields(ev: EncryptedValueV, pass: Seq<u8>, p: Seq<u8>)
    requires
        envelope_authentic(ev, pass, p),
    ensures
        envelope_fields_b64(ev),
{
    let (salt, nonce, ct) = choose |salt: Seq<u8>, nonce: Seq<u8>, ct: Seq<u8>|
        #[trigger] fresh_envelope(pass, p, salt, nonce, ct)
            && ev.salt == b64_of(salt)
            && ev.nonce == b64_of(nonce)
            && ev.ciphertext == b64_of(ct);
    assert(ev.salt == b64_of(salt));
    assert(ev.nonce == b64_of(nonce));
    assert(ev.ciphertext == b64_of(ct));
}

/// When each field's base64 preimage is pinned to a decoded value, an
/// authentic envelope's witnesses are those values.
proof fn lemma_authentic_decodes_to(
    ev: EncryptedValueV,
    pass: Seq<u8>,
    p: Seq<u8>,
    salt: Seq<u8>,
    nonce: Seq<u8>,
    ct: Seq<u8>,
)
    requires
        envelope_authentic(ev, pass, p),
        forall |b: Seq<u8>| ev.salt == #[trigger] b64_of(b) ==> b == salt,
        forall |b: Seq<u8>| ev.nonce == #[trigger] b64_of(b) ==> b == nonce,
        forall |b: Seq<u8>| ev.ciphertext == #[trigger] b64_of(b) ==> b == ct,
    ensures
        fresh_envelope(pass, p, salt, nonce, ct),
{
    let (sw, nw, cw) = choose |sw: Seq<u8>, nw: Seq<u8>, cw: Seq<u8>|
        #[trigger] fresh_envelope(pass, p, sw, nw, cw)
            && ev.salt == b64_of(sw)
            && ev.nonce == b64_of(nw)
            && ev.ciphertext == b64_of(cw);
    assert(sw == salt && nw == nonce && cw == ct);
}

/// A failing entry refutes every candidate source document: a document that
/// encrypts to `ec` makes every entry of it decrypt cleanly to text.
proof fn lemma_failed_entry_refutes_sources(ec: EncryptedConfigV, pass: Seq<u8>, j: int)
    requires
        0 <= j < ec.env.len(),
        !envelope_yields_text(ec.env[j].1, pass),
    ensures
        forall |c0: ConfigV| !(#[trigger] config_encrypts_to(c0, pass, ec)),
{
    assert forall |c0: ConfigV| !(#[trigger] config_encrypts_to(c0, pass, ec)) by {
        if config_encrypts_to(c0, pass, ec) {
            assert(envelope_for(ec.env[j].1, pass, c0.env[j].1));
            let v = c0.env[j].1;
            encode_utf8_valid_utf8(v);
            assert(envelope_authentic(ec.env[j].1, pass, encode_utf8(v))
                && valid_utf8(encode_utf8(v)));
            assert(envelope_yields_text(ec.env[j].1, pass));
        }
    }
}

/// Encrypts a `Config` into an `EncryptedConfig`: every environment value is
/// enveloped independently under a fresh salt and nonce; the organization
/// and the repositories pass through verbatim. The first encryption error
/// aborts the whole operation; none can occur unless a value's UTF-8 bytes
/// exceed the cipher's limit.
pub fn encrypt_config(config: Config, key: &[u8]) -> (r: Result<EncryptedConfig, GsmError>)
    ensures
        r matches Ok(ec) ==> config_encrypts_to(config@, key@, ec@),
        r matches Ok(ec) ==> (env_keys_unique(config@.env) ==> env_keys_unique(ec@.env)),
        (forall |i: int| 0 <= i < config@.env.len()
            ==> #[trigger] encode_utf8(config@.env[i].1).len() <= AEAD_P_MAX) ==> r is Ok,
        r matches Err(e) ==> e is Crypto,
{
    let mut encrypted_env: Vec<(String, EncryptedValue)> = Vec::new();
    let n: usize = config.env.len();
    let mut idx: usize = 0;
    while idx < n
        invariant
            n == config.env.len(),
            idx <= n,
            encrypted_env.len() == idx,
            forall |j: int| 0 <= j < idx ==>
                (#[trigger] encrypted_env@[j]).0@ == config@.env[j].0
                    && envelope_for(encrypted_env@[j].1@, key@, config@.env[j].1),
        decreases n - idx,
    {
        let pair = &config.env[idx];
        let vb = pair.1.as_str().as_bytes();
        proof {
            assert(vb@ == encode_utf8(config@.env[idx as int].1));
        }
        match crypto::encrypt(vb, key) {
            Ok(t) => {
                let (salt, nonce, ct) = t;
                let ev = EncryptedValue {
                    salt: b64_encode(salt.as_slice()),
                    nonce: b64_encode(nonce.as_slice()),
                    ciphertext: b64_encode(ct.as_slice()),
                };
                proof {
                    assert(fresh_envelope(
                        key@, encode_utf8(config@.env[idx as int].1), salt@, nonce@, ct@));
                    assert(envelope_for(ev@, key@, config@.env[idx as int].1));
                }
                encrypted_env.push((pair.0.clone(), ev));
            },
            Err(e) => {
                proof {
                    assert(encode_utf8(config@.env[idx as int].1).len() > AEAD_P_MAX);
                }
                return Err(GsmError::Crypto(e));
            },
        }
        idx = idx + 1;
    }
    let ec = EncryptedConfig {
        org: config.org,
        repositories: config.repositories,
        env: encrypted_env,
    };
    proof {
        assert(config_encrypts_to(config@, key@, ec@));
    }
    Ok(ec)
}

/// Decrypts an `EncryptedConfig` back into a `Config`: each envelope's three
/// base64 fields are decoded, the value is decrypted, and the result is read
/// as UTF-8 text, the organization and the repositories passing through
/// verbatim. The operation is atomic: the first bad envelope aborts it, and
/// a partially decrypted document is never returned. The error names the
/// first failure's kind: a field that is no base64 encoding is the base64
/// error; an envelope that does not authenticate, or carries a wrong-length
/// salt or nonce, is a decryption failure; an authentic envelope whose
/// plaintext is not valid UTF-8 text is the UTF-8 error.
pub fn decrypt_config(encrypted_config: EncryptedConfig, key: &[u8]) -> (r: Result<Config, GsmError>)
    ensures
        decrypt_config_pins(key@, encrypted_config@, r is Ok, r->Ok_0@),
        r matches Ok(c) ==> config_encrypts_to(c@, key@, encrypted_config@),
        r matches Ok(c) ==> (env_keys_unique(encrypted_config@.env) ==> env_keys_unique(c@.env)),
        r matches Err(e) ==> e is Base64 || e is Crypto || e is Utf8,
        forall |j: int| #[trigger] first_failing_entry(encrypted_config@, key@, j)
            && !envelope_fields_b64(encrypted_config@.env[j].1)
            ==> r is Err && r->Err_0 is Base64,
        forall |j: int, p: Seq<u8>| first_failing_entry(encrypted_config@, key@, j)
            && #[trigger] envelope_authentic(encrypted_config@.env[j].1, key@, p)
            && !valid_utf8(p)
            ==> r is Err && r->Err_0 is Utf8,
        forall |j: int| #[trigger] first_failing_entry(encrypted_config@, key@, j)
            && envelope_fields_b64(encrypted_config@.env[j].1)
            && (forall |p: Seq<u8>| !envelope_authentic(encrypted_config@.env[j].1, key@, p))
            ==> r is Err && r->Err_0 is Crypto,
{
    let ghost ecv = encrypted_config@;
    let mut raw_env: Vec<(String, String)> = Vec::new();
    let n: usize = encrypted_config.env.len();
    let mut idx: usize = 0;
    while idx < n
        invariant
            n == encrypted_config.env.len(),
            ecv == encrypted_config@,
            idx <= n,
            raw_env.len() == idx,
            forall |j: int| 0 <= j < idx ==>
                (#[trigger] raw_env@[j]).0@ == ecv.env[j].0
                    && envelope_for(ecv.env[j].1, key@, raw_env@[j].1@),
            forall |j: int, v: Seq<char>| 0 <= j < idx
                && #[trigger] envelope_for(ecv.env[j].1, key@, v)
                ==> raw_env@[j].1@ == v,
            forall |j: int| 0 <= j < idx ==>
                #[trigger] envelope_yields_text(ecv.env[j].1, key@),
            forall |j: int, p: Seq<u8>| 0 <= j < idx
                && #[trigger] envelope_authentic(ecv.env[j].1, key@, p)
                ==> valid_utf8(p),
        decreases n - idx,
    {
        let entry = &encrypted_config.env[idx];
        let ghost evv = entry.1@;
        proof {
            assert(evv == ecv.env[idx as int].1);
        }

        let salt_r = b64_decode(entry.1.salt.as_str());
        proof {
            if salt_r is Err {
                assert forall |p: Seq<u8>| !(#[trigger] envelope_authentic(evv, key@, p)) by {
                    if envelope_authentic(evv, key@, p) {
                        lemma_authentic_has_b64_fields(evv, key@, p);
                    }
                }
                assert(!envelope_fields_b64(evv));
                assert(!envelope_yields_text(evv, key@));
                lemma_failed_entry_refutes_sources(ecv, key@, idx as int);
                assert forall |j: int| #[trigger] first_failing_entry(ecv, key@, j)
                    implies j == idx as int by {
                    if j > idx {
                        assert(envelope_yields_text(ecv.env[idx as int].1, key@));
                    }
                }
            }
        }
        let salt = match salt_r {
            Ok(b) => b,
            Err(msg) => { return Err(GsmError::Base64(msg)); },
        };

        let nonce_r = b64_decode(entry.1.nonce.as_str());
        proof {
            if nonce_r is Err {
                assert forall |p: Seq<u8>| !(#[trigger] envelope_authentic(evv, key@, p)) by {
                    if envelope_authentic(evv, key@, p) {
                        lemma_authentic_has_b64_fields(evv, key@, p);
                    }
                }
                assert(!envelope_fields_b64(evv));
                assert(!envelope_yields_text(evv, key@));
                lemma_failed_entry_refutes_sources(ecv, key@, idx as int);
                assert forall |j: int| #[trigger] first_failing_entry(ecv, key@, j)
                    implies j == idx as int by {
                    if j > idx {
                        assert(envelope_yields_text(ecv.env[idx as int].1, key@));
                    }
                }
            }
        }
        let nonce = match nonce_r {
            Ok(b) => b,
            Err(msg) => { return Err(GsmError::Base64(msg)); },
        };

        let ct_r = b64_decode(entry.1.ciphertext.as_str());
        proof {
            if ct_r is Err {
                assert forall |p: Seq<u8>| !(#[trigger] envelope_authentic(evv, key@, p)) by {
                    if envelope_authentic(evv, key@, p) {
                        lemma_authentic_has_b64_fields(evv, key@, p);
                    }
                }
                assert(!envelope_fields_b64(evv));
                assert(!envelope_yields_text(evv, key@));
                lemma_failed_entry_refutes_sources(ecv, key@, idx as int);
                assert forall |j: int| #[trigger] first_failing_entry(ecv, key@, j)
                    implies j == idx as int by {
                    if j > idx {
                        assert(envelope_yields_text(ecv.env[idx as int].1, key@));
                    }
                }
            }
        }
        let ct = match ct_r {
            Ok(b) => b,
            Err(msg) => { return Err(GsmError::Base64(msg)); },
        };

        proof {
            // All three fields decoded: their base64 preimages are pinned.
            assert forall |b: Seq<u8>| evv.salt == #[trigger] b64_of(b) implies b == salt@ by {}
            assert forall |b: Seq<u8>| evv.nonce == #[trigger] b64_of(b) implies b == nonce@ by {}
            assert forall |b: Seq<u8>| evv.ciphertext == #[trigger] b64_of(b)
                implies b == ct@ by {}
            assert(envelope_fields_b64(evv));
        }

        // An envelope whose decoded salt or nonce has the wrong length can
        // never have come from the cipher: reject it as unverifiable.
        if salt.len() != SALT_LEN || nonce.len() != NONCE_LEN {
            proof {
                assert forall |p: Seq<u8>| !(#[trigger] envelope_authentic(evv, key@, p)) by {
                    if envelope_authentic(evv, key@, p) {
                        lemma_authentic_decodes_to(evv, key@, p, salt@, nonce@, ct@);
                    }
                }
                assert(!envelope_yields_text(evv, key@));
                lemma_failed_entry_refutes_sources(ecv, key@, idx as int);
                assert forall |j: int| #[trigger] first_failing_entry(ecv, key@, j)
                    implies j == idx as int by {
                    if j > idx {
                        assert(envelope_yields_text(ecv.env[idx as int].1, key@));
                    }
                }
            }
            return Err(GsmError::Crypto(CryptoError::DecryptionFailed(
                "envelope salt or nonce has the wrong length".to_owned(),
            )));
        }

        let pt_r = crypto::decrypt(ct.as_slice(), key, salt.as_slice(), nonce.as_slice());
        proof {
            if pt_r is Err {
                assert forall |p: Seq<u8>| !(#[trigger] envelope_authentic(evv, key@, p)) by {
                    if envelope_authentic(evv, key@, p) {
                        lemma_authentic_decodes_to(evv, key@, p, salt@, nonce@, ct@);
                        assert(fresh_envelope(key@, p, salt@, nonce@, ct@));
                    }
                }
                assert(!envelope_yields_text(evv, key@));
                lemma_failed_entry_refutes_sources(ecv, key@, idx as int);
                assert forall |j: int| #[trigger] first_failing_entry(ecv, key@, j)
                    implies j == idx as int by {
                    if j > idx {
                        assert(envelope_yields_text(ecv.env[idx as int].1, key@));
                    }
                }
            }
        }
        let pt = match pt_r {
            Ok(p) => p,
            Err(e) => { return Err(GsmError::Crypto(e)); },
        };

        proof {
            // The decrypted bytes authenticate this envelope, and every
            // plaintext the envelope authenticates is these very bytes.
            assert(fresh_envelope(key@, pt@, salt@, nonce@, ct@));
            assert(envelope_authentic(evv, key@, pt@));
            assert forall |p: Seq<u8>| #[trigger] envelope_authentic(evv, key@, p)
                implies p == pt@ by {
                lemma_authentic_decodes_to(evv, key@, p, salt@, nonce@, ct@);
                assert(fresh_envelope(key@, p, salt@, nonce@, ct@));
            }
        }

        let s_r = string_from_utf8(pt);
        proof {
            if s_r is Err {
                assert(!valid_utf8(pt@));
                assert(!envelope_yields_text(evv, key@));
                lemma_failed_entry_refutes_sources(ecv, key@, idx as int);
                assert forall |j: int| #[trigger] first_failing_entry(ecv, key@, j)
                    implies j == idx as int by {
                    if j > idx {
                        assert(envelope_yields_text(ecv.env[idx as int].1, key@));
                    }
                }
            }
        }
        let sv = match s_r {
            Ok(s) => s,
            Err(msg) => { return Err(GsmError::Utf8(msg)); },
        };

        proof {
            // The produced entry is itself enveloped by this envelope.
            assert(valid_utf8(pt@));
            decode_utf8_encode_utf8(pt@);
            assert(encode_utf8(sv@) == pt@);
            assert(envelope_for(evv, key@, sv@));
            assert(envelope_yields_text(evv, key@));
            // And any value this envelope envelopes is the produced one.
            assert forall |v: Seq<char>| #[trigger] envelope_for(evv, key@, v)
                implies sv@ == v by {
                assert(envelope_authentic(evv, key@, encode_utf8(v)));
                assert(encode_utf8(v) == pt@);
                encode_utf8_decode_utf8(v);
            }
        }
        raw_env.push((entry.0.clone(), sv));
        idx = idx + 1;
    }

    let c = Config {
        org: encrypted_config.org,
        repositories: encrypted_config.repositories,
        env: raw_env,
    };
    proof {
        assert(config_encrypts_to(c@, key@, ecv));
        assert forall |c0: ConfigV| #[trigger] config_encrypts_to(c0, key@, ecv)
            implies c@ == c0 by {
            assert(c@.env.len() == c0.env.len());
            assert forall |j: int| 0 <= j < c0.env.len()
                implies c@.env[j] == c0.env[j] by {
                assert(envelope_for(ecv.env[j].1, key@, c0.env[j].1));
                assert(c@.env[j].1 == c0.env[j].1);
                assert(c@.env[j].0 == ecv.env[j].0);
                assert(ecv.env[j].0 == c0.env[j].0);
            }
            assert(c@.env =~= c0.env);
            assert(c@.repositories =~= c0.repositories);
            assert(c@.org =~= c0.org);
        }
        assert forall |j: int| !(#[trigger] first_failing_entry(ecv, key@, j)) by {
            if first_failing_entry(ecv, key@, j) {
                assert(envelope_yields_text(ecv.env[j].1, key@));
            }
        }
    }
    Ok(c)
}

/// Config round trip: whatever `decrypt_config` returns, under its contract,
/// when handed a document that `encrypt_config` produced from `c` under the
/// same passphrase, is success with output `c` — the organization, the
/// repository order and every environment entry are restored exactly.
pub proof fn lemma_config_round_trip(
    pass: Seq<u8>,
    c: ConfigV,
    ec: EncryptedConfigV,
    ok: bool,
    out: ConfigV,
)
    requires
        config_encrypts_to(c, pass, ec),
        decrypt_config_pins(pass, ec, ok, out),
    ensures
        ok,
        out == c,
{
}

} // verus!
