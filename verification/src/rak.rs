//! Runtime attestation key (RAK) handling: the enclave's per-instance
//! signing identity, the report data binding it to the enclave, and the
//! check that an attestation verification report carries that binding.
use ed25519_dalek::Signer;
use sha2::Digest;
use vstd::prelude::*;

verus! {

/// Length, in bytes, of the domain-separation context prefixed to the
/// public key before hashing.
pub const RAK_HASH_CONTEXT_LEN: usize = 8;

/// Length, in bytes, of a public key.
pub const PUBLIC_KEY_LEN: usize = 32;

/// Length, in bytes, of a private key.
pub const PRIVATE_KEY_LEN: usize = 32;

/// Length, in bytes, of a report data field.
pub const REPORT_DATA_LEN: usize = 64;

/// The 8 ASCII bytes of the binding context.
pub open spec fn spec_rak_hash_context() -> Seq<u8> {
    seq![69u8, 107, 78, 111, 100, 82, 101, 103]
}

/// RAK-related errors.
#[derive(Debug)]
pub enum RakError {
    /// The RAK has not been initialized.
    NotConfigured,
    /// The report data does not carry the binding hash of the key.
    BindingMismatch,
    /// The report data is too short to carry a binding hash.
    MalformedReportData,
}

/// The SHA-512/256 digest of a byte sequence.
pub uninterp spec fn sha512_256_of(data: Seq<u8>) -> Seq<u8>;

/// Relies on sha2::Sha512_256 (the Digest implementation): the digest is
/// a function of the input bytes alone and is 32 bytes long.
#[verifier::external_body]
fn sha512_256(data: &Vec<u8>) -> (r: Vec<u8>)
    ensures
        r@ == sha512_256_of(data@),
        r@.len() == 32,
{
    sha2::Sha512_256::digest(data.as_slice()).to_vec()
}

/// The Ed25519 public key derived from a 32-byte secret key.
pub uninterp spec fn ed25519_pk_of(sk: Seq<u8>) -> Seq<u8>;

/// Relies on ed25519_dalek::SigningKey::from_bytes and verifying_key:
/// the public key is a function of the secret key alone and is 32 bytes.
#[verifier::external_body]
fn ed25519_public_key(sk: &Vec<u8>) -> (r: Vec<u8>)
    requires
        sk@.len() == PRIVATE_KEY_LEN,
    ensures
        r@ == ed25519_pk_of(sk@),
        r@.len() == PUBLIC_KEY_LEN,
{
    let bytes: [u8; 32] = sk.as_slice().try_into().unwrap();
    ed25519_dalek::SigningKey::from_bytes(&bytes).verifying_key().to_bytes().to_vec()
}

/// The Ed25519 signature of a message under a 32-byte secret key.
pub uninterp spec fn ed25519_sig_of(sk: Seq<u8>, msg: Seq<u8>) -> Seq<u8>;

/// Relies on ed25519_dalek::SigningKey::sign (the Signer
/// implementation): Ed25519 signing is deterministic, a function of the
/// secret key and the message alone, and yields 64 bytes.
#[verifier::external_body]
fn ed25519_sign(sk: &Vec<u8>, msg: &Vec<u8>) -> (r: Vec<u8>)
    requires
        sk@.len() == PRIVATE_KEY_LEN,
    ensures
        r@ == ed25519_sig_of(sk@, msg@),
        r@.len() == 64,
{
    let bytes: [u8; 32] = sk.as_slice().try_into().unwrap();
    ed25519_dalek::SigningKey::from_bytes(&bytes).sign(msg.as_slice()).to_bytes().to_vec()
}

/// An attestation verification report whose own authenticity was already
/// established by the attestation collaborator; the binding check reads
/// only its report data.
#[derive(Clone)]
pub struct AuthenticatedAvr {
    pub report_data: Vec<u8>,
}

/// The binding hash for a public key: the digest of the 8-byte context
/// followed by the 32 key bytes.
pub open spec fn spec_report_body_for_rak(pk: Seq<u8>) -> Seq<u8> {
    sha512_256_of(spec_rak_hash_context() + pk)
}

/// The runtime attestation key: an optional signing key and an optional
/// attestation verification report bound to it.
pub struct RAK {
    pub private_key: Option<Vec<u8>>,
    pub avr: Option<AuthenticatedAvr>,
}

impl RAK {
    /// Validity: a configured private key has exactly 32 bytes.
    pub open spec fn wf(self) -> bool {
        self.private_key matches Some(sk) ==> sk@.len() == PRIVATE_KEY_LEN
    }

    /// An uninitialized runtime attestation key.
    pub fn new() -> (r: Self)
        ensures
            r.wf(),
            r.private_key is None,
            r.avr is None,
    {
        RAK { private_key: None, avr: None }
    }

    /// The binding hash of a public key: digest of context and key.
    pub fn report_body_for_rak(pk: &Vec<u8>) -> (r: Vec<u8>)
        requires
            pk@.len() == PUBLIC_KEY_LEN,
        ensures
            r@ == spec_report_body_for_rak(pk@),
            r@.len() == 32,
    {
        let mut message: Vec<u8> = Vec::new();
        message.push(69);
        message.push(107);
        message.push(78);
        message.push(111);
        message.push(100);
        message.push(82);
        message.push(101);
        message.push(103);
        assert(message@ =~= spec_rak_hash_context());
        let mut i: usize = 0;
        while i < pk.len()
            invariant
                i <= pk@.len(),
                message@ == spec_rak_hash_context() + pk@.subrange(0, i as int),
            decreases pk@.len() - i,
        {
            message.push(pk[i]);
            i = i + 1;
            assert(message@ =~= spec_rak_hash_context() + pk@.subrange(0, i as int));
        }
        assert(message@ =~= spec_rak_hash_context() + pk@);
        sha512_256(&message)
    }

    /// Install a signing key: the key is stored, any previous report is
    /// discarded, and the 64-byte report data is returned, holding the
    /// binding hash of the public key zero-padded to length.
    pub fn init_with_key(&mut self, private_key: Vec<u8>) -> (report_data: Vec<u8>)
        requires
            old(self).wf(),
            private_key@.len() == PRIVATE_KEY_LEN,
        ensures
            final(self).wf(),
            final(self).private_key == Some(private_key),
            final(self).avr is None,
            report_data@.len() == REPORT_DATA_LEN,
            report_data@.subrange(0, 32) == spec_report_body_for_rak(ed25519_pk_of(private_key@)),
            forall|i: int| 32 <= i < 64 ==> report_data@[i] == 0u8,
    {
        let pk = ed25519_public_key(&private_key);
        let body = Self::report_body_for_rak(&pk);
        let mut report_data: Vec<u8> = Vec::new();
        let mut i: usize = 0;
        while i < 32
            invariant
                i <= 32,
                body@.len() == 32,
                report_data@ == body@.subrange(0, i as int),
            decreases 32 - i,
        {
            report_data.push(body[i]);
            i = i + 1;
            assert(report_data@ =~= body@.subrange(0, i as int));
        }
        assert(report_data@ =~= body@);
        let mut j: usize = 32;
        while j < 64
            invariant
                32 <= j <= 64,
                report_data@.len() == j,
                report_data@.subrange(0, 32) == body@,
                forall|i2: int| 32 <= i2 < j ==> report_data@[i2] == 0u8,
            decreases 64 - j,
        {
            report_data.push(0);
            j = j + 1;
            assert(report_data@.subrange(0, 32) =~= body@);
        }
        self.private_key = Some(private_key);
        self.avr = None;
        report_data
    }

    /// The public part of the RAK, or `None` while uninitialized.
    pub fn public_key(&self) -> (r: Option<Vec<u8>>)
        requires
            self.wf(),
        ensures
            match r {
                Some(pk) => self.private_key matches Some(sk) && pk@ == ed25519_pk_of(sk@),
                None => self.private_key is None,
            },
    {
        match &self.private_key {
            Some(sk) => Some(ed25519_public_key(sk)),
            None => None,
        }
    }

    /// The attestation verification report, or `None` while unset.
    pub fn avr(&self) -> (r: Option<&AuthenticatedAvr>)
        ensures
            match r {
                Some(a) => self.avr matches Some(b) && a == b,
                None => self.avr is None,
            },
    {
        match &self.avr {
            Some(a) => Some(a),
            None => None,
        }
    }

    /// Sign the 8-byte context followed by the message with the RAK;
    /// fails while the RAK is not configured.
    pub fn sign(&self, context: &Vec<u8>, message: &Vec<u8>) -> (r: Result<Vec<u8>, RakError>)
        requires
            self.wf(),
            context@.len() == RAK_HASH_CONTEXT_LEN,
        ensures
            match r {
                Ok(sig) => self.private_key matches Some(sk) && sig@ == ed25519_sig_of(
                    sk@,
                    context@ + message@,
                ),
                Err(e) => e is NotConfigured && self.private_key is None,
            },
    {
        let sk = match &self.private_key {
            Some(sk) => sk,
            None => {
                return Err(RakError::NotConfigured);
            },
        };
        let mut signed: Vec<u8> = Vec::new();
        let mut i: usize = 0;
        while i < context.len()
            invariant
                i <= context@.len(),
                signed@ == context@.subrange(0, i as int),
            decreases context@.len() - i,
        {
            signed.push(context[i]);
            i = i + 1;
            assert(signed@ =~= context@.subrange(0, i as int));
        }
        assert(signed@ =~= context@);
        let mut j: usize = 0;
        while j < message.len()
            invariant
                j <= message@.len(),
                signed@ == context@ + message@.subrange(0, j as int),
            decreases message@.len() - j,
        {
            signed.push(message[j]);
            j = j + 1;
            assert(signed@ =~= context@ + message@.subrange(0, j as int));
        }
        assert(signed@ =~= context@ + message@);
        Ok(ed25519_sign(sk, &signed))
    }

    /// Attach an attestation verification report: fails while the RAK is
    /// not configured, and when the report's data does not carry the
    /// binding hash of the configured public key.
    pub fn set_avr(&mut self, avr: AuthenticatedAvr) -> (r: Result<(), RakError>)
        requires
            old(self).wf(),
        ensures
            final(self).wf(),
            final(self).private_key == old(self).private_key,
            match r {
                Ok(()) => old(self).private_key matches Some(sk) && spec_binding_ok(
                    avr.report_data@,
                    ed25519_pk_of(sk@),
                ) && final(self).avr == Some(avr),
                Err(e) => final(self).avr == old(self).avr && (if old(self).private_key is None {
                    e is NotConfigured
                } else {
                    (e is BindingMismatch || e is MalformedReportData) && (old(
                        self,
                    ).private_key matches Some(sk) && !spec_binding_ok(
                        avr.report_data@,
                        ed25519_pk_of(sk@),
                    ))
                }),
            },
    {
        let sk = match &self.private_key {
            Some(sk) => sk,
            None => {
                return Err(RakError::NotConfigured);
            },
        };
        let pk = ed25519_public_key(sk);
        match Self::verify_binding(&avr, &pk) {
            Ok(()) => {
                self.avr = Some(avr);
                Ok(())
            },
            Err(e) => Err(e),
        }
    }

    /// Verify a RAK binding: the report data must be at least 32 bytes
    /// and its 32-byte prefix must equal the binding hash of the key.
    pub fn verify_binding(avr: &AuthenticatedAvr, rak: &Vec<u8>) -> (r: Result<(), RakError>)
        requires
            rak@.len() == PUBLIC_KEY_LEN,
        ensures
            avr.report_data@.len() < 32 ==> (r matches Err(e) && e is MalformedReportData),
            avr.report_data@.len() >= 32 ==> match r {
                Ok(()) => spec_binding_ok(avr.report_data@, rak@),
                Err(e) => e is BindingMismatch && !spec_binding_ok(avr.report_data@, rak@),
            },
    {
        if avr.report_data.len() < 32 {
            return Err(RakError::MalformedReportData);
        }
        let body = Self::report_body_for_rak(rak);
        let mut i: usize = 0;
        while i < 32
            invariant
                i <= 32,
                body@.len() == 32,
                avr.report_data@.len() >= 32,
                body@ == spec_report_body_for_rak(rak@),
                forall|k: int| 0 <= k < i ==> body@[k] == avr.report_data@[k],
            decreases 32 - i,
        {
            if body[i] != avr.report_data[i] {
                assert(!spec_binding_ok(avr.report_data@, rak@)) by {
                    assert(avr.report_data@.subrange(0, 32)[i as int] != spec_report_body_for_rak(
                        rak@,
                    )[i as int]);
                }
                return Err(RakError::BindingMismatch);
            }
            i = i + 1;
        }
        proof {
            assert(avr.report_data@.subrange(0, 32) =~= body@);
        }
        Ok(())
    }
}

/// Whether a report data field carries the binding hash of a public key:
/// it is at least 32 bytes and its prefix is the hash.
pub open spec fn spec_binding_ok(report_data: Seq<u8>, pk: Seq<u8>) -> bool {
    report_data.len() >= 32 && report_data.subrange(0, 32) == spec_report_body_for_rak(pk)
}

} // verus!
