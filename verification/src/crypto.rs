//! Signature checks: public-key recovery for secp256k1, single and aggregate
//! verification for BLS. Nothing here keeps state or charges gas.

use vstd::prelude::*;
use bls_signatures::Serialize;
use libsecp256k1::Error as SecpFault;
use crate::address::{
    address_wf, blake2b_256, blake2b_256_spec, secp256k1_address, Address, AddressError,
    AddressView, Protocol, BLS_PUB_LEN,
};
use crate::bytes::be_value;

verus! {

/// Length of a secp256k1 signature: `r`, `s` and the recovery byte.
pub const SECP_SIG_LEN: usize = 65;

/// Length of the `r` and `s` part of a secp256k1 signature.
pub const SECP_SIG_BODY_LEN: usize = 64;

/// Length of a BLS signature.
pub const BLS_SIG_LEN: usize = 96;

/// The scheme of a signature.
#[derive(Clone, Copy, Debug, PartialEq, Eq, Structural)]
pub enum SignatureType {
    Secp256k1,
    BLS,
}

/// A signature as it arrives: its scheme and its bytes, not yet checked.
#[derive(Debug)]
pub struct Signature {
    sig_type: SignatureType,
    bytes: Vec<u8>,
}

impl Signature {
    pub closed spec fn spec_type(&self) -> SignatureType {
        self.sig_type
    }

    pub closed spec fn spec_bytes(&self) -> Seq<u8> {
        self.bytes@
    }

    /// A BLS signature with the given bytes.
    pub fn new_bls(bytes: Vec<u8>) -> (s: Signature)
        ensures
            s.spec_type() == SignatureType::BLS,
            s.spec_bytes() == bytes@,
    {
        Signature { sig_type: SignatureType::BLS, bytes }
    }

    /// A secp256k1 signature with the given bytes.
    pub fn new_secp256k1(bytes: Vec<u8>) -> (s: Signature)
        ensures
            s.spec_type() == SignatureType::Secp256k1,
            s.spec_bytes() == bytes@,
    {
        Signature { sig_type: SignatureType::Secp256k1, bytes }
    }

    /// The scheme of the signature.
    pub fn signature_type(&self) -> (t: SignatureType)
        ensures
            t == self.spec_type(),
    {
        self.sig_type
    }

    /// The bytes of the signature.
    pub fn bytes(&self) -> (b: &[u8])
        ensures
            b@ == self.spec_bytes(),
    {
        self.bytes.as_slice()
    }
}

/// The ways in which the secp256k1 library refuses its input.
#[derive(Clone, Copy, Debug, PartialEq, Eq, Structural)]
pub enum SecpError {
    InvalidSignature,
    InvalidPublicKey,
    InvalidSecretKey,
    InvalidRecoveryId,
    InvalidMessage,
    InvalidInputLength,
    TweakOutOfRange,
    InvalidAffine,
}

impl SecpError {
    /// The name of the variant.
    pub open spec fn spec_name(self) -> Seq<char> {
        match self {
            SecpError::InvalidSignature => "InvalidSignature"@,
            SecpError::InvalidPublicKey => "InvalidPublicKey"@,
            SecpError::InvalidSecretKey => "InvalidSecretKey"@,
            SecpError::InvalidRecoveryId => "InvalidRecoveryId"@,
            SecpError::InvalidMessage => "InvalidMessage"@,
            SecpError::InvalidInputLength => "InvalidInputLength"@,
            SecpError::TweakOutOfRange => "TweakOutOfRange"@,
            SecpError::InvalidAffine => "InvalidAffine"@,
        }
    }

    /// The name of the variant, as text.
    pub fn name(self) -> (s: String)
        ensures
            s@ == self.spec_name(),
    {
        match self {
            SecpError::InvalidSignature => "InvalidSignature".to_owned(),
            SecpError::InvalidPublicKey => "InvalidPublicKey".to_owned(),
            SecpError::InvalidSecretKey => "InvalidSecretKey".to_owned(),
            SecpError::InvalidRecoveryId => "InvalidRecoveryId".to_owned(),
            SecpError::InvalidMessage => "InvalidMessage".to_owned(),
            SecpError::InvalidInputLength => "InvalidInputLength".to_owned(),
            SecpError::TweakOutOfRange => "TweakOutOfRange".to_owned(),
            SecpError::InvalidAffine => "InvalidAffine".to_owned(),
        }
    }
}

/// Crypto error.
#[derive(Debug)]
pub enum Error {
    /// Failed to produce a signature.
    SigningError(String),
    /// Unable to recover a public key with the given parameters.
    InvalidRecovery(String),
    /// Provided public key is not understood.
    InvalidPubKey(AddressError),
}

/// A crypto error as plain values.
pub ghost enum ErrorView {
    SigningError(Seq<char>),
    InvalidRecovery(Seq<char>),
    InvalidPubKey(AddressError),
}

impl View for Error {
    type V = ErrorView;

    open spec fn view(&self) -> ErrorView {
        match self {
            Error::SigningError(s) => ErrorView::SigningError(s@),
            Error::InvalidRecovery(s) => ErrorView::InvalidRecovery(s@),
            Error::InvalidPubKey(e) => ErrorView::InvalidPubKey(*e),
        }
    }
}

/// The crypto error that stands for a refusal of the secp256k1 library: a bad
/// recovery identifier is an invalid recovery, anything else a signing error;
/// both carry the name of the refusal.
pub open spec fn error_of_secp(err: SecpError) -> ErrorView {
    match err {
        SecpError::InvalidRecoveryId => ErrorView::InvalidRecovery(err.spec_name()),
        _ => ErrorView::SigningError(err.spec_name()),
    }
}

impl From<SecpError> for Error {
    /// Turns a refusal of the secp256k1 library into a crypto error.
    fn from(err: SecpError) -> (e: Error)
        ensures
            e@ == error_of_secp(err),
    {
        match err {
            SecpError::InvalidRecoveryId => Error::InvalidRecovery(err.name()),
            _ => Error::SigningError(err.name()),
        }
    }
}

impl vstd::std_specs::convert::FromSpecImpl<SecpError> for Error {
    /// Two errors with the same text need not be the same value, so the
    /// conversion is specified over views, on `from` itself.
    open spec fn obeys_from_spec() -> bool {
        false
    }

    open spec fn from_spec(err: SecpError) -> Error {
        arbitrary()
    }
}

/// The text of a crypto error.
pub open spec fn error_text(e: ErrorView) -> Seq<char> {
    match e {
        ErrorView::SigningError(m) => "Failed to sign data "@ + m,
        ErrorView::InvalidRecovery(m) => "Could not recover public key from signature: "@ + m,
        ErrorView::InvalidPubKey(_) => "Invalid generated pub key to create address"@,
    }
}

impl Error {
    /// The error as text.
    pub fn message(&self) -> (s: String)
        ensures
            s@ == error_text(self@),
    {
        match self {
            Error::SigningError(m) => "Failed to sign data ".to_owned().concat(m.as_str()),
            Error::InvalidRecovery(m) => "Could not recover public key from signature: ".to_owned(
            ).concat(m.as_str()),
            Error::InvalidPubKey(_) => "Invalid generated pub key to create address".to_owned(),
        }
    }
}

/// The order of the secp256k1 group.
pub open spec fn secp256k1_order() -> nat {
    0xFFFFFFFF_FFFFFFFF_FFFFFFFF_FFFFFFFE_BAAEDCE6_AF48A03B_BFD25E8C_D0364141nat
}

/// Whether `r` and `s`, the two 32-byte halves of a signature body, are both
/// below the group order.
pub open spec fn secp_signature_in_range(body: Seq<u8>) -> bool {
    &&& body.len() == SECP_SIG_BODY_LEN
    &&& be_value(body.subrange(0, 32)) < secp256k1_order()
    &&& be_value(body.subrange(32, 64)) < secp256k1_order()
}

/// The public key, 65 bytes in uncompressed form, that `libsecp256k1::recover`
/// finds for a message hash, a signature body and a recovery identifier;
/// `None` where it finds none.
pub uninterp spec fn secp_recovered_key(hash: Seq<u8>, body: Seq<u8>, recovery_id: u8) -> Option<
    Seq<u8>,
>;

/// Calls `libsecp256k1::RecoveryId::parse`, which accepts the identifiers 0 to
/// 3 and refuses every other byte as an invalid recovery identifier.
#[verifier::external_body]
fn secp_check_recovery_id(recovery_id: u8) -> (r: Result<(), SecpError>)
    ensures
        r == if recovery_id < 4 {
            Ok::<(), SecpError>(())
        } else {
            Err::<(), SecpError>(SecpError::InvalidRecoveryId)
        },
{
    match libsecp256k1::RecoveryId::parse(recovery_id) {
        Ok(_) => Ok(()),
        Err(e) => Err(match e {
            SecpFault::InvalidSignature => SecpError::InvalidSignature,
            SecpFault::InvalidPublicKey => SecpError::InvalidPublicKey,
            SecpFault::InvalidSecretKey => SecpError::InvalidSecretKey,
            SecpFault::InvalidRecoveryId => SecpError::InvalidRecoveryId,
            SecpFault::InvalidMessage => SecpError::InvalidMessage,
            SecpFault::InvalidInputLength => SecpError::InvalidInputLength,
            SecpFault::TweakOutOfRange => SecpError::TweakOutOfRange,
            SecpFault::InvalidAffine => SecpError::InvalidAffine,
        }),
    }
}

/// Calls `libsecp256k1::Signature::parse_standard`, which accepts a signature
/// body whose two halves are both below the group order and refuses any other
/// as an invalid signature.
#[verifier::external_body]
fn secp_check_signature(body: &[u8; 64]) -> (r: Result<(), SecpError>)
    ensures
        r == if secp_signature_in_range(body@) {
            Ok::<(), SecpError>(())
        } else {
            Err::<(), SecpError>(SecpError::InvalidSignature)
        },
{
    match libsecp256k1::Signature::parse_standard(body) {
        Ok(_) => Ok(()),
        Err(e) => Err(match e {
            SecpFault::InvalidSignature => SecpError::InvalidSignature,
            SecpFault::InvalidPublicKey => SecpError::InvalidPublicKey,
            SecpFault::InvalidSecretKey => SecpError::InvalidSecretKey,
            SecpFault::InvalidRecoveryId => SecpError::InvalidRecoveryId,
            SecpFault::InvalidMessage => SecpError::InvalidMessage,
            SecpFault::InvalidInputLength => SecpError::InvalidInputLength,
            SecpFault::TweakOutOfRange => SecpError::TweakOutOfRange,
            SecpFault::InvalidAffine => SecpError::InvalidAffine,
        }),
    }
}

/// Calls `libsecp256k1::recover` on the parsed hash, signature body and
/// recovery identifier, and serializes the key it finds. The key is 65 bytes
/// long; the only refusal of `recover` is an invalid signature. `requires`
/// leaves out what the two parsers refuse.
#[verifier::external_body]
fn secp_recover(hash: &[u8; 32], body: &[u8; 64], recovery_id: u8) -> (r: Result<
    Vec<u8>,
    SecpError,
>)
    requires
        recovery_id < 4,
        secp_signature_in_range(body@),
    ensures
        match secp_recovered_key(hash@, body@, recovery_id) {
            Some(key) => r matches Ok(k) && k@ == key && key.len() == 65,
            None => r == Err::<Vec<u8>, SecpError>(SecpError::InvalidSignature),
        },
{
    let message = libsecp256k1::Message::parse(hash);
    let signature = libsecp256k1::Signature::parse_standard(body).unwrap();
    let id = libsecp256k1::RecoveryId::parse(recovery_id).unwrap();
    match libsecp256k1::recover(&message, &signature, &id) {
        Ok(key) => Ok(key.serialize().to_vec()),
        Err(SecpFault::InvalidSignature) => Err(SecpError::InvalidSignature),
        Err(SecpFault::InvalidPublicKey) => Err(SecpError::InvalidPublicKey),
        Err(SecpFault::InvalidSecretKey) => Err(SecpError::InvalidSecretKey),
        Err(SecpFault::InvalidRecoveryId) => Err(SecpError::InvalidRecoveryId),
        Err(SecpFault::InvalidMessage) => Err(SecpError::InvalidMessage),
        Err(SecpFault::InvalidInputLength) => Err(SecpError::InvalidInputLength),
        Err(SecpFault::TweakOutOfRange) => Err(SecpError::TweakOutOfRange),
        Err(SecpFault::InvalidAffine) => Err(SecpError::InvalidAffine),
    }
}

/// What `ecrecover` returns for a 32-byte hash and a 65-byte signature, whose
/// last byte is the recovery identifier.
pub open spec fn ecrecover_spec(hash: Seq<u8>, signature: Seq<u8>) -> Result<
    AddressView,
    ErrorView,
> {
    let body = signature.subrange(0, SECP_SIG_BODY_LEN as int);
    let recovery_id = signature[SECP_SIG_BODY_LEN as int];
    if recovery_id >= 4 {
        Err(error_of_secp(SecpError::InvalidRecoveryId))
    } else if !secp_signature_in_range(body) {
        Err(error_of_secp(SecpError::InvalidSignature))
    } else {
        match secp_recovered_key(hash, body, recovery_id) {
            Some(key) => Ok(secp256k1_address(key)),
            None => Err(error_of_secp(SecpError::InvalidSignature)),
        }
    }
}

/// Whether a result of `ecrecover` is the one that the specification names.
pub open spec fn recovery_matches(
    r: Result<Address, Error>,
    expected: Result<AddressView, ErrorView>,
) -> bool {
    match r {
        Ok(a) => expected == Ok::<AddressView, ErrorView>(a@),
        Err(e) => expected == Err::<AddressView, ErrorView>(e@),
    }
}

/// Returns the address of the key that signed `hash`, recovered from the
/// signature: the bytes of `r` and `s`, then the recovery identifier.
pub fn ecrecover(hash: &[u8; 32], signature: &[u8; 65]) -> (r: Result<Address, Error>)
    ensures
        recovery_matches(r, ecrecover_spec(hash@, signature@)),
        r matches Ok(a) ==> address_wf(a@),
{
    let recovery_id = signature[64];
    match secp_check_recovery_id(recovery_id) {
        Ok(_) => {},
        Err(e) => {
            return Err(Error::from(e));
        },
    }
    // The signature without the recovery byte.
    let mut body = [0u8; 64];
    let mut i: usize = 0;
    while i < 64
        invariant
            i <= 64,
            forall|j: int| 0 <= j < i ==> body@[j] == signature@[j],
        decreases 64 - i,
    {
        body[i] = signature[i];
        i = i + 1;
    }
    assert(body@ =~= signature@.subrange(0, SECP_SIG_BODY_LEN as int));
    match secp_check_signature(&body) {
        Ok(_) => {},
        Err(e) => {
            return Err(Error::from(e));
        },
    }
    match secp_recover(hash, &body, recovery_id) {
        Ok(key) => match Address::new_secp256k1(key.as_slice()) {
            Ok(addr) => Ok(addr),
            Err(e) => Err(Error::InvalidPubKey(e)),
        },
        Err(e) => Err(Error::from(e)),
    }
}

/// What a list of byte strings holds.
pub open spec fn byte_strings(list: Seq<&[u8]>) -> Seq<Seq<u8>> {
    list.map_values(|b: &[u8]| b@)
}

/// Whether `bls_signatures` decodes `key` as a public key.
pub uninterp spec fn bls_public_key_decodes(key: Seq<u8>) -> bool;

/// Whether `bls_signatures` decodes `signature` as a signature.
pub uninterp spec fn bls_signature_decodes(signature: Seq<u8>) -> bool;

/// Whether `bls_signatures::verify_messages` accepts `signature` as the
/// aggregate signature of `messages` under `keys`, key by key.
pub uninterp spec fn bls_messages_verified(
    signature: Seq<u8>,
    messages: Seq<Seq<u8>>,
    keys: Seq<Seq<u8>>,
) -> bool;

/// Asks `bls_signatures::PublicKey::from_bytes` whether it decodes `key`. It
/// refuses any key that is not 48 bytes long.
#[verifier::external_body]
fn bls_check_public_key(key: &[u8]) -> (ok: bool)
    ensures
        ok == bls_public_key_decodes(key@),
        ok ==> key@.len() == BLS_PUB_LEN,
{
    bls_signatures::PublicKey::from_bytes(key).is_ok()
}

/// Asks `bls_signatures::Signature::from_bytes` whether it decodes
/// `signature`. It refuses any signature that is not 96 bytes long.
#[verifier::external_body]
fn bls_check_signature(signature: &[u8]) -> (ok: bool)
    ensures
        ok == bls_signature_decodes(signature@),
        ok ==> signature@.len() == BLS_SIG_LEN,
{
    bls_signatures::Signature::from_bytes(signature).is_ok()
}

/// Decodes the signature and the keys and calls
/// `bls_signatures::verify_messages`. `requires` leaves out what the decoders
/// refuse. The call returns false where there is no message, and where the
/// messages and the keys differ in number.
#[verifier::external_body]
fn bls_verify_messages(signature: &[u8], messages: &[&[u8]], keys: &[&[u8]]) -> (ok: bool)
    requires
        bls_signature_decodes(signature@),
        forall|i: int| 0 <= i < keys@.len() ==> bls_public_key_decodes(#[trigger] keys@[i]@),
    ensures
        ok == bls_messages_verified(signature@, byte_strings(messages@), byte_strings(keys@)),
        ok ==> messages@.len() == keys@.len() && messages@.len() > 0,
{
    let signature = bls_signatures::Signature::from_bytes(signature).unwrap();
    let keys: Vec<bls_signatures::PublicKey> =
        keys.iter().map(|k| bls_signatures::PublicKey::from_bytes(k).unwrap()).collect();
    bls_signatures::verify_messages(&signature, messages, &keys)
}

/// Why a signature was not accepted.
#[derive(Debug)]
pub enum SignatureError {
    /// The address is neither a BLS nor a secp256k1 address: it has to be
    /// resolved to a key address before a signature can be checked.
    UnresolvedAddress,
    /// The payload of the BLS address does not decode as a public key.
    MalformedBlsKey,
    /// The bytes do not decode as a BLS signature.
    MalformedBlsSignature,
    /// The BLS signature does not belong to the data and the key.
    BlsVerificationFailed,
    /// A secp256k1 signature that is not 65 bytes long; holds its length.
    InvalidSecpSignatureLength(usize),
    /// No public key could be recovered from the secp256k1 signature.
    Recovery(Error),
    /// The secp256k1 signature was made by another key than the address's.
    SecpVerificationFailed,
}

/// Why a signature was not accepted, as plain values.
pub ghost enum SignatureErrorView {
    UnresolvedAddress,
    MalformedBlsKey,
    MalformedBlsSignature,
    BlsVerificationFailed,
    InvalidSecpSignatureLength(usize),
    Recovery(ErrorView),
    SecpVerificationFailed,
}

impl View for SignatureError {
    type V = SignatureErrorView;

    open spec fn view(&self) -> SignatureErrorView {
        match self {
            SignatureError::UnresolvedAddress => SignatureErrorView::UnresolvedAddress,
            SignatureError::MalformedBlsKey => SignatureErrorView::MalformedBlsKey,
            SignatureError::MalformedBlsSignature => SignatureErrorView::MalformedBlsSignature,
            SignatureError::BlsVerificationFailed => SignatureErrorView::BlsVerificationFailed,
            SignatureError::InvalidSecpSignatureLength(n) => {
                SignatureErrorView::InvalidSecpSignatureLength(*n)
            },
            SignatureError::Recovery(e) => SignatureErrorView::Recovery(e@),
            SignatureError::SecpVerificationFailed => SignatureErrorView::SecpVerificationFailed,
        }
    }
}

/// The text of a refusal of a signature.
pub open spec fn signature_error_text(e: SignatureErrorView) -> Seq<char> {
    match e {
        SignatureErrorView::UnresolvedAddress => "Address must be resolved to verify a signature"@,
        SignatureErrorView::MalformedBlsKey => "Group decode error: bls public key"@,
        SignatureErrorView::MalformedBlsSignature => "Group decode error: bls signature"@,
        SignatureErrorView::BlsVerificationFailed => "bls signature verification failed"@,
        SignatureErrorView::InvalidSecpSignatureLength(_) => {
            "Invalid Secp256k1 signature length, must be 65"@
        },
        SignatureErrorView::Recovery(e) => error_text(e),
        SignatureErrorView::SecpVerificationFailed => "Secp signature verification failed"@,
    }
}

impl SignatureError {
    /// The error as text.
    pub fn message(&self) -> (s: String)
        ensures
            s@ == signature_error_text(self@),
    {
        match self {
            SignatureError::UnresolvedAddress => {
                "Address must be resolved to verify a signature".to_owned()
            },
            SignatureError::MalformedBlsKey => "Group decode error: bls public key".to_owned(),
            SignatureError::MalformedBlsSignature => "Group decode error: bls signature".to_owned(),
            SignatureError::BlsVerificationFailed => "bls signature verification failed".to_owned(),
            SignatureError::InvalidSecpSignatureLength(_) => {
                "Invalid Secp256k1 signature length, must be 65".to_owned()
            },
            SignatureError::Recovery(e) => e.message(),
            SignatureError::SecpVerificationFailed => "Secp signature verification failed".to_owned(),
        }
    }
}

/// Whether the outcome of a signature check is the one that the
/// specification names.
pub open spec fn check_matches(
    r: Result<(), SignatureError>,
    expected: Result<(), SignatureErrorView>,
) -> bool {
    match r {
        Ok(_) => expected is Ok,
        Err(e) => expected == Err::<(), SignatureErrorView>(e@),
    }
}

/// The outcome of checking a BLS signature over `data` against the key that
/// the address holds.
pub open spec fn verify_bls_sig_spec(signature: Seq<u8>, data: Seq<u8>, addr: AddressView) -> Result<
    (),
    SignatureErrorView,
> {
    if !bls_public_key_decodes(addr.payload) {
        Err(SignatureErrorView::MalformedBlsKey)
    } else if !bls_signature_decodes(signature) {
        Err(SignatureErrorView::MalformedBlsSignature)
    } else if !bls_messages_verified(signature, seq![data], seq![addr.payload]) {
        Err(SignatureErrorView::BlsVerificationFailed)
    } else {
        Ok(())
    }
}

/// Checks a BLS signature over `data` against the key that `addr` holds.
pub fn verify_bls_sig(signature: &[u8], data: &[u8], addr: &Address) -> (r: Result<
    (),
    SignatureError,
>)
    ensures
        check_matches(r, verify_bls_sig_spec(signature@, data@, addr@)),
{
    let key = addr.payload_bytes();
    if !bls_check_public_key(key.as_slice()) {
        return Err(SignatureError::MalformedBlsKey);
    }
    if !bls_check_signature(signature) {
        return Err(SignatureError::MalformedBlsSignature);
    }
    let messages: [&[u8]; 1] = [data];
    let keys: [&[u8]; 1] = [key.as_slice()];
    assert(byte_strings(messages@) =~= seq![data@]);
    assert(byte_strings(keys@) =~= seq![addr@.payload]);
    if bls_verify_messages(signature, messages.as_slice(), keys.as_slice()) {
        Ok(())
    } else {
        Err(SignatureError::BlsVerificationFailed)
    }
}

/// The outcome of checking a secp256k1 signature over `data` against an
/// address: the signature has to be 65 bytes long, and the key recovered from
/// it and from the BLAKE2b digest of the data has to hash to the address.
pub open spec fn verify_secp256k1_sig_spec(
    signature: Seq<u8>,
    data: Seq<u8>,
    addr: AddressView,
) -> Result<(), SignatureErrorView> {
    if signature.len() != SECP_SIG_LEN {
        Err(SignatureErrorView::InvalidSecpSignatureLength(signature.len() as usize))
    } else {
        match ecrecover_spec(blake2b_256_spec(data), signature) {
            Err(e) => Err(SignatureErrorView::Recovery(e)),
            Ok(signer) => if signer == addr {
                Ok(())
            } else {
                Err(SignatureErrorView::SecpVerificationFailed)
            },
        }
    }
}

/// Checks a secp256k1 signature over `data` against `addr`.
pub fn verify_secp256k1_sig(signature: &[u8], data: &[u8], addr: &Address) -> (r: Result<
    (),
    SignatureError,
>)
    ensures
        check_matches(r, verify_secp256k1_sig_spec(signature@, data@, addr@)),
{
    if signature.len() != SECP_SIG_LEN {
        return Err(SignatureError::InvalidSecpSignatureLength(signature.len()));
    }
    let digest = blake2b_256(data);
    let mut hash = [0u8; 32];
    let mut i: usize = 0;
    while i < 32
        invariant
            i <= 32,
            digest@.len() == 32,
            forall|j: int| 0 <= j < i ==> hash@[j] == digest@[j],
        decreases 32 - i,
    {
        hash[i] = digest[i];
        i = i + 1;
    }
    assert(hash@ =~= digest@);
    let mut sig = [0u8; 65];
    let mut k: usize = 0;
    while k < 65
        invariant
            k <= 65,
            signature@.len() == 65,
            forall|j: int| 0 <= j < k ==> sig@[j] == signature@[j],
        decreases 65 - k,
    {
        sig[k] = signature[k];
        k = k + 1;
    }
    assert(sig@ =~= signature@);
    match ecrecover(&hash, &sig) {
        Err(e) => Err(SignatureError::Recovery(e)),
        Ok(signer) => if signer.same_as(addr) {
            Ok(())
        } else {
            Err(SignatureError::SecpVerificationFailed)
        },
    }
}

/// The outcome of checking a signature over `data` against an address, by the
/// scheme of the address.
pub open spec fn verify_spec(signature: Seq<u8>, data: Seq<u8>, addr: AddressView) -> Result<
    (),
    SignatureErrorView,
> {
    match addr.protocol {
        Protocol::BLS => verify_bls_sig_spec(signature, data, addr),
        Protocol::Secp256k1 => verify_secp256k1_sig_spec(signature, data, addr),
        _ => Err(SignatureErrorView::UnresolvedAddress),
    }
}

/// Checks that `sign` is a signature over `data` by the key that `addr`
/// stands for. An address that names no key is refused.
pub fn verify(sign: &Signature, data: &[u8], addr: &Address) -> (r: Result<(), SignatureError>)
    ensures
        check_matches(r, verify_spec(sign.spec_bytes(), data@, addr@)),
{
    match addr.protocol() {
        Protocol::BLS => verify_bls_sig(sign.bytes(), data, addr),
        Protocol::Secp256k1 => verify_secp256k1_sig(sign.bytes(), data, addr),
        _ => Err(SignatureError::UnresolvedAddress),
    }
}

/// Whether an aggregate BLS signature is accepted for a list of messages and
/// a list of keys, one key for each message. Lists of different lengths are
/// refused; two empty lists are accepted whatever the signature is; a
/// signature or a key that does not decode is refused like a wrong one.
pub open spec fn verify_bls_aggregate_spec(
    data: Seq<Seq<u8>>,
    pub_keys: Seq<Seq<u8>>,
    signature: Seq<u8>,
) -> bool {
    if data.len() != pub_keys.len() {
        false
    } else if data.len() == 0 {
        true
    } else {
        &&& bls_signature_decodes(signature)
        &&& forall|i: int| 0 <= i < pub_keys.len() ==> bls_public_key_decodes(#[trigger] pub_keys[i])
        &&& bls_messages_verified(signature, data, pub_keys)
    }
}

/// Verifies an aggregate BLS signature over `data` under `pub_keys`.
pub fn verify_bls_aggregate(data: &[&[u8]], pub_keys: &[&[u8]], aggregate_sig: &Signature) -> (ok:
    bool)
    ensures
        ok == verify_bls_aggregate_spec(
            byte_strings(data@),
            byte_strings(pub_keys@),
            aggregate_sig.spec_bytes(),
        ),
        data@.len() != pub_keys@.len() ==> !ok,
        data@.len() == 0 && pub_keys@.len() == 0 ==> ok,
{
    // If the number of public keys and data does not match, then return false.
    if data.len() != pub_keys.len() {
        return false;
    }
    if data.len() == 0 {
        return true;
    }
    if !bls_check_signature(aggregate_sig.bytes()) {
        return false;
    }
    let mut i: usize = 0;
    while i < pub_keys.len()
        invariant
            i <= pub_keys@.len(),
            forall|j: int| 0 <= j < i ==> bls_public_key_decodes(#[trigger] pub_keys@[j]@),
        decreases pub_keys@.len() - i,
    {
        if !bls_check_public_key(pub_keys[i]) {
            assert(!bls_public_key_decodes(byte_strings(pub_keys@)[i as int]));
            return false;
        }
        i = i + 1;
    }
    assert forall|j: int| 0 <= j < byte_strings(pub_keys@).len() implies bls_public_key_decodes(
        #[trigger] byte_strings(pub_keys@)[j],
    ) by {
        assert(bls_public_key_decodes(pub_keys@[j]@));
    }
    // Does the aggregate verification.
    bls_verify_messages(aggregate_sig.bytes(), data, pub_keys)
}

} // verus!
