//! The signer: turns the finished measurement digest plus enclave
//! parameters into a cryptographically signed, hardware-verifiable
//! structure, using a fresh enclave-instance key — no key is ever reused
//! across builds.

use vstd::prelude::*;

use sgx::crypto::PrivateKey;

use crate::Error;

verus! {

#[verifier::external_type_specification]
#[verifier::external_body]
pub struct ExParameters(sgx::parameters::Parameters);

#[verifier::external_type_specification]
#[verifier::external_body]
pub struct ExAuthor(sgx::signature::Author);

#[verifier::external_type_specification]
#[verifier::external_body]
pub struct ExBody(sgx::signature::Body);

#[verifier::external_type_specification]
#[verifier::external_body]
pub struct ExSignature(sgx::signature::Signature);

#[verifier::external_type_specification]
#[verifier::external_body]
pub struct ExKey(sgx::crypto::openssl::RS256PrivateKey);

#[verifier::external_type_specification]
#[verifier::external_body]
pub struct ExErrorStack(openssl::error::ErrorStack);

/// Relies on sgx::parameters::Parameters's Default impl: the default
/// enclave creation parameters, requesting no extra CPU features.
#[verifier::external_body]
pub fn parameters_default() -> sgx::parameters::Parameters {
    Default::default()
}

/// Relies on sgx::signature::Author::new: the signature's author block for
/// a date and software-defined value, with the fixed vendor headers.
#[verifier::external_body]
fn author_new(date: u32, swdefined: u32) -> sgx::signature::Author {
    sgx::signature::Author::new(date, swdefined)
}

/// Relies on sgx::parameters::Parameters::body: the signature body binding
/// these parameters to a 32-byte measurement.
#[verifier::external_body]
fn parameters_body(
    params: &sgx::parameters::Parameters,
    mrenclave: &Vec<u8>,
) -> sgx::signature::Body
    requires
        mrenclave@.len() == 32,
{
    let mut arr = [0u8; 32];
    arr.copy_from_slice(mrenclave.as_slice());
    params.body(arr)
}

/// Relies on sgx::crypto::openssl::RS256PrivateKey::generate: a fresh
/// 3072-bit RSA key with the given public exponent. The key is random:
/// nothing is promised of the value, and two calls may differ.
#[verifier::external_body]
fn generate_key(exponent: u8) -> Result<
    sgx::crypto::openssl::RS256PrivateKey,
    openssl::error::ErrorStack,
> {
    sgx::crypto::openssl::RS256PrivateKey::generate(exponent)
}

/// Relies on sgx::signature::Signature::new: signs the author and body
/// with the key, producing the hardware-verifiable signed structure.
#[verifier::external_body]
fn signature_new(
    key: &sgx::crypto::openssl::RS256PrivateKey,
    author: sgx::signature::Author,
    body: sgx::signature::Body,
) -> Result<sgx::signature::Signature, openssl::error::ErrorStack> {
    sgx::signature::Signature::new(key, author, body)
}

/// Produces the signed structure over a finished 32-byte measurement:
/// generates the enclave-instance key, binds digest, parameters and the
/// vendor author identity, and signs. One-shot: the digest is consumed.
/// The signed value is opaque; only the hardware can check it.
pub fn sign_measurement(params: &sgx::parameters::Parameters, mrenclave: &Vec<u8>) -> (r: Result<
    sgx::signature::Signature,
    Error,
>)
    requires
        mrenclave@.len() == 32,
    ensures
        r is Err ==> r == Err::<sgx::signature::Signature, Error>(Error::KeyGeneration) || r
            == Err::<sgx::signature::Signature, Error>(Error::Signing),
{
    let key = match generate_key(3) {
        Ok(k) => k,
        Err(_) => {
            return Err(Error::KeyGeneration);
        },
    };
    let author = author_new(0, 0);
    let body = parameters_body(params, mrenclave);
    match signature_new(&key, author, body) {
        Ok(s) => Ok(s),
        Err(_) => Err(Error::Signing),
    }
}

} // verus!
