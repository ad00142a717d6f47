//! Secret values, each kept in a container of the `secrecy` crate.
//!
//! `secrecy::Secret` wipes what it holds when it is dropped and does not show it
//! in its `Debug` output. Its declaration is bounded by a trait of the `zeroize`
//! crate, so each of the four instances that this library needs sits in a private
//! field of a type of its own. What such a container holds is its view.
use secrecy::ExposeSecret;
use secrecy::Secret;
use vstd::prelude::*;

verus! {

/// A secret text, such as a recovery phrase: a `secrecy::SecretString`.
#[verifier::external_body]
pub struct SecretString {
    inner: secrecy::SecretString,
}

/// Secret bytes of any length: a `secrecy::Secret<Vec<u8>>`.
#[verifier::external_body]
pub struct SecretBytes {
    inner: Secret<Vec<u8>>,
}

/// A secret seed of 64 bytes: a `secrecy::Secret<[u8; 64]>`.
#[verifier::external_body]
pub struct SecretSeed {
    inner: Secret<[u8; 64]>,
}

/// A secret scalar of 32 bytes: a `secrecy::Secret<[u8; 32]>`.
#[verifier::external_body]
pub struct SecretScalar {
    inner: Secret<[u8; 32]>,
}

/// The characters that a secret text holds.
pub uninterp spec fn secret_text(secret: SecretString) -> Seq<char>;

/// The bytes that a container of secret bytes holds.
pub uninterp spec fn secret_bytes(secret: SecretBytes) -> Seq<u8>;

/// The bytes that a secret seed holds.
pub uninterp spec fn secret_seed(secret: SecretSeed) -> Seq<u8>;

/// The bytes that a secret scalar holds.
pub uninterp spec fn secret_scalar(secret: SecretScalar) -> Seq<u8>;

impl View for SecretString {
    type V = Seq<char>;

    open spec fn view(&self) -> Seq<char> {
        secret_text(*self)
    }
}

impl View for SecretBytes {
    type V = Seq<u8>;

    open spec fn view(&self) -> Seq<u8> {
        secret_bytes(*self)
    }
}

impl View for SecretSeed {
    type V = Seq<u8>;

    open spec fn view(&self) -> Seq<u8> {
        secret_seed(*self)
    }
}

impl View for SecretScalar {
    type V = Seq<u8>;

    open spec fn view(&self) -> Seq<u8> {
        secret_scalar(*self)
    }
}

/// `secrecy::Secret::new` on a string: the container holds that text.
#[verifier::external_body]
fn seal_text(text: String) -> (secret: SecretString)
    ensures
        secret_text(secret) == text@,
{
    SecretString { inner: Secret::new(text) }
}

/// `secrecy::ExposeSecret::expose_secret` on a string: the text that it holds.
#[verifier::external_body]
fn expose_text(secret: &SecretString) -> (text: &str)
    ensures
        text@ == secret_text(*secret),
{
    secret.inner.expose_secret()
}

/// `secrecy::Secret::clone` on a string: a second container that holds the same
/// text.
#[verifier::external_body]
fn clone_text(secret: &SecretString) -> (copy: SecretString)
    ensures
        secret_text(copy) == secret_text(*secret),
{
    SecretString { inner: secret.inner.clone() }
}

/// `secrecy::Secret::new` on bytes: the container holds those bytes.
#[verifier::external_body]
fn seal_bytes(bytes: Vec<u8>) -> (secret: SecretBytes)
    ensures
        secret_bytes(secret) == bytes@,
{
    SecretBytes { inner: Secret::new(bytes) }
}

/// `secrecy::ExposeSecret::expose_secret` on bytes: the bytes that it holds.
#[verifier::external_body]
fn expose_bytes(secret: &SecretBytes) -> (bytes: &Vec<u8>)
    ensures
        bytes@ == secret_bytes(*secret),
{
    secret.inner.expose_secret()
}

/// `secrecy::Secret::new` on 64 bytes: the container holds those bytes.
#[verifier::external_body]
fn seal_seed(bytes: [u8; 64]) -> (secret: SecretSeed)
    ensures
        secret_seed(secret) == bytes@,
{
    SecretSeed { inner: Secret::new(bytes) }
}

/// `secrecy::ExposeSecret::expose_secret` on 64 bytes: the bytes that it holds.
#[verifier::external_body]
fn expose_seed(secret: &SecretSeed) -> (bytes: &[u8; 64])
    ensures
        bytes@ == secret_seed(*secret),
{
    secret.inner.expose_secret()
}

/// `secrecy::Secret::new` on 32 bytes: the container holds those bytes.
#[verifier::external_body]
fn seal_scalar(bytes: [u8; 32]) -> (secret: SecretScalar)
    ensures
        secret_scalar(secret) == bytes@,
{
    SecretScalar { inner: Secret::new(bytes) }
}

/// `secrecy::ExposeSecret::expose_secret` on 32 bytes: the bytes that it holds.
#[verifier::external_body]
fn expose_scalar(secret: &SecretScalar) -> (bytes: &[u8; 32])
    ensures
        bytes@ == secret_scalar(*secret),
{
    secret.inner.expose_secret()
}

impl SecretString {
    /// Takes ownership of a secret text.
    pub fn new(text: String) -> (secret: SecretString)
        ensures
            secret@ == text@,
    {
        seal_text(text)
    }

    /// The text itself: the only access to it.
    pub fn expose_secret(&self) -> (text: &str)
        ensures
            text@ == self@,
    {
        expose_text(self)
    }
}

impl Clone for SecretString {
    /// A second container with the same text.
    fn clone(&self) -> (copy: SecretString)
        ensures
            copy@ == self@,
    {
        clone_text(self)
    }
}

impl SecretBytes {
    /// Takes ownership of secret bytes.
    pub fn new(bytes: Vec<u8>) -> (secret: SecretBytes)
        ensures
            secret@ == bytes@,
    {
        seal_bytes(bytes)
    }

    /// The bytes themselves: the only access to them.
    pub fn expose_secret(&self) -> (bytes: &Vec<u8>)
        ensures
            bytes@ == self@,
    {
        expose_bytes(self)
    }
}

impl SecretSeed {
    /// Takes ownership of a secret seed.
    pub fn new(bytes: [u8; 64]) -> (secret: SecretSeed)
        ensures
            secret@ == bytes@,
    {
        seal_seed(bytes)
    }

    /// The seed itself: the only access to it.
    pub fn expose_secret(&self) -> (bytes: &[u8; 64])
        ensures
            bytes@ == self@,
    {
        expose_seed(self)
    }
}

impl SecretScalar {
    /// Takes ownership of a secret scalar.
    pub fn new(bytes: [u8; 32]) -> (secret: SecretScalar)
        ensures
            secret@ == bytes@,
    {
        seal_scalar(bytes)
    }

    /// The scalar itself: the only access to it.
    pub fn expose_secret(&self) -> (bytes: &[u8; 32])
        ensures
            bytes@ == self@,
    {
        expose_scalar(self)
    }
}

} // verus!
