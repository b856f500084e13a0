//! A secret value, and what can go wrong with one.
use crate::secrets::key::CredentialKey;
use vstd::prelude::*;
use vstd::utf8::*;

verus! {

/// A secret value. It cannot be shown: it has no rendering of any kind.
pub struct Secret(Vec<u8>);

impl View for Secret {
    type V = Seq<u8>;

    closed spec fn view(&self) -> Seq<u8> {
        self.0@
    }
}

impl Secret {
    /// A secret of these bytes.
    #[must_use]
    pub fn new(bytes: Vec<u8>) -> (r: Secret)
        ensures
            r@ == bytes@,
    {
        Secret(bytes)
    }

    /// A secret of this text.
    #[must_use]
    pub fn from_text(text: &str) -> (r: Secret)
        ensures
            r@ == encode_utf8(text@),
    {
        let bytes: &[u8] = text.as_bytes();
        let mut v: Vec<u8> = Vec::new();
        v.extend_from_slice(bytes);
        assert(v@ =~= bytes@);
        Secret(v)
    }

    /// The bytes, for the one who has to use them.
    #[must_use]
    pub fn expose(&self) -> (r: &[u8])
        ensures
            r@ == self@,
    {
        self.0.as_slice()
    }
}

/// What can go wrong with a secret. No secret stands in it.
#[derive(Debug, PartialEq, Eq)]
#[non_exhaustive]
pub enum SecretError {
    /// There is none under this key.
    NotFound(CredentialKey),
    /// The store cannot be unlocked.
    Locked,
    /// The store failed, at what the text says.
    Backend(String),
}

/// What a [`SecretError`] holds.
#[verifier::ext_equal]
pub ghost enum SecretErrorView {
    NotFound((Seq<char>, Seq<char>)),
    Locked,
    Backend(Seq<char>),
}

impl View for SecretError {
    type V = SecretErrorView;

    open spec fn view(&self) -> SecretErrorView {
        match self {
            SecretError::NotFound(key) => SecretErrorView::NotFound(key@),
            SecretError::Locked => SecretErrorView::Locked,
            SecretError::Backend(at) => SecretErrorView::Backend(at@),
        }
    }
}

impl SecretError {
    /// The stable code of the error.
    #[must_use]
    pub fn code(&self) -> (r: &'static str)
        ensures
            r@ == (match *self {
                SecretError::NotFound(_) => "secret_not_found"@,
                SecretError::Locked => "secret_locked"@,
                SecretError::Backend(_) => "secret_backend"@,
            }),
    {
        match self {
            SecretError::NotFound(_) => "secret_not_found",
            SecretError::Locked => "secret_locked",
            SecretError::Backend(_) => "secret_backend",
        }
    }
}

} // verus!
