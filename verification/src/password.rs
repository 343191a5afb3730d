//! Password hashes: made and checked by scrypt.

use vstd::prelude::*;

verus! {

/// Whether `hash` is a text that `crypto::scrypt::scrypt_simple` can have made.
pub uninterp spec fn is_scrypt_hash(hash: Seq<char>) -> bool;

/// Whether `crypto::scrypt::scrypt_check` finds that `password` hashes to `hash`.
pub uninterp spec fn scrypt_accepts(password: Seq<char>, hash: Seq<char>) -> bool;

/// `crypto::scrypt::scrypt_simple` with the parameters `ScryptParams::new(14, 8, 1)`.
///
/// Trusted: the salt is random, so the text itself is left open; whatever it is,
/// `scrypt_check` accepts the password against it. `None` where the system offers no
/// random source.
#[verifier::external_body]
fn scrypt_hash(password: &str) -> (hash: Option<String>)
    ensures
        hash matches Some(h) ==> is_scrypt_hash(h@) && scrypt_accepts(password@, h@),
{
    crypto::scrypt::scrypt_simple(password, &crypto::scrypt::ScryptParams::new(14, 8, 1)).ok()
}

/// `crypto::scrypt::scrypt_check`.
///
/// Trusted: the answer is the one named by [`scrypt_accepts`]. On a text that
/// `scrypt_simple` did not make the outside function may panic on the parameters it reads
/// from it, so such texts are excluded.
#[verifier::external_body]
fn scrypt_verify(password: &str, hash: &str) -> (b: bool)
    requires
        is_scrypt_hash(hash@),
    ensures
        b == scrypt_accepts(password@, hash@),
{
    crypto::scrypt::scrypt_check(password, hash).unwrap_or(false)
}

/// The hash of a password, as stored with a user.
pub struct PasswordHash {
    text: String,
}

impl View for PasswordHash {
    type V = Seq<char>;

    closed spec fn view(&self) -> Seq<char> {
        self.text@
    }
}

impl Clone for PasswordHash {
    fn clone(&self) -> (r: Self)
        ensures
            r@ == self@,
    {
        proof {
            use_type_invariant(self);
        }
        PasswordHash { text: self.text.clone() }
    }
}

impl PasswordHash {
    #[verifier::type_invariant]
    spec fn made_by_scrypt(self) -> bool {
        is_scrypt_hash(self.text@)
    }

    /// Hashes `password` under a fresh random salt. `None` where the system offers no
    /// random source.
    pub fn create(password: &str) -> (r: Option<PasswordHash>)
        ensures
            r matches Some(h) ==> h.accepts(password@),
    {
        match scrypt_hash(password) {
            Some(text) => Some(PasswordHash { text }),
            None => None,
        }
    }

    /// Whether `password` is the one this hash was made from.
    pub open spec fn accepts(&self, password: Seq<char>) -> bool {
        scrypt_accepts(password, self@)
    }

    /// Checks `password` against the hash.
    pub fn verify(&self, password: &str) -> (b: bool)
        ensures
            b == self.accepts(password@),
    {
        proof {
            use_type_invariant(self);
        }
        scrypt_verify(password, self.text.as_str())
    }

    /// The hash as text.
    pub fn as_str(&self) -> (text: &str)
        ensures
            text@ == self@,
    {
        self.text.as_str()
    }
}

} // verus!
