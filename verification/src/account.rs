//! The credentials of an exchange account.

use vstd::prelude::*;

verus! {

/// An access key and the secret that signs requests made with it.
#[derive(Clone, Debug)]
pub struct UpbitAccount {
    pub access_key: String,
    pub secret_key: String,
}

impl UpbitAccount {
    /// An account with these credentials.
    pub fn new(access_key: String, secret_key: String) -> (account: UpbitAccount)
        ensures
            account.access_key == access_key,
            account.secret_key == secret_key,
    {
        UpbitAccount { access_key, secret_key }
    }
}

} // verus!
