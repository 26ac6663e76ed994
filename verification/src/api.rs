//! The transport-facing helpers that contain decidable logic: the parsed
//! connection query and the API-key check that guards a new session.

use vstd::prelude::*;

verus! {

/// The query-string parameters a connecting client supplies.
pub struct QueryString {
    pub key: String,
    pub name: String,
}

/// Whether a connection with this key may open a session: always in dev
/// mode, otherwise exactly when the key is one of the configured API keys
/// (byte-for-byte).
pub open spec fn spec_key_allowed(dev_mode: bool, api_keys: Seq<Vec<u8>>, key: Seq<u8>) -> bool {
    dev_mode || exists|i: int| 0 <= i < api_keys.len() && (#[trigger] api_keys[i])@ == key
}

/// Compares two byte strings.
pub fn bytes_eq(a: &Vec<u8>, b: &Vec<u8>) -> (r: bool)
    ensures
        r == (a@ == b@),
{
    if a.len() != b.len() {
        proof {
            assert(a@ != b@);
        }
        return false;
    }
    let n = a.len();
    let mut i: usize = 0;
    while i < n
        invariant
            i <= n,
            n == a@.len(),
            n == b@.len(),
            forall|k: int| 0 <= k < i ==> a@[k] == b@[k],
        decreases n - i,
    {
        if a[i] != b[i] {
            return false;
        }
        i = i + 1;
    }
    proof {
        assert(a@ =~= b@);
    }
    true
}

/// The decision of the session gate, on plain values: the transport layer
/// hands in the configured keys and the presented key as bytes.
pub fn key_allowed(dev_mode: bool, api_keys: &Vec<Vec<u8>>, key: &Vec<u8>) -> (r: bool)
    ensures
        r == spec_key_allowed(dev_mode, api_keys@, key@),
{
    if dev_mode {
        return true;
    }
    let n = api_keys.len();
    let mut i: usize = 0;
    while i < n
        invariant
            i <= n,
            n == api_keys@.len(),
            forall|k: int| 0 <= k < i ==> api_keys@[k]@ != key@,
        decreases n - i,
    {
        if bytes_eq(&api_keys[i], key) {
            return true;
        }
        i = i + 1;
    }
    false
}

} // verus!
