//! Secret storage in the OS credential store.
//!
//! Secrets are held by the platform's own credential store through the
//! keyring crate; they are never written to disk by this library, and the
//! heap copy of a stored value is wiped after use. The store's answers are
//! mapped to results here, with a descriptive error text for each failure.

use vstd::prelude::*;

verus! {

/// A reference to one stored secret: the key names it; the value lives
/// only in the credential store.
#[derive(Debug)]
pub struct SecretEntry {
    pub key: String,
}

/// The service name under which this library's secrets are grouped in the
/// credential store.
pub open spec fn spec_service_name() -> Seq<char> {
    "devflow-studio"@
}

/// The service name handed to the credential store.
pub fn service_name() -> (r: &'static str)
    ensures
        r@ == spec_service_name(),
{
    "devflow-studio"
}

/// What looking a secret up in the credential store yielded.
#[derive(Debug, PartialEq, Eq)]
pub enum LookupOutcome {
    /// A secret is stored under the key; this is its value.
    Found(String),
    /// No secret is stored under the key.
    Missing,
    /// The store failed; the text is its own description of the failure.
    Failed(String),
}

/// What removing a secret from the credential store yielded.
#[derive(Debug, PartialEq, Eq)]
pub enum DeleteOutcome {
    /// The stored secret was removed.
    Deleted,
    /// No secret was stored under the key.
    Missing,
    /// The store failed; the text is its own description of the failure.
    Failed(String),
}

#[verifier::external_type_specification]
#[verifier::external_body]
pub struct ExKeyringEntry(keyring::Entry);

/// Relies on keyring::Entry::new: builds the credential-store entry for the
/// service and key, or hands back the store's description of why it could
/// not.
#[verifier::external_body]
fn keyring_entry(service: &str, key: &str) -> (r: Result<keyring::Entry, String>) {
    keyring::Entry::new(service, key).map_err(|e| format!("{}", e))
}

/// Relies on keyring::Entry::set_password: stores the value under the
/// entry, or hands back the store's description of the failure. The heap
/// copy of the value is wiped once the call is done.
#[verifier::external_body]
fn keyring_set(entry: &keyring::Entry, value: String) -> (r: Result<(), String>) {
    let result = entry.set_password(&value).map_err(|e| format!("{}", e));
    let _wiped = zeroize::Zeroizing::new(value);
    result
}

/// Relies on keyring::Entry::get_password: the stored value when there is
/// one, `Missing` exactly on the store's no-entry answer, and the store's
/// description of any other failure.
#[verifier::external_body]
fn keyring_get(entry: &keyring::Entry) -> (r: LookupOutcome) {
    match entry.get_password() {
        Ok(value) => LookupOutcome::Found(value),
        Err(keyring::Error::NoEntry) => LookupOutcome::Missing,
        Err(e) => LookupOutcome::Failed(format!("{}", e)),
    }
}

/// Relies on keyring::Entry::delete_credential: removes the stored secret,
/// `Missing` exactly on the store's no-entry answer, and the store's
/// description of any other failure.
#[verifier::external_body]
fn keyring_delete(entry: &keyring::Entry) -> (r: DeleteOutcome) {
    match entry.delete_credential() {
        Ok(()) => DeleteOutcome::Deleted,
        Err(keyring::Error::NoEntry) => DeleteOutcome::Missing,
        Err(e) => DeleteOutcome::Failed(format!("{}", e)),
    }
}

/// The error text for one failed store operation: the operation's fixed
/// prefix, the key in single quotes, and the store's own description.
pub open spec fn error_text(prefix: Seq<char>, key: Seq<char>, detail: Seq<char>) -> Seq<char> {
    prefix + "'"@ + key + "': "@ + detail
}

fn build_error(prefix: &str, key: &str, detail: &str) -> (r: String)
    ensures
        r@ == error_text(prefix@, key@, detail@),
{
    let mut out = String::from_str(prefix);
    out.append("'");
    out.append(key);
    out.append("': ");
    out.append(detail);
    proof {
        assert(out@ =~= error_text(prefix@, key@, detail@));
    }
    out
}

/// What a retrieval returns for each possible store answer: the stored
/// value when there is one, nothing when no secret exists under the key —
/// a missing key is not an error — and the descriptive failure text
/// otherwise.
pub fn lookup_to_result(key: &str, outcome: LookupOutcome) -> (r: Result<Option<String>, String>)
    ensures
        match outcome {
            LookupOutcome::Found(v) => r matches Ok(Some(p)) && p == v,
            LookupOutcome::Missing => r matches Ok(p) && p is None,
            LookupOutcome::Failed(d) => r matches Err(m) && m@ == error_text(
                "Failed to retrieve secret "@,
                key@,
                d@,
            ),
        },
{
    match outcome {
        LookupOutcome::Found(v) => Ok(Some(v)),
        LookupOutcome::Missing => Ok(None),
        LookupOutcome::Failed(d) => Err(
            build_error("Failed to retrieve secret ", key, d.as_str()),
        ),
    }
}

/// What an existence check returns for each possible store answer: true
/// when a secret is stored under the key, false when none is — never the
/// value itself — and the descriptive failure text otherwise.
pub fn lookup_to_presence(key: &str, outcome: LookupOutcome) -> (r: Result<bool, String>)
    ensures
        match outcome {
            LookupOutcome::Found(_) => r matches Ok(b) && b == true,
            LookupOutcome::Missing => r matches Ok(b) && b == false,
            LookupOutcome::Failed(d) => r matches Err(m) && m@ == error_text(
                "Failed to check secret "@,
                key@,
                d@,
            ),
        },
{
    match outcome {
        LookupOutcome::Found(_) => Ok(true),
        LookupOutcome::Missing => Ok(false),
        LookupOutcome::Failed(d) => Err(build_error("Failed to check secret ", key, d.as_str())),
    }
}

/// What a removal returns for each possible store answer: success both when
/// the secret was removed and when none was stored — deleting an absent key
/// is not an error — and the descriptive failure text otherwise.
pub fn delete_to_result(key: &str, outcome: DeleteOutcome) -> (r: Result<(), String>)
    ensures
        match outcome {
            DeleteOutcome::Deleted => r is Ok,
            DeleteOutcome::Missing => r is Ok,
            DeleteOutcome::Failed(d) => r matches Err(m) && m@ == error_text(
                "Failed to delete secret "@,
                key@,
                d@,
            ),
        },
{
    match outcome {
        DeleteOutcome::Deleted => Ok(()),
        DeleteOutcome::Missing => Ok(()),
        DeleteOutcome::Failed(d) => Err(build_error("Failed to delete secret ", key, d.as_str())),
    }
}

/// Store a secret in the OS credential store. `key` is the secret's name;
/// the heap copy of `value` is wiped after the store call. Every failure
/// carries one of the two descriptive error texts.
pub fn store_secret(key: String, value: String) -> (r: Result<(), String>)
    ensures
        r matches Err(m) ==> exists|d: Seq<char>|
            m@ == error_text("Failed to create keyring entry for "@, key@, d) || m@ == error_text(
                "Failed to store secret "@,
                key@,
                d,
            ),
{
    let entry = match keyring_entry(service_name(), key.as_str()) {
        Ok(e) => e,
        Err(d) => {
            let m = build_error("Failed to create keyring entry for ", key.as_str(), d.as_str());
            proof {
                assert(m@ == error_text("Failed to create keyring entry for "@, key@, d@));
            }
            return Err(m);
        },
    };
    match keyring_set(&entry, value) {
        Ok(()) => Ok(()),
        Err(d) => {
            let m = build_error("Failed to store secret ", key.as_str(), d.as_str());
            proof {
                assert(m@ == error_text("Failed to store secret "@, key@, d@));
            }
            Err(m)
        },
    }
}

/// Retrieve a secret's value from the OS credential store: the value when
/// one is stored, nothing when the key does not exist, and a descriptive
/// error text when the store fails.
pub fn get_secret(key: String) -> (r: Result<Option<String>, String>)
    ensures
        r matches Err(m) ==> exists|d: Seq<char>|
            m@ == error_text("Failed to open keyring for "@, key@, d) || m@ == error_text(
                "Failed to retrieve secret "@,
                key@,
                d,
            ),
{
    let entry = match keyring_entry(service_name(), key.as_str()) {
        Ok(e) => e,
        Err(d) => {
            let m = build_error("Failed to open keyring for ", key.as_str(), d.as_str());
            proof {
                assert(m@ == error_text("Failed to open keyring for "@, key@, d@));
            }
            return Err(m);
        },
    };
    let outcome = keyring_get(&entry);
    lookup_to_result(key.as_str(), outcome)
}

/// Delete a secret from the OS credential store; a key with no stored
/// secret is not an error.
pub fn delete_secret(key: String) -> (r: Result<(), String>)
    ensures
        r matches Err(m) ==> exists|d: Seq<char>|
            m@ == error_text("Failed to open keyring for "@, key@, d) || m@ == error_text(
                "Failed to delete secret "@,
                key@,
                d,
            ),
{
    let entry = match keyring_entry(service_name(), key.as_str()) {
        Ok(e) => e,
        Err(d) => {
            let m = build_error("Failed to open keyring for ", key.as_str(), d.as_str());
            proof {
                assert(m@ == error_text("Failed to open keyring for "@, key@, d@));
            }
            return Err(m);
        },
    };
    let outcome = keyring_delete(&entry);
    delete_to_result(key.as_str(), outcome)
}

/// Check whether a secret exists in the OS credential store: a boolean
/// only, never the value.
pub fn secret_exists(key: String) -> (r: Result<bool, String>)
    ensures
        r matches Err(m) ==> exists|d: Seq<char>|
            m@ == error_text("Failed to open keyring for "@, key@, d) || m@ == error_text(
                "Failed to check secret "@,
                key@,
                d,
            ),
{
    let entry = match keyring_entry(service_name(), key.as_str()) {
        Ok(e) => e,
        Err(d) => {
            let m = build_error("Failed to open keyring for ", key.as_str(), d.as_str());
            proof {
                assert(m@ == error_text("Failed to open keyring for "@, key@, d@));
            }
            return Err(m);
        },
    };
    let outcome = keyring_get(&entry);
    lookup_to_presence(key.as_str(), outcome)
}

} // verus!
