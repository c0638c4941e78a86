use devflow_exec::delete_secret;
use devflow_exec::get_secret;
use devflow_exec::secret_exists;
use devflow_exec::store_secret;
use devflow_exec::secure_storage::DeleteOutcome;
use devflow_exec::secure_storage::LookupOutcome;
use devflow_exec::secure_storage::delete_to_result;
use devflow_exec::secure_storage::lookup_to_presence;
use devflow_exec::secure_storage::lookup_to_result;

const SERVICE_NAME: &str = "devflow-studio";
const TEST_KEY: &str = "devflow_test_secret_key_do_not_use";

fn cleanup() {
    // Best-effort cleanup — ignore errors
    if let Ok(entry) = keyring::Entry::new(SERVICE_NAME, TEST_KEY) {
        let _ = entry.delete_credential();
    }
}

#[test]
fn test_store_and_retrieve() {
    cleanup();
    let result = store_secret(TEST_KEY.to_string(), "test_value_123".to_string());
    assert!(result.is_ok(), "store_secret failed: {:?}", result);

    let retrieved = get_secret(TEST_KEY.to_string()).unwrap();
    assert_eq!(retrieved, Some("test_value_123".to_string()));
    cleanup();
}

#[test]
fn test_missing_key_returns_none() {
    cleanup();
    let result = get_secret(TEST_KEY.to_string()).unwrap();
    assert_eq!(result, None, "Expected None for a missing key");
}

#[test]
fn test_delete_secret() {
    cleanup();
    store_secret(TEST_KEY.to_string(), "will_be_deleted".to_string()).unwrap();
    assert!(secret_exists(TEST_KEY.to_string()).unwrap());

    delete_secret(TEST_KEY.to_string()).unwrap();
    assert!(!secret_exists(TEST_KEY.to_string()).unwrap());
    cleanup();
}

#[test]
fn test_delete_nonexistent_is_ok() {
    cleanup();
    let result = delete_secret(TEST_KEY.to_string());
    assert!(result.is_ok(), "Deleting nonexistent key should not error");
}

#[test]
fn test_lookup_outcome_mapping() {
    let found = lookup_to_result("k", LookupOutcome::Found("v".to_string()));
    assert_eq!(found, Ok(Some("v".to_string())));
    let missing = lookup_to_result("k", LookupOutcome::Missing);
    assert_eq!(missing, Ok(None));
    let failed = lookup_to_result("k", LookupOutcome::Failed("boom".to_string()));
    assert_eq!(failed, Err("Failed to retrieve secret 'k': boom".to_string()));
}

#[test]
fn test_presence_outcome_mapping() {
    let found = lookup_to_presence("k", LookupOutcome::Found("v".to_string()));
    assert_eq!(found, Ok(true));
    let missing = lookup_to_presence("k", LookupOutcome::Missing);
    assert_eq!(missing, Ok(false));
    let failed = lookup_to_presence("k", LookupOutcome::Failed("down".to_string()));
    assert_eq!(failed, Err("Failed to check secret 'k': down".to_string()));
}

#[test]
fn test_delete_outcome_mapping() {
    assert_eq!(delete_to_result("k", DeleteOutcome::Deleted), Ok(()));
    assert_eq!(delete_to_result("k", DeleteOutcome::Missing), Ok(()));
    assert_eq!(
        delete_to_result("k", DeleteOutcome::Failed("locked".to_string())),
        Err("Failed to delete secret 'k': locked".to_string())
    );
}
