use winter_card::directory::Directory;
use winter_card::ledger::Ledger;
use winter_card::models::AccessCode;
use winter_card::models::CreateAccessCode;

#[test]
fn test_create_access_code() {
    let mut dir = Directory::new();
    let new_code = CreateAccessCode {
        name: "Test Code".to_string(),
        code: "TESTCODE".to_string(),
        active: true,
    };
    let created_code = dir.create_access_code(&new_code).expect("valid json");
    assert_eq!(created_code.name, "Test Code");
    assert_eq!(created_code.code, "TESTCODE");
    assert_eq!(created_code.active, true);
    assert!(created_code.id > 0);
}

#[test]
fn test_list_access_codes() {
    let mut dir = Directory::new();
    let new_code = CreateAccessCode {
        name: "Test Code".to_string(),
        code: "TESTCODE".to_string(),
        active: true,
    };
    let _ = dir.create_access_code(&new_code);
    let ledger = Ledger::new();
    let codes = dir.list_access_codes(&ledger);
    assert!(codes.iter().any(|c| c.code == "TESTCODE"));
}

#[test]
fn test_update_access_code() {
    let mut dir = Directory::new();

    // First create a code
    let new_code = CreateAccessCode {
        name: "Test Code".to_string(),
        code: "TESTCODE".to_string(),
        active: true,
    };
    let created_code = dir.create_access_code(&new_code).expect("valid json");

    // Then update it
    let update_code = AccessCode {
        id: created_code.id,
        name: "Updated Code".to_string(),
        code: "UPDATEDCODE".to_string(),
        active: false,
    };

    let response = dir.update_access_code(created_code.id, &update_code);
    assert!(response.is_ok());

    // Verify the update
    let ledger = Ledger::new();
    let codes = dir.list_access_codes(&ledger);
    let updated_code = codes.iter().find(|c| c.id == created_code.id).expect("code exists");

    assert_eq!(updated_code.name, "Updated Code");
    assert_eq!(updated_code.code, "UPDATEDCODE");
    assert_eq!(updated_code.active, false);
}

#[test]
fn test_delete_access_code() {
    let mut dir = Directory::new();
    let new_code = CreateAccessCode {
        name: "Test Code".to_string(),
        code: "TESTCODE".to_string(),
        active: true,
    };
    let created_code = dir.create_access_code(&new_code).expect("valid json");
    let delete_resp = dir.delete_access_code(created_code.id);
    assert!(delete_resp.is_ok());
    assert!(dir.find_by_id(created_code.id).is_none());
}
