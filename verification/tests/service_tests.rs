use account_service::errors::ServiceError;
use account_service::errors::status_of;
use account_service::ids::id_to_string;
use account_service::ids::parse_id;
use account_service::model::Account;
use account_service::service::count_outcome;
use account_service::service::create_precheck;
use account_service::service::create_user;
use account_service::service::delete_user;
use account_service::service::get_all_users;
use account_service::service::get_user;
use account_service::service::get_user_using_email;
use account_service::service::login_user;
use account_service::service::login_verdict;
use account_service::service::update_user;
use account_service::store::AccountStore;

fn account(username: &str, email: &str, password: &str) -> Account {
    Account {
        username: username.to_string(),
        email: email.to_string(),
        password: password.to_string(),
    }
}

#[test]
fn create_then_get_by_email_returns_created_record() {
    let mut store = AccountStore::new();
    let created = create_user(&mut store, &account("ann", "ann@x.io", "secret")).unwrap();
    assert_eq!(created.username, "ann");
    assert_eq!(created.email, "ann@x.io");
    let found = get_user_using_email(&store, "ann@x.io").unwrap();
    assert_eq!(found.username, "ann");
    assert_eq!(found.email, "ann@x.io");
    assert_eq!(found.id, created.id);
}

#[test]
fn created_id_has_fixed_string_form() {
    let mut store = AccountStore::new();
    let created = create_user(&mut store, &account("ann", "ann@x.io", "secret")).unwrap();
    let rendered = id_to_string(&created.id);
    assert_eq!(rendered.len(), 24);
    assert!(rendered.chars().all(|c| c.is_ascii_hexdigit()));
    let parsed = parse_id(&rendered).unwrap();
    assert_eq!(parsed, created.id);
}

#[test]
fn create_with_empty_email_is_rejected_before_the_store() {
    let mut store = AccountStore::new();
    let r = create_user(&mut store, &account("ann", "", "secret"));
    assert_eq!(r.unwrap_err(), ServiceError::Validation);
    assert_eq!(get_all_users(&store).len(), 0);
}

#[test]
fn second_create_with_same_email_conflicts_and_keeps_one_record() {
    let mut store = AccountStore::new();
    create_user(&mut store, &account("ann", "ann@x.io", "secret")).unwrap();
    let second = create_user(&mut store, &account("other", "ann@x.io", "pw2"));
    assert_eq!(second.unwrap_err(), ServiceError::Conflict);
    let all = get_all_users(&store);
    let matching = all.iter().filter(|a| a.email == "ann@x.io").count();
    assert_eq!(matching, 1);
    assert_eq!(all.len(), 1);
}

#[test]
fn update_nonexistent_id_reports_not_found() {
    let mut store = AccountStore::new();
    let r = update_user(
        &mut store,
        "00000000000000000000ffff",
        &account("ann", "ann@x.io", "secret"),
    );
    assert_eq!(r.unwrap_err(), ServiceError::NotFound);
}

#[test]
fn update_existing_then_get_returns_replacement_with_same_id() {
    let mut store = AccountStore::new();
    let created = create_user(&mut store, &account("ann", "ann@x.io", "secret")).unwrap();
    let id_str = id_to_string(&created.id);
    let updated = update_user(&mut store, &id_str, &account("anne", "anne@x.io", "next")).unwrap();
    assert_eq!(updated.id, created.id);
    assert_eq!(updated.username, "anne");
    assert_eq!(updated.email, "anne@x.io");
    let fetched = get_user(&store, &id_str).unwrap();
    assert_eq!(fetched.id, created.id);
    assert_eq!(fetched.username, "anne");
    assert_eq!(fetched.email, "anne@x.io");
}

#[test]
fn update_with_empty_or_malformed_id_is_rejected() {
    let mut store = AccountStore::new();
    let a = account("ann", "ann@x.io", "secret");
    assert_eq!(
        update_user(&mut store, "", &a).unwrap_err(),
        ServiceError::Validation
    );
    assert_eq!(
        update_user(&mut store, "not-hex", &a).unwrap_err(),
        ServiceError::Validation
    );
}

#[test]
fn delete_is_idempotent_in_effect() {
    let mut store = AccountStore::new();
    let created = create_user(&mut store, &account("ann", "ann@x.io", "secret")).unwrap();
    let id_str = id_to_string(&created.id);
    assert!(delete_user(&mut store, &id_str).is_ok());
    assert_eq!(get_all_users(&store).len(), 0);
    let again = delete_user(&mut store, &id_str);
    assert_eq!(again.unwrap_err(), ServiceError::NotFound);
}

#[test]
fn delete_with_empty_id_is_rejected() {
    let mut store = AccountStore::new();
    assert_eq!(delete_user(&mut store, "").unwrap_err(), ServiceError::Validation);
}

#[test]
fn login_with_correct_password_succeeds() {
    let mut store = AccountStore::new();
    create_user(&mut store, &account("ann", "ann@x.io", "secret")).unwrap();
    assert!(login_user(&store, "ann@x.io", "secret").is_ok());
}

#[test]
fn login_with_wrong_password_is_unauthorized() {
    let mut store = AccountStore::new();
    create_user(&mut store, &account("ann", "ann@x.io", "secret")).unwrap();
    let r = login_user(&store, "ann@x.io", "wrong");
    assert_eq!(r.unwrap_err(), ServiceError::Unauthorized);
    assert_eq!(status_of(&ServiceError::Unauthorized), 401);
}

#[test]
fn login_with_unknown_email_is_a_definite_not_found() {
    let store = AccountStore::new();
    let r = login_user(&store, "nobody@x.io", "anything");
    assert_eq!(r.unwrap_err(), ServiceError::NotFound);
}

#[test]
fn stored_password_is_a_hash_not_the_submitted_value() {
    let mut store = AccountStore::new();
    create_user(&mut store, &account("ann", "ann@x.io", "secret")).unwrap();
    let all = get_all_users(&store);
    assert_ne!(all[0].password, "secret");
    assert!(all[0].password.starts_with("$2"));
}

#[test]
fn get_user_rejects_empty_and_malformed_ids() {
    let store = AccountStore::new();
    assert_eq!(get_user(&store, "").unwrap_err(), ServiceError::Validation);
    assert_eq!(
        get_user(&store, "zzzzzzzzzzzzzzzzzzzzzzzz").unwrap_err(),
        ServiceError::Validation
    );
    assert_eq!(
        get_user(&store, "0123").unwrap_err(),
        ServiceError::Validation
    );
}

#[test]
fn get_user_with_unknown_valid_id_reports_not_found() {
    let store = AccountStore::new();
    let r = get_user(&store, "0123456789abcdef01234567");
    assert_eq!(r.unwrap_err(), ServiceError::NotFound);
}

#[test]
fn get_user_using_email_rejects_empty_and_reports_unknown() {
    let store = AccountStore::new();
    assert_eq!(
        get_user_using_email(&store, "").unwrap_err(),
        ServiceError::Validation
    );
    assert_eq!(
        get_user_using_email(&store, "nobody@x.io").unwrap_err(),
        ServiceError::NotFound
    );
}

#[test]
fn get_all_users_lists_every_record_in_store_order() {
    let mut store = AccountStore::new();
    let a = create_user(&mut store, &account("ann", "ann@x.io", "pw1")).unwrap();
    let b = create_user(&mut store, &account("ben", "ben@x.io", "pw2")).unwrap();
    let all = get_all_users(&store);
    assert_eq!(all.len(), 2);
    assert_eq!(all[0].id, a.id);
    assert_eq!(all[1].id, b.id);
    assert_ne!(a.id, b.id);
}

#[test]
fn status_codes_follow_the_shared_mapping() {
    assert_eq!(status_of(&ServiceError::Validation), 400);
    assert_eq!(status_of(&ServiceError::NotFound), 404);
    assert_eq!(status_of(&ServiceError::Conflict), 200);
    assert_eq!(status_of(&ServiceError::Persistence), 500);
    assert_eq!(status_of(&ServiceError::Unauthorized), 401);
    assert_eq!(status_of(&ServiceError::Internal), 500);
}

#[test]
fn decision_helpers_map_outcomes_exactly() {
    assert!(create_precheck("ann@x.io", false).is_ok());
    assert_eq!(
        create_precheck("", false).unwrap_err(),
        ServiceError::Validation
    );
    assert_eq!(
        create_precheck("ann@x.io", true).unwrap_err(),
        ServiceError::Conflict
    );
    assert!(count_outcome(1).is_ok());
    assert_eq!(count_outcome(0).unwrap_err(), ServiceError::NotFound);
    assert!(login_verdict(Some(true)).is_ok());
    assert_eq!(
        login_verdict(Some(false)).unwrap_err(),
        ServiceError::Unauthorized
    );
    assert_eq!(login_verdict(None).unwrap_err(), ServiceError::Internal);
}
