use bulk_sms_api::entity::User;
use bulk_sms_api::error::{
    classify_db_failure, AppError, AppErrorType, AppResponseError, DbFailureKind,
};
use bulk_sms_api::handler::{
    check_not_confirmed, check_password_match, check_previous_password,
    entity_not_found_message, map_create_credential_failure, map_create_user_failure,
    map_credential_lookup_failure, map_confirm_code_failure, map_entity_fetch_failure,
    map_sign_in_credentials_failure, map_sign_in_user_failure, map_unique_create_failure,
    map_update_user_failure, page_offset, service_unavailable_error, user_code_not_found_message,
    username_from_email,
};
use bulk_sms_api::model::AppResponse;

#[test]
fn classifier_maps_each_failure_kind() {
    assert_eq!(
        classify_db_failure(DbFailureKind::UniqueViolation),
        AppErrorType::Conflict
    );
    assert_eq!(
        classify_db_failure(DbFailureKind::ForeignKeyViolation),
        AppErrorType::NotFound
    );
    assert_eq!(classify_db_failure(DbFailureKind::RowNotFound), AppErrorType::NotFound);
    assert_eq!(classify_db_failure(DbFailureKind::Other), AppErrorType::Internal);
}

#[test]
fn status_codes_follow_the_taxonomy() {
    let mk = |t: AppErrorType| AppError::new(None, None, t).status_code();
    assert_eq!(mk(AppErrorType::Unauthenticated), 401);
    assert_eq!(mk(AppErrorType::NotFound), 404);
    assert_eq!(mk(AppErrorType::Conflict), 400);
    assert_eq!(mk(AppErrorType::MalformedCredential), 400);
    assert_eq!(mk(AppErrorType::Internal), 500);
}

#[test]
fn message_falls_back_to_a_generic_text() {
    let e = AppError::new(None, Some("secret detail".to_string()), AppErrorType::Internal);
    assert_eq!(e.message(), "An unexpected error occurred!");
    let e = AppError::new(Some("shown".to_string()), None, AppErrorType::NotFound);
    assert_eq!(e.message(), "shown");
}

#[test]
fn response_shapes_keep_their_contents() {
    assert_eq!(AppResponseError::new("boom".to_string()).error, "boom");
    assert_eq!(AppResponse::new("Role deleted successfully.").message, "Role deleted successfully.");
}

#[test]
fn sign_in_lookup_failures_never_reveal_which_step_failed() {
    let e = map_sign_in_user_failure(DbFailureKind::RowNotFound);
    assert_eq!(e.error_type, AppErrorType::Unauthenticated);
    assert_eq!(e.message.unwrap(), "Invalid email address/password!");
    let e = map_sign_in_user_failure(DbFailureKind::Other);
    assert_eq!(e.error_type, AppErrorType::Internal);

    let e = map_sign_in_credentials_failure(DbFailureKind::ForeignKeyViolation);
    assert_eq!(e.error_type, AppErrorType::Unauthenticated);
    assert_eq!(e.message.unwrap(), "Invalid email address/password!");
    let e = map_sign_in_credentials_failure(DbFailureKind::UniqueViolation);
    assert_eq!(e.error_type, AppErrorType::Internal);

    let e = service_unavailable_error();
    assert_eq!(e.error_type, AppErrorType::Internal);
    assert_eq!(e.cause.unwrap(), "Service unavailable try again later!");

    assert!(check_password_match(true).is_ok());
    let e = check_password_match(false).unwrap_err();
    assert_eq!(e.error_type, AppErrorType::Unauthenticated);
    assert_eq!(e.message.unwrap(), "Invalid email address/password!");
    assert!(e.cause.is_none());
}

#[test]
fn sign_up_failures_name_the_duplicate_or_the_missing_parent() {
    let e = map_create_user_failure(DbFailureKind::UniqueViolation, "dup".to_string());
    assert_eq!(e.error_type, AppErrorType::Conflict);
    assert_eq!(e.message.unwrap(), "Email address already exists!");
    let e = map_create_user_failure(DbFailureKind::Other, "io down".to_string());
    assert_eq!(e.error_type, AppErrorType::Internal);
    assert_eq!(e.cause.unwrap(), "io down");

    let e = map_create_credential_failure(
        DbFailureKind::ForeignKeyViolation,
        "fk".to_string(),
        7,
    );
    assert_eq!(e.error_type, AppErrorType::NotFound);
    assert_eq!(e.message.unwrap(), "User with id 7 could not be found!");
    let e = map_create_credential_failure(DbFailureKind::UniqueViolation, "u".to_string(), 7);
    assert_eq!(e.error_type, AppErrorType::Conflict);
    assert_eq!(e.message.unwrap(), "Credential/username already exists!");
}

#[test]
fn confirmation_failures_name_user_and_code() {
    let e = map_confirm_code_failure(DbFailureKind::RowNotFound, "x".to_string(), 5, 1234);
    assert_eq!(e.error_type, AppErrorType::NotFound);
    assert_eq!(
        e.message.unwrap(),
        "User with id 5 and code 1234 could not be found!"
    );
    assert_eq!(
        user_code_not_found_message(5, 1234),
        "User with id 5 and code 1234 could not be found!"
    );

    let user = User {
        user_id: 5,
        first_name: "A".to_string(),
        middle_name: None,
        surname: "B".to_string(),
        email_address: "a@b.c".to_string(),
        mobile_number: None,
        enabled: true,
        email_confirmed: true,
        role_id: 1,
        created_at: 0,
    };
    let e = check_not_confirmed(&user).unwrap_err();
    assert_eq!(e.error_type, AppErrorType::Conflict);
    assert_eq!(e.cause.unwrap(), "User with id 5 already confirmed email!");
}

#[test]
fn credential_update_failures() {
    let e = map_credential_lookup_failure(DbFailureKind::RowNotFound, "x".to_string());
    assert_eq!(e.error_type, AppErrorType::NotFound);
    assert_eq!(e.message.unwrap(), "Credential does not exist!");
    let e = map_credential_lookup_failure(DbFailureKind::ForeignKeyViolation, "x".to_string());
    assert_eq!(e.error_type, AppErrorType::Conflict);
    let e = check_previous_password(false).unwrap_err();
    assert_eq!(e.error_type, AppErrorType::Conflict);
    assert_eq!(e.message.unwrap(), "Credential do match!");
}

#[test]
fn entity_fetch_and_create_failures() {
    let e = map_entity_fetch_failure("Permission", 31, DbFailureKind::RowNotFound, "x".to_string());
    assert_eq!(e.error_type, AppErrorType::NotFound);
    assert_eq!(e.message.unwrap(), "Permission with id 31 could not be found!");
    let e = map_entity_fetch_failure("Role", 2, DbFailureKind::Other, "down".to_string());
    assert_eq!(e.error_type, AppErrorType::Internal);
    assert_eq!(e.cause.unwrap(), "down");

    let e = map_unique_create_failure(
        "Permission already exists!",
        DbFailureKind::UniqueViolation,
        "x".to_string(),
    );
    assert_eq!(e.error_type, AppErrorType::Conflict);
    assert_eq!(e.message.unwrap(), "Permission already exists!");

    let e = map_update_user_failure(-3);
    assert_eq!(e.error_type, AppErrorType::NotFound);
    assert_eq!(e.message.unwrap(), "User with id -3 could not be found!");

    assert_eq!(entity_not_found_message("Role", 12), "Role with id 12 could not be found!");
}

#[test]
fn username_is_the_email_prefix() {
    assert_eq!(username_from_email("john.doe@example.com"), "john.doe");
    assert_eq!(username_from_email("no-at-sign"), "no-at-sign");
    assert_eq!(username_from_email("@host"), "");
    assert_eq!(username_from_email("a@b@c"), "a");
    assert_eq!(username_from_email("héllo@wörld"), "héllo");
}

#[test]
fn page_offset_is_zero_based() {
    assert_eq!(page_offset(1, 25), 0);
    assert_eq!(page_offset(3, 25), 50);
}
