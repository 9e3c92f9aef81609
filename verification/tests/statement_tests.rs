use bulk_sms_api::statement::{
    build_insert_statement, insert_parameter_count, role_permission_insert_statement,
    user_role_insert_statement,
};

const RP_TEMPLATE: &str =
    r#"INSERT INTO "SMS_GATEWAY_USER"."ROLE_PERMISSION" (role_id, permission_id) VALUES ($1, $2)"#;
const UR_TEMPLATE: &str =
    r#"INSERT INTO "SMS_GATEWAY_USER"."USER_ROLE" (user_id, role_id) VALUES ($1, $2)"#;

#[test]
fn one_row_statement_is_the_template() {
    assert_eq!(build_insert_statement(RP_TEMPLATE, 1), RP_TEMPLATE);
    assert_eq!(build_insert_statement(RP_TEMPLATE, 0), RP_TEMPLATE);
}

#[test]
fn each_additional_row_appends_a_fresh_parameter_group() {
    assert_eq!(
        build_insert_statement(RP_TEMPLATE, 2),
        format!("{}, ($3, $4)", RP_TEMPLATE)
    );
    assert_eq!(
        build_insert_statement(RP_TEMPLATE, 3),
        format!("{}, ($3, $4), ($5, $6)", RP_TEMPLATE)
    );
    assert_eq!(
        build_insert_statement(UR_TEMPLATE, 4),
        format!("{}, ($3, $4), ($5, $6), ($7, $8)", UR_TEMPLATE)
    );
}

#[test]
fn relation_specific_builders_use_their_templates() {
    assert_eq!(role_permission_insert_statement(1), RP_TEMPLATE);
    assert_eq!(
        role_permission_insert_statement(2),
        format!("{}, ($3, $4)", RP_TEMPLATE)
    );
    assert_eq!(user_role_insert_statement(1), UR_TEMPLATE);
    assert_eq!(
        user_role_insert_statement(3),
        format!("{}, ($3, $4), ($5, $6)", UR_TEMPLATE)
    );
}

#[test]
fn parameter_slots_are_two_per_row() {
    assert_eq!(insert_parameter_count(0), 0);
    assert_eq!(insert_parameter_count(1), 2);
    assert_eq!(insert_parameter_count(12), 24);
}

#[test]
fn large_parameter_numbers_are_rendered_in_full() {
    let s = build_insert_statement("V ($1, $2)", 11);
    assert!(s.ends_with(", ($21, $22)"));
}
