use nidrs_cli::shared::Clearance;
use nidrs_cli::subs::openapi::{to_camel_case, trans_to_ts_type, Openapi, CLIENT_TEMPLATE_URL};

fn args(yes: bool) -> Openapi {
    Openapi {
        serve: "http://localhost:3000".to_string(),
        out_dir: Some("./node_modules/@nidist/api-client".to_string()),
        lang: None,
        yes,
    }
}

#[test]
fn the_first_letter_becomes_small() {
    assert_eq!(to_camel_case("UserController"), "userController");
    assert_eq!(to_camel_case("A"), "a");
    assert_eq!(to_camel_case("already"), "already");
}

#[test]
fn an_underscore_goes_and_the_next_letter_becomes_a_capital() {
    assert_eq!(to_camel_case("user_name"), "userName");
    assert_eq!(to_camel_case("App_user_controller"), "appUserController");
    assert_eq!(to_camel_case("a__b"), "aB");
    assert_eq!(to_camel_case("a_B"), "aB");
    assert_eq!(to_camel_case("a_1x"), "a1x");
}

#[test]
fn an_underscore_at_the_ends_is_kept_in_front_and_dropped_behind() {
    assert_eq!(to_camel_case("_ab"), "_ab");
    assert_eq!(to_camel_case("ab_"), "ab");
    assert_eq!(to_camel_case("_"), "_");
    assert_eq!(to_camel_case("__a"), "_A");
}

#[test]
fn the_empty_name_stays_empty() {
    assert_eq!(to_camel_case(""), "");
}

#[test]
fn only_ascii_letters_change_case() {
    assert_eq!(to_camel_case("Ärger_österreich"), "Ärgerösterreich");
    assert_eq!(to_camel_case("X_é"), "xé");
}

#[test]
fn schema_types_have_their_typescript_types() {
    assert_eq!(trans_to_ts_type("string"), "string");
    assert_eq!(trans_to_ts_type("number"), "number");
    assert_eq!(trans_to_ts_type("integer"), "number");
    assert_eq!(trans_to_ts_type("boolean"), "boolean");
    assert_eq!(trans_to_ts_type("array"), "any[]");
    assert_eq!(trans_to_ts_type("object"), "any");
}

#[test]
fn any_other_schema_type_is_any() {
    assert_eq!(trans_to_ts_type(""), "any");
    assert_eq!(trans_to_ts_type("String"), "any");
    assert_eq!(trans_to_ts_type("null"), "any");
    assert_eq!(trans_to_ts_type("strings"), "any");
}

#[test]
fn the_document_address_is_under_the_server() {
    assert_eq!(args(false).document_url(), "http://localhost:3000/api-docs/openapi.json");
}

#[test]
fn the_user_is_asked_before_a_client_is_replaced() {
    assert!(args(false).needs_confirmation(true, None));
    assert!(args(false).needs_confirmation(true, Some("{\"repository\": \"templates/api-client\"}")));
    assert!(!args(false).needs_confirmation(true, Some("{\"name\": \"left-pad\"}")));
    assert!(!args(false).needs_confirmation(false, None));
    assert!(!args(true).needs_confirmation(true, None));
}

#[test]
fn a_directory_that_is_no_client_is_never_replaced() {
    let foreign = Some("{\"name\": \"left-pad\"}");
    assert_eq!(args(true).clearance(true, foreign, ""), Clearance::Refuse);
    assert_eq!(args(false).clearance(true, foreign, "y"), Clearance::Refuse);
}

#[test]
fn output_clearance_follows_the_arguments_and_the_answer() {
    let client = Some("{\"repository\": \"x/templates/api-client\"}");
    assert_eq!(args(false).clearance(false, None, ""), Clearance::Proceed);
    assert_eq!(args(true).clearance(false, client, "n"), Clearance::Proceed);
    assert_eq!(args(true).clearance(true, None, ""), Clearance::RemoveFirst);
    assert_eq!(args(true).clearance(true, client, "n"), Clearance::RemoveFirst);
    assert_eq!(args(false).clearance(true, client, "y\n"), Clearance::RemoveFirst);
    assert_eq!(args(false).clearance(true, None, "yes please"), Clearance::RemoveFirst);
    assert_eq!(args(false).clearance(true, None, "okay"), Clearance::RemoveFirst);
    assert_eq!(args(false).clearance(true, None, "n\n"), Clearance::Refuse);
    assert_eq!(args(false).clearance(true, None, ""), Clearance::Refuse);
    assert_eq!(args(false).clearance(true, None, "Y"), Clearance::Refuse);
}

#[test]
fn the_client_starts_from_its_template() {
    assert_eq!(CLIENT_TEMPLATE_URL, "https://github.com/nidrs/tempalte-client-js");
}
