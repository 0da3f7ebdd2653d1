use ydclient::oauth::{make_reg_user_url, oauth_base_url, token_url};
use ydclient::remote::{
    accept_api_response, accept_token_response, auth_header_value, base_name,
    content_type_is_json, delete_url, download_target, download_url, last_uploaded_url,
    resource_info_url, resources_url, upload_url, ApiError,
};

#[test]
fn resources_url_percent_encodes_the_path() {
    // would fail if the encoder handed its argument back unchanged
    assert_eq!(
        resources_url("https://api", "disk:/my docs"),
        "https://api/resources?path=disk%3A%2Fmy%20docs"
    );
    assert_eq!(resources_url("https://api", "abc"), "https://api/resources?path=abc");
}

#[test]
fn resource_info_url_passes_the_path_through() {
    assert_eq!(
        resource_info_url("https://api", "disk:/x"),
        "https://api/resources?path=disk:/x"
    );
}

#[test]
fn last_uploaded_url_spells_the_limit() {
    assert_eq!(
        last_uploaded_url("https://api", 20),
        "https://api/resources/last-uploaded?limit=20"
    );
    assert_eq!(
        last_uploaded_url("https://api", 0),
        "https://api/resources/last-uploaded?limit=0"
    );
}

#[test]
fn upload_url_spells_path_and_flag() {
    assert_eq!(
        upload_url("https://api", "a b", true),
        "https://api/resources/upload?path=a%20b&overwrite=true"
    );
    assert_eq!(
        upload_url("https://api", "a", false),
        "https://api/resources/upload?path=a&overwrite=false"
    );
}

#[test]
fn delete_url_is_synchronous_and_spells_permanence() {
    assert_eq!(
        delete_url("https://api", "x y", true),
        "https://api/resources?path=x%20y&force_async=false&permanently=true"
    );
    assert_eq!(
        delete_url("https://api", "x", false),
        "https://api/resources?path=x&force_async=false&permanently=false"
    );
}

#[test]
fn download_url_percent_encodes_the_path() {
    assert_eq!(
        download_url("https://api", "disk:/a.txt"),
        "https://api/resources/download?path=disk%3A%2Fa%2Etxt"
    );
}

#[test]
fn auth_header_carries_the_token() {
    assert_eq!(auth_header_value("SECRET-REDACTED"), "OAuth SECRET-REDACTED");
}

#[test]
fn json_content_types() {
    assert!(content_type_is_json("application/json"));
    assert!(content_type_is_json("application/json; charset=utf-8"));
    assert!(!content_type_is_json("text/html"));
    assert!(!content_type_is_json("application/json2"));
    assert!(!content_type_is_json("application/jso"));
}

#[test]
fn responses_are_accepted_exactly_when_ok_and_json() {
    assert_eq!(
        accept_api_response(true, "application/json", String::from("{}")),
        Ok(String::from("{}"))
    );
    assert_eq!(
        accept_api_response(false, "application/json", String::from("{}")),
        Err(ApiError::StatusNotOk)
    );
    assert_eq!(
        accept_api_response(true, "text/html", String::from("{}")),
        Err(ApiError::NotJson)
    );
    assert_eq!(ApiError::StatusNotOk.message(), "Responce status is not OK");
    assert_eq!(ApiError::NotJson.message(), "Mime type is not application/json");
}

#[test]
fn token_responses_need_only_the_status() {
    assert_eq!(accept_token_response(true, String::from("t")), Ok(String::from("t")));
    assert_eq!(accept_token_response(false, String::from("t")), Err(ApiError::StatusNotOk));
}

#[test]
fn download_target_prefers_the_named_target() {
    assert_eq!(download_target("disk:/d/a.txt", Some("out.txt")), "out.txt");
    assert_eq!(download_target("disk:/d/a.txt", None), "a.txt");
    assert_eq!(base_name("no-slash"), "no-slash");
    assert_eq!(base_name("ends/in/"), "");
    assert_eq!(base_name(""), "");
}

#[test]
fn oauth_request_lines() {
    assert_eq!(oauth_base_url(), "https://oauth.yandex.ru");
    assert_eq!(token_url(), "https://oauth.yandex.ru/token");
    assert_eq!(
        make_reg_user_url("client-one"),
        "https://oauth.yandex.ru/authorize?response_type=code&client_id=client-one"
    );
}
