use subscriptions_cache::auth::{access_token_from, auth_url, token_request_form, AuthCallback};
use subscriptions_cache::handlers::{create_user, get_hello};
use subscriptions_cache::models::NewUser;

#[test]
fn auth_url_for_a_local_client() {
    let url = auth_url("client-123.apps", "http://localhost:8000/api/auth/callback");
    assert_eq!(
        url,
        "https://accounts.google.com/o/oauth2/v2/auth?response_type=code&client_id=client-123.apps\
         &redirect_uri=http%3A%2F%2Flocalhost%3A8000%2Fapi%2Fauth%2Fcallback\
         &scope=https%3A%2F%2Fwww.googleapis.com%2Fauth%2Fyoutube.readonly%20https%3A%2F%2Fwww.googleapis.com%2Fauth%2Fyoutube.force-ssl\
         &access_type=offline&prompt=consent"
    );
}

#[test]
fn auth_url_leaves_the_client_id_as_it_is() {
    let url = auth_url("a b&c", "x");
    assert!(url.contains("&client_id=a b&c&redirect_uri=x&scope="));
}

#[test]
fn auth_url_encodes_every_byte_that_is_not_unreserved() {
    let url = auth_url("id", "AZaz09-._~ /?#[]@!$&'()*+,;=%éß€");
    let expected = "&redirect_uri=AZaz09-._~%20%2F%3F%23%5B%5D%40%21%24%26%27%28%29%2A%2B%2C%3B%3D%25%C3%A9%C3%9F%E2%82%AC&scope=";
    assert!(url.contains(expected), "{}", url);
}

#[test]
fn auth_url_of_empty_parts() {
    let url = auth_url("", "");
    assert!(url.starts_with("https://accounts.google.com/o/oauth2/v2/auth?response_type=code&client_id=&redirect_uri=&scope=https%3A"));
    assert!(url.ends_with("&access_type=offline&prompt=consent"));
}

#[test]
fn token_request_form_has_five_fields_in_order() {
    let form = token_request_form(
        &AuthCallback { code: "4/0Ab".to_string() },
        "the-client",
        "the-secret",
        "http://localhost/cb",
    );
    let expected: Vec<(String, String)> = vec![
        ("code", "4/0Ab"),
        ("client_id", "the-client"),
        ("client_secret", "the-secret"),
        ("redirect_uri", "http://localhost/cb"),
        ("grant_type", "authorization_code"),
    ]
    .into_iter()
    .map(|(k, v)| (k.to_string(), v.to_string()))
    .collect();
    assert_eq!(form, expected);
}

#[test]
fn access_token_is_read_off_the_answer() {
    let doc: serde_json::Value =
        serde_json::from_str("{\"access_token\":\"ya29.abc\",\"expires_in\":3599}").unwrap();
    assert_eq!(access_token_from(&doc), "ya29.abc");
}

#[test]
fn missing_access_token_is_the_empty_string() {
    let doc: serde_json::Value = serde_json::from_str("{\"error\":\"invalid_grant\"}").unwrap();
    assert_eq!(access_token_from(&doc), "");
    let doc: serde_json::Value = serde_json::from_str("{\"access_token\":12}").unwrap();
    assert_eq!(access_token_from(&doc), "");
    assert_eq!(access_token_from(&serde_json::Value::Null), "");
}

#[test]
fn greeting() {
    assert_eq!(get_hello(), "Hello, Axum!!!");
}

#[test]
fn created_user_has_id_one_and_the_name_sent() {
    let user = create_user(NewUser { name: "Ada".to_string() });
    assert_eq!(user.id, 1);
    assert_eq!(user.name, "Ada");
    let user = create_user(NewUser { name: String::new() });
    assert_eq!(user.id, 1);
    assert_eq!(user.name, "");
}
