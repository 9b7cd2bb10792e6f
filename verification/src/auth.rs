//! The computing parts of the sign-in with the identity provider: the
//! address to send the user to, the form that trades the code for a
//! credential, and reading the credential off the provider's answer.

use vstd::prelude::*;
use vstd::string::StringExecFns;
use vstd::utf8::encode_utf8;
use crate::item::owned_or_empty;
use crate::json::{as_str, json_member, json_str, member};
use crate::text::text_or_empty;

verus! {

/// The parameters with which the provider calls back.
#[derive(Debug)]
pub struct AuthCallback {
    pub code: String,
}

/// A byte that percent-encoding leaves as it is: an ASCII letter or digit,
/// `-`, `.`, `_` or `~`.
pub open spec fn is_unreserved(b: u8) -> bool {
    ||| 48 <= b <= 57
    ||| 65 <= b <= 90
    ||| 97 <= b <= 122
    ||| b == 45
    ||| b == 46
    ||| b == 95
    ||| b == 126
}

/// The upper-case hexadecimal digit of a number below 16.
pub open spec fn hex_digit(n: u8) -> char {
    if n < 10 {
        (48 + n) as char
    } else {
        (55 + n) as char
    }
}

/// The percent-encoding of one byte: the byte itself if it is unreserved,
/// else `%` and its two hexadecimal digits.
pub open spec fn percent_encoded_byte(b: u8) -> Seq<char> {
    if is_unreserved(b) {
        seq![b as char]
    } else {
        seq!['%', hex_digit(b / 16), hex_digit(b % 16)]
    }
}

/// The percent-encoding of a byte string, byte by byte.
pub open spec fn percent_encoded(bytes: Seq<u8>) -> Seq<char>
    decreases bytes.len(),
{
    if bytes.len() == 0 {
        Seq::empty()
    } else {
        percent_encoded_byte(bytes[0]) + percent_encoded(bytes.drop_first())
    }
}

/// The percent-encoding of a text: that of its UTF-8 bytes.
pub open spec fn url_encoded(s: Seq<char>) -> Seq<char> {
    percent_encoded(encode_utf8(s))
}

/// The address of the provider's consent page for this client.
pub open spec fn auth_url_of(client_id: Seq<char>, redirect_uri: Seq<char>) -> Seq<char> {
    "https://accounts.google.com/o/oauth2/v2/auth?response_type=code&client_id="@ + client_id
        + "&redirect_uri="@ + url_encoded(redirect_uri) + "&scope="@ + url_encoded(
        "https://www.googleapis.com/auth/youtube.readonly https://www.googleapis.com/auth/youtube.force-ssl"@,
    ) + "&access_type=offline&prompt=consent"@
}

/// The credential in the provider's answer: its member `access_token`, if
/// that is a string, else the empty text.
pub open spec fn access_token_in(doc: serde_json::Value) -> Seq<char> {
    text_or_empty(json_str(json_member(doc, "access_token"@)))
}

/// Calls `urlencoding::encode` and takes the result as an owned string.
/// Assumed, as the crate documents it: every byte of the text's UTF-8 form
/// is percent-encoded except ASCII letters and digits, `-`, `_`, `.` and `~`,
/// with upper-case hexadecimal digits.
#[verifier::external_body]
fn url_encode(s: &str) -> (r: String)
    ensures
        r@ == url_encoded(s@),
{
    urlencoding::encode(s).into_owned()
}

/// Builds the address to which a user is sent to sign in.
pub fn auth_url(client_id: &str, redirect_uri: &str) -> (r: String)
    ensures
        r@ == auth_url_of(client_id@, redirect_uri@),
{
    let scopes =
        "https://www.googleapis.com/auth/youtube.readonly https://www.googleapis.com/auth/youtube.force-ssl";
    let mut url = String::from_str(
        "https://accounts.google.com/o/oauth2/v2/auth?response_type=code&client_id=",
    );
    url.append(client_id);
    url.append("&redirect_uri=");
    url.append(url_encode(redirect_uri).as_str());
    url.append("&scope=");
    url.append(url_encode(scopes).as_str());
    url.append("&access_type=offline&prompt=consent");
    url
}

/// One field of a form, as the contracts see it.
pub open spec fn field_view(field: (String, String)) -> (Seq<char>, Seq<char>) {
    (field.0@, field.1@)
}

/// The form that trades the code of a callback for a credential.
pub open spec fn token_request_form_of(
    code: Seq<char>,
    client_id: Seq<char>,
    client_secret: Seq<char>,
    redirect_uri: Seq<char>,
) -> Seq<(Seq<char>, Seq<char>)> {
    seq![
        ("code"@, code),
        ("client_id"@, client_id),
        ("client_secret"@, client_secret),
        ("redirect_uri"@, redirect_uri),
        ("grant_type"@, "authorization_code"@),
    ]
}

/// Builds the form that trades the code of a callback for a credential.
pub fn token_request_form(
    params: &AuthCallback,
    client_id: &str,
    client_secret: &str,
    redirect_uri: &str,
) -> (r: Vec<(String, String)>)
    ensures
        r@.map_values(|f: (String, String)| field_view(f)) == token_request_form_of(
            params.code@,
            client_id@,
            client_secret@,
            redirect_uri@,
        ),
{
    let mut form: Vec<(String, String)> = Vec::new();
    form.push(("code".to_owned(), params.code.clone()));
    form.push(("client_id".to_owned(), client_id.to_owned()));
    form.push(("client_secret".to_owned(), client_secret.to_owned()));
    form.push(("redirect_uri".to_owned(), redirect_uri.to_owned()));
    form.push(("grant_type".to_owned(), "authorization_code".to_owned()));
    proof {
        assert(form@.map_values(|f: (String, String)| field_view(f)) =~= token_request_form_of(
            params.code@,
            client_id@,
            client_secret@,
            redirect_uri@,
        ));
    }
    form
}

/// Reads the credential off the provider's answer; the empty string where
/// the answer names none.
pub fn access_token_from(doc: &serde_json::Value) -> (r: String)
    ensures
        r@ == access_token_in(*doc),
{
    owned_or_empty(as_str(member(doc, "access_token")))
}

} // verus!
