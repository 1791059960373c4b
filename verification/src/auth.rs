//! The credential blob of a registry secret.
//!
//! A registry secret carries one document: a JSON object that maps the
//! registry's endpoint to the login and to a token made of the login. The
//! blob stored in the secret is the base64 text of that document.

use crate::base64::{encode, encoded};
use crate::json::{json_string, quote};
use vstd::prelude::*;
use vstd::string::*;
use vstd::utf8::encode_utf8;

verus! {

/// The token of a login: the base64 text of `username:password`.
pub open spec fn token_text(username: Seq<char>, password: Seq<char>) -> Seq<char> {
    encoded(encode_utf8(username + ":"@ + password))
}

/// The document, given the JSON string literals of the endpoint, the user
/// name and the password, and the token.
pub open spec fn document_text(
    server_lit: Seq<char>,
    username_lit: Seq<char>,
    password_lit: Seq<char>,
    token: Seq<char>,
) -> Seq<char> {
    "{\"auths\":{"@ + server_lit + ":{\"username\":"@ + username_lit + ",\"password\":"@
        + password_lit + ",\"auth\":\""@ + token + "\"}}}"@
}

/// The blob that a secret stores for a login at a registry.
pub open spec fn blob_text(server: Seq<char>, username: Seq<char>, password: Seq<char>) -> Seq<
    char,
> {
    encoded(
        encode_utf8(
            document_text(
                json_string(server),
                json_string(username),
                json_string(password),
                token_text(username, password),
            ),
        ),
    )
}

/// Encodes a login as its token.
pub fn token(username: &str, password: &str) -> (text: String)
    ensures
        text@ == token_text(username@, password@),
{
    let mut login = String::from_str(username);
    login.append(":");
    login.append(password);
    encode(login.as_str().as_bytes())
}

/// Writes the document from the JSON string literals of its three texts and
/// the token.
pub fn document(server_lit: &str, username_lit: &str, password_lit: &str, token: &str) -> (text:
    String)
    ensures
        text@ == document_text(server_lit@, username_lit@, password_lit@, token@),
{
    let mut out = String::from_str("{\"auths\":{");
    out.append(server_lit);
    out.append(":{\"username\":");
    out.append(username_lit);
    out.append(",\"password\":");
    out.append(password_lit);
    out.append(",\"auth\":\"");
    out.append(token);
    out.append("\"}}}");
    out
}

/// A login at a registry.
pub struct RegistryAuth {
    username: String,
    password: String,
    server: String,
}

impl RegistryAuth {
    /// The login `username`, `password` at `server`.
    pub fn new(username: String, password: String, server: String) -> (auth: Self)
        ensures
            auth.blob() == blob_text(server@, username@, password@),
    {
        RegistryAuth { username, password, server }
    }

    /// The blob that a secret stores for this login.
    pub closed spec fn blob(&self) -> Seq<char> {
        blob_text(self.server@, self.username@, self.password@)
    }

    /// Encodes the login as the blob that a secret stores. The blob depends
    /// on the three texts alone.
    pub fn base64_encode(&self) -> (text: String)
        ensures
            text@ == self.blob(),
    {
        let server_lit = quote(self.server.as_str());
        let username_lit = quote(self.username.as_str());
        let password_lit = quote(self.password.as_str());
        let token = token(self.username.as_str(), self.password.as_str());
        let doc = document(
            server_lit.as_str(),
            username_lit.as_str(),
            password_lit.as_str(),
            token.as_str(),
        );
        encode(doc.as_str().as_bytes())
    }
}

} // verus!
