//! The authentication exchange: one credential message is a login attempt
//! (`login/password`) or a registration (`login/password/display name`),
//! answered with one reply; success yields the client's display name.
use vstd::prelude::*;
use vstd::utf8::encode_utf8;
use crate::account::Client;
use crate::frame::{encode_frame, terminator};
use crate::store::{AccountView, CredentialStore};
use crate::text::{credential_fields, credential_fields_of, decode_lossy, lossy_text};

verus! {

/// The server's answer to a credential message.
#[derive(PartialEq, Eq, Structural, Clone, Copy, Debug)]
pub enum AuthReply {
    Correct,
    InvalidPassword,
    UnknownLogin,
    LoginExists,
    InvalidFormat,
}

pub open spec fn reply_text(r: AuthReply) -> Seq<char> {
    match r {
        AuthReply::Correct => "correct"@,
        AuthReply::InvalidPassword => "Invalid password."@,
        AuthReply::UnknownLogin => "User with such login does not exist."@,
        AuthReply::LoginExists => "User with such login exists."@,
        AuthReply::InvalidFormat => "Invalid format"@,
    }
}

impl AuthReply {
    /// The text sent to the client.
    pub fn text(&self) -> (r: &'static str)
        ensures
            r@ == reply_text(*self),
    {
        match self {
            AuthReply::Correct => "correct",
            AuthReply::InvalidPassword => "Invalid password.",
            AuthReply::UnknownLogin => "User with such login does not exist.",
            AuthReply::LoginExists => "User with such login exists.",
            AuthReply::InvalidFormat => "Invalid format",
        }
    }

    /// The reply as one message on the wire.
    pub fn to_frame(&self) -> (r: Vec<u8>)
        ensures
            r@ == encode_utf8(reply_text(*self)) + terminator(),
    {
        encode_frame(self.text().as_bytes())
    }
}

/// The result of one credential message.
pub struct AuthOutcome {
    pub reply: AuthReply,
    /// The display name, on success only.
    pub display_name: Option<String>,
}

/// What one message with `fields` does to a store holding `st`: the reply,
/// the display name on success, and the store afterwards.
pub open spec fn auth_step(st: Map<Seq<char>, AccountView>, fields: Seq<Seq<char>>) -> (
    AuthReply,
    Option<Seq<char>>,
    Map<Seq<char>, AccountView>,
) {
    if fields.len() == 2 {
        let login = fields[0];
        if !st.contains_key(login) {
            (AuthReply::UnknownLogin, None, st)
        } else if st[login].0 != fields[1] {
            (AuthReply::InvalidPassword, None, st)
        } else {
            (AuthReply::Correct, Some(st[login].1), st)
        }
    } else if fields.len() == 3 {
        let login = fields[0];
        if st.contains_key(login) {
            (AuthReply::LoginExists, None, st)
        } else {
            (AuthReply::Correct, Some(fields[2]), st.insert(login, (fields[1], fields[2])))
        }
    } else {
        (AuthReply::InvalidFormat, None, st)
    }
}

pub open spec fn name_view(n: Option<String>) -> Option<Seq<char>> {
    match n {
        Some(s) => Some(s@),
        None => None,
    }
}

/// Answers one credential message given as text, registering the account
/// when the message asks for it and the login is free.
pub fn authenticate(store: &mut CredentialStore, text: &str) -> (r: AuthOutcome)
    requires
        old(store).wf(),
    ensures
        final(store).wf(),
        (r.reply, name_view(r.display_name), final(store)@) == auth_step(
            old(store)@,
            credential_fields(text@),
        ),
{
    let fields = credential_fields_of(text);
    let ghost fv = fields@.map_values(|f: String| f@);
    if fields.len() == 2 {
        assert(fv[0] == fields@[0]@ && fv[1] == fields@[1]@);
        match store.lookup(&fields[0]) {
            None => AuthOutcome { reply: AuthReply::UnknownLogin, display_name: None },
            Some(client) => {
                if *client.password() == fields[1] {
                    let name = client.username().clone();
                    AuthOutcome { reply: AuthReply::Correct, display_name: Some(name) }
                } else {
                    AuthOutcome { reply: AuthReply::InvalidPassword, display_name: None }
                }
            },
        }
    } else if fields.len() == 3 {
        assert(fv[0] == fields@[0]@ && fv[1] == fields@[1]@ && fv[2] == fields@[2]@);
        let login = fields[0].clone();
        let password = fields[1].clone();
        let name = fields[2].clone();
        let added = store.insert_if_absent(login, Client::new(password, name.clone()));
        if added {
            AuthOutcome { reply: AuthReply::Correct, display_name: Some(name) }
        } else {
            AuthOutcome { reply: AuthReply::LoginExists, display_name: None }
        }
    } else {
        AuthOutcome { reply: AuthReply::InvalidFormat, display_name: None }
    }
}

/// Answers one credential message as it came off the wire; its bytes are
/// decoded leniently, invalid sequences replaced.
pub fn handle_credentials(store: &mut CredentialStore, payload: &[u8]) -> (r: AuthOutcome)
    requires
        old(store).wf(),
    ensures
        final(store).wf(),
        (r.reply, name_view(r.display_name), final(store)@) == auth_step(
            old(store)@,
            credential_fields(lossy_text(payload@)),
        ),
{
    let text = decode_lossy(payload);
    authenticate(store, text.as_str())
}

/// A registration that succeeds is followed by a successful login with the
/// same password, which yields the registered display name; a login with
/// any other password is refused; a second registration of the login is
/// refused and leaves the account as it was.
pub proof fn lemma_register_then_login(
    st: Map<Seq<char>, AccountView>,
    login: Seq<char>,
    password: Seq<char>,
    name: Seq<char>,
    other_password: Seq<char>,
    other_name: Seq<char>,
)
    requires
        !st.contains_key(login),
    ensures
        ({
            let (reply, shown, after) = auth_step(st, seq![login, password, name]);
            &&& reply == AuthReply::Correct
            &&& shown == Some(name)
            &&& after[login] == (password, name)
            &&& auth_step(after, seq![login, password]) == (AuthReply::Correct, Some(name), after)
            &&& other_password != password ==> auth_step(after, seq![login, other_password]) == (
                AuthReply::InvalidPassword,
                None::<Seq<char>>,
                after,
            )
            &&& auth_step(after, seq![login, other_password, other_name]) == (
                AuthReply::LoginExists,
                None::<Seq<char>>,
                after,
            )
        }),
{
}

/// A message whose field count is neither two nor three is answered with
/// the format error and leaves the store unchanged.
pub proof fn lemma_bad_format(st: Map<Seq<char>, AccountView>, fields: Seq<Seq<char>>)
    requires
        fields.len() != 2,
        fields.len() != 3,
    ensures
        auth_step(st, fields) == (AuthReply::InvalidFormat, None::<Seq<char>>, st),
{
}

/// A login attempt for a login that is not in the store is answered with
/// the unknown-login error and leaves the store unchanged.
pub proof fn lemma_unknown_login(
    st: Map<Seq<char>, AccountView>,
    login: Seq<char>,
    password: Seq<char>,
)
    requires
        !st.contains_key(login),
    ensures
        auth_step(st, seq![login, password]) == (AuthReply::UnknownLogin, None::<Seq<char>>, st),
{
}

} // verus!
