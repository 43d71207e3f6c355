//! One account of the credential store; its login is the store's key.
use vstd::prelude::*;

verus! {

/// The password and display name of one account.
pub struct Client {
    password: String,
    username: String,
}

impl View for Client {
    /// The password, then the display name.
    type V = (Seq<char>, Seq<char>);

    closed spec fn view(&self) -> (Seq<char>, Seq<char>) {
        (self.password@, self.username@)
    }
}

impl Client {
    pub fn new(password: String, username: String) -> (r: Self)
        ensures
            r@ == (password@, username@),
    {
        Client { password, username }
    }

    pub fn password(&self) -> (r: &String)
        ensures
            r@ == self@.0,
    {
        &self.password
    }

    pub fn username(&self) -> (r: &String)
        ensures
            r@ == self@.1,
    {
        &self.username
    }

    pub fn change_password(&mut self, new_password: String)
        ensures
            final(self)@ == (new_password@, old(self)@.1),
    {
        self.password = new_password;
    }

    pub fn change_username(&mut self, new_username: String)
        ensures
            final(self)@ == (old(self)@.0, new_username@),
    {
        self.username = new_username;
    }
}

} // verus!
