//! The credential store: a map from login to account, with unique logins.
use vstd::prelude::*;
use crate::account::Client;

verus! {

/// What the store holds of an account: its password and display name.
pub type AccountView = (Seq<char>, Seq<char>);

pub struct CredentialStore {
    logins: Vec<String>,
    accounts: Vec<Client>,
}

impl CredentialStore {
    spec fn has_login(&self, k: Seq<char>) -> bool {
        exists|i: int| 0 <= i < self.logins@.len() && #[trigger] self.logins@[i]@ == k
    }

    spec fn index_of(&self, k: Seq<char>) -> int {
        choose|i: int| 0 <= i < self.logins@.len() && #[trigger] self.logins@[i]@ == k
    }

    pub closed spec fn wf(&self) -> bool {
        &&& self.logins@.len() == self.accounts@.len()
        &&& forall|i: int, j: int|
            0 <= i < j < self.logins@.len() ==> #[trigger] self.logins@[i]@ != #[trigger] self.logins@[j]@
    }

    /// The accounts by login.
    pub closed spec fn view(&self) -> Map<Seq<char>, AccountView> {
        Map::new(|k: Seq<char>| self.has_login(k), |k: Seq<char>| self.accounts@[self.index_of(k)]@)
    }

    proof fn lemma_index(&self, i: int)
        requires
            self.wf(),
            0 <= i < self.logins@.len(),
        ensures
            self@.contains_key(self.logins@[i]@),
            self@[self.logins@[i]@] == self.accounts@[i]@,
    {
        let k = self.logins@[i]@;
        assert(self.has_login(k));
        let j = self.index_of(k);
        if j != i {
            if i < j {
                assert(self.logins@[i]@ != self.logins@[j]@);
            } else {
                assert(self.logins@[j]@ != self.logins@[i]@);
            }
        }
    }

    pub fn new() -> (r: Self)
        ensures
            r.wf(),
            r@ == Map::<Seq<char>, AccountView>::empty(),
    {
        let r = CredentialStore { logins: Vec::new(), accounts: Vec::new() };
        assert(r@ =~= Map::<Seq<char>, AccountView>::empty());
        r
    }

    fn find(&self, login: &String) -> (r: Option<usize>)
        requires
            self.wf(),
        ensures
            match r {
                Some(i) => i < self.logins@.len() && self.logins@[i as int]@ == login@,
                None => !self@.contains_key(login@),
            },
    {
        let mut i: usize = 0;
        while i < self.logins.len()
            invariant
                i <= self.logins@.len(),
                forall|j: int| 0 <= j < i ==> #[trigger] self.logins@[j]@ != login@,
            decreases self.logins@.len() - i,
        {
            if self.logins[i] == *login {
                return Some(i);
            }
            i = i + 1;
        }
        None
    }

    /// Whether an account with this login exists.
    pub fn contains_login(&self, login: &String) -> (r: bool)
        requires
            self.wf(),
        ensures
            r == self@.contains_key(login@),
    {
        match self.find(login) {
            Some(i) => {
                proof {
                    self.lemma_index(i as int);
                }
                true
            },
            None => false,
        }
    }

    /// The account with this login, if any.
    pub fn lookup(&self, login: &String) -> (r: Option<&Client>)
        requires
            self.wf(),
        ensures
            r is Some == self@.contains_key(login@),
            r is Some ==> r.unwrap()@ == self@[login@],
    {
        match self.find(login) {
            Some(i) => {
                proof {
                    self.lemma_index(i as int);
                }
                Some(&self.accounts[i])
            },
            None => None,
        }
    }

    /// Adds the account unless its login is taken, in one step, and tells
    /// whether it was added.
    pub fn insert_if_absent(&mut self, login: String, account: Client) -> (r: bool)
        requires
            old(self).wf(),
        ensures
            final(self).wf(),
            r == !old(self)@.contains_key(login@),
            r ==> final(self)@ == old(self)@.insert(login@, account@),
            !r ==> final(self)@ == old(self)@,
    {
        match self.find(&login) {
            Some(i) => {
                proof {
                    self.lemma_index(i as int);
                }
                false
            },
            None => {
                let ghost before = *self;
                let ghost k = login@;
                let ghost v = account@;
                self.logins.push(login);
                self.accounts.push(account);
                let ghost n = before.logins@.len() as int;
                proof {
                    assert(!before.has_login(k));
                    assert forall|i: int, j: int|
                        0 <= i < j < self.logins@.len() implies #[trigger] self.logins@[i]@
                        != #[trigger] self.logins@[j]@ by {
                        if j == n {
                            assert(before.logins@[i]@ == self.logins@[i]@);
                        } else {
                            assert(before.logins@[i]@ != before.logins@[j]@);
                        }
                    }
                    assert forall|q: Seq<char>| #[trigger] self.has_login(q) == (before.has_login(q) || q == k) by {
                        if before.has_login(q) {
                            let i = before.index_of(q);
                            assert(self.logins@[i]@ == q);
                        }
                        if q == k {
                            assert(self.logins@[n]@ == q);
                        }
                        if self.has_login(q) && q != k {
                            let i = self.index_of(q);
                            assert(before.logins@[i]@ == q);
                        }
                    }
                    assert forall|q: Seq<char>| self.has_login(q) implies
                        self.accounts@[self.index_of(q)]@ == before@.insert(k, v)[q] by {
                        if q == k {
                            self.lemma_index(n);
                        } else {
                            let i = before.index_of(q);
                            before.lemma_index(i);
                            assert(self.logins@[i]@ == q);
                            self.lemma_index(i);
                        }
                    }
                    assert(self@ =~= before@.insert(k, v));
                }
                true
            },
        }
    }
}

} // verus!
