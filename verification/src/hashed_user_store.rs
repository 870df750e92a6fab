use vstd::prelude::*;

use crate::credentials::credential_check;
use crate::credentials::credential_matches;
use crate::credentials::hash_credential;
use crate::data_stores::StoredUser;
use crate::data_stores::UserStore;
use crate::data_stores::UserStoreError;
use crate::email::Email;
use crate::hashmap_user_store::find_index;
use crate::hashmap_user_store::lemma_list_map_domain;
use crate::hashmap_user_store::lemma_list_map_value;
use crate::hashmap_user_store::list_map;
use crate::hashmap_user_store::record_of;
use crate::hashmap_user_store::unique_emails;
use crate::password::Password;
use crate::user::User;

verus! {

// The hashing credential store: the same association list as the volatile
// one, but the credential at rest is a salted memory-hard hash, never the
// password. What it means for a stored credential to match is
// `credential_matches`, so the contracts carry the hashing through.

/// The in-process credential store that keeps passwords only as salted
/// hashes, as a durable backend would.
pub struct HashedUserStore {
    entries: Vec<User>,
}

impl HashedUserStore {
    #[verifier::type_invariant]
    spec fn wf(self) -> bool {
        unique_emails(self.entries@)
    }

    /// An empty store.
    pub fn new() -> (r: HashedUserStore)
        ensures
            r.users() == Map::<Seq<char>, StoredUser>::empty(),
    {
        HashedUserStore { entries: Vec::new() }
    }
}

impl Default for HashedUserStore {
    fn default() -> (r: Self)
        ensures
            r.users() == Map::<Seq<char>, StoredUser>::empty(),
    {
        HashedUserStore::new()
    }
}

impl UserStore for HashedUserStore {
    closed spec fn users(&self) -> Map<Seq<char>, StoredUser> {
        list_map(self.entries@)
    }

    /// At rest is a salted hash: a match is a recomputed digest.
    open spec fn stored_matches(stored: Seq<char>, password: Seq<char>) -> bool {
        credential_matches(stored, password)
    }

    fn add_user(&mut self, user: User) -> (r: Result<(), UserStoreError>) {
        proof {
            use_type_invariant(&*self);
            lemma_list_map_domain(self.entries@, user@.email);
        }
        match find_index(&self.entries, &user.email) {
            Some(_) => Err(UserStoreError::UserAlreadyExists),
            None => {
                let hash = hash_credential(user.password.as_str());
                let ghost cred = hash@;
                let hashed_user = User {
                    email: user.email,
                    password: Password::from_stored(hash),
                    requires_2fa: user.requires_2fa,
                };
                let ghost s0 = self.entries@;
                let mut tmp: Vec<User> = Vec::new();
                std::mem::swap(&mut tmp, &mut self.entries);
                tmp.push(hashed_user);
                proof {
                    assert(tmp@.drop_last() =~= s0);
                    assert(unique_emails(tmp@)) by {
                        assert(forall|j: int| 0 <= j < s0.len() ==> tmp@[j] == s0[j]);
                    }
                    assert(Self::stored_matches(cred, user@.credential));
                    assert(list_map(tmp@) == list_map(s0).insert(
                        user@.email,
                        StoredUser { credential: cred, requires_2fa: user@.requires_2fa },
                    ));
                }
                self.entries = tmp;
                Ok(())
            },
        }
    }

    fn get_user(&self, email: &Email) -> (r: Result<User, UserStoreError>) {
        proof {
            use_type_invariant(&*self);
            lemma_list_map_domain(self.entries@, email@);
        }
        match find_index(&self.entries, email) {
            Some(i) => {
                proof {
                    lemma_list_map_value(self.entries@, i as int);
                }
                Ok(self.entries[i].clone())
            },
            None => Err(UserStoreError::UserNotFound),
        }
    }

    fn validate_user(&self, email: &Email, password: &Password) -> (r: Result<
        (),
        UserStoreError,
    >) {
        proof {
            use_type_invariant(&*self);
            lemma_list_map_domain(self.entries@, email@);
        }
        match find_index(&self.entries, email) {
            Some(i) => {
                proof {
                    lemma_list_map_value(self.entries@, i as int);
                }
                if credential_check(self.entries[i].password.as_str(), password.as_str()) {
                    Ok(())
                } else {
                    Err(UserStoreError::InvalidCredentials)
                }
            },
            None => Err(UserStoreError::UserNotFound),
        }
    }
}

} // verus!
