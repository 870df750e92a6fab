use vstd::prelude::*;

use crate::data_stores::StoredUser;
use crate::data_stores::UserStore;
use crate::data_stores::UserStoreError;
use crate::email::Email;
use crate::password::Password;
use crate::user::User;
use crate::user::UserView;

verus! {

// The volatile credential store: an in-process association list with unique
// emails, read as a map. It keeps the password as submitted and compares by
// equality; the hashing store is its durable sibling.

/// The record one list entry contributes to the map.
pub open spec fn record_of(u: UserView) -> StoredUser {
    StoredUser { credential: u.credential, requires_2fa: u.requires_2fa }
}

/// The map an entry list stands for; a later entry would shadow an earlier
/// one, but the store keeps emails unique.
pub open spec fn list_map(s: Seq<User>) -> Map<Seq<char>, StoredUser>
    decreases s.len(),
{
    if s.len() == 0 {
        Map::empty()
    } else {
        list_map(s.drop_last()).insert(s.last()@.email, record_of(s.last()@))
    }
}

/// No two entries claim the same email.
pub open spec fn unique_emails(s: Seq<User>) -> bool {
    forall|j: int, k: int| 0 <= j < k < s.len() ==> s[j]@.email != s[k]@.email
}

pub proof fn lemma_list_map_domain(s: Seq<User>, e: Seq<char>)
    ensures
        list_map(s).contains_key(e) <==> exists|i: int|
            0 <= i < s.len() && #[trigger] s[i]@.email == e,
    decreases s.len(),
{
    if s.len() > 0 {
        lemma_list_map_domain(s.drop_last(), e);
        if s.last()@.email == e {
            assert(s[s.len() - 1]@.email == e);
        } else {
            if list_map(s).contains_key(e) {
                let i = choose|i: int| 0 <= i < s.drop_last().len() && #[trigger] s.drop_last()[i]@.email == e;
                assert(s[i]@.email == e);
            }
            if exists|i: int| 0 <= i < s.len() && #[trigger] s[i]@.email == e {
                let i = choose|i: int| 0 <= i < s.len() && #[trigger] s[i]@.email == e;
                assert(i < s.len() - 1);
                assert(s.drop_last()[i]@.email == e);
            }
        }
    }
}

pub proof fn lemma_list_map_value(s: Seq<User>, i: int)
    requires
        unique_emails(s),
        0 <= i < s.len(),
    ensures
        list_map(s).contains_key(s[i]@.email),
        list_map(s)[s[i]@.email] == record_of(s[i]@),
    decreases s.len(),
{
    if i == s.len() - 1 {
    } else {
        assert(s[i]@.email != s[s.len() - 1]@.email);
        assert(s.drop_last()[i] == s[i]);
        assert(unique_emails(s.drop_last())) by {
            assert(forall|j: int, k: int|
                0 <= j < k < s.drop_last().len() ==> s.drop_last()[j] == s[j]
                    && s.drop_last()[k] == s[k]);
        }
        lemma_list_map_value(s.drop_last(), i);
    }
}

/// Finds the entry registered under an email, if any.
pub(crate) fn find_index(v: &Vec<User>, email: &Email) -> (r: Option<usize>)
    ensures
        r matches Some(i) ==> 0 <= i < v@.len() && v@[i as int]@.email == email@,
        r is None ==> forall|i: int| 0 <= i < v@.len() ==> v@[i]@.email != email@,
{
    let n = v.len();
    let mut i: usize = 0;
    while i < n
        invariant
            0 <= i <= n,
            n == v@.len(),
            forall|j: int| 0 <= j < i ==> v@[j]@.email != email@,
        decreases n - i,
    {
        if v[i].email == *email {
            return Some(i);
        }
        i = i + 1;
    }
    None
}

/// The in-process credential store, an association list read as a map.
/// (The name follows its role as the volatile map-backed variant.)
pub struct HashMapUserStore {
    entries: Vec<User>,
}

impl HashMapUserStore {
    #[verifier::type_invariant]
    spec fn wf(self) -> bool {
        unique_emails(self.entries@)
    }

    /// An empty store.
    pub fn new() -> (r: HashMapUserStore)
        ensures
            r.users() == Map::<Seq<char>, StoredUser>::empty(),
    {
        HashMapUserStore { entries: Vec::new() }
    }
}

impl Default for HashMapUserStore {
    fn default() -> (r: Self)
        ensures
            r.users() == Map::<Seq<char>, StoredUser>::empty(),
    {
        HashMapUserStore::new()
    }
}

impl UserStore for HashMapUserStore {
    closed spec fn users(&self) -> Map<Seq<char>, StoredUser> {
        list_map(self.entries@)
    }

    /// At rest is the password itself: a match is plain equality.
    open spec fn stored_matches(stored: Seq<char>, password: Seq<char>) -> bool {
        stored == password
    }

    fn add_user(&mut self, user: User) -> (r: Result<(), UserStoreError>)
        ensures
            r is Ok ==> final(self).users() == old(self).users().insert(
                user@.email,
                record_of(user@),
            ),
    {
        proof {
            use_type_invariant(&*self);
            lemma_list_map_domain(self.entries@, user@.email);
        }
        match find_index(&self.entries, &user.email) {
            Some(_) => Err(UserStoreError::UserAlreadyExists),
            None => {
                let ghost s0 = self.entries@;
                let ghost cred = user@.credential;
                let mut tmp: Vec<User> = Vec::new();
                std::mem::swap(&mut tmp, &mut self.entries);
                tmp.push(user);
                proof {
                    assert(tmp@.drop_last() =~= s0);
                    assert(unique_emails(tmp@)) by {
                        assert(forall|j: int| 0 <= j < s0.len() ==> tmp@[j] == s0[j]);
                    }
                    assert(Self::stored_matches(cred, cred));
                }
                self.entries = tmp;
                Ok(())
            },
        }
    }

    fn get_user(&self, email: &Email) -> (r: Result<User, UserStoreError>)
    {
        proof {
            use_type_invariant(&*self);
            lemma_list_map_domain(self.entries@, email@);
        }
        match find_index(&self.entries, email) {
            Some(i) => {
                proof {
                    lemma_list_map_value(self.entries@, i as int);
                }
                Ok(self.entries[i].clone())
            },
            None => Err(UserStoreError::UserNotFound),
        }
    }

    fn validate_user(&self, email: &Email, password: &Password) -> (r: Result<
        (),
        UserStoreError,
    >)
    {
        proof {
            use_type_invariant(&*self);
            lemma_list_map_domain(self.entries@, email@);
        }
        match find_index(&self.entries, email) {
            Some(i) => {
                proof {
                    lemma_list_map_value(self.entries@, i as int);
                }
                if self.entries[i].password == *password {
                    Ok(())
                } else {
                    Err(UserStoreError::InvalidCredentials)
                }
            },
            None => Err(UserStoreError::UserNotFound),
        }
    }
}

/// Registering an email once puts it in the store, so a second registration
/// of the same email, with any password, meets a present key and fails
/// `UserAlreadyExists` by the `add_user` contract.
pub proof fn lemma_second_registration_rejected(
    users: Map<Seq<char>, StoredUser>,
    email: Seq<char>,
    rec: StoredUser,
)
    ensures
        users.insert(email, rec).contains_key(email),
{
}

/// A stored plaintext credential matches exactly the password it was
/// registered with: `validate_user` succeeds on it and fails with
/// `InvalidCredentials` on every other password, by its contract.
pub proof fn lemma_validate_exclusive(stored: Seq<char>, p: Seq<char>, q: Seq<char>)
    requires
        <HashMapUserStore as UserStore>::stored_matches(stored, p),
        p != q,
    ensures
        !<HashMapUserStore as UserStore>::stored_matches(stored, q),
{
}

} // verus!
