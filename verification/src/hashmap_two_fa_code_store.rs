use vstd::prelude::*;

use crate::data_stores::LoginAttemptId;
use crate::data_stores::TwoFACode;
use crate::data_stores::TwoFACodeStore;
use crate::data_stores::TwoFACodeStoreError;
use crate::email::Email;

verus! {

// The challenge store: at most one pending (attempt id, code) pair per
// email, held in an in-process association list read as a map.

/// One pending challenge.
struct Challenge {
    email: Email,
    id: LoginAttemptId,
    code: TwoFACode,
}

/// The map a challenge list stands for.
pub open spec fn challenge_map(s: Seq<(Seq<char>, Seq<char>, Seq<char>)>) -> Map<
    Seq<char>,
    (Seq<char>, Seq<char>),
>
    decreases s.len(),
{
    if s.len() == 0 {
        Map::empty()
    } else {
        challenge_map(s.drop_last()).insert(s.last().0, (s.last().1, s.last().2))
    }
}

spec fn views_of(s: Seq<Challenge>) -> Seq<(Seq<char>, Seq<char>, Seq<char>)> {
    s.map_values(|c: Challenge| (c.email@, c.id@, c.code@))
}

/// No two entries claim the same email.
pub open spec fn unique_challenge_emails(s: Seq<(Seq<char>, Seq<char>, Seq<char>)>) -> bool {
    forall|j: int, k: int| 0 <= j < k < s.len() ==> s[j].0 != s[k].0
}

pub proof fn lemma_challenge_map_domain(s: Seq<(Seq<char>, Seq<char>, Seq<char>)>, e: Seq<char>)
    ensures
        challenge_map(s).contains_key(e) <==> exists|i: int|
            0 <= i < s.len() && #[trigger] s[i].0 == e,
    decreases s.len(),
{
    if s.len() > 0 {
        lemma_challenge_map_domain(s.drop_last(), e);
        if s.last().0 == e {
            assert(s[s.len() - 1].0 == e);
        } else {
            if challenge_map(s).contains_key(e) {
                let i = choose|i: int|
                    0 <= i < s.drop_last().len() && #[trigger] s.drop_last()[i].0 == e;
                assert(s[i].0 == e);
            }
            if exists|i: int| 0 <= i < s.len() && #[trigger] s[i].0 == e {
                let i = choose|i: int| 0 <= i < s.len() && #[trigger] s[i].0 == e;
                assert(i < s.len() - 1);
                assert(s.drop_last()[i].0 == e);
            }
        }
    }
}

pub proof fn lemma_challenge_map_value(s: Seq<(Seq<char>, Seq<char>, Seq<char>)>, i: int)
    requires
        unique_challenge_emails(s),
        0 <= i < s.len(),
    ensures
        challenge_map(s).contains_key(s[i].0),
        challenge_map(s)[s[i].0] == (s[i].1, s[i].2),
    decreases s.len(),
{
    if i == s.len() - 1 {
    } else {
        assert(s[i].0 != s[s.len() - 1].0);
        assert(s.drop_last()[i] == s[i]);
        assert(unique_challenge_emails(s.drop_last())) by {
            assert(forall|j: int, k: int|
                0 <= j < k < s.drop_last().len() ==> s.drop_last()[j] == s[j] && s.drop_last()[k]
                    == s[k]);
        }
        lemma_challenge_map_value(s.drop_last(), i);
    }
}

/// Dropping the one entry of an email drops exactly its key from the map.
pub proof fn lemma_challenge_map_remove(s: Seq<(Seq<char>, Seq<char>, Seq<char>)>, i: int)
    requires
        unique_challenge_emails(s),
        0 <= i < s.len(),
    ensures
        challenge_map(s.remove(i)) == challenge_map(s).remove(s[i].0),
    decreases s.len(),
{
    let e = s[i].0;
    if i == s.len() - 1 {
        assert(s.remove(i) =~= s.drop_last());
        lemma_challenge_map_domain(s.drop_last(), e);
        assert(forall|j: int| 0 <= j < s.len() - 1 ==> s.drop_last()[j] == s[j]);
        assert(!challenge_map(s.drop_last()).contains_key(e));
        assert(challenge_map(s.drop_last()) =~= challenge_map(s).remove(e));
    } else {
        assert(s.remove(i).last() == s.last());
        assert(s.remove(i).drop_last() =~= s.drop_last().remove(i));
        assert(s.drop_last()[i] == s[i]);
        assert(unique_challenge_emails(s.drop_last())) by {
            assert(forall|j: int, k: int|
                0 <= j < k < s.drop_last().len() ==> s.drop_last()[j] == s[j] && s.drop_last()[k]
                    == s[k]);
        }
        lemma_challenge_map_remove(s.drop_last(), i);
        assert(s[i].0 != s[s.len() - 1].0);
        assert(challenge_map(s.remove(i)) == challenge_map(s.drop_last().remove(i)).insert(
            s.last().0,
            (s.last().1, s.last().2),
        ));
        assert(challenge_map(s.drop_last()).remove(e).insert(s.last().0, (s.last().1, s.last().2))
            =~= challenge_map(s.drop_last()).insert(s.last().0, (s.last().1, s.last().2)).remove(
            e,
        ));
    }
}

/// Dropping an entry keeps the emails unique and leaves no entry with the
/// dropped email behind.
proof fn lemma_remove_unique(s: Seq<(Seq<char>, Seq<char>, Seq<char>)>, i: int)
    requires
        unique_challenge_emails(s),
        0 <= i < s.len(),
    ensures
        unique_challenge_emails(s.remove(i)),
        forall|j: int| 0 <= j < s.remove(i).len() ==> (#[trigger] s.remove(i)[j]).0 != s[i].0,
{
    assert forall|j: int| 0 <= j < s.remove(i).len() implies (#[trigger] s.remove(i)[j]).0
        != s[i].0 by {
        if j < i {
            assert(s.remove(i)[j] == s[j]);
        } else {
            assert(s.remove(i)[j] == s[j + 1]);
        }
    }
    assert forall|j: int, k: int| 0 <= j < k < s.remove(i).len() implies (#[trigger] s.remove(
        i,
    )[j]).0 != (#[trigger] s.remove(i)[k]).0 by {
        if j < i {
            assert(s.remove(i)[j] == s[j]);
        } else {
            assert(s.remove(i)[j] == s[j + 1]);
        }
        if k < i {
            assert(s.remove(i)[k] == s[k]);
        } else {
            assert(s.remove(i)[k] == s[k + 1]);
        }
    }
}

/// The in-process challenge store, an association list read as a map.
pub struct HashMapTwoFACodeStore {
    entries: Vec<Challenge>,
}

impl HashMapTwoFACodeStore {
    #[verifier::type_invariant]
    spec fn wf(self) -> bool {
        unique_challenge_emails(views_of(self.entries@))
    }

    /// An empty store.
    pub fn new() -> (r: HashMapTwoFACodeStore)
        ensures
            r.codes() == Map::<Seq<char>, (Seq<char>, Seq<char>)>::empty(),
    {
        HashMapTwoFACodeStore { entries: Vec::new() }
    }

}

impl Default for HashMapTwoFACodeStore {
    fn default() -> (r: Self)
        ensures
            r.codes() == Map::<Seq<char>, (Seq<char>, Seq<char>)>::empty(),
    {
        HashMapTwoFACodeStore::new()
    }
}

impl TwoFACodeStore for HashMapTwoFACodeStore {
    closed spec fn codes(&self) -> Map<Seq<char>, (Seq<char>, Seq<char>)> {
        challenge_map(views_of(self.entries@))
    }

    fn add_code(&mut self, email: Email, login_attempt_id: LoginAttemptId, code: TwoFACode) -> (r:
        Result<(), TwoFACodeStoreError>)
        ensures
            r is Ok,
    {
        proof {
            use_type_invariant(&*self);
        }
        let ghost s0 = views_of(self.entries@);
        let mut tmp: Vec<Challenge> = Vec::new();
        std::mem::swap(&mut tmp, &mut self.entries);
        match HashMapTwoFACodeStore::find_index_vec(&tmp, &email) {
            Some(i) => {
                tmp.remove(i);
                proof {
                    assert(views_of(tmp@) =~= s0.remove(i as int));
                    lemma_challenge_map_remove(s0, i as int);
                    lemma_remove_unique(s0, i as int);
                }
            },
            None => {
                proof {
                    lemma_challenge_map_domain(s0, email@);
                    assert(challenge_map(s0) =~= challenge_map(s0).remove(email@));
                }
            },
        }
        let ghost s1 = views_of(tmp@);
        proof {
            assert(challenge_map(s1) == challenge_map(s0).remove(email@));
            assert(forall|j: int| 0 <= j < s1.len() ==> (#[trigger] s1[j]).0 != email@);
            assert(unique_challenge_emails(s1));
        }
        tmp.push(Challenge { email, id: login_attempt_id, code });
        proof {
            assert(views_of(tmp@).drop_last() =~= s1);
            assert(views_of(tmp@).last().0 == email@);
            assert(challenge_map(views_of(tmp@)) == challenge_map(s1).insert(
                email@,
                (login_attempt_id@, code@),
            ));
            assert(challenge_map(s0).remove(email@).insert(
                email@,
                (login_attempt_id@, code@),
            ) =~= challenge_map(s0).insert(email@, (login_attempt_id@, code@)));
            assert(forall|j: int| 0 <= j < s1.len() ==> views_of(tmp@)[j] == s1[j]);
            assert forall|j: int, k: int| 0 <= j < k < views_of(tmp@).len() implies (
            #[trigger] views_of(tmp@)[j]).0 != (#[trigger] views_of(tmp@)[k]).0 by {
                if k < views_of(tmp@).len() - 1 {
                    assert(views_of(tmp@)[j] == s1[j]);
                    assert(views_of(tmp@)[k] == s1[k]);
                } else {
                    assert(views_of(tmp@)[j] == s1[j]);
                    assert(views_of(tmp@)[k] == views_of(tmp@).last());
                    assert(s1[j].0 != email@);
                }
            }
            assert(unique_challenge_emails(views_of(tmp@)));
        }
        self.entries = tmp;
        Ok(())
    }

    fn remove_code(&mut self, email: &Email) -> (r: Result<(), TwoFACodeStoreError>)
        ensures
            r is Ok,
    {
        proof {
            use_type_invariant(&*self);
        }
        let ghost s0 = views_of(self.entries@);
        let mut tmp: Vec<Challenge> = Vec::new();
        std::mem::swap(&mut tmp, &mut self.entries);
        match HashMapTwoFACodeStore::find_index_vec(&tmp, email) {
            Some(i) => {
                tmp.remove(i);
                proof {
                    assert(views_of(tmp@) =~= s0.remove(i as int));
                    lemma_challenge_map_remove(s0, i as int);
                    lemma_remove_unique(s0, i as int);
                }
            },
            None => {
                proof {
                    lemma_challenge_map_domain(s0, email@);
                    assert(challenge_map(s0) =~= challenge_map(s0).remove(email@));
                }
            },
        }
        proof {
            assert(unique_challenge_emails(views_of(tmp@)));
        }
        self.entries = tmp;
        Ok(())
    }

    fn get_code(&self, email: &Email) -> (r: Result<
        (LoginAttemptId, TwoFACode),
        TwoFACodeStoreError,
    >) {
        proof {
            use_type_invariant(&*self);
            lemma_challenge_map_domain(views_of(self.entries@), email@);
        }
        match HashMapTwoFACodeStore::find_index_vec(&self.entries, email) {
            Some(i) => {
                proof {
                    lemma_challenge_map_value(views_of(self.entries@), i as int);
                }
                Ok((self.entries[i].id.clone(), self.entries[i].code.clone()))
            },
            None => Err(TwoFACodeStoreError::LoginAttemptIdNotFound),
        }
    }
}

impl HashMapTwoFACodeStore {
    /// `find_index` over a vector that is momentarily outside `self`.
    fn find_index_vec(v: &Vec<Challenge>, email: &Email) -> (r: Option<usize>)
        ensures
            r matches Some(i) ==> 0 <= i < v@.len() && views_of(v@)[i as int].0 == email@,
            r is None ==> forall|i: int| 0 <= i < v@.len() ==> views_of(v@)[i].0 != email@,
    {
        let n = v.len();
        let mut i: usize = 0;
        while i < n
            invariant
                0 <= i <= n,
                n == v@.len(),
                forall|j: int| 0 <= j < i ==> views_of(v@)[j].0 != email@,
            decreases n - i,
        {
            if v[i].email == *email {
                return Some(i);
            }
            i = i + 1;
        }
        None
    }
}

/// The store holds at most one challenge per email: a second challenge for
/// the same email leaves exactly the new pair behind, so the first pair no
/// longer verifies unless it happens to equal the new one.
pub proof fn lemma_second_challenge_shadows(
    codes: Map<Seq<char>, (Seq<char>, Seq<char>)>,
    email: Seq<char>,
    first: (Seq<char>, Seq<char>),
    second: (Seq<char>, Seq<char>),
)
    ensures
        codes.insert(email, first).insert(email, second)[email] == second,
        first != second ==> codes.insert(email, first).insert(email, second)[email] != first,
{
}

} // verus!
