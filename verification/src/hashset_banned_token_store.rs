use vstd::prelude::*;

use crate::codec::str_eq;
use crate::data_stores::BannedTokenStore;
use crate::data_stores::BannedTokenStoreError;

verus! {

// The volatile revocation store: the set of revoked tokens, held in an
// in-process list. It keeps no expiry of its own; a process restart clears
// it, which bounds its growth, and a durable backend enforces the TTL
// instead.

/// The set a token list stands for.
pub open spec fn list_set(s: Seq<String>) -> Set<Seq<char>>
    decreases s.len(),
{
    if s.len() == 0 {
        Set::empty()
    } else {
        list_set(s.drop_last()).insert(s.last()@)
    }
}

pub proof fn lemma_list_set_contains(s: Seq<String>, t: Seq<char>)
    ensures
        list_set(s).contains(t) <==> exists|i: int| 0 <= i < s.len() && #[trigger] s[i]@ == t,
    decreases s.len(),
{
    if s.len() > 0 {
        lemma_list_set_contains(s.drop_last(), t);
        if s.last()@ == t {
            assert(s[s.len() - 1]@ == t);
        } else {
            if list_set(s).contains(t) {
                let i = choose|i: int|
                    0 <= i < s.drop_last().len() && #[trigger] s.drop_last()[i]@ == t;
                assert(s[i]@ == t);
            }
            if exists|i: int| 0 <= i < s.len() && #[trigger] s[i]@ == t {
                let i = choose|i: int| 0 <= i < s.len() && #[trigger] s[i]@ == t;
                assert(i < s.len() - 1);
                assert(s.drop_last()[i]@ == t);
            }
        }
    }
}

/// The in-process revocation store. (The name follows its role as the
/// volatile set-backed variant.)
pub struct HashsetBannedTokenStore {
    entries: Vec<String>,
}

impl HashsetBannedTokenStore {
    /// An empty store.
    pub fn new() -> (r: HashsetBannedTokenStore)
        ensures
            r.tokens() == Set::<Seq<char>>::empty(),
    {
        HashsetBannedTokenStore { entries: Vec::new() }
    }
}

impl Default for HashsetBannedTokenStore {
    fn default() -> (r: Self)
        ensures
            r.tokens() == Set::<Seq<char>>::empty(),
    {
        HashsetBannedTokenStore::new()
    }
}

impl BannedTokenStore for HashsetBannedTokenStore {
    closed spec fn tokens(&self) -> Set<Seq<char>> {
        list_set(self.entries@)
    }

    fn store_token(&mut self, token: String) -> (r: Result<(), BannedTokenStoreError>)
        ensures
            r is Ok,
    {
        let ghost s0 = self.entries@;
        self.entries.push(token);
        proof {
            assert(self.entries@.drop_last() =~= s0);
        }
        Ok(())
    }

    fn check_token(&self, token: &str) -> (r: Result<bool, BannedTokenStoreError>)
        ensures
            r is Ok,
    {
        proof {
            lemma_list_set_contains(self.entries@, token@);
        }
        let n = self.entries.len();
        let mut i: usize = 0;
        while i < n
            invariant
                0 <= i <= n,
                n == self.entries@.len(),
                forall|j: int| 0 <= j < i ==> self.entries@[j]@ != token@,
            decreases n - i,
        {
            if str_eq(self.entries[i].as_str(), token) {
                proof {
                    assert(self.entries@[i as int]@ == token@);
                    assert(exists|j: int|
                        0 <= j < self.entries@.len() && #[trigger] self.entries@[j]@ == token@);
                    lemma_list_set_contains(self.entries@, token@);
                }
                return Ok(true);
            }
            i = i + 1;
        }
        Ok(false)
    }
}

} // verus!
