//! The revoked-token store: a set of session tokens that must no longer be accepted.
use vstd::prelude::*;

verus! {

/// In-memory revoked-token store.
pub struct HashsetBannedTokenStore {
    tokens: Vec<String>,
    model: Ghost<Set<Seq<char>>>,
}

impl View for HashsetBannedTokenStore {
    type V = Set<Seq<char>>;

    closed spec fn view(&self) -> Set<Seq<char>> {
        self.model@
    }
}

impl HashsetBannedTokenStore {
    /// The vector holds exactly the members of the set.
    pub closed spec fn wf(&self) -> bool {
        &&& forall|i: int|
            0 <= i < self.tokens@.len() ==> self.model@.contains(#[trigger] self.tokens@[i]@)
        &&& forall|k: Seq<char>|
            #[trigger] self.model@.contains(k) ==> exists|i: int|
                0 <= i < self.tokens@.len() && #[trigger] self.tokens@[i]@ == k
    }

    pub fn new() -> (r: HashsetBannedTokenStore)
        ensures
            r.wf(),
            r@ == Set::<Seq<char>>::empty(),
    {
        HashsetBannedTokenStore { tokens: Vec::new(), model: Ghost(Set::empty()) }
    }

    /// Whether `token` has been revoked.
    pub fn is_banned(&self, token: &str) -> (r: bool)
        requires
            self.wf(),
        ensures
            r == self@.contains(token@),
    {
        let t = String::from_str(token);
        let mut i: usize = 0;
        while i < self.tokens.len()
            invariant
                self.wf(),
                t@ == token@,
                i <= self.tokens@.len(),
                forall|j: int| 0 <= j < i ==> self.tokens@[j]@ != token@,
            decreases self.tokens@.len() - i,
        {
            if self.tokens[i] == t {
                return true;
            }
            i = i + 1;
        }
        proof {
            if self@.contains(token@) {
                let j = choose|j: int| 0 <= j < self.tokens@.len() && #[trigger] self.tokens@[j]@ == token@;
                assert(self.tokens@[j]@ == token@);
            }
        }
        false
    }

    /// Revokes `token`; revoking it again changes nothing.
    pub fn ban_token(&mut self, token: String)
        requires
            old(self).wf(),
        ensures
            final(self).wf(),
            final(self)@ == old(self)@.insert(token@),
    {
        if self.is_banned(token.as_str()) {
            assert(self@.insert(token@) =~= self@);
            return;
        }
        let ghost key = token@;
        let ghost old_tokens = self.tokens@;
        self.tokens.push(token);
        self.model = Ghost(self.model@.insert(key));
        proof {
            let n = old_tokens.len() as int;
            assert(self.tokens@[n]@ == key);
            assert forall|i: int| 0 <= i < self.tokens@.len() implies self.model@.contains(
                #[trigger] self.tokens@[i]@,
            ) by {
                if i < n {
                    assert(self.tokens@[i] == old_tokens[i]);
                }
            }
            assert forall|k: Seq<char>| #[trigger] self.model@.contains(k) implies exists|i: int|
                0 <= i < self.tokens@.len() && #[trigger] self.tokens@[i]@ == k by {
                if k == key {
                    assert(self.tokens@[n]@ == k);
                } else {
                    let i = choose|i: int| 0 <= i < old_tokens.len() && #[trigger] old_tokens[i]@ == k;
                    assert(self.tokens@[i]@ == k);
                }
            }
        }
    }
}

/// Revocation is a set insertion: two revocations in either order leave the same set.
pub proof fn lemma_revocations_commute(s: Set<Seq<char>>, a: Seq<char>, b: Seq<char>)
    ensures
        s.insert(a).insert(b) == s.insert(b).insert(a),
{
    assert(s.insert(a).insert(b) =~= s.insert(b).insert(a));
}

} // verus!
