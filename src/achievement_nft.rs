//! Achievement badges: non-fungible tokens minted for completed puzzles,
//! transferable by their owner and burnable.
//!
//! Token ids start at 1 and are never reused; a burned token leaves a gap.
//! The host keeps each owner's collection of ids and updates it with
//! `add_to_collection` and `remove_from_collection`.
use vstd::prelude::*;

verus! {

#[derive(Clone, Debug, PartialEq, Eq)]
pub struct Achievement {
    pub owner: String,
    pub puzzle_id: u32,
    pub metadata: String,
    pub timestamp: u64,
}

#[derive(Clone, Copy, Debug, PartialEq, Eq, Structural)]
pub enum NftError {
    AlreadyInitialized,
    NotInitialized,
    TokenNotFound,
    NotOwner,
}

impl Achievement {
    pub fn duplicate(&self) -> (r: Achievement)
        ensures
            r == *self,
    {
        Achievement {
            owner: self.owner.clone(),
            puzzle_id: self.puzzle_id,
            metadata: self.metadata.clone(),
            timestamp: self.timestamp,
        }
    }
}

/// Number of tokens that have not been burned.
pub open spec fn live_count(tokens: Seq<Option<Achievement>>) -> nat
    decreases tokens.len(),
{
    if tokens.len() == 0 {
        0
    } else {
        live_count(tokens.drop_last()) + if tokens.last() is Some { 1nat } else { 0nat }
    }
}

proof fn lemma_live_count_burn(tokens: Seq<Option<Achievement>>, i: int)
    requires
        0 <= i < tokens.len(),
        tokens[i] is Some,
    ensures
        live_count(tokens.update(i, None)) + 1 == live_count(tokens),
    decreases tokens.len(),
{
    let t = tokens.update(i, None);
    if i == tokens.len() - 1 {
        assert(t.drop_last() =~= tokens.drop_last());
    } else {
        assert(t.drop_last() =~= tokens.drop_last().update(i, None));
        lemma_live_count_burn(tokens.drop_last(), i);
    }
}

proof fn lemma_live_count_bound(tokens: Seq<Option<Achievement>>)
    ensures
        live_count(tokens) <= tokens.len(),
    decreases tokens.len(),
{
    if tokens.len() > 0 {
        lemma_live_count_bound(tokens.drop_last());
    }
}

/// The badge ledger: its admin, and every token ever minted (`None` once burned).
pub struct AchievementNFT {
    admin: Option<String>,
    tokens: Vec<Option<Achievement>>,
    total_supply: u32,
}

impl AchievementNFT {
    pub closed spec fn admin_spec(&self) -> Option<String> {
        self.admin
    }

    /// Token `k` is at position `k - 1`.
    pub closed spec fn tokens_spec(&self) -> Seq<Option<Achievement>> {
        self.tokens@
    }

    pub closed spec fn supply_spec(&self) -> u32 {
        self.total_supply
    }

    /// The supply counts the tokens that are not burned.
    pub closed spec fn wf(&self) -> bool {
        &&& self.total_supply == live_count(self.tokens@)
        &&& self.tokens@.len() < u32::MAX
    }

    pub open spec fn token(&self, token_id: u32) -> Option<Achievement> {
        if 1 <= token_id <= self.tokens_spec().len() {
            self.tokens_spec()[token_id - 1]
        } else {
            None
        }
    }

    /// An uninitialized ledger with no tokens.
    pub fn new() -> (r: Self)
        ensures
            r.wf(),
            r.admin_spec() is None,
            r.tokens_spec().len() == 0,
    {
        AchievementNFT { admin: None, tokens: Vec::new(), total_supply: 0 }
    }

    /// Rebuilds the ledger from stored records; `None` unless the supply
    /// counts exactly the tokens that are not burned.
    pub fn from_parts(admin: Option<String>, tokens: Vec<Option<Achievement>>, total_supply: u32) -> (r: Option<
        Self,
    >)
        ensures
            r is Some <==> (total_supply == live_count(tokens@) && tokens@.len() < u32::MAX),
            r matches Some(n) ==> {
                &&& n.wf()
                &&& n.admin_spec() == admin
                &&& n.tokens_spec() == tokens@
                &&& n.supply_spec() == total_supply
            },
    {
        if tokens.len() >= u32::MAX as usize {
            return None;
        }
        let mut live: u32 = 0;
        let mut i: usize = 0;
        proof {
            assert(tokens@.take(0) =~= Seq::<Option<Achievement>>::empty());
        }
        while i < tokens.len()
            invariant
                i <= tokens@.len() < u32::MAX,
                live == live_count(tokens@.take(i as int)),
                live <= i,
            decreases tokens@.len() - i,
        {
            proof {
                assert(tokens@.take(i + 1).drop_last() =~= tokens@.take(i as int));
                assert(tokens@.take(i + 1).last() == tokens@[i as int]);
            }
            if tokens[i].is_some() {
                live = live + 1;
            }
            i = i + 1;
        }
        proof {
            assert(tokens@.take(i as int) =~= tokens@);
        }
        if live != total_supply {
            return None;
        }
        Some(AchievementNFT { admin, tokens, total_supply })
    }

    /// The stored records, for the host to persist.
    pub fn into_parts(self) -> (r: (Option<String>, Vec<Option<Achievement>>, u32))
        ensures
            r.0 == self.admin_spec(),
            r.1@ == self.tokens_spec(),
            r.2 == self.supply_spec(),
    {
        (self.admin, self.tokens, self.total_supply)
    }

    /// Sets the admin; fails with `AlreadyInitialized` the second time.
    pub fn initialize(&mut self, admin: String) -> (r: Result<(), NftError>)
        requires
            old(self).wf(),
        ensures
            final(self).wf(),
            final(self).tokens_spec() == old(self).tokens_spec(),
            old(self).admin_spec() is Some ==> r == Err::<(), NftError>(NftError::AlreadyInitialized)
                && final(self).admin_spec() == old(self).admin_spec(),
            old(self).admin_spec() is None ==> r is Ok && final(self).admin_spec() == Some(admin),
    {
        if self.admin.is_some() {
            return Err(NftError::AlreadyInitialized);
        }
        self.admin = Some(admin);
        Ok(())
    }

    /// Mints the next token to `to` for `puzzle_id` and returns its id.
    pub fn mint(&mut self, to: &String, puzzle_id: u32, metadata: String, now: u64) -> (r: Result<u32, NftError>)
        requires
            old(self).wf(),
            old(self).tokens_spec().len() + 1 < u32::MAX,
        ensures
            final(self).wf(),
            final(self).admin_spec() == old(self).admin_spec(),
            old(self).admin_spec() is None ==> r == Err::<u32, NftError>(NftError::NotInitialized)
                && final(self).tokens_spec() == old(self).tokens_spec(),
            old(self).admin_spec() is Some ==> r == Ok::<u32, NftError>((old(self).tokens_spec().len() + 1) as u32)
                && final(self).tokens_spec() == old(self).tokens_spec().push(
                Some(Achievement { owner: *to, puzzle_id, metadata, timestamp: now }),
            ) && final(self).supply_spec() == old(self).supply_spec() + 1,
    {
        if self.admin.is_none() {
            return Err(NftError::NotInitialized);
        }
        proof {
            lemma_live_count_bound(self.tokens@);
        }
        let token_id = self.tokens.len() as u32 + 1;
        self.tokens.push(Some(Achievement { owner: to.clone(), puzzle_id, metadata, timestamp: now }));
        self.total_supply = self.total_supply + 1;
        proof {
            assert(self.tokens@.drop_last() =~= old(self).tokens@);
        }
        Ok(token_id)
    }

    fn index_of(&self, token_id: u32) -> (r: Option<usize>)
        ensures
            match r {
                Some(i) => i == token_id - 1 && self.token(token_id) is Some,
                None => self.token(token_id) is None,
            },
    {
        if token_id == 0 || token_id as usize > self.tokens.len() {
            return None;
        }
        let i = (token_id - 1) as usize;
        match &self.tokens[i] {
            Some(_) => Some(i),
            None => None,
        }
    }

    /// The owner of a live token.
    pub fn owner_of(&self, token_id: u32) -> (r: Result<String, NftError>)
        ensures
            r == match self.token(token_id) {
                Some(a) => Ok::<String, NftError>(a.owner),
                None => Err(NftError::TokenNotFound),
            },
    {
        match self.index_of(token_id) {
            None => Err(NftError::TokenNotFound),
            Some(i) => match &self.tokens[i] {
                Some(a) => Ok(a.owner.clone()),
                None => Err(NftError::TokenNotFound),
            },
        }
    }

    /// Moves a live token from its owner `from` to `to`.
    pub fn transfer(&mut self, from: &String, to: &String, token_id: u32) -> (r: Result<(), NftError>)
        requires
            old(self).wf(),
        ensures
            final(self).wf(),
            final(self).admin_spec() == old(self).admin_spec(),
            r == match old(self).token(token_id) {
                None => Err::<(), NftError>(NftError::TokenNotFound),
                Some(a) => if a.owner@ != from@ {
                    Err(NftError::NotOwner)
                } else {
                    Ok(())
                },
            },
            r is Ok ==> final(self).tokens_spec() == old(self).tokens_spec().update(
                token_id - 1,
                Some(Achievement { owner: *to, ..old(self).token(token_id)->0 }),
            ),
            r is Err ==> final(self).tokens_spec() == old(self).tokens_spec(),
    {
        let i = match self.index_of(token_id) {
            None => return Err(NftError::TokenNotFound),
            Some(i) => i,
        };
        let mut a = match &self.tokens[i] {
            Some(a) => a.duplicate(),
            None => return Err(NftError::TokenNotFound),
        };
        if a.owner != *from {
            return Err(NftError::NotOwner);
        }
        a.owner = to.clone();
        self.tokens.set(i, Some(a));
        proof {
            lemma_live_count_burn(old(self).tokens@, i as int);
            lemma_live_count_burn(self.tokens@, i as int);
            assert(self.tokens@.update(i as int, None) =~= old(self).tokens@.update(i as int, None));
        }
        Ok(())
    }

    /// Destroys a live token and returns the owner it had.
    pub fn burn(&mut self, token_id: u32) -> (r: Result<String, NftError>)
        requires
            old(self).wf(),
        ensures
            final(self).wf(),
            final(self).admin_spec() == old(self).admin_spec(),
            r == match old(self).token(token_id) {
                Some(a) => Ok::<String, NftError>(a.owner),
                None => Err(NftError::TokenNotFound),
            },
            r is Ok ==> final(self).tokens_spec() == old(self).tokens_spec().update(token_id - 1, None)
                && final(self).supply_spec() + 1 == old(self).supply_spec(),
            r is Err ==> final(self).tokens_spec() == old(self).tokens_spec(),
    {
        let i = match self.index_of(token_id) {
            None => return Err(NftError::TokenNotFound),
            Some(i) => i,
        };
        let owner = match &self.tokens[i] {
            Some(a) => a.owner.clone(),
            None => return Err(NftError::TokenNotFound),
        };
        proof {
            lemma_live_count_burn(self.tokens@, i as int);
        }
        self.tokens.set(i, None);
        self.total_supply = self.total_supply - 1;
        Ok(owner)
    }

    /// Number of token ids handed out so far, burned ones included.
    pub fn token_count(&self) -> (r: u32)
        requires
            self.wf(),
        ensures
            r == self.tokens_spec().len(),
    {
        self.tokens.len() as u32
    }

    /// Number of live tokens.
    pub fn total_supply(&self) -> (r: u32)
        ensures
            r == self.supply_spec(),
    {
        self.total_supply
    }

    /// The record of a live token.
    pub fn get_achievement(&self, token_id: u32) -> (r: Option<Achievement>)
        ensures
            r == self.token(token_id),
    {
        match self.index_of(token_id) {
            None => None,
            Some(i) => match &self.tokens[i] {
                Some(a) => Some(a.duplicate()),
                None => None,
            },
        }
    }

    /// Appends `token_id` to an owner's collection.
    pub fn add_to_collection(collection: &mut Vec<u32>, token_id: u32)
        ensures
            final(collection)@ == old(collection)@.push(token_id),
    {
        collection.push(token_id);
    }

    /// Removes the first occurrence of `token_id` from an owner's collection;
    /// `false`, with the collection unchanged, when it is not there.
    pub fn remove_from_collection(collection: &mut Vec<u32>, token_id: u32) -> (r: bool)
        ensures
            r == old(collection)@.contains(token_id),
            r ==> exists|i: int|
                0 <= i < old(collection)@.len() && old(collection)@[i] == token_id && (forall|j: int|
                    0 <= j < i ==> old(collection)@[j] != token_id) && final(collection)@ == old(
                    collection,
                )@.remove(i),
            !r ==> final(collection)@ == old(collection)@,
    {
        let mut i: usize = 0;
        while i < collection.len()
            invariant
                i <= collection@.len(),
                collection@ == old(collection)@,
                forall|j: int| 0 <= j < i ==> collection@[j] != token_id,
            decreases collection@.len() - i,
        {
            if collection[i] == token_id {
                collection.remove(i);
                return true;
            }
            i = i + 1;
        }
        false
    }
}

} // verus!
