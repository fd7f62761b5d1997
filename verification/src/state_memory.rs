//! In-memory state store, for tests and offline runs. It never fails, and
//! its recorded pairs and account cursors are proved to behave exactly as
//! the store port describes.

use vstd::prelude::*;

use crate::model::{AccountState, PublishedRecord};
use crate::ports::{StateError, StateStore};
use vstd::map::*;

verus! {

/// In-memory state store implementation.
pub struct InMemoryStateStore {
    accounts: Vec<AccountState>,
    published: Vec<PublishedRecord>,
}

/// Whether some entry carries this account, scanning from the front.
pub open spec fn has_account(s: Seq<AccountState>, k: Seq<char>) -> bool
    decreases s.len(),
{
    if s.len() == 0 {
        false
    } else if s[0].account@ == k {
        true
    } else {
        has_account(s.drop_first(), k)
    }
}

/// The since cursor of the first entry carrying this account; nothing when
/// no entry does.
pub open spec fn first_since(s: Seq<AccountState>, k: Seq<char>) -> Option<Seq<char>>
    decreases s.len(),
{
    if s.len() == 0 {
        None
    } else if s[0].account@ == k {
        s[0].since_id.deep_view()
    } else {
        first_since(s.drop_first(), k)
    }
}

/// Replacing the first entry of an account changes that account's cursor
/// and no other.
proof fn lemma_first_since_update(s: Seq<AccountState>, i: int, x: AccountState, k: Seq<char>)
    requires
        0 <= i < s.len(),
        s[i].account@ == x.account@,
        forall|m: int| 0 <= m < i ==> (#[trigger] s[m]).account@ != x.account@,
    ensures
        k == x.account@ ==> has_account(s.update(i, x), k) && first_since(s.update(i, x), k)
            == x.since_id.deep_view(),
        k != x.account@ ==> has_account(s.update(i, x), k) == has_account(s, k) && first_since(
            s.update(i, x),
            k,
        ) == first_since(s, k),
    decreases i,
{
    let u = s.update(i, x);
    if i == 0 {
        assert(u[0] == x);
        if k != x.account@ {
            assert(u.drop_first() =~= s.drop_first());
        }
    } else {
        assert(u[0] == s[0]);
        assert(s[0].account@ != x.account@);
        if s[0].account@ == k {
        } else {
            assert(u.drop_first() =~= s.drop_first().update(i - 1, x));
            lemma_first_since_update(s.drop_first(), i - 1, x, k);
        }
    }
}

/// Appending an entry for a fresh account adds that account's cursor and
/// changes no other.
proof fn lemma_first_since_push(s: Seq<AccountState>, x: AccountState, k: Seq<char>)
    requires
        forall|m: int| 0 <= m < s.len() ==> (#[trigger] s[m]).account@ != x.account@,
    ensures
        k == x.account@ ==> has_account(s.push(x), k) && first_since(s.push(x), k)
            == x.since_id.deep_view(),
        k != x.account@ ==> has_account(s.push(x), k) == has_account(s, k) && first_since(
            s.push(x),
            k,
        ) == first_since(s, k),
    decreases s.len(),
{
    let u = s.push(x);
    if s.len() == 0 {
        assert(u.len() == 1);
        assert(u[0] == x);
        assert(u.drop_first() =~= Seq::<AccountState>::empty());
        if k == x.account@ {
            assert(has_account(u, k));
            assert(first_since(u, k) == x.since_id.deep_view());
        } else {
            assert(has_account(u, k) == has_account(u.drop_first(), k));
            assert(!has_account(u, k));
            assert(first_since(u, k) == first_since(u.drop_first(), k));
        }
    } else {
        assert(u[0] == s[0]);
        assert(s[0].account@ != x.account@);
        if s[0].account@ == k {
        } else {
            assert(u.drop_first() =~= s.drop_first().push(x));
            lemma_first_since_push(s.drop_first(), x, k);
        }
    }
}

impl InMemoryStateStore {
    /// An empty store.
    pub fn new() -> (r: InMemoryStateStore)
        ensures
            r.processed_set() == Set::<(Seq<char>, Seq<char>)>::empty(),
            r.cursors() == Map::<Seq<char>, Option<Seq<char>>>::empty(),
            r.reliable(),
    {
        let r = InMemoryStateStore { accounts: Vec::new(), published: Vec::new() };
        proof {
            assert(r.processed_set() =~= Set::<(Seq<char>, Seq<char>)>::empty());
            assert(r.cursors() =~= Map::<Seq<char>, Option<Seq<char>>>::empty());
        }
        r
    }
}

impl Default for InMemoryStateStore {
    /// The default store is empty.
    fn default() -> (r: InMemoryStateStore)
        ensures
            r.processed_set() == Set::<(Seq<char>, Seq<char>)>::empty(),
            r.cursors() == Map::<Seq<char>, Option<Seq<char>>>::empty(),
            r.reliable(),
    {
        InMemoryStateStore::new()
    }
}

/// A field-for-field copy of an account state.
fn clone_account_state(s: &AccountState) -> (r: AccountState)
    ensures
        r.account@ == s.account@,
        r.since_id.deep_view() == s.since_id.deep_view(),
        r.updated_at == s.updated_at,
{
    AccountState {
        account: s.account.clone(),
        since_id: crate::model::clone_opt_string(&s.since_id),
        updated_at: s.updated_at,
    }
}

/// A field-for-field copy of a published record.
fn clone_record(s: &PublishedRecord) -> (r: PublishedRecord)
    ensures
        r.id@ == s.id@,
        r.source_post_id@ == s.source_post_id@,
        r.taxonomy_hash@ == s.taxonomy_hash@,
        r.x_post_id.deep_view() == s.x_post_id.deep_view(),
        r.nostr_event_id.deep_view() == s.nostr_event_id.deep_view(),
        r.published_at == s.published_at,
{
    PublishedRecord {
        id: s.id.clone(),
        source_post_id: s.source_post_id.clone(),
        taxonomy_hash: s.taxonomy_hash.clone(),
        x_post_id: crate::model::clone_opt_string(&s.x_post_id),
        nostr_event_id: crate::model::clone_opt_string(&s.nostr_event_id),
        published_at: s.published_at,
    }
}

impl StateStore for InMemoryStateStore {
    /// The pairs recorded as published.
    closed spec fn processed_set(&self) -> Set<(Seq<char>, Seq<char>)> {
        Set::new(
            |p: (Seq<char>, Seq<char>)|
                exists|i: int|
                    0 <= i < self.published@.len() && (#[trigger] self.published@[i]).source_post_id@
                        == p.0 && self.published@[i].taxonomy_hash@ == p.1,
        )
    }

    /// The since cursor of each stored account, first entry winning.
    closed spec fn cursors(&self) -> Map<Seq<char>, Option<Seq<char>>> {
        Map::new(
            |k: Seq<char>| has_account(self.accounts@, k),
            |k: Seq<char>| first_since(self.accounts@, k),
        )
    }

    /// This store never fails.
    closed spec fn reliable(&self) -> bool {
        true
    }

    fn get_account_state(&self, account: &str) -> (r: Result<Option<AccountState>, StateError>) {
        let n = self.accounts.len();
        let mut i: usize = 0;
        proof {
            assert(self.accounts@.skip(0) =~= self.accounts@);
        }
        while i < n
            invariant
                n == self.accounts@.len(),
                i <= n,
                has_account(self.accounts@, account@) == has_account(
                    self.accounts@.skip(i as int),
                    account@,
                ),
                first_since(self.accounts@, account@) == first_since(
                    self.accounts@.skip(i as int),
                    account@,
                ),
            decreases n - i,
        {
            proof {
                assert(self.accounts@.skip(i as int)[0] == self.accounts@[i as int]);
                assert(self.accounts@.skip(i as int).drop_first() =~= self.accounts@.skip(
                    i as int + 1,
                ));
            }
            if crate::strutil::str_eq(self.accounts[i].account.as_str(), account) {
                let found = clone_account_state(&self.accounts[i]);
                proof {
                    assert(has_account(self.accounts@, account@));
                    assert(self.cursors().contains_key(account@));
                    assert(self.cursors()[account@] == first_since(self.accounts@, account@));
                }
                return Ok(Some(found));
            }
            i = i + 1;
        }
        proof {
            assert(self.accounts@.skip(n as int).len() == 0);
            assert(!has_account(self.accounts@, account@));
        }
        Ok(None)
    }

    fn set_account_state(&mut self, state: &AccountState) -> (r: Result<(), StateError>) {
        let n = self.accounts.len();
        let mut i: usize = 0;
        let ghost pre = self.accounts@;
        while i < n
            invariant
                pre == old(self).accounts@,
                self.accounts@ == pre,
                self.published@ == old(self).published@,
                n == pre.len(),
                i <= n,
                forall|m: int| 0 <= m < i ==> (#[trigger] pre[m]).account@ != state.account@,
            decreases n - i,
        {
            if crate::strutil::str_eq(self.accounts[i].account.as_str(), state.account.as_str()) {
                let replacement = clone_account_state(state);
                let ghost repl = replacement;
                self.accounts.set(i, replacement);
                proof {
                    assert(self.accounts@ == pre.update(i as int, repl));
                    assert(pre[i as int].account@ == state.account@);
                    lemma_has_account_at(pre, i as int);
                    let m1 = self.cursors();
                    let m2 = old(self).cursors().insert(
                        state.account@,
                        state.since_id.deep_view(),
                    );
                    assert_maps_equal!(m1, m2, k => {
                        lemma_first_since_update(pre, i as int, repl, k);
                    });
                    assert(self.processed_set() =~= old(self).processed_set());
                }
                return Ok(());
            }
            i = i + 1;
        }
        let addition = clone_account_state(state);
        let ghost added = addition;
        self.accounts.push(addition);
        proof {
            assert(self.accounts@ == pre.push(added));
            let m1 = self.cursors();
            let m2 = old(self).cursors().insert(state.account@, state.since_id.deep_view());
            assert_maps_equal!(m1, m2, k => {
                lemma_first_since_push(pre, added, k);
            });
            assert(self.processed_set() =~= old(self).processed_set());
        }
        Ok(())
    }

    fn is_processed(&self, source_post_id: &str, taxonomy_hash: &str) -> (r: Result<
        bool,
        StateError,
    >) {
        let n = self.published.len();
        let mut i: usize = 0;
        while i < n
            invariant
                n == self.published@.len(),
                forall|k: int|
                    0 <= k < i ==> !((#[trigger] self.published@[k]).source_post_id@
                        == source_post_id@ && self.published@[k].taxonomy_hash@ == taxonomy_hash@),
            decreases n - i,
        {
            let hit = crate::strutil::str_eq(
                self.published[i].source_post_id.as_str(),
                source_post_id,
            ) && crate::strutil::str_eq(self.published[i].taxonomy_hash.as_str(), taxonomy_hash);
            if hit {
                proof {
                    assert(self.processed_set().contains((source_post_id@, taxonomy_hash@)));
                }
                return Ok(true);
            }
            i = i + 1;
        }
        proof {
            if self.processed_set().contains((source_post_id@, taxonomy_hash@)) {
                let w = choose|k: int|
                    0 <= k < self.published@.len() && (#[trigger] self.published@[k]).source_post_id@
                        == source_post_id@ && self.published@[k].taxonomy_hash@ == taxonomy_hash@;
                assert(false);
            }
        }
        Ok(false)
    }

    fn record_published(&mut self, record: &PublishedRecord) -> (r: Result<(), StateError>) {
        let ghost pre = self.published@;
        self.published.push(clone_record(record));
        proof {
            let key = (record.source_post_id@, record.taxonomy_hash@);
            assert forall|p: (Seq<char>, Seq<char>)|
                self.processed_set().contains(p) == old(self).processed_set().insert(
                    key,
                ).contains(p) by {
                if self.processed_set().contains(p) {
                    let i = choose|i: int|
                        0 <= i < self.published@.len() && (
                        #[trigger] self.published@[i]).source_post_id@ == p.0
                            && self.published@[i].taxonomy_hash@ == p.1;
                    if i < pre.len() {
                        assert(pre[i] == self.published@[i]);
                        assert(old(self).processed_set().contains(p));
                    } else {
                        assert(p == key);
                    }
                }
                if old(self).processed_set().insert(key).contains(p) {
                    if p == key {
                        assert(self.published@[pre.len() as int].source_post_id@ == p.0
                            && self.published@[pre.len() as int].taxonomy_hash@ == p.1);
                        assert(self.processed_set().contains(p));
                    } else {
                        assert(old(self).processed_set().contains(p));
                        let i = choose|i: int|
                            0 <= i < pre.len() && (#[trigger] pre[i]).source_post_id@ == p.0
                                && pre[i].taxonomy_hash@ == p.1;
                        assert(self.published@[i] == pre[i]);
                        assert(self.processed_set().contains(p));
                    }
                }
            }
            assert(self.processed_set() =~= old(self).processed_set().insert(key));
            assert(self.cursors() =~= old(self).cursors());
        }
        Ok(())
    }

    fn get_published(&self, source_post_id: &str, taxonomy_hash: &str) -> (r: Result<
        Option<PublishedRecord>,
        StateError,
    >) {
        let n = self.published.len();
        let mut i: usize = 0;
        while i < n
            invariant
                n == self.published@.len(),
            decreases n - i,
        {
            let hit = crate::strutil::str_eq(
                self.published[i].source_post_id.as_str(),
                source_post_id,
            ) && crate::strutil::str_eq(self.published[i].taxonomy_hash.as_str(), taxonomy_hash);
            if hit {
                return Ok(Some(clone_record(&self.published[i])));
            }
            i = i + 1;
        }
        Ok(None)
    }
}

/// An account found at some index is found by the front-to-back scan.
proof fn lemma_has_account_at(s: Seq<AccountState>, i: int)
    requires
        0 <= i < s.len(),
    ensures
        has_account(s, s[i].account@),
    decreases i,
{
    if i > 0 && s[0].account@ != s[i].account@ {
        assert(s.drop_first()[i - 1] == s[i]);
        lemma_has_account_at(s.drop_first(), i - 1);
    }
}

} // verus!
