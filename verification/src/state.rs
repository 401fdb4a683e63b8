//! Per-channel account state and the key-value store it lives in.
//!
//! The store is an explicit, in-memory mapping from a string key to a value,
//! with the interface (get / set / remove / list) the rest of the core is
//! written against, decoupled from whatever persistence a host provides.

use vstd::prelude::*;
use crate::ibc_msg::{Coin, CoinView};

verus! {

/// What this controller knows of one channel's remote account.
#[derive(Debug, PartialEq, Clone)]
pub struct AccountData {
    /// Time of the most recently processed balance report; 0 is "never".
    pub last_update_time: u64,
    /// The remote account's address; absent until a who-am-I
    /// acknowledgement arrives, then immutable for the channel's life.
    pub remote_addr: Option<String>,
    /// The remote holdings as of `last_update_time`, replaced wholesale by
    /// each balance report, never merged. Meaningless while
    /// `last_update_time` is 0.
    pub remote_balance: Vec<Coin>,
}

/// Mathematical value of an [`AccountData`].
pub struct AccountDataView {
    pub last_update_time: u64,
    pub remote_addr: Option<Seq<char>>,
    pub remote_balance: Seq<CoinView>,
}

impl View for AccountData {
    type V = AccountDataView;

    open spec fn view(&self) -> AccountDataView {
        AccountDataView {
            last_update_time: self.last_update_time,
            remote_addr: crate::client_ibc_msg::opt_string_view(self.remote_addr),
            remote_balance: self.remote_balance@.map_values(|c: Coin| c@),
        }
    }
}

impl AccountData {
    /// The state of a channel that has never received an acknowledgement.
    pub fn fresh() -> (r: AccountData)
        ensures
            r@.last_update_time == 0,
            r@.remote_addr is None,
            r@.remote_balance =~= Seq::<CoinView>::empty(),
    {
        AccountData { last_update_time: 0, remote_addr: Option::None, remote_balance: Vec::new() }
    }

    /// A fresh value with the same contents.
    pub fn duplicate(&self) -> (r: AccountData)
        ensures
            r@ == self@,
    {
        let remote_addr = match &self.remote_addr {
            Option::None => Option::None,
            Option::Some(a) => Option::Some(a.clone()),
        };
        let mut remote_balance: Vec<Coin> = Vec::new();
        let mut k: usize = 0;
        while k < self.remote_balance.len()
            invariant
                k == remote_balance@.len() <= self.remote_balance.len(),
                forall|j: int|
                    0 <= j < k ==> #[trigger] remote_balance@[j]@ == self.remote_balance@[j]@,
            decreases self.remote_balance.len() - k,
        {
            remote_balance.push(self.remote_balance[k].duplicate());
            k = k + 1;
        }
        proof {
            assert(remote_balance@.map_values(|c: Coin| c@) =~= self.remote_balance@.map_values(
                |c: Coin| c@,
            ));
        }
        AccountData { last_update_time: self.last_update_time, remote_addr, remote_balance }
    }
}

/// The mapping a sequence of key-value pairs stands for; later pairs win,
/// though the store keeps its keys unique so the case never arises.
pub open spec fn map_of<V>(pairs: Seq<(String, V)>) -> Map<Seq<char>, V>
    decreases pairs.len(),
{
    if pairs.len() == 0 {
        Map::empty()
    } else {
        map_of(pairs.drop_last()).insert(pairs.last().0@, pairs.last().1)
    }
}

/// No two pairs share a key.
pub open spec fn unique_keys<V>(pairs: Seq<(String, V)>) -> bool {
    forall|i: int, j: int|
        0 <= i < j < pairs.len() ==> #[trigger] pairs[i].0@ != #[trigger] pairs[j].0@
}

proof fn lemma_map_of_contains<V>(pairs: Seq<(String, V)>, k: Seq<char>)
    ensures
        map_of(pairs).contains_key(k) <==> exists|i: int|
            0 <= i < pairs.len() && #[trigger] pairs[i].0@ == k,
    decreases pairs.len(),
{
    if pairs.len() > 0 {
        lemma_map_of_contains(pairs.drop_last(), k);
        if map_of(pairs).contains_key(k) {
            if pairs.last().0@ == k {
                assert(pairs[pairs.len() - 1].0@ == k);
            } else {
                let i = choose|i: int| 0 <= i < pairs.drop_last().len() && #[trigger] pairs
                    .drop_last()[i].0@ == k;
                assert(pairs[i].0@ == k);
            }
        }
        if exists|i: int| 0 <= i < pairs.len() && #[trigger] pairs[i].0@ == k {
            let i = choose|i: int| 0 <= i < pairs.len() && #[trigger] pairs[i].0@ == k;
            if i < pairs.len() - 1 {
                assert(pairs.drop_last()[i].0@ == k);
            }
        }
    }
}

proof fn lemma_map_of_index<V>(pairs: Seq<(String, V)>, i: int)
    requires
        unique_keys(pairs),
        0 <= i < pairs.len(),
    ensures
        map_of(pairs).contains_key(pairs[i].0@),
        map_of(pairs)[pairs[i].0@] == pairs[i].1,
    decreases pairs.len(),
{
    if i == pairs.len() - 1 {
    } else {
        assert(unique_keys(pairs.drop_last()));
        lemma_map_of_index(pairs.drop_last(), i);
        assert(pairs.drop_last()[i] == pairs[i]);
        assert(pairs.last().0@ != pairs[i].0@);
    }
}

proof fn lemma_map_of_remove_at<V>(pairs: Seq<(String, V)>, i: int)
    requires
        unique_keys(pairs),
        0 <= i < pairs.len(),
    ensures
        map_of(pairs.remove(i)) =~= map_of(pairs).remove(pairs[i].0@),
    decreases pairs.len(),
{
    let k = pairs[i].0@;
    if i == pairs.len() - 1 {
        assert(pairs.remove(i) =~= pairs.drop_last());
        lemma_map_of_contains(pairs.drop_last(), k);
        assert(!map_of(pairs.drop_last()).contains_key(k));
    } else {
        assert(unique_keys(pairs.drop_last()));
        assert(pairs.remove(i).drop_last() =~= pairs.drop_last().remove(i));
        assert(pairs.remove(i).last() == pairs.last());
        lemma_map_of_remove_at(pairs.drop_last(), i);
        assert(pairs.drop_last()[i] == pairs[i]);
        assert(pairs.last().0@ != k);
    }
}

/// A string-keyed store with unique keys; its view is the mapping it holds.
pub struct KvStore<V> {
    pairs: Vec<(String, V)>,
}

impl<V> View for KvStore<V> {
    type V = Map<Seq<char>, V>;

    closed spec fn view(&self) -> Map<Seq<char>, V> {
        map_of(self.pairs@)
    }
}

impl<V> KvStore<V> {
    /// Keys are pairwise distinct; every operation keeps this.
    pub closed spec fn wf(&self) -> bool {
        unique_keys(self.pairs@)
    }

    /// An empty store.
    pub fn empty() -> (r: KvStore<V>)
        ensures
            r.wf(),
            r@ == Map::<Seq<char>, V>::empty(),
    {
        KvStore { pairs: Vec::new() }
    }

    /// The value stored under `key`, if any.
    pub fn get(&self, key: &str) -> (r: Option<&V>)
        requires
            self.wf(),
        ensures
            match r {
                Option::Some(v) => self@.contains_key(key@) && *v == self@[key@],
                Option::None => !self@.contains_key(key@),
            },
    {
        let k = key.to_owned();
        let mut i: usize = 0;
        while i < self.pairs.len()
            invariant
                i <= self.pairs@.len(),
                k@ == key@,
                self.wf(),
                forall|j: int| 0 <= j < i ==> #[trigger] self.pairs@[j].0@ != key@,
            decreases self.pairs@.len() - i,
        {
            if self.pairs[i].0 == k {
                proof {
                    lemma_map_of_index(self.pairs@, i as int);
                }
                return Option::Some(&self.pairs[i].1);
            }
            i = i + 1;
        }
        proof {
            lemma_map_of_contains(self.pairs@, key@);
        }
        Option::None
    }

    /// Whether any value is stored under `key`.
    pub fn contains(&self, key: &str) -> (r: bool)
        requires
            self.wf(),
        ensures
            r == self@.contains_key(key@),
    {
        self.get(key).is_some()
    }

    /// Removes the value stored under `key`, if any.
    pub fn remove(&mut self, key: &str)
        requires
            old(self).wf(),
        ensures
            final(self).wf(),
            final(self)@ == old(self)@.remove(key@),
    {
        let k = key.to_owned();
        let mut i: usize = 0;
        while i < self.pairs.len()
            invariant
                i <= self.pairs@.len(),
                k@ == key@,
                self.wf(),
                self@ == old(self)@,
                self.pairs@ == old(self).pairs@,
                forall|j: int| 0 <= j < i ==> #[trigger] self.pairs@[j].0@ != key@,
            decreases self.pairs@.len() - i,
        {
            if self.pairs[i].0 == k {
                proof {
                    lemma_map_of_remove_at(self.pairs@, i as int);
                    assert(forall|a: int, b: int|
                        0 <= a < b < self.pairs@.remove(i as int).len()
                            ==> #[trigger] self.pairs@.remove(i as int)[a].0@
                            != #[trigger] self.pairs@.remove(i as int)[b].0@);
                }
                self.pairs.remove(i);
                return ;
            }
            i = i + 1;
        }
        proof {
            lemma_map_of_contains(self.pairs@, key@);
            assert(self@ =~= old(self)@.remove(key@));
        }
    }

    /// Stores `value` under `key`, replacing any previous value.
    pub fn set(&mut self, key: String, value: V)
        requires
            old(self).wf(),
        ensures
            final(self).wf(),
            final(self)@ == old(self)@.insert(key@, value),
    {
        self.remove(key.as_str());
        proof {
            lemma_map_of_contains(self.pairs@, key@);
        }
        let ghost before = self.pairs@;
        self.pairs.push((key, value));
        proof {
            assert(self.pairs@.drop_last() =~= before);
            assert(self@ =~= old(self)@.insert(key@, value));
        }
    }

    /// The stored pairs, for listing; one entry per key of the view.
    pub fn entries(&self) -> (r: &Vec<(String, V)>)
        requires
            self.wf(),
        ensures
            unique_keys(r@),
            forall|i: int|
                0 <= i < r@.len() ==> self@.contains_key(#[trigger] r@[i].0@) && self@[r@[i].0@]
                    == r@[i].1,
            forall|k: Seq<char>|
                self@.contains_key(k) ==> exists|i: int|
                    0 <= i < r@.len() && #[trigger] r@[i].0@ == k,
    {
        proof {
            assert forall|i: int| 0 <= i < self.pairs@.len() implies self@.contains_key(
                #[trigger] self.pairs@[i].0@,
            ) && self@[self.pairs@[i].0@] == self.pairs@[i].1 by {
                lemma_map_of_index(self.pairs@, i);
            }
            assert forall|k: Seq<char>| self@.contains_key(k) implies exists|i: int|
                0 <= i < self.pairs@.len() && #[trigger] self.pairs@[i].0@ == k by {
                lemma_map_of_contains(self.pairs@, k);
            }
        }
        &self.pairs
    }
}

} // verus!
