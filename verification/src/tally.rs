//! Counts kept per file extension.

use vstd::prelude::*;
use crate::text::owned;

verus! {

/// One extension with the amount counted for it.
pub struct Tally {
    /// The extension, in lower case, or the word that stands for none.
    pub extension: String,
    /// The amount counted for it.
    pub amount: u64,
}

/// Whether the table has an entry for `key`.
pub open spec fn has_key(t: Seq<(Seq<char>, nat)>, key: Seq<char>) -> bool {
    exists|i: int| 0 <= i < t.len() && (#[trigger] t[i]).0 == key
}

/// No key stands twice in the table.
pub open spec fn distinct_keys(t: Seq<(Seq<char>, nat)>) -> bool {
    forall|i: int, j: int| 0 <= i < j < t.len() ==> (#[trigger] t[i]).0 != (#[trigger] t[j]).0
}

/// The place of `key` in a table that has it.
pub open spec fn place_of(t: Seq<(Seq<char>, nat)>, key: Seq<char>) -> int {
    choose|i: int| 0 <= i < t.len() && (#[trigger] t[i]).0 == key
}

/// The amount counted for `key`: zero where the table has no entry for it.
pub open spec fn amount_of(t: Seq<(Seq<char>, nat)>, key: Seq<char>) -> nat {
    if has_key(t, key) {
        t[place_of(t, key)].1
    } else {
        0
    }
}

/// The table after `amount` was counted for `key`: an entry that is there
/// grows by the amount, a new one goes to the end.
pub open spec fn tallied(t: Seq<(Seq<char>, nat)>, key: Seq<char>, amount: nat) -> Seq<
    (Seq<char>, nat),
> {
    if has_key(t, key) {
        t.update(place_of(t, key), (key, t[place_of(t, key)].1 + amount))
    } else {
        t.push((key, amount))
    }
}

/// The sum of all amounts in the table.
pub open spec fn tally_total(t: Seq<(Seq<char>, nat)>) -> nat
    decreases t.len(),
{
    if t.len() == 0 {
        0
    } else {
        tally_total(t.drop_last()) + t.last().1
    }
}

/// The amounts of a table, in its order.
pub open spec fn amounts(t: Seq<(Seq<char>, nat)>) -> Seq<u64> {
    Seq::new(t.len(), |i: int| t[i].1 as u64)
}

/// In a table without repetition, the place of a key is the only one that
/// holds it.
pub proof fn key_place_is_unique(t: Seq<(Seq<char>, nat)>, key: Seq<char>, i: int)
    requires
        distinct_keys(t),
        0 <= i < t.len(),
        t[i].0 == key,
    ensures
        has_key(t, key),
        place_of(t, key) == i,
{
    let k = place_of(t, key);
    assert(t[k].0 == key);
    if k < i {
        assert(t[k].0 != t[i].0);
    }
    if i < k {
        assert(t[i].0 != t[k].0);
    }
}

/// Replacing one amount changes the sum by the difference.
pub proof fn total_after_update(t: Seq<(Seq<char>, nat)>, i: int, amount: nat)
    requires
        0 <= i < t.len(),
    ensures
        tally_total(t.update(i, (t[i].0, t[i].1 + amount))) == tally_total(t) + amount,
        t[i].1 <= tally_total(t),
    decreases t.len(),
{
    let u = t.update(i, (t[i].0, t[i].1 + amount));
    if i == t.len() - 1 {
        assert(u.drop_last() == t.drop_last());
    } else {
        total_after_update(t.drop_last(), i, amount);
        assert(u.drop_last() == t.drop_last().update(i, (t[i].0, t[i].1 + amount)));
    }
}

/// Counting an amount for a key raises the sum by that amount, keeps the
/// table free of repetition, and raises what is counted for the key.
pub proof fn tallied_total(t: Seq<(Seq<char>, nat)>, key: Seq<char>, amount: nat)
    requires
        distinct_keys(t),
    ensures
        distinct_keys(tallied(t, key, amount)),
        tally_total(tallied(t, key, amount)) == tally_total(t) + amount,
        amount_of(tallied(t, key, amount), key) == amount_of(t, key) + amount,
{
    let r = tallied(t, key, amount);
    if has_key(t, key) {
        let k = place_of(t, key);
        total_after_update(t, k, amount);
        assert forall|i: int, j: int| 0 <= i < j < r.len() implies (#[trigger] r[i]).0 != (
        #[trigger] r[j]).0 by {
            assert(t[i].0 != t[j].0);
        }
        assert(r[k].0 == key);
        key_place_is_unique(r, key, k);
    } else {
        assert(r.drop_last() == t);
        assert forall|i: int, j: int| 0 <= i < j < r.len() implies (#[trigger] r[i]).0 != (
        #[trigger] r[j]).0 by {
            if j < t.len() {
                assert(t[i].0 != t[j].0);
            } else {
                assert(t[i].0 != key);
            }
        }
        assert(r[t.len() as int].0 == key);
        key_place_is_unique(r, key, t.len() as int);
    }
}

/// Amounts counted per extension, each extension once, in the order in
/// which the extensions were first met.
pub struct ExtensionTable {
    entries: Vec<Tally>,
}

impl View for ExtensionTable {
    type V = Seq<(Seq<char>, nat)>;

    closed spec fn view(&self) -> Seq<(Seq<char>, nat)> {
        Seq::new(
            self.entries@.len(),
            |i: int| (self.entries@[i].extension@, self.entries@[i].amount as nat),
        )
    }
}

impl ExtensionTable {
    /// No extension stands twice in the table.
    pub open spec fn wf(&self) -> bool {
        distinct_keys(self@)
    }

    /// An empty table.
    pub fn new() -> (r: Self)
        ensures
            r.wf(),
            r@ == Seq::<(Seq<char>, nat)>::empty(),
    {
        ExtensionTable { entries: Vec::new() }
    }

    /// The number of extensions in the table.
    pub fn len(&self) -> (r: usize)
        ensures
            r == self@.len(),
    {
        self.entries.len()
    }

    /// The extension at place `i`.
    pub fn extension_at(&self, i: usize) -> (r: &str)
        requires
            i < self@.len(),
        ensures
            r@ == self@[i as int].0,
    {
        self.entries[i].extension.as_str()
    }

    /// The amount at place `i`.
    pub fn amount_at(&self, i: usize) -> (r: u64)
        requires
            i < self@.len(),
        ensures
            r == self@[i as int].1,
    {
        self.entries[i].amount
    }

    /// The amounts of the table, in its order.
    pub fn all_amounts(&self) -> (r: Vec<u64>)
        ensures
            r@ == amounts(self@),
    {
        let mut r: Vec<u64> = Vec::new();
        let mut i: usize = 0;
        while i < self.entries.len()
            invariant
                i <= self.entries.len(),
                r@ == amounts(self@).take(i as int),
            decreases self.entries.len() - i,
        {
            r.push(self.entries[i].amount);
            i += 1;
        }
        r
    }

    /// The amount counted for `key`: zero where the table has no entry for
    /// it.
    pub fn get(&self, key: &str) -> (r: u64)
        requires
            self.wf(),
        ensures
            r == amount_of(self@, key@),
    {
        let wanted = owned(key);
        let mut i: usize = 0;
        while i < self.entries.len()
            invariant
                i <= self.entries.len(),
                self.wf(),
                wanted@ == key@,
                forall|j: int| 0 <= j < i ==> (#[trigger] self@[j]).0 != key@,
            decreases self.entries.len() - i,
        {
            if self.entries[i].extension == wanted {
                proof {
                    key_place_is_unique(self@, key@, i as int);
                }
                return self.entries[i].amount;
            }
            i += 1;
        }
        0
    }

    /// Counts `amount` for `key`.
    pub fn add(&mut self, key: &str, amount: u64)
        requires
            old(self).wf(),
            tally_total(old(self)@) + amount <= u64::MAX,
        ensures
            final(self).wf(),
            final(self)@ == tallied(old(self)@, key@, amount as nat),
            tally_total(final(self)@) == tally_total(old(self)@) + amount,
    {
        let wanted = owned(key);
        proof {
            tallied_total(self@, key@, amount as nat);
        }
        let mut i: usize = 0;
        while i < self.entries.len()
            invariant
                i <= self.entries.len(),
                *self == *old(self),
                self.wf(),
                wanted@ == key@,
                tally_total(self@) + amount <= u64::MAX,
                forall|j: int| 0 <= j < i ==> (#[trigger] self@[j]).0 != key@,
            decreases self.entries.len() - i,
        {
            if self.entries[i].extension == wanted {
                proof {
                    key_place_is_unique(self@, key@, i as int);
                    total_after_update(self@, i as int, amount as nat);
                }
                let grown = self.entries[i].amount + amount;
                self.entries.set(i, Tally { extension: wanted, amount: grown });
                assert(self@ == old(self)@.update(i as int, (key@, grown as nat)));
                return;
            }
            i += 1;
        }
        self.entries.push(Tally { extension: wanted, amount });
        assert(self@ == old(self)@.push((key@, amount as nat)));
    }
}

} // verus!
