//! The ledger store: a persistent mapping from account identifier to a
//! non-negative token amount.
//!
//! Accounts are plain 64-bit identifiers (the host adapter canonicalizes
//! address text into identifiers); amounts are 128-bit.  The store keeps its
//! entries sorted by strictly ascending key, which makes enumeration order
//! deterministic — the campaign's refund and allocation passes rely on it.
//! An absent account reads as zero, never as an error.

use vstd::prelude::*;

verus! {

/// One account's entry: identifier and amount.
pub type Entry = (u64, u128);

/// Keys strictly ascend, so every key occurs at most once.
pub open spec fn keys_sorted(s: Seq<Entry>) -> bool {
    forall|i: int, j: int| 0 <= i < j < s.len() ==> s[i].0 < s[j].0
}

/// Amount recorded for account `a` in the entries from position `j` on;
/// zero when no entry matches.
pub open spec fn amount_from(s: Seq<Entry>, j: int, a: u64) -> u128
    decreases s.len() - j,
{
    if j < 0 || j >= s.len() {
        0
    } else if s[j].0 == a {
        s[j].1
    } else {
        amount_from(s, j + 1, a)
    }
}

/// Amount recorded for account `a`; zero when absent.
pub open spec fn amount(s: Seq<Entry>, a: u64) -> u128 {
    amount_from(s, 0, a)
}

/// Sum of the amounts of the entries from position `j` on.
pub open spec fn total_from(s: Seq<Entry>, j: int) -> int
    decreases s.len() - j,
{
    if j < 0 || j >= s.len() {
        0
    } else {
        s[j].1 + total_from(s, j + 1)
    }
}

/// Sum of all recorded amounts.
pub open spec fn total(s: Seq<Entry>) -> int {
    total_from(s, 0)
}

/// The sum of all entries is never negative.
pub proof fn lemma_total_from_nonneg(s: Seq<Entry>, j: int)
    ensures
        total_from(s, j) >= 0,
    decreases s.len() - j,
{
    if 0 <= j < s.len() {
        lemma_total_from_nonneg(s, j + 1);
    }
}

/// No single account holds more than the sum of all entries.
pub proof fn lemma_amount_le_total(s: Seq<Entry>, j: int, a: u64)
    ensures
        amount_from(s, j, a) <= total_from(s, j),
    decreases s.len() - j,
{
    if 0 <= j < s.len() {
        lemma_total_from_nonneg(s, j + 1);
        lemma_amount_le_total(s, j + 1, a);
    }
}

/// With strictly ascending keys, two distinct positions hold distinct keys.
pub proof fn lemma_sorted_unique(s: Seq<Entry>, i: int, k: int)
    requires
        keys_sorted(s),
        0 <= i < s.len(),
        0 <= k < s.len(),
        i != k,
    ensures
        s[i].0 != s[k].0,
{
}

/// When the key at position `i` is `a` and keys are sorted, scanning from any
/// position at or before `i` finds exactly that entry's amount.
pub proof fn lemma_amount_at_key(s: Seq<Entry>, j: int, i: int, a: u64)
    requires
        keys_sorted(s),
        0 <= j <= i < s.len(),
        s[i].0 == a,
    ensures
        amount_from(s, j, a) == s[i].1,
    decreases i - j,
{
    if j < i {
        assert(s[j].0 < s[i].0);
        lemma_amount_at_key(s, j + 1, i, a);
    }
}

/// An account that no entry names holds zero.
pub proof fn lemma_amount_absent(s: Seq<Entry>, j: int, a: u64)
    requires
        forall|k: int| j <= k < s.len() ==> s[k].0 != a,
    ensures
        amount_from(s, j, a) == 0,
    decreases s.len() - j,
{
    if 0 <= j < s.len() {
        lemma_amount_absent(s, j + 1, a);
    }
}

/// How replacing the entry at position `i` changes the sum.
pub proof fn lemma_total_from_update(s: Seq<Entry>, j: int, i: int, v: Entry)
    requires
        0 <= j <= s.len(),
        0 <= i < s.len(),
    ensures
        total_from(s.update(i, v), j) == total_from(s, j) + if j <= i {
            v.1 - s[i].1
        } else {
            0
        },
    decreases s.len() - j,
{
    if j < s.len() {
        lemma_total_from_update(s, j + 1, i, v);
    }
}

/// How replacing the entry at position `i` by one with the same key changes
/// each account's amount.
pub proof fn lemma_amount_from_update(s: Seq<Entry>, j: int, i: int, v: Entry, a: u64)
    requires
        keys_sorted(s),
        0 <= j <= s.len(),
        0 <= i < s.len(),
        v.0 == s[i].0,
    ensures
        amount_from(s.update(i, v), j, a) == if a == v.0 && j <= i {
            v.1
        } else {
            amount_from(s, j, a)
        },
    decreases s.len() - j,
{
    if j < s.len() {
        if j != i {
            lemma_sorted_unique(s, i, j);
        }
        lemma_amount_from_update(s, j + 1, i, v, a);
    }
}

/// How inserting an entry at position `i` changes the sum.
pub proof fn lemma_total_from_insert(s: Seq<Entry>, j: int, i: int, v: Entry)
    requires
        0 <= j <= s.len() + 1,
        0 <= i <= s.len(),
    ensures
        j <= i ==> total_from(s.insert(i, v), j) == total_from(s, j) + v.1,
        j > i ==> total_from(s.insert(i, v), j) == total_from(s, j - 1),
    decreases s.len() + 1 - j,
{
    s.insert_ensures(i, v);
    if j <= s.len() {
        lemma_total_from_insert(s, j + 1, i, v);
    }
}

/// How inserting an entry with a fresh key at position `i` changes each
/// account's amount.
pub proof fn lemma_amount_from_insert(s: Seq<Entry>, j: int, i: int, v: Entry, a: u64)
    requires
        0 <= j <= s.len() + 1,
        0 <= i <= s.len(),
        forall|k: int| 0 <= k < s.len() ==> s[k].0 != v.0,
    ensures
        j <= i ==> amount_from(s.insert(i, v), j, a) == if a == v.0 {
            v.1
        } else {
            amount_from(s, j, a)
        },
        j > i ==> amount_from(s.insert(i, v), j, a) == amount_from(s, j - 1, a),
    decreases s.len() + 1 - j,
{
    s.insert_ensures(i, v);
    if j <= s.len() {
        lemma_amount_from_insert(s, j + 1, i, v, a);
    }
}

/// Sum of the amounts of the entries from position `j` on, leaving out the
/// entry of account `a`.
pub open spec fn total_except_from(s: Seq<Entry>, j: int, a: u64) -> int
    decreases s.len() - j,
{
    if j < 0 || j >= s.len() {
        0
    } else {
        (if s[j].0 == a {
            0
        } else {
            s[j].1 as int
        }) + total_except_from(s, j + 1, a)
    }
}

/// Sum of all recorded amounts except account `a`'s.
pub open spec fn total_except(s: Seq<Entry>, a: u64) -> int {
    total_except_from(s, 0, a)
}

/// Leaving out an account that no entry names leaves the sum whole.
pub proof fn lemma_total_except_absent(s: Seq<Entry>, j: int, a: u64)
    requires
        forall|k: int| j <= k < s.len() ==> s[k].0 != a,
    ensures
        total_except_from(s, j, a) == total_from(s, j),
    decreases s.len() - j,
{
    if 0 <= j < s.len() {
        lemma_total_except_absent(s, j + 1, a);
    }
}

/// With keys unique, leaving out one account subtracts exactly its amount.
pub proof fn lemma_total_except(s: Seq<Entry>, j: int, a: u64)
    requires
        keys_sorted(s),
        0 <= j <= s.len(),
    ensures
        total_except_from(s, j, a) == total_from(s, j) - amount_from(s, j, a),
    decreases s.len() - j,
{
    if j < s.len() {
        if s[j].0 == a {
            assert forall|k: int| j + 1 <= k < s.len() implies s[k].0 != a by {
                lemma_sorted_unique(s, j, k);
            }
            lemma_total_except_absent(s, j + 1, a);
        } else {
            lemma_total_except(s, j + 1, a);
        }
    }
}

/// Sum of the amounts that the entries from position `j` on record for
/// account `a`.  Unlike a ledger, an arbitrary entry list may repeat a key;
/// the sums accumulate.
pub open spec fn key_total_from(s: Seq<Entry>, j: int, a: u64) -> int
    decreases s.len() - j,
{
    if j < 0 || j >= s.len() {
        0
    } else {
        (if s[j].0 == a {
            s[j].1 as int
        } else {
            0
        }) + key_total_from(s, j + 1, a)
    }
}

/// Sum of all amounts recorded for account `a`.
pub open spec fn key_total(s: Seq<Entry>, a: u64) -> int {
    key_total_from(s, 0, a)
}

/// The partial sums that leave one account out are never negative.
pub proof fn lemma_total_except_nonneg(s: Seq<Entry>, j: int, a: u64)
    ensures
        total_except_from(s, j, a) >= 0,
    decreases s.len() - j,
{
    if 0 <= j < s.len() {
        lemma_total_except_nonneg(s, j + 1, a);
    }
}

/// A mapping from account identifier to amount, entries sorted by strictly
/// ascending key.
#[derive(Debug)]
pub struct Ledger {
    entries: Vec<Entry>,
}

impl Ledger {
    /// The sequence of entries, in ascending key order.
    pub closed spec fn view(&self) -> Seq<Entry> {
        self.entries@
    }

    /// Well-formed: keys strictly ascend.
    pub open spec fn wf(&self) -> bool {
        keys_sorted(self@)
    }

    /// Amount held by account `a`; zero when absent.
    pub open spec fn spec_get(&self, a: u64) -> u128 {
        amount(self@, a)
    }

    /// Sum of all amounts in the ledger.
    pub open spec fn spec_total(&self) -> int {
        total(self@)
    }

    /// An empty ledger.
    pub fn new() -> (r: Ledger)
        ensures
            r@ =~= Seq::<Entry>::empty(),
            r.wf(),
    {
        Ledger { entries: Vec::new() }
    }

    /// Number of entries.
    pub fn len(&self) -> (r: usize)
        ensures
            r == self@.len(),
    {
        self.entries.len()
    }

    /// The entry at position `i`, in ascending key order.
    pub fn entry_at(&self, i: usize) -> (r: Entry)
        requires
            i < self@.len(),
        ensures
            r == self@[i as int],
    {
        self.entries[i]
    }

    /// Position of the first key at or above `a`.
    fn lower_bound(&self, a: u64) -> (i: usize)
        requires
            self.wf(),
        ensures
            i <= self@.len(),
            forall|k: int| 0 <= k < i ==> self@[k].0 < a,
            forall|k: int| i <= k < self@.len() ==> self@[k].0 >= a,
    {
        let n = self.entries.len();
        let mut i: usize = 0;
        while i < n
            invariant
                self.wf(),
                n == self@.len(),
                i <= n,
                forall|k: int| 0 <= k < i ==> self@[k].0 < a,
            decreases n - i,
        {
            if self.entries[i].0 >= a {
                assert(forall|k: int|
                    i < k < self@.len() ==> self@[k].0 > self@[i as int].0);
                return i;
            }
            i = i + 1;
        }
        n
    }

    /// Add `x` to account `a`'s amount, creating the entry when absent.
    pub fn credit(&mut self, a: u64, x: u128)
        requires
            old(self).wf(),
            amount(old(self)@, a) + x <= u128::MAX,
        ensures
            final(self).wf(),
            forall|b: u64|
                amount(final(self)@, b) == if b == a {
                    (amount(old(self)@, a) + x) as u128
                } else {
                    amount(old(self)@, b)
                },
            total(final(self)@) == total(old(self)@) + x,
    {
        let i = self.lower_bound(a);
        let n = self.entries.len();
        if i < n && self.entries[i].0 == a {
            proof {
                lemma_amount_at_key(self@, 0, i as int, a);
            }
            let cur = self.entries[i].1;
            let ghost s = self@;
            self.entries[i] = (a, cur + x);
            proof {
                assert(self@ == s.update(i as int, (a, (cur + x) as u128)));
                lemma_total_from_update(s, 0, i as int, (a, (cur + x) as u128));
                assert forall|b: u64|
                    amount(self@, b) == if b == a {
                        (amount(s, a) + x) as u128
                    } else {
                        amount(s, b)
                    } by {
                    lemma_amount_from_update(s, 0, i as int, (a, (cur + x) as u128), b);
                }
                assert(keys_sorted(self@));
            }
        } else {
            proof {
                assert(forall|k: int| 0 <= k < self@.len() ==> self@[k].0 != a);
                lemma_amount_absent(self@, 0, a);
            }
            let ghost s = self@;
            self.entries.insert(i, (a, x));
            proof {
                s.insert_ensures(i as int, (a, x));
                lemma_total_from_insert(s, 0, i as int, (a, x));
                assert forall|b: u64|
                    amount(self@, b) == if b == a {
                        (amount(s, a) + x) as u128
                    } else {
                        amount(s, b)
                    } by {
                    lemma_amount_from_insert(s, 0, i as int, (a, x), b);
                }
                assert forall|p: int, q: int|
                    0 <= p < q < self@.len() implies self@[p].0 < self@[q].0 by {
                    if q < i {
                        assert(self@[p] == s[p] && self@[q] == s[q]);
                    } else if p > i {
                        assert(self@[p] == s[p - 1] && self@[q] == s[q - 1]);
                    } else if p < i && q == i {
                        assert(self@[p] == s[p]);
                    } else if p < i && q > i {
                        assert(self@[p] == s[p] && self@[q] == s[q - 1]);
                    } else if p == i && q > i {
                        assert(self@[q] == s[q - 1]);
                    }
                }
            }
        }
    }

    /// Subtract `x` from account `a`'s amount.  Fails, changing nothing, when
    /// the account holds less than `x`.
    pub fn debit(&mut self, a: u64, x: u128) -> (ok: bool)
        requires
            old(self).wf(),
        ensures
            final(self).wf(),
            ok <==> amount(old(self)@, a) >= x,
            ok ==> forall|b: u64|
                amount(final(self)@, b) == if b == a {
                    (amount(old(self)@, a) - x) as u128
                } else {
                    amount(old(self)@, b)
                },
            ok ==> total(final(self)@) == total(old(self)@) - x,
            !ok ==> final(self)@ == old(self)@,
    {
        let i = self.lower_bound(a);
        let n = self.entries.len();
        if i < n && self.entries[i].0 == a {
            proof {
                lemma_amount_at_key(self@, 0, i as int, a);
            }
            let cur = self.entries[i].1;
            if cur < x {
                return false;
            }
            let ghost s = self@;
            self.entries[i] = (a, cur - x);
            proof {
                assert(self@ == s.update(i as int, (a, (cur - x) as u128)));
                lemma_total_from_update(s, 0, i as int, (a, (cur - x) as u128));
                assert forall|b: u64|
                    amount(self@, b) == if b == a {
                        (amount(s, a) - x) as u128
                    } else {
                        amount(s, b)
                    } by {
                    lemma_amount_from_update(s, 0, i as int, (a, (cur - x) as u128), b);
                }
                assert(keys_sorted(self@));
            }
            true
        } else {
            proof {
                assert(forall|k: int| 0 <= k < self@.len() ==> self@[k].0 != a);
                lemma_amount_absent(self@, 0, a);
            }
            x == 0
        }
    }

    /// Amount held by account `a`; absent means zero, never an error.
    pub fn get(&self, a: u64) -> (r: u128)
        ensures
            r == self.spec_get(a),
    {
        let n = self.entries.len();
        let mut i: usize = 0;
        while i < n
            invariant
                n == self@.len(),
                0 <= i <= n,
                amount(self@, a) == amount_from(self@, i as int, a),
            decreases n - i,
        {
            if self.entries[i].0 == a {
                return self.entries[i].1;
            }
            i = i + 1;
        }
        0
    }
}

} // verus!
