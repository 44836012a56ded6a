//! The allowance table: owner→spender spending limits with expiry, gating
//! the `*_from` operations.
//!
//! Entries are kept sorted by strictly ascending (owner, spender) key, so
//! enumeration order is deterministic.  An absent pair reads as a zero
//! allowance that never expires.  Expired allowances behave as zero when
//! spent; the stored record itself is returned by queries as it stands.

use vstd::prelude::*;
use crate::error::ContractError;
use crate::msg::ActionKind;
use crate::msg::Attribute;
use crate::msg::Response;
use crate::state::Contract;
use crate::state::Env;
use crate::state::Expiration;

verus! {

/// A stored spending limit: what remains, and when it stops being valid.
#[derive(Clone, Copy, Debug, PartialEq, Eq, Structural)]
pub struct AllowanceVal {
    pub amount: u128,
    pub expires: Expiration,
}

/// What an absent pair reads as: zero, never expiring.
pub open spec fn no_allowance() -> AllowanceVal {
    AllowanceVal { amount: 0, expires: Expiration::Never }
}

/// One table entry: (owner, spender) key and the stored limit.
pub type AllowEntry = ((u64, u64), AllowanceVal);

/// Strict lexicographic order on (owner, spender) keys.
pub open spec fn pair_lt(a: (u64, u64), b: (u64, u64)) -> bool {
    a.0 < b.0 || (a.0 == b.0 && a.1 < b.1)
}

/// Keys strictly ascend, so every pair occurs at most once.
pub open spec fn pairs_sorted(s: Seq<AllowEntry>) -> bool {
    forall|i: int, j: int| 0 <= i < j < s.len() ==> pair_lt(s[i].0, s[j].0)
}

/// The record stored for pair `k` in the entries from position `j` on;
/// absent means no allowance.
pub open spec fn allowance_from(s: Seq<AllowEntry>, j: int, k: (u64, u64)) -> AllowanceVal
    decreases s.len() - j,
{
    if j < 0 || j >= s.len() {
        no_allowance()
    } else if s[j].0 == k {
        s[j].1
    } else {
        allowance_from(s, j + 1, k)
    }
}

/// The record stored for pair `k`; absent means no allowance.
pub open spec fn allowance_of(s: Seq<AllowEntry>, k: (u64, u64)) -> AllowanceVal {
    allowance_from(s, 0, k)
}

/// With strictly ascending keys, two distinct positions hold distinct keys.
pub proof fn lemma_pairs_unique(s: Seq<AllowEntry>, i: int, k: int)
    requires
        pairs_sorted(s),
        0 <= i < s.len(),
        0 <= k < s.len(),
        i != k,
    ensures
        s[i].0 != s[k].0,
{
    if i < k {
        assert(pair_lt(s[i].0, s[k].0));
    } else {
        assert(pair_lt(s[k].0, s[i].0));
    }
}

/// When the key at position `i` is `k` and keys are sorted, scanning from
/// any position at or before `i` finds exactly that entry's record.
pub proof fn lemma_allowance_at_key(s: Seq<AllowEntry>, j: int, i: int, k: (u64, u64))
    requires
        pairs_sorted(s),
        0 <= j <= i < s.len(),
        s[i].0 == k,
    ensures
        allowance_from(s, j, k) == s[i].1,
    decreases i - j,
{
    if j < i {
        assert(pair_lt(s[j].0, s[i].0));
        lemma_allowance_at_key(s, j + 1, i, k);
    }
}

/// A pair that no entry names holds no allowance.
pub proof fn lemma_allowance_absent(s: Seq<AllowEntry>, j: int, k: (u64, u64))
    requires
        forall|p: int| j <= p < s.len() ==> s[p].0 != k,
    ensures
        allowance_from(s, j, k) == no_allowance(),
    decreases s.len() - j,
{
    if 0 <= j < s.len() {
        lemma_allowance_absent(s, j + 1, k);
    }
}

/// How replacing the entry at position `i` by one with the same key changes
/// each pair's record.
pub proof fn lemma_allowance_from_update(
    s: Seq<AllowEntry>,
    j: int,
    i: int,
    v: AllowEntry,
    k: (u64, u64),
)
    requires
        pairs_sorted(s),
        0 <= j <= s.len(),
        0 <= i < s.len(),
        v.0 == s[i].0,
    ensures
        allowance_from(s.update(i, v), j, k) == if k == v.0 && j <= i {
            v.1
        } else {
            allowance_from(s, j, k)
        },
    decreases s.len() - j,
{
    if j < s.len() {
        if j != i {
            lemma_pairs_unique(s, i, j);
        }
        lemma_allowance_from_update(s, j + 1, i, v, k);
    }
}

/// How inserting an entry with a fresh key at position `i` changes each
/// pair's record.
#[verifier::rlimit(50)]
pub proof fn lemma_allowance_from_insert(
    s: Seq<AllowEntry>,
    j: int,
    i: int,
    v: AllowEntry,
    k: (u64, u64),
)
    requires
        0 <= j <= s.len() + 1,
        0 <= i <= s.len(),
        forall|p: int| 0 <= p < s.len() ==> s[p].0 != v.0,
    ensures
        j <= i ==> allowance_from(s.insert(i, v), j, k) == if k == v.0 {
            v.1
        } else {
            allowance_from(s, j, k)
        },
        j > i ==> allowance_from(s.insert(i, v), j, k) == allowance_from(s, j - 1, k),
    decreases s.len() + 1 - j,
{
    s.insert_ensures(i, v);
    if j <= s.len() {
        lemma_allowance_from_insert(s, j + 1, i, v, k);
    }
}

/// The allowance table, entries sorted by strictly ascending (owner,
/// spender) key.
#[derive(Debug)]
pub struct Allowances {
    entries: Vec<AllowEntry>,
}

impl Allowances {
    /// The sequence of entries, in ascending key order.
    pub closed spec fn view(&self) -> Seq<AllowEntry> {
        self.entries@
    }

    /// Well-formed: keys strictly ascend.
    pub open spec fn wf(&self) -> bool {
        pairs_sorted(self@)
    }

    /// The record stored for (owner, spender); absent means no allowance.
    pub open spec fn spec_get(&self, owner: u64, spender: u64) -> AllowanceVal {
        allowance_of(self@, (owner, spender))
    }

    /// An empty table.
    pub fn new() -> (r: Allowances)
        ensures
            r@ =~= Seq::<AllowEntry>::empty(),
            r.wf(),
    {
        Allowances { entries: Vec::new() }
    }

    /// Number of entries.
    pub fn len(&self) -> (r: usize)
        ensures
            r == self@.len(),
    {
        self.entries.len()
    }

    /// The entry at position `i`, in ascending key order.
    pub fn entry_at(&self, i: usize) -> (r: AllowEntry)
        requires
            i < self@.len(),
        ensures
            r == self@[i as int],
    {
        self.entries[i]
    }

    /// Position of the first key at or above `k` in lexicographic order.
    fn lower_bound(&self, k: (u64, u64)) -> (i: usize)
        requires
            self.wf(),
        ensures
            i <= self@.len(),
            forall|p: int| 0 <= p < i ==> pair_lt(self@[p].0, k),
            forall|p: int| i <= p < self@.len() ==> !pair_lt(self@[p].0, k),
    {
        let n = self.entries.len();
        let mut i: usize = 0;
        while i < n
            invariant
                self.wf(),
                n == self@.len(),
                i <= n,
                forall|p: int| 0 <= p < i ==> pair_lt(self@[p].0, k),
            decreases n - i,
        {
            let e = self.entries[i].0;
            if !(e.0 < k.0 || (e.0 == k.0 && e.1 < k.1)) {
                assert(forall|p: int|
                    i < p < self@.len() ==> pair_lt(self@[i as int].0, self@[p].0));
                return i;
            }
            i = i + 1;
        }
        n
    }

    /// The record stored for (owner, spender); absent means no allowance.
    pub fn get(&self, owner: u64, spender: u64) -> (r: AllowanceVal)
        requires
            self.wf(),
        ensures
            r == self.spec_get(owner, spender),
    {
        let k = (owner, spender);
        let i = self.lower_bound(k);
        let n = self.entries.len();
        if i < n && self.entries[i].0.0 == k.0 && self.entries[i].0.1 == k.1 {
            proof {
                lemma_allowance_at_key(self@, 0, i as int, k);
            }
            self.entries[i].1
        } else {
            proof {
                assert(forall|p: int| 0 <= p < self@.len() ==> self@[p].0 != k);
                lemma_allowance_absent(self@, 0, k);
            }
            AllowanceVal { amount: 0, expires: Expiration::Never }
        }
    }

    /// Store `v` for (owner, spender), replacing any previous record.
    #[verifier::rlimit(50)]
    pub fn set(&mut self, owner: u64, spender: u64, v: AllowanceVal)
        requires
            old(self).wf(),
        ensures
            final(self).wf(),
            forall|o: u64, s: u64|
                final(self).spec_get(o, s) == if o == owner && s == spender {
                    v
                } else {
                    old(self).spec_get(o, s)
                },
    {
        let k = (owner, spender);
        let i = self.lower_bound(k);
        let n = self.entries.len();
        if i < n && self.entries[i].0.0 == k.0 && self.entries[i].0.1 == k.1 {
            let ghost s0 = self@;
            self.entries[i] = (k, v);
            proof {
                assert(self@ == s0.update(i as int, (k, v)));
                assert forall|o: u64, s: u64|
                    allowance_of(self@, (o, s)) == if o == owner && s == spender {
                        v
                    } else {
                        allowance_of(s0, (o, s))
                    } by {
                    lemma_allowance_from_update(s0, 0, i as int, (k, v), (o, s));
                }
                assert(pairs_sorted(self@));
            }
        } else {
            proof {
                assert(forall|p: int| 0 <= p < self@.len() ==> self@[p].0 != k);
            }
            let ghost s0 = self@;
            self.entries.insert(i, (k, v));
            proof {
                s0.insert_ensures(i as int, (k, v));
                assert forall|o: u64, s: u64|
                    allowance_of(self@, (o, s)) == if o == owner && s == spender {
                        v
                    } else {
                        allowance_of(s0, (o, s))
                    } by {
                    lemma_allowance_from_insert(s0, 0, i as int, (k, v), (o, s));
                }
                assert forall|p: int, q: int|
                    0 <= p < q < self@.len() implies pair_lt(self@[p].0, self@[q].0) by {
                    if q < i {
                        assert(self@[p] == s0[p] && self@[q] == s0[q]);
                    } else if p > i {
                        assert(self@[p] == s0[p - 1] && self@[q] == s0[q - 1]);
                    } else if p < i && q == i {
                        assert(self@[p] == s0[p]);
                    } else if p < i && q > i {
                        assert(self@[p] == s0[p] && self@[q] == s0[q - 1]);
                    } else if p == i && q > i {
                        assert(self@[q] == s0[q - 1]);
                    }
                }
            }
        }
    }
}

/// The exact contract of `execute_increase_allowance`.
pub open spec fn increase_allowance_post(
    pre: Contract,
    post: Contract,
    r: Result<Response, ContractError>,
    owner: u64,
    spender: u64,
    amount: u128,
    expires: Option<Expiration>,
) -> bool {
    let v = pre.allowances.spec_get(owner, spender);
    &&& r is Ok
    &&& post.allowances.spec_get(owner, spender) == (AllowanceVal {
        amount: (v.amount + amount) as u128,
        expires: match expires {
            Some(e) => e,
            None => v.expires,
        },
    })
    &&& (forall|o: u64, s: u64|
        !(o == owner && s == spender) ==> post.allowances.spec_get(o, s)
            == pre.allowances.spec_get(o, s))
    &&& post.balances@ == pre.balances@
    &&& post.token == pre.token
    &&& post.ico == pre.ico
    &&& post.investors@ == pre.investors@
    &&& post.new_token_balances@ == pre.new_token_balances@
    &&& (r matches Ok(resp) ==> {
        &&& resp.attributes@ == seq![
            Attribute::Action(ActionKind::IncreaseAllowance),
            Attribute::Owner(owner),
            Attribute::Spender(spender),
            Attribute::Amount(amount),
        ]
        &&& resp.messages@.len() == 0
    })
}

/// Raise the spending limit the sender grants `spender` by `amount`, and
/// replace the expiry when a new one is given — an expiry is only ever
/// replaced whole, never merged.  The stored remainder is bounded only by
/// its counter width, which the caller must stay within.
pub fn execute_increase_allowance(
    c: &mut Contract,
    sender: u64,
    spender: u64,
    amount: u128,
    expires: Option<Expiration>,
) -> (r: Result<Response, ContractError>)
    requires
        old(c).wf(),
        old(c).allowances.spec_get(sender, spender).amount + amount <= u128::MAX,
    ensures
        final(c).wf(),
        increase_allowance_post(*old(c), *final(c), r, sender, spender, amount, expires),
{
    let v = c.allowances.get(sender, spender);
    let new_expires = match expires {
        Some(e) => e,
        None => v.expires,
    };
    c.allowances.set(
        sender,
        spender,
        AllowanceVal { amount: v.amount + amount, expires: new_expires },
    );
    let mut attrs: Vec<Attribute> = Vec::new();
    attrs.push(Attribute::Action(ActionKind::IncreaseAllowance));
    attrs.push(Attribute::Owner(sender));
    attrs.push(Attribute::Spender(spender));
    attrs.push(Attribute::Amount(amount));
    proof {
        assert(attrs@ =~= seq![
            Attribute::Action(ActionKind::IncreaseAllowance),
            Attribute::Owner(sender),
            Attribute::Spender(spender),
            Attribute::Amount(amount),
        ]);
    }
    Ok(Response { messages: Vec::new(), attributes: attrs })
}

/// The exact contract of `execute_decrease_allowance`.
pub open spec fn decrease_allowance_post(
    pre: Contract,
    post: Contract,
    r: Result<Response, ContractError>,
    owner: u64,
    spender: u64,
    amount: u128,
    expires: Option<Expiration>,
) -> bool {
    let v = pre.allowances.spec_get(owner, spender);
    &&& (v.amount < amount ==> r == Err::<Response, ContractError>(ContractError::Underflow)
        && crate::state::same_state(post, pre))
    &&& (r is Ok <==> v.amount >= amount)
    &&& (r matches Ok(resp) ==> {
        &&& post.allowances.spec_get(owner, spender) == (AllowanceVal {
            amount: (v.amount - amount) as u128,
            expires: match expires {
                Some(e) => e,
                None => v.expires,
            },
        })
        &&& (forall|o: u64, s: u64|
            !(o == owner && s == spender) ==> post.allowances.spec_get(o, s)
                == pre.allowances.spec_get(o, s))
        &&& post.balances@ == pre.balances@
        &&& post.token == pre.token
        &&& post.ico == pre.ico
        &&& post.investors@ == pre.investors@
        &&& post.new_token_balances@ == pre.new_token_balances@
        &&& resp.attributes@ == seq![
            Attribute::Action(ActionKind::DecreaseAllowance),
            Attribute::Owner(owner),
            Attribute::Spender(spender),
            Attribute::Amount(amount),
        ]
        &&& resp.messages@.len() == 0
    })
}

/// Lower the spending limit the sender grants `spender` by `amount`, and
/// replace the expiry when a new one is given.
///
/// Decreasing below zero fails with `Underflow` and changes nothing: the
/// strict policy, chosen to match the strict underflow rule used everywhere
/// else in this core rather than clamping at zero.
pub fn execute_decrease_allowance(
    c: &mut Contract,
    sender: u64,
    spender: u64,
    amount: u128,
    expires: Option<Expiration>,
) -> (r: Result<Response, ContractError>)
    requires
        old(c).wf(),
    ensures
        final(c).wf(),
        decrease_allowance_post(*old(c), *final(c), r, sender, spender, amount, expires),
{
    let v = c.allowances.get(sender, spender);
    if v.amount < amount {
        return Err(ContractError::Underflow);
    }
    let new_expires = match expires {
        Some(e) => e,
        None => v.expires,
    };
    c.allowances.set(
        sender,
        spender,
        AllowanceVal { amount: v.amount - amount, expires: new_expires },
    );
    let mut attrs: Vec<Attribute> = Vec::new();
    attrs.push(Attribute::Action(ActionKind::DecreaseAllowance));
    attrs.push(Attribute::Owner(sender));
    attrs.push(Attribute::Spender(spender));
    attrs.push(Attribute::Amount(amount));
    proof {
        assert(attrs@ =~= seq![
            Attribute::Action(ActionKind::DecreaseAllowance),
            Attribute::Owner(sender),
            Attribute::Spender(spender),
            Attribute::Amount(amount),
        ]);
    }
    Ok(Response { messages: Vec::new(), attributes: attrs })
}

/// Whether (owner, spender) carries an unexpired allowance of at least
/// `amount` in the given environment.  An expired allowance behaves as
/// zero.
pub open spec fn allowance_ok(
    pre: Contract,
    owner: u64,
    spender: u64,
    env: Env,
    amount: u128,
) -> bool {
    let v = pre.allowances.spec_get(owner, spender);
    &&& !v.expires.spec_is_expired(env)
    &&& v.amount >= amount
}

/// The allowance table after (owner, spender) spent `amount`: that pair's
/// remainder drops by `amount`, its expiry and every other pair stand.
pub open spec fn allowance_spent(
    pre: Contract,
    post: Contract,
    owner: u64,
    spender: u64,
    amount: u128,
) -> bool {
    let v = pre.allowances.spec_get(owner, spender);
    &&& post.allowances.spec_get(owner, spender) == (AllowanceVal {
        amount: (v.amount - amount) as u128,
        expires: v.expires,
    })
    &&& (forall|o: u64, s: u64|
        !(o == owner && s == spender) ==> post.allowances.spec_get(o, s)
            == pre.allowances.spec_get(o, s))
}

/// The exact contract of `execute_transfer_from`.
pub open spec fn transfer_from_post(
    pre: Contract,
    post: Contract,
    r: Result<Response, ContractError>,
    env: Env,
    spender: u64,
    owner: u64,
    recipient: u64,
    amount: u128,
) -> bool {
    &&& (amount == 0 ==> r == Err::<Response, ContractError>(ContractError::InvalidZeroAmount)
        && crate::state::same_state(post, pre))
    &&& (amount > 0 && !allowance_ok(pre, owner, spender, env, amount) ==> r == Err::<
        Response,
        ContractError,
    >(ContractError::Unauthorized) && crate::state::same_state(post, pre))
    &&& (amount > 0 && allowance_ok(pre, owner, spender, env, amount) && pre.balances.spec_get(
        owner,
    ) < amount ==> r == Err::<Response, ContractError>(ContractError::Underflow)
        && crate::state::same_state(post, pre))
    &&& (r is Ok <==> amount > 0 && allowance_ok(pre, owner, spender, env, amount)
        && pre.balances.spec_get(owner) >= amount)
    &&& (r matches Ok(resp) ==> {
        &&& forall|b: u64|
            post.balances.spec_get(b) == crate::contract::moved_balance(
                pre.balances@,
                owner,
                recipient,
                amount,
                b,
            )
        &&& post.balances.spec_total() == pre.balances.spec_total()
        &&& allowance_spent(pre, post, owner, spender, amount)
        &&& post.token == pre.token
        &&& post.ico == pre.ico
        &&& post.investors@ == pre.investors@
        &&& post.new_token_balances@ == pre.new_token_balances@
        &&& resp.attributes@ == seq![
            Attribute::Action(ActionKind::TransferFrom),
            Attribute::Owner(owner),
            Attribute::Recipient(recipient),
            Attribute::By(spender),
            Attribute::Amount(amount),
        ]
        &&& resp.messages@.len() == 0
    })
}

/// Move `amount` from the owner's balance to the recipient's, on the
/// strength of the allowance the owner granted the calling spender; the
/// allowance's remainder drops by the amount moved.
///
/// Rejects a zero amount; an expired or insufficient allowance fails with
/// `Unauthorized`, an owner balance below `amount` with `Underflow` — in
/// either case nothing changes.
pub fn execute_transfer_from(
    c: &mut Contract,
    env: &Env,
    spender: u64,
    owner: u64,
    recipient: u64,
    amount: u128,
) -> (r: Result<Response, ContractError>)
    requires
        old(c).wf(),
    ensures
        final(c).wf(),
        transfer_from_post(*old(c), *final(c), r, *env, spender, owner, recipient, amount),
{
    if amount == 0 {
        return Err(ContractError::InvalidZeroAmount);
    }
    let v = c.allowances.get(owner, spender);
    if v.expires.is_expired(env) || v.amount < amount {
        return Err(ContractError::Unauthorized);
    }
    let ok = c.balances.debit(owner, amount);
    if !ok {
        return Err(ContractError::Underflow);
    }
    proof {
        crate::ledger::lemma_amount_le_total(c.balances@, 0, recipient);
    }
    c.balances.credit(recipient, amount);
    c.allowances.set(owner, spender, AllowanceVal { amount: v.amount - amount, expires: v.expires });
    let mut attrs: Vec<Attribute> = Vec::new();
    attrs.push(Attribute::Action(ActionKind::TransferFrom));
    attrs.push(Attribute::Owner(owner));
    attrs.push(Attribute::Recipient(recipient));
    attrs.push(Attribute::By(spender));
    attrs.push(Attribute::Amount(amount));
    proof {
        assert(attrs@ =~= seq![
            Attribute::Action(ActionKind::TransferFrom),
            Attribute::Owner(owner),
            Attribute::Recipient(recipient),
            Attribute::By(spender),
            Attribute::Amount(amount),
        ]);
    }
    Ok(Response { messages: Vec::new(), attributes: attrs })
}

/// The exact contract of `execute_burn_from`.
pub open spec fn burn_from_post(
    pre: Contract,
    post: Contract,
    r: Result<Response, ContractError>,
    env: Env,
    spender: u64,
    owner: u64,
    amount: u128,
) -> bool {
    &&& (amount == 0 ==> r == Err::<Response, ContractError>(ContractError::InvalidZeroAmount)
        && crate::state::same_state(post, pre))
    &&& (amount > 0 && !allowance_ok(pre, owner, spender, env, amount) ==> r == Err::<
        Response,
        ContractError,
    >(ContractError::Unauthorized) && crate::state::same_state(post, pre))
    &&& (amount > 0 && allowance_ok(pre, owner, spender, env, amount) && pre.balances.spec_get(
        owner,
    ) < amount ==> r == Err::<Response, ContractError>(ContractError::Underflow)
        && crate::state::same_state(post, pre))
    &&& (r is Ok <==> amount > 0 && allowance_ok(pre, owner, spender, env, amount)
        && pre.balances.spec_get(owner) >= amount)
    &&& (r matches Ok(resp) ==> {
        &&& forall|b: u64|
            post.balances.spec_get(b) == pre.balances.spec_get(b) - (if b == owner {
                amount as int
            } else {
                0
            })
        &&& post.balances.spec_total() == pre.balances.spec_total() - amount
        &&& post.token == (crate::state::TokenInfo {
            total_supply: (pre.token.total_supply - amount) as u128,
            ..pre.token
        })
        &&& allowance_spent(pre, post, owner, spender, amount)
        &&& post.ico == pre.ico
        &&& post.investors@ == pre.investors@
        &&& post.new_token_balances@ == pre.new_token_balances@
        &&& resp.attributes@ == seq![
            Attribute::Action(ActionKind::BurnFrom),
            Attribute::Owner(owner),
            Attribute::By(spender),
            Attribute::Amount(amount),
        ]
        &&& resp.messages@.len() == 0
    })
}

/// Destroy `amount` from the owner's balance on the strength of the
/// calling spender's allowance, lowering the total supply and the
/// allowance's remainder by exactly that much.
pub fn execute_burn_from(
    c: &mut Contract,
    env: &Env,
    spender: u64,
    owner: u64,
    amount: u128,
) -> (r: Result<Response, ContractError>)
    requires
        old(c).wf(),
    ensures
        final(c).wf(),
        burn_from_post(*old(c), *final(c), r, *env, spender, owner, amount),
{
    if amount == 0 {
        return Err(ContractError::InvalidZeroAmount);
    }
    let v = c.allowances.get(owner, spender);
    if v.expires.is_expired(env) || v.amount < amount {
        return Err(ContractError::Unauthorized);
    }
    let ok = c.balances.debit(owner, amount);
    if !ok {
        return Err(ContractError::Underflow);
    }
    proof {
        crate::ledger::lemma_total_from_nonneg(c.balances@, 0);
    }
    c.token.total_supply = c.token.total_supply - amount;
    c.allowances.set(owner, spender, AllowanceVal { amount: v.amount - amount, expires: v.expires });
    let mut attrs: Vec<Attribute> = Vec::new();
    attrs.push(Attribute::Action(ActionKind::BurnFrom));
    attrs.push(Attribute::Owner(owner));
    attrs.push(Attribute::By(spender));
    attrs.push(Attribute::Amount(amount));
    proof {
        assert(attrs@ =~= seq![
            Attribute::Action(ActionKind::BurnFrom),
            Attribute::Owner(owner),
            Attribute::By(spender),
            Attribute::Amount(amount),
        ]);
    }
    Ok(Response { messages: Vec::new(), attributes: attrs })
}

/// The exact contract of `execute_send_from`.
pub open spec fn send_from_post(
    pre: Contract,
    post: Contract,
    r: Result<Response, ContractError>,
    env: Env,
    spender: u64,
    owner: u64,
    contract: u64,
    amount: u128,
    msg: Option<Vec<u8>>,
) -> bool {
    &&& (amount == 0 ==> r == Err::<Response, ContractError>(ContractError::InvalidZeroAmount)
        && crate::state::same_state(post, pre))
    &&& (amount > 0 && !allowance_ok(pre, owner, spender, env, amount) ==> r == Err::<
        Response,
        ContractError,
    >(ContractError::Unauthorized) && crate::state::same_state(post, pre))
    &&& (amount > 0 && allowance_ok(pre, owner, spender, env, amount) && pre.balances.spec_get(
        owner,
    ) < amount ==> r == Err::<Response, ContractError>(ContractError::Underflow)
        && crate::state::same_state(post, pre))
    &&& (r is Ok <==> amount > 0 && allowance_ok(pre, owner, spender, env, amount)
        && pre.balances.spec_get(owner) >= amount)
    &&& (r matches Ok(resp) ==> {
        &&& forall|b: u64|
            post.balances.spec_get(b) == crate::contract::moved_balance(
                pre.balances@,
                owner,
                contract,
                amount,
                b,
            )
        &&& post.balances.spec_total() == pre.balances.spec_total()
        &&& allowance_spent(pre, post, owner, spender, amount)
        &&& post.token == pre.token
        &&& post.ico == pre.ico
        &&& post.investors@ == pre.investors@
        &&& post.new_token_balances@ == pre.new_token_balances@
        &&& resp.attributes@ == seq![
            Attribute::Action(ActionKind::SendFrom),
            Attribute::Owner(owner),
            Attribute::Recipient(contract),
            Attribute::By(spender),
            Attribute::Amount(amount),
        ]
        &&& resp.messages@.len() == 1
        &&& resp.messages@[0].contract == contract
        &&& resp.messages@[0].sender == spender
        &&& resp.messages@[0].amount == amount
        &&& resp.messages@[0].msg == msg
    })
}

/// Move `amount` from the owner's balance to the target contract's on the
/// strength of the calling spender's allowance, and queue one notification
/// naming the spender as sender.
pub fn execute_send_from(
    c: &mut Contract,
    env: &Env,
    spender: u64,
    owner: u64,
    contract: u64,
    amount: u128,
    msg: Option<Vec<u8>>,
) -> (r: Result<Response, ContractError>)
    requires
        old(c).wf(),
    ensures
        final(c).wf(),
        send_from_post(*old(c), *final(c), r, *env, spender, owner, contract, amount, msg),
{
    if amount == 0 {
        return Err(ContractError::InvalidZeroAmount);
    }
    let v = c.allowances.get(owner, spender);
    if v.expires.is_expired(env) || v.amount < amount {
        return Err(ContractError::Unauthorized);
    }
    let ok = c.balances.debit(owner, amount);
    if !ok {
        return Err(ContractError::Underflow);
    }
    proof {
        crate::ledger::lemma_amount_le_total(c.balances@, 0, contract);
    }
    c.balances.credit(contract, amount);
    c.allowances.set(owner, spender, AllowanceVal { amount: v.amount - amount, expires: v.expires });
    let mut attrs: Vec<Attribute> = Vec::new();
    attrs.push(Attribute::Action(ActionKind::SendFrom));
    attrs.push(Attribute::Owner(owner));
    attrs.push(Attribute::Recipient(contract));
    attrs.push(Attribute::By(spender));
    attrs.push(Attribute::Amount(amount));
    proof {
        assert(attrs@ =~= seq![
            Attribute::Action(ActionKind::SendFrom),
            Attribute::Owner(owner),
            Attribute::Recipient(contract),
            Attribute::By(spender),
            Attribute::Amount(amount),
        ]);
    }
    let mut messages: Vec<crate::msg::ReceiveNotice> = Vec::new();
    messages.push(crate::msg::ReceiveNotice { contract, sender: spender, amount, msg });
    Ok(Response { messages, attributes: attrs })
}

} // verus!
