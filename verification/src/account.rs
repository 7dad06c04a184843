use vstd::prelude::*;

use crate::errors::AstrolendError;
use crate::fixed_point::Fx;

verus! {

/// The account may perform no operation at all.
pub const DISABLED_FLAG: u64 = 1;

/// Set between a matched flash-loan begin/end pair and nowhere else.
pub const IN_FLASHLOAN_FLAG: u64 = 2;

/// Deprecated: flash loans no longer require it; kept because the admin may
/// still configure it.
pub const FLASHLOAN_ENABLED_FLAG: u64 = 4;

/// The authority of the account may be rotated.
pub const TRANSFER_AUTHORITY_ALLOWED_FLAG: u64 = 8;

/// The only flags the group admin may set or unset directly.
pub const CONFIGURABLE_FLAGS: u64 = FLASHLOAN_ENABLED_FLAG + TRANSFER_AUTHORITY_ALLOWED_FLAG;

/// Fixed capacity of the per-account balance table.
pub const MAX_BALANCE_COUNT: usize = 16;

/// One per-bank position of a user: a claim in asset shares or a debt in
/// liability shares, never both at once.
#[derive(Clone, Copy, Debug, PartialEq, Eq, Structural)]
pub struct BalanceSlot {
    pub active: bool,
    pub bank_key: u64,
    pub asset_shares: Fx,
    pub liability_shares: Fx,
    pub emissions_outstanding: Fx,
    pub last_update: u64,
}

impl BalanceSlot {
    /// Share counts are non-negative, an inactive slot is empty, and an
    /// active slot is purely a deposit or purely a borrow.
    pub open spec fn wf(self) -> bool {
        &&& self.asset_shares.raw >= 0
        &&& self.liability_shares.raw >= 0
        &&& self.emissions_outstanding.raw >= 0
        &&& !self.active ==> self.asset_shares.raw == 0 && self.liability_shares.raw == 0
            && self.emissions_outstanding.raw == 0
        &&& self.active ==> self.asset_shares.raw == 0 || self.liability_shares.raw == 0
    }

    /// The empty, inactive slot.
    pub fn empty() -> (r: BalanceSlot)
        ensures
            r == BalanceSlot::empty_spec(),
    {
        BalanceSlot {
            active: false,
            bank_key: 0,
            asset_shares: Fx { raw: 0 },
            liability_shares: Fx { raw: 0 },
            emissions_outstanding: Fx { raw: 0 },
            last_update: 0,
        }
    }

    pub open spec fn empty_spec() -> BalanceSlot {
        BalanceSlot {
            active: false,
            bank_key: 0,
            asset_shares: Fx { raw: 0 },
            liability_shares: Fx { raw: 0 },
            emissions_outstanding: Fx { raw: 0 },
            last_update: 0,
        }
    }
}

/// Contribution of one slot to the account's asset-share total for a bank.
pub open spec fn slot_asset_contrib(slot: BalanceSlot, bank_key: u64) -> int {
    if slot.active && slot.bank_key == bank_key {
        slot.asset_shares.raw as int
    } else {
        0
    }
}

/// Contribution of one slot to the account's liability-share total for a
/// bank.
pub open spec fn slot_liability_contrib(slot: BalanceSlot, bank_key: u64) -> int {
    if slot.active && slot.bank_key == bank_key {
        slot.liability_shares.raw as int
    } else {
        0
    }
}

/// Raw asset shares an account holds against the bank identified by
/// `bank_key`, summed over the balance table.
pub open spec fn asset_shares_in(balances: Seq<BalanceSlot>, bank_key: u64) -> int
    decreases balances.len(),
{
    if balances.len() == 0 {
        0
    } else {
        asset_shares_in(balances.drop_last(), bank_key) + if balances.last().active
            && balances.last().bank_key == bank_key {
            balances.last().asset_shares.raw as int
        } else {
            0
        }
    }
}

/// Raw liability shares an account holds against the bank identified by
/// `bank_key`, summed over the balance table.
pub open spec fn liability_shares_in(balances: Seq<BalanceSlot>, bank_key: u64) -> int
    decreases balances.len(),
{
    if balances.len() == 0 {
        0
    } else {
        liability_shares_in(balances.drop_last(), bank_key) + if balances.last().active
            && balances.last().bank_key == bank_key {
            balances.last().liability_shares.raw as int
        } else {
            0
        }
    }
}

/// A user's account: its authority, its flags and its fixed-capacity table
/// of per-bank positions.
#[derive(Clone, Debug)]
pub struct LendingAccount {
    pub group: u64,
    pub authority: u64,
    pub balances: Vec<BalanceSlot>,
    pub account_flags: u64,
}

impl LendingAccount {
    /// The table has its fixed capacity, every slot is well formed, and no
    /// bank appears in two active slots.
    pub open spec fn wf(self) -> bool {
        &&& self.balances.len() == MAX_BALANCE_COUNT
        &&& forall|i: int| 0 <= i < self.balances.len() ==> (#[trigger] self.balances[i]).wf()
        &&& forall|i: int, j: int|
            0 <= i < self.balances.len() && 0 <= j < self.balances.len() && i != j
                && (#[trigger] self.balances[i]).active && (#[trigger] self.balances[j]).active
                ==> self.balances[i].bank_key != self.balances[j].bank_key
    }

    /// A fresh account bound to a group and an authority, with an empty
    /// balance table and no flags.
    pub fn initialize(group: u64, authority: u64) -> (r: LendingAccount)
        ensures
            r.wf(),
            r.group == group,
            r.authority == authority,
            r.account_flags == 0,
            forall|i: int| 0 <= i < r.balances.len() ==> r.balances[i] == BalanceSlot::empty_spec(),
            r.balances.len() == MAX_BALANCE_COUNT,
    {
        let mut balances: Vec<BalanceSlot> = Vec::new();
        let mut i: usize = 0;
        while i < MAX_BALANCE_COUNT
            invariant
                i <= MAX_BALANCE_COUNT,
                balances.len() == i,
                forall|j: int| 0 <= j < i ==> balances[j] == BalanceSlot::empty_spec(),
            decreases MAX_BALANCE_COUNT - i,
        {
            balances.push(BalanceSlot::empty());
            i += 1;
        }
        LendingAccount { group, authority, balances, account_flags: 0 }
    }

    pub fn get_flag(&self, flag: u64) -> (r: bool)
        ensures
            r == (self.account_flags & flag != 0),
    {
        self.account_flags & flag != 0
    }

    pub fn set_flag(&mut self, flag: u64)
        ensures
            final(self).account_flags == old(self).account_flags | flag,
            final(self).group == old(self).group,
            final(self).authority == old(self).authority,
            final(self).balances == old(self).balances,
    {
        self.account_flags = self.account_flags | flag;
    }

    pub fn unset_flag(&mut self, flag: u64)
        ensures
            final(self).account_flags == old(self).account_flags & !flag,
            final(self).group == old(self).group,
            final(self).authority == old(self).authority,
            final(self).balances == old(self).balances,
    {
        self.account_flags = self.account_flags & !flag;
    }

    /// An account may be closed only when it carries no flag and every slot
    /// is inactive.
    pub fn can_be_closed(&self) -> (r: bool)
        ensures
            r == (self.account_flags == 0 && forall|i: int|
                0 <= i < self.balances.len() ==> !(#[trigger] self.balances[i]).active),
    {
        if self.account_flags != 0 {
            return false;
        }
        let mut i: usize = 0;
        while i < self.balances.len()
            invariant
                i <= self.balances.len(),
                forall|j: int| 0 <= j < i ==> !(#[trigger] self.balances[j]).active,
            decreases self.balances.len() - i,
        {
            if self.balances[i].active {
                return false;
            }
            i += 1;
        }
        true
    }

    /// Rotates the authority; allowed only when the transfer flag is set.
    pub fn set_new_account_authority_checked(&mut self, new_authority: u64) -> (r: Result<
        (),
        AstrolendError,
    >)
        ensures
            old(self).account_flags & TRANSFER_AUTHORITY_ALLOWED_FLAG != 0 ==> (r is Ok
                && *final(self) == (LendingAccount { authority: new_authority, ..*old(self) })),
            old(self).account_flags & TRANSFER_AUTHORITY_ALLOWED_FLAG == 0 ==> (r
                == Result::<(), AstrolendError>::Err(AstrolendError::IllegalAction)
                && *final(self) == *old(self)),
    {
        if self.get_flag(TRANSFER_AUTHORITY_ALLOWED_FLAG) {
            self.authority = new_authority;
            Ok(())
        } else {
            Err(AstrolendError::IllegalAction)
        }
    }

    /// Index of the active slot bound to `bank_key`, if any.
    pub fn find_balance_index(&self, bank_key: u64) -> (r: Option<usize>)
        ensures
            r matches Some(i) ==> i < self.balances.len() && self.balances[i as int].active
                && self.balances[i as int].bank_key == bank_key,
            r is None ==> forall|i: int|
                0 <= i < self.balances.len() ==> !((#[trigger] self.balances[i]).active
                    && self.balances[i].bank_key == bank_key),
    {
        let mut i: usize = 0;
        while i < self.balances.len()
            invariant
                i <= self.balances.len(),
                forall|j: int| 0 <= j < i ==> !((#[trigger] self.balances[j]).active
                    && self.balances[j].bank_key == bank_key),
            decreases self.balances.len() - i,
        {
            if self.balances[i].active && self.balances[i].bank_key == bank_key {
                return Some(i);
            }
            i += 1;
        }
        None
    }

    /// Whether the table still has an inactive slot to allocate.
    pub fn has_free_slot(&self) -> (r: bool)
        ensures
            r == self.spec_has_free_slot(),
    {
        let mut i: usize = 0;
        while i < self.balances.len()
            invariant
                i <= self.balances.len(),
                forall|j: int| 0 <= j < i ==> (#[trigger] self.balances[j]).active,
            decreases self.balances.len() - i,
        {
            if !self.balances[i].active {
                return true;
            }
            i += 1;
        }
        false
    }

    /// Index of the active slot bound to `bank_key`, activating the first
    /// free slot when the bank has none yet; fails only when the table is
    /// full.
    pub fn find_or_create_balance_index(&mut self, bank_key: u64) -> (r: Result<
        usize,
        AstrolendError,
    >)
        requires
            old(self).wf(),
        ensures
            final(self).wf(),
            final(self).group == old(self).group,
            final(self).authority == old(self).authority,
            final(self).account_flags == old(self).account_flags,
            final(self).balances.len() == old(self).balances.len(),
            r matches Ok(i) ==> i < final(self).balances.len()
                && final(self).balances[i as int].active
                && final(self).balances[i as int].bank_key == bank_key
                && (forall|j: int|
                    0 <= j < old(self).balances.len() && j != i ==> final(self).balances[j]
                        == old(self).balances[j])
                && (old(self).balances[i as int].active ==> final(self).balances[i as int]
                    == old(self).balances[i as int])
                && (!old(self).balances[i as int].active ==> final(self).balances[i as int]
                    == BalanceSlot { active: true, bank_key, ..BalanceSlot::empty_spec() }),
            r is Err ==> *final(self) == *old(self) && r == Result::<usize, AstrolendError>::Err(
                AstrolendError::LendingAccountFull,
            ),
            r is Err <==> !old(self).spec_has_active_slot(bank_key) && !old(
                self,
            ).spec_has_free_slot(),
            r matches Ok(i) ==> (old(self).spec_has_active_slot(bank_key) <==> old(
                self,
            ).balances[i as int].active),
            r matches Ok(i) ==> i as int == spec_op_slot_index(*old(self), bank_key),
    {
        match self.find_balance_index(bank_key) {
            Some(i) => {
                proof {
                    lemma_active_slot_index_unique(*self, bank_key, i as int);
                }
                Ok(i)
            },
            None => {
                let mut i: usize = 0;
                while i < self.balances.len()
                    invariant
                        i <= self.balances.len(),
                        old(self).wf(),
                        *self == *old(self),
                        forall|j: int| 0 <= j < i ==> (#[trigger] self.balances[j]).active,
                        forall|j: int| 0 <= j < self.balances.len() ==> !((
                        #[trigger] self.balances[j]).active && self.balances[j].bank_key
                            == bank_key),
                    decreases self.balances.len() - i,
                {
                    if !self.balances[i].active {
                        proof {
                            lemma_first_inactive_found(self.balances@, 0, i as int);
                        }
                        let slot = BalanceSlot {
                            active: true,
                            bank_key,
                            asset_shares: Fx { raw: 0 },
                            liability_shares: Fx { raw: 0 },
                            emissions_outstanding: Fx { raw: 0 },
                            last_update: 0,
                        };
                        self.balances.set(i, slot);
                        proof {
                            assert(self.balances@ == old(self).balances@.update(
                                i as int,
                                slot,
                            ));
                            let nb = self.balances@;
                            assert forall|j: int|
                                0 <= j < nb.len() implies (#[trigger] nb[j]).wf() by {
                                if j != i {
                                    assert(nb[j] == old(self).balances@[j]);
                                }
                            }
                            assert forall|j: int, k: int|
                                0 <= j < nb.len() && 0 <= k < nb.len() && j != k
                                    && (#[trigger] nb[j]).active && (#[trigger] nb[k]).active
                                    implies nb[j].bank_key != nb[k].bank_key by {
                                if j != i && k != i {
                                    assert(nb[j] == old(self).balances@[j]);
                                    assert(nb[k] == old(self).balances@[k]);
                                } else if j == i {
                                    assert(nb[k] == old(self).balances@[k]);
                                } else {
                                    assert(nb[j] == old(self).balances@[j]);
                                }
                            }
                        }
                        return Ok(i);
                    }
                    i += 1;
                }
                Err(AstrolendError::LendingAccountFull)
            },
        }
    }
}

/// Index of the first inactive slot at or after `i`, or the table length
/// when every remaining slot is active.
pub open spec fn spec_first_inactive_from(s: Seq<BalanceSlot>, i: int) -> int
    decreases s.len() - i,
{
    if i < 0 || i >= s.len() {
        s.len() as int
    } else if !s[i].active {
        i
    } else {
        spec_first_inactive_from(s, i + 1)
    }
}

/// The slot an operation on `bank_key` works in: the unique active slot,
/// or the first free slot when none is active yet.
pub open spec fn spec_op_slot_index(a: LendingAccount, bank_key: u64) -> int {
    if a.spec_has_active_slot(bank_key) {
        a.spec_active_slot_index(bank_key)
    } else {
        spec_first_inactive_from(a.balances@, 0)
    }
}

/// A scan that passed only active slots and stopped on an inactive one
/// found the first inactive index.
pub proof fn lemma_first_inactive_found(s: Seq<BalanceSlot>, k: int, i: int)
    requires
        0 <= k <= i < s.len(),
        !s[i].active,
        forall|j: int| k <= j < i ==> (#[trigger] s[j]).active,
    ensures
        spec_first_inactive_from(s, k) == i,
    decreases i - k,
{
    if k < i {
        lemma_first_inactive_found(s, k + 1, i);
    }
}

/// In a well-formed account the active slot of a bank is unique, so the
/// chosen index is the found one.
pub proof fn lemma_active_slot_index_unique(a: LendingAccount, bank_key: u64, i: int)
    requires
        a.wf(),
        0 <= i < a.balances.len(),
        a.balances[i].active,
        a.balances[i].bank_key == bank_key,
    ensures
        a.spec_active_slot_index(bank_key) == i,
        a.spec_active_slot(bank_key) == a.balances[i],
        a.spec_has_active_slot(bank_key),
{
    assert(a.spec_has_active_slot(bank_key));
    let j = a.spec_active_slot_index(bank_key);
    if j != i {
        assert(a.balances[j].bank_key != a.balances[i].bank_key);
    }
}

/// A table with no active slot for a bank contributes nothing to its sums.
pub proof fn lemma_shares_sum_absent(s: Seq<BalanceSlot>, bank_key: u64)
    requires
        forall|j: int|
            0 <= j < s.len() ==> !((#[trigger] s[j]).active && s[j].bank_key == bank_key),
    ensures
        asset_shares_in(s, bank_key) == 0,
        liability_shares_in(s, bank_key) == 0,
    decreases s.len(),
{
    if s.len() > 0 {
        lemma_shares_sum_absent(s.drop_last(), bank_key);
    }
}

/// In a well-formed account, a bank's share sums are exactly its unique
/// active slot's share counts.
pub proof fn lemma_sum_is_slot(a: LendingAccount, bank_key: u64, i: int)
    requires
        a.wf(),
        0 <= i < a.balances.len(),
        a.balances[i].active,
        a.balances[i].bank_key == bank_key,
    ensures
        asset_shares_in(a.balances@, bank_key) == a.balances[i].asset_shares.raw,
        liability_shares_in(a.balances@, bank_key) == a.balances[i].liability_shares.raw,
{
    let s = a.balances@;
    let empty = BalanceSlot::empty_spec();
    assert(s.update(i, empty) =~= s.update(i, empty));
    lemma_shares_sum_update(s, i, empty, bank_key);
    assert forall|j: int|
        0 <= j < s.update(i, empty).len() implies !((#[trigger] s.update(i, empty)[j]).active
        && s.update(i, empty)[j].bank_key == bank_key) by {
        if j != i {
            assert(s.update(i, empty)[j] == s[j]);
            if s[j].active && s[j].bank_key == bank_key {
                assert(a.balances[j].bank_key != a.balances[i].bank_key);
            }
        }
    }
    lemma_shares_sum_absent(s.update(i, empty), bank_key);
}

/// Changing one slot changes the per-bank share sums by exactly the change
/// in that slot's contribution.
pub proof fn lemma_shares_sum_update(s: Seq<BalanceSlot>, i: int, v: BalanceSlot, bank_key: u64)
    requires
        0 <= i < s.len(),
    ensures
        asset_shares_in(s.update(i, v), bank_key) == asset_shares_in(s, bank_key)
            - slot_asset_contrib(s[i], bank_key) + slot_asset_contrib(v, bank_key),
        liability_shares_in(s.update(i, v), bank_key) == liability_shares_in(s, bank_key)
            - slot_liability_contrib(s[i], bank_key) + slot_liability_contrib(v, bank_key),
    decreases s.len(),
{
    let t = s.update(i, v);
    if i == s.len() - 1 {
        assert(t.drop_last() =~= s.drop_last());
        assert(t.last() == v);
    } else {
        assert(t.drop_last() =~= s.drop_last().update(i, v));
        assert(t.last() == s.last());
        lemma_shares_sum_update(s.drop_last(), i, v, bank_key);
    }
}

impl LendingAccount {
    /// Whether some active slot is bound to `bank_key`.
    pub open spec fn spec_has_active_slot(self, bank_key: u64) -> bool {
        exists|i: int|
            0 <= i < self.balances.len() && (#[trigger] self.balances[i]).active
                && self.balances[i].bank_key == bank_key
    }

    /// Whether the table still has an inactive slot to allocate.
    pub open spec fn spec_has_free_slot(self) -> bool {
        exists|i: int| 0 <= i < self.balances.len() && !(#[trigger] self.balances[i]).active
    }

    /// The index of the active slot bound to `bank_key`.
    pub open spec fn spec_active_slot_index(self, bank_key: u64) -> int {
        choose|i: int|
            0 <= i < self.balances.len() && (#[trigger] self.balances[i]).active
                && self.balances[i].bank_key == bank_key
    }

    /// The active slot bound to `bank_key`.
    pub open spec fn spec_active_slot(self, bank_key: u64) -> BalanceSlot {
        self.balances[self.spec_active_slot_index(bank_key)]
    }
}

/// Tells whether a flag word touches only admin-configurable bits.
pub fn flag_can_be_set(flag: u64) -> (r: bool)
    ensures
        r == (flag & !CONFIGURABLE_FLAGS == 0),
{
    flag & !CONFIGURABLE_FLAGS == 0
}

} // verus!
