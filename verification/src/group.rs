use vstd::prelude::*;

use crate::bank::{Bank, BankConfig};

verus! {

/// Configuration root: the admin key and the banks it governs. A bank's
/// key is its position in the table; balance slots refer to banks by that
/// key. Authorization of the admin's signature is the host's concern.
#[derive(Clone, Debug)]
pub struct AstrolendGroup {
    pub key: u64,
    pub admin: u64,
    pub banks: Vec<Bank>,
}

impl AstrolendGroup {
    pub open spec fn wf(self) -> bool {
        &&& forall|k: int| 0 <= k < self.banks.len() ==> (#[trigger] self.banks[k]).wf()
        &&& forall|k: int|
            0 <= k < self.banks.len() ==> (#[trigger] self.banks[k]).key == k as u64
    }

    /// A fresh group under `admin`, with no banks yet. Created once; never
    /// destroyed.
    pub fn initialize(key: u64, admin: u64) -> (r: AstrolendGroup)
        ensures
            r.wf(),
            r.key == key,
            r.admin == admin,
            r.banks.len() == 0,
    {
        AstrolendGroup { key, admin, banks: Vec::new() }
    }

    /// Rotates the admin key; everything else is untouched.
    pub fn configure(&mut self, new_admin: Option<u64>)
        ensures
            final(self).banks == old(self).banks,
            final(self).key == old(self).key,
            new_admin matches Some(a) ==> final(self).admin == a,
            new_admin is None ==> final(self).admin == old(self).admin,
    {
        match new_admin {
            Some(a) => {
                self.admin = a;
            },
            None => (),
        }
    }

    /// Adds a bank for a new asset and returns its key.
    pub fn add_bank(&mut self, mint: u64, mint_decimals: u8, config: BankConfig) -> (r: u64)
        requires
            old(self).wf(),
            config.wf(),
            mint_decimals <= 12,
            old(self).banks.len() < 0xFFFF_FFFF,
        ensures
            final(self).wf(),
            final(self).admin == old(self).admin,
            final(self).key == old(self).key,
            r == old(self).banks.len(),
            final(self).banks.len() == old(self).banks.len() + 1,
            forall|k: int|
                0 <= k < old(self).banks.len() ==> final(self).banks[k] == old(self).banks[k],
            final(self).banks[r as int] == Bank::new_spec(
                r,
                old(self).key,
                mint,
                mint_decimals,
                config,
            ),
    {
        let key = self.banks.len() as u64;
        let bank = Bank::new(key, self.key, mint, mint_decimals, config);
        self.banks.push(bank);
        key
    }
}

} // verus!
