use vstd::prelude::*;

verus! {

/// A guardian that may approve operations on an abstract account.
pub struct Guardian {
    pub id: String,
    pub public_key: Vec<u8>,
    pub permissions: Vec<String>,
    pub added_at: u64,
}

/// Policy of an abstract account.
pub struct AccountConfig {
    pub require_guardian_approval: bool,
    pub guardian_threshold: usize,
    pub max_daily_transactions: u32,
    pub security_level: String,
}

/// An abstract account held by the account service.
pub struct AbstractAccount {
    pub id: String,
    pub address: String,
    pub public_key: Vec<u8>,
    pub guardians: Vec<Guardian>,
    pub created_at: u64,
    pub nonce: u64,
    pub config: AccountConfig,
}

} // verus!
