//! Backup contents, their size, what a restore writes back and the
//! restore report.

use vstd::prelude::*;
use std::collections::HashMap;
use crate::protocol::utc_now_rfc3339;
use crate::text::{chars_of, decimal, decimal_exec, push_str, string_from};

verus! {

/// The current backup format version.
pub const BACKUP_VERSION: u32 = 2;

/// A complete backup.
#[derive(Debug)]
pub struct BackupData {
    pub version: u32,
    /// The creation time, in RFC 3339 form.
    pub created_at: String,
    pub wallet_address: String,
    pub api_keys: Vec<ApiKeyEntry>,
    pub bot_settings: Option<BotSettingsEntry>,
    pub x402_payment_limits: Vec<X402PaymentLimitEntry>,
    pub bot_config: Option<String>,
}

/// An API key.
#[derive(Debug)]
pub struct ApiKeyEntry {
    pub service_name: String,
    pub api_key: String,
}

/// Bot settings.
#[derive(Debug)]
pub struct BotSettingsEntry {
    pub bot_name: String,
    pub bot_email: String,
    pub web3_tx_requires_confirmation: bool,
    pub rpc_provider: String,
    pub custom_rpc_endpoints: Option<HashMap<String, String>>,
    pub rogue_mode_enabled: bool,
    pub keystore_url: Option<String>,
}

/// An x402 payment limit.
#[derive(Debug)]
pub struct X402PaymentLimitEntry {
    pub asset: String,
    pub max_amount: String,
    pub decimals: u8,
    pub display_name: String,
    pub address: Option<String>,
}

/// The number of items a backup holds: each API key and payment limit,
/// plus one for the settings and one for the config when present.
pub open spec fn backup_item_count(b: BackupData) -> int {
    b.api_keys@.len() + (if b.bot_settings is Some { 1int } else { 0 }) + b.x402_payment_limits@.len()
        + (if b.bot_config is Some { 1int } else { 0 })
}

impl Default for BackupData {
    /// An empty backup of version 0, stamped with the current time.
    fn default() -> (r: BackupData)
        ensures
            r.version == 0,
            r.wallet_address@.len() == 0,
            r.api_keys@.len() == 0,
            r.bot_settings is None,
            r.x402_payment_limits@.len() == 0,
            r.bot_config is None,
    {
        BackupData {
            version: 0,
            created_at: utc_now_rfc3339(),
            wallet_address: String::new(),
            api_keys: Vec::new(),
            bot_settings: None,
            x402_payment_limits: Vec::new(),
            bot_config: None,
        }
    }
}

impl BackupData {
    /// An empty backup of the current version for a wallet.
    pub fn new(wallet_address: String) -> (r: BackupData)
        ensures
            r.version == BACKUP_VERSION,
            r.wallet_address == wallet_address,
            r.api_keys@.len() == 0,
            r.bot_settings is None,
            r.x402_payment_limits@.len() == 0,
            r.bot_config is None,
    {
        BackupData {
            version: BACKUP_VERSION,
            created_at: utc_now_rfc3339(),
            wallet_address,
            api_keys: Vec::new(),
            bot_settings: None,
            x402_payment_limits: Vec::new(),
            bot_config: None,
        }
    }

    /// Whether the backup holds nothing.
    pub fn is_empty(&self) -> (r: bool)
        ensures
            r == (backup_item_count(*self) == 0),
    {
        self.api_keys.len() == 0 && self.bot_settings.is_none() && self.x402_payment_limits.len() == 0
            && self.bot_config.is_none()
    }

    /// The number of items the backup holds.
    pub fn item_count(&self) -> (r: usize)
        requires
            backup_item_count(*self) <= usize::MAX,
        ensures
            r == backup_item_count(*self),
    {
        let a = self.api_keys.len();
        let s: usize = if self.bot_settings.is_some() { 1 } else { 0 };
        let l = self.x402_payment_limits.len();
        let c: usize = if self.bot_config.is_some() { 1 } else { 0 };
        a + s + l + c
    }
}

/// Whether an API key entry is written back: both its service name and its
/// key must be non-empty.
pub open spec fn api_key_restorable(k: ApiKeyEntry) -> bool {
    k.service_name@.len() > 0 && k.api_key@.len() > 0
}

/// Whether a payment limit is written back: its asset must be non-empty.
pub open spec fn limit_restorable(l: X402PaymentLimitEntry) -> bool {
    l.asset@.len() > 0
}

/// The positions of the API keys that a restore writes back, in order.
pub fn restorable_api_keys(keys: &Vec<ApiKeyEntry>) -> (r: Vec<usize>)
    ensures
        r@.len() <= keys@.len(),
        forall|a: int, b: int| 0 <= a < b < r@.len() ==> r@[a] < r@[b],
        forall|j: int| 0 <= j < r@.len() ==> r@[j] < keys@.len() && api_key_restorable(keys@[r@[j] as int]),
        forall|i: int| 0 <= i < keys@.len() && api_key_restorable(#[trigger] keys@[i]) ==> r@.contains(i as usize),
{
    let mut r: Vec<usize> = Vec::new();
    let mut i: usize = 0;
    while i < keys.len()
        invariant
            i <= keys@.len(),
            r@.len() <= i,
            forall|a: int, b: int| 0 <= a < b < r@.len() ==> r@[a] < r@[b],
            forall|j: int| 0 <= j < r@.len() ==> r@[j] < i && api_key_restorable(keys@[r@[j] as int]),
            forall|k: int| 0 <= k < i && api_key_restorable(#[trigger] keys@[k]) ==> r@.contains(k as usize),
        decreases keys@.len() - i,
    {
        let k = &keys[i];
        let ghost before = r@;
        if !k.service_name.as_str().is_empty() && !k.api_key.as_str().is_empty() {
            r.push(i);
            assert(r@[r@.len() - 1] == i);
        }
        assert forall|k: int| 0 <= k <= i && api_key_restorable(#[trigger] keys@[k]) implies r@.contains(k as usize) by {
            if k < i {
                let j = choose|j: int| 0 <= j < before.len() && before[j] == k as usize;
                assert(r@[j] == k as usize);
            } else {
                assert(r@[r@.len() - 1] == i);
            }
        }
        i = i + 1;
    }
    r
}

/// The positions of the payment limits that a restore writes back, in order.
pub fn restorable_limits(limits: &Vec<X402PaymentLimitEntry>) -> (r: Vec<usize>)
    ensures
        r@.len() <= limits@.len(),
        forall|a: int, b: int| 0 <= a < b < r@.len() ==> r@[a] < r@[b],
        forall|j: int| 0 <= j < r@.len() ==> r@[j] < limits@.len() && limit_restorable(limits@[r@[j] as int]),
        forall|i: int| 0 <= i < limits@.len() && limit_restorable(#[trigger] limits@[i]) ==> r@.contains(i as usize),
{
    let mut r: Vec<usize> = Vec::new();
    let mut i: usize = 0;
    while i < limits.len()
        invariant
            i <= limits@.len(),
            r@.len() <= i,
            forall|a: int, b: int| 0 <= a < b < r@.len() ==> r@[a] < r@[b],
            forall|j: int| 0 <= j < r@.len() ==> r@[j] < i && limit_restorable(limits@[r@[j] as int]),
            forall|k: int| 0 <= k < i && limit_restorable(#[trigger] limits@[k]) ==> r@.contains(k as usize),
        decreases limits@.len() - i,
    {
        let ghost before = r@;
        if !limits[i].asset.as_str().is_empty() {
            r.push(i);
            assert(r@[r@.len() - 1] == i);
        }
        assert forall|k: int| 0 <= k <= i && limit_restorable(#[trigger] limits@[k]) implies r@.contains(k as usize) by {
            if k < i {
                let j = choose|j: int| 0 <= j < before.len() && before[j] == k as usize;
                assert(r@[j] == k as usize);
            } else {
                assert(r@[r@.len() - 1] == i);
            }
        }
        i = i + 1;
    }
    r
}

/// What a restore wrote back.
#[derive(Debug)]
pub struct RestoreResult {
    pub api_keys: usize,
    pub bot_settings: bool,
    pub x402_payment_limits: usize,
    pub bot_config: bool,
}

/// `true` or `false`, as `Display` prints a `bool`.
pub open spec fn bool_text(b: bool) -> Seq<char> {
    if b { "true"@ } else { "false"@ }
}

/// The one-line restore report.
pub open spec fn restore_summary(r: RestoreResult) -> Seq<char> {
    "Restored: "@ + decimal(r.api_keys as nat) + " API keys, bot_settings="@ + bool_text(r.bot_settings) + ", "@
        + decimal(r.x402_payment_limits as nat) + " x402 limits, bot_config="@ + bool_text(r.bot_config)
}

fn push_bool(v: &mut Vec<char>, b: bool)
    ensures
        final(v)@ == old(v)@ + bool_text(b),
{
    if b {
        push_str(v, "true");
    } else {
        push_str(v, "false");
    }
}

impl RestoreResult {
    /// `Restored: <n> API keys, bot_settings=<b>, <m> x402 limits, bot_config=<c>`.
    pub fn summary(&self) -> (r: String)
        ensures
            r@ == restore_summary(*self),
    {
        let mut v = chars_of("Restored: ");
        v.extend_from_slice(decimal_exec(self.api_keys as u64).as_slice());
        push_str(&mut v, " API keys, bot_settings=");
        push_bool(&mut v, self.bot_settings);
        push_str(&mut v, ", ");
        v.extend_from_slice(decimal_exec(self.x402_payment_limits as u64).as_slice());
        push_str(&mut v, " x402 limits, bot_config=");
        push_bool(&mut v, self.bot_config);
        string_from(v.as_slice())
    }
}

} // verus!
