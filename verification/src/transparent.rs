//! Transparent keys, derived by the `zcash_transparent` crate.
use crate::error::ErrorView;
use crate::error::ZeckError;
use crate::error::ZeckResult;
use crate::models::AddressScope;
use crate::models::ZeckNetwork;
use crate::sapling::HARDENED_KEY_LIMIT;
use crate::secret::SecretScalar;
use crate::text::decimal;
use crate::text::decimal_text;
use vstd::prelude::*;
use vstd::string::*;
use zcash_protocol::consensus::MAIN_NETWORK;
use zcash_protocol::consensus::TEST_NETWORK;
use zcash_transparent::keys::NonHardenedChildIndex;
use zcash_transparent::keys::TransparentKeyScope;
use zip32::AccountId;

verus! {

/// The encoding of the BIP 44 private key at `m/44'/coin_type'/account'` under
/// `seed`, or the text of the error that the derivation ends in.
pub uninterp spec fn bip44_account_key(coin_type: u32, seed: Seq<u8>, account: u32) -> Result<
    Seq<u8>,
    Seq<char>,
>;

/// Whether `bytes` is the encoding of a BIP 44 account key.
pub uninterp spec fn account_key_decodes(bytes: Seq<u8>) -> bool;

/// The private key at `change/index` under the account key that `account` encodes,
/// or the text of the error that the derivation ends in.
pub uninterp spec fn bip44_secret_key(account: Seq<u8>, change: u32, index: u32) -> Result<
    Seq<u8>,
    Seq<char>,
>;

/// `AccountPrivKey::from_seed` with the parameters of mainnet, and `to_bytes`: of
/// the parameters it reads the coin type alone, which is 133. The key decodes
/// again. `AccountId` takes accounts below the limit only.
#[verifier::external_body]
fn mainnet_account_key(seed: &[u8], account: u32) -> (result: Result<Vec<u8>, String>)
    requires
        account < HARDENED_KEY_LIMIT,
    ensures
        match result {
            Ok(bytes) => {
                &&& bip44_account_key(133, seed@, account) == Ok::<Seq<u8>, Seq<char>>(bytes@)
                &&& account_key_decodes(bytes@)
            },
            Err(text) => bip44_account_key(133, seed@, account) == Err::<Seq<u8>, Seq<char>>(text@),
        },
{
    let account = AccountId::const_from_u32(account);
    zcash_transparent::keys::AccountPrivKey::from_seed(&MAIN_NETWORK, seed, account)
        .map(|key| key.to_bytes())
        .map_err(|error| error.to_string())
}

/// `AccountPrivKey::from_seed` with the parameters of testnet, and `to_bytes`: of
/// the parameters it reads the coin type alone, which is 1. The key decodes again.
/// `AccountId` takes accounts below the limit only.
#[verifier::external_body]
fn testnet_account_key(seed: &[u8], account: u32) -> (result: Result<Vec<u8>, String>)
    requires
        account < HARDENED_KEY_LIMIT,
    ensures
        match result {
            Ok(bytes) => {
                &&& bip44_account_key(1, seed@, account) == Ok::<Seq<u8>, Seq<char>>(bytes@)
                &&& account_key_decodes(bytes@)
            },
            Err(text) => bip44_account_key(1, seed@, account) == Err::<Seq<u8>, Seq<char>>(text@),
        },
{
    let account = AccountId::const_from_u32(account);
    zcash_transparent::keys::AccountPrivKey::from_seed(&TEST_NETWORK, seed, account)
        .map(|key| key.to_bytes())
        .map_err(|error| error.to_string())
}

/// `AccountPrivKey::derive_secret_key`, on the key that `from_bytes` reads from
/// `account`: the private key depends on the account key, the change level and the
/// index alone. `TransparentKeyScope::custom` and
/// `NonHardenedChildIndex::const_from_index` take numbers below the limit only.
#[verifier::external_body]
fn secret_key_bytes(account: &[u8], change: u32, index: u32) -> (result: Result<[u8; 32], String>)
    requires
        account_key_decodes(account@),
        change < HARDENED_KEY_LIMIT,
        index < HARDENED_KEY_LIMIT,
    ensures
        match result {
            Ok(bytes) => bip44_secret_key(account@, change, index) == Ok::<Seq<u8>, Seq<char>>(
                bytes@,
            ),
            Err(text) => bip44_secret_key(account@, change, index) == Err::<Seq<u8>, Seq<char>>(
                text@,
            ),
        },
{
    let account = zcash_transparent::keys::AccountPrivKey::from_bytes(account).unwrap();
    let scope = TransparentKeyScope::custom(change).unwrap();
    account
        .derive_secret_key(scope, NonHardenedChildIndex::const_from_index(index))
        .map(|key| key.to_secret_bytes())
        .map_err(|error| error.to_string())
}

/// A BIP 44 private key at the account level, in the encoding of BIP 32 without its
/// prefix.
pub struct AccountPrivKey {
    bytes: Vec<u8>,
}

impl View for AccountPrivKey {
    type V = Seq<u8>;

    /// The encoding of the key.
    closed spec fn view(&self) -> Seq<u8> {
        self.bytes@
    }
}

/// The account key at `m/44'/coin_type'/account'` under `seed`.
pub open spec fn account_key_at(seed: Seq<u8>, network: ZeckNetwork, account: u32) -> Result<
    Seq<u8>,
    ErrorView,
> {
    match bip44_account_key(network.coin_type(), seed, account) {
        Ok(key) => Ok(key),
        Err(text) => Err(ErrorView::Internal(text)),
    }
}

/// The error for a transparent index that has no non-hardened form.
pub open spec fn transparent_range_error(index: u32) -> ErrorView {
    ErrorView::InvalidConfig(
        "transparent index "@ + decimal(index as nat) + " is out of range"@,
    )
}

/// The private key of the address at `index` on the branch `scope` of an account.
pub open spec fn secret_key_at(account: Seq<u8>, scope: AddressScope, index: u32) -> Result<
    Seq<u8>,
    ErrorView,
> {
    if index >= HARDENED_KEY_LIMIT {
        Err(transparent_range_error(index))
    } else {
        match bip44_secret_key(account, scope.change_level(), index) {
            Ok(key) => Ok(key),
            Err(text) => Err(ErrorView::Internal(text)),
        }
    }
}

/// A derivation result with its account key and its error as values.
pub open spec fn account_result(result: ZeckResult<AccountPrivKey>) -> Result<Seq<u8>, ErrorView> {
    match result {
        Ok(key) => Ok(key@),
        Err(error) => Err(error@),
    }
}

/// A derivation result with its private key and its error as values.
pub open spec fn secret_result(result: ZeckResult<SecretScalar>) -> Result<Seq<u8>, ErrorView> {
    match result {
        Ok(key) => Ok(key@),
        Err(error) => Err(error@),
    }
}

impl AccountPrivKey {
    #[verifier::type_invariant]
    spec fn decodes(self) -> bool {
        account_key_decodes(self.bytes@)
    }

    /// The account key at `m/44'/coin_type'/account'` under `seed`.
    pub fn from_seed(network: ZeckNetwork, seed: &[u8], account: u32) -> (result: ZeckResult<
        AccountPrivKey,
    >)
        requires
            account < HARDENED_KEY_LIMIT,
        ensures
            account_result(result) == account_key_at(seed@, network, account),
    {
        let derived = match network {
            ZeckNetwork::Mainnet => mainnet_account_key(seed, account),
            ZeckNetwork::Testnet => testnet_account_key(seed, account),
        };
        match derived {
            Ok(bytes) => Ok(AccountPrivKey { bytes }),
            Err(text) => Err(ZeckError::Internal(text)),
        }
    }

    /// The private key of the address at `index` on the branch `scope`.
    pub fn derive_secret_key(&self, scope: AddressScope, index: u32) -> (result: ZeckResult<
        SecretScalar,
    >)
        ensures
            secret_result(result) == secret_key_at(self@, scope, index),
    {
        proof {
            use_type_invariant(self);
        }
        if index >= HARDENED_KEY_LIMIT {
            let mut message = "transparent index ".to_owned();
            let number = decimal_text(index as u64);
            message.append(number.as_str());
            message.append(" is out of range");
            return Err(ZeckError::InvalidConfig(message));
        }
        match secret_key_bytes(self.bytes.as_slice(), scope.change_level(), index) {
            Ok(bytes) => Ok(SecretScalar::new(bytes)),
            Err(text) => Err(ZeckError::Internal(text)),
        }
    }

    /// The encoding of the key.
    pub fn to_bytes(&self) -> (bytes: Vec<u8>)
        ensures
            bytes@ == self@,
    {
        self.bytes.clone()
    }
}

} // verus!
