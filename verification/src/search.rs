//! What a search of a recovery phrase derives.
//!
//! The spec functions here say which keys stand on which branch of the tree, and in
//! which order a search collects them. Nothing here is executable.
use crate::bytes::lemma_le_bytes_injective;
use crate::error::ErrorView;
use crate::error::ZeckResult;
use crate::keys::ImportedKeysView;
use crate::keys::KeyView;
use crate::keys::all_hd_derived;
use crate::keys::hd_derived;
use crate::mnemonic::mnemonic_entropy;
use crate::mnemonic::mnemonic_seed;
use crate::models::AddressScope;
use crate::models::ZeckNetwork;
use crate::sapling::HARDENED_KEY_LIMIT;
use crate::sapling::encoded_depth;
use crate::sapling::encodes_child;
use crate::sapling::sapling_key_at;
use crate::sapling::sapling_key_decodes;
use crate::transparent::account_key_at;
use crate::transparent::secret_key_at;
use crate::zcashd_phrase::GapLimits;
use crate::zcashd_phrase::ZCASH_LEGACY_ACCOUNT;
use crate::zcashd_phrase::ZIP32_SHIELDED_PURPOSE;
use crate::zcashd_phrase::ZcashdSeedKind;
use vstd::prelude::*;

verus! {

/// `m/32'/coin_type'/0x7FFFFFFF'/address_index'`.
pub open spec fn legacy_sapling_path(network: ZeckNetwork, address_index: u32) -> Seq<u32> {
    seq![ZIP32_SHIELDED_PURPOSE, network.coin_type(), ZCASH_LEGACY_ACCOUNT, address_index]
}

/// `m/32'/coin_type'/account'`.
pub open spec fn pre47_sapling_path(network: ZeckNetwork, account: u32) -> Seq<u32> {
    seq![ZIP32_SHIELDED_PURPOSE, network.coin_type(), account]
}

/// Whether `key` is the encoding of a Sapling key at the level `depth` whose last
/// index is `index`.
pub open spec fn stands_at(key: Seq<u8>, depth: u8, index: u32) -> bool {
    &&& key.len() == 169
    &&& sapling_key_decodes(key)
    &&& encoded_depth(key) == depth
    &&& encodes_child(key, index)
}

/// The Sapling keys since zcashd 4.7.0, by `address_index`.
pub open spec fn legacy_sapling_branch(seed: Seq<u8>, network: ZeckNetwork) -> spec_fn(u32) -> Result<
    Seq<u8>,
    ErrorView,
> {
    |address_index: u32| sapling_key_at(seed, legacy_sapling_path(network, address_index))
}

/// The Sapling keys before zcashd 4.7.0, by account.
pub open spec fn pre47_sapling_branch(seed: Seq<u8>, network: ZeckNetwork) -> spec_fn(u32) -> Result<
    Seq<u8>,
    ErrorView,
> {
    |account: u32| sapling_key_at(seed, pre47_sapling_path(network, account))
}

/// The transparent keys of one branch of the account whose key is `account`, by
/// index.
pub open spec fn transparent_branch(account: Seq<u8>, scope: AddressScope) -> spec_fn(u32) -> Result<
    Seq<u8>,
    ErrorView,
> {
    |index: u32| secret_key_at(account, scope, index)
}

/// The keys of `branch` at the indices below `count`, in order, or the error of the
/// first index that has no key.
pub open spec fn keys_below(
    branch: spec_fn(u32) -> Result<Seq<u8>, ErrorView>,
    count: nat,
) -> Result<Seq<Seq<u8>>, ErrorView>
    decreases count,
{
    if count == 0 {
        Ok(seq![])
    } else {
        let index = (count - 1) as nat;
        match keys_below(branch, index) {
            Err(error) => Err(error),
            Ok(keys) => match branch(index as u32) {
                Err(error) => Err(error),
                Ok(key) => Ok(keys.push(key)),
            },
        }
    }
}

/// The keys of `branch` that are derived before the first index below `count` that has
/// no key: all of those below `count` where each index has one.
pub open spec fn keys_gained(
    branch: spec_fn(u32) -> Result<Seq<u8>, ErrorView>,
    count: nat,
) -> Seq<Seq<u8>>
    decreases count,
{
    match keys_below(branch, count) {
        Ok(keys) => keys,
        Err(_) => if count == 0 {
            seq![]
        } else {
            keys_gained(branch, (count - 1) as nat)
        },
    }
}

/// `keys` as the Sapling keys of a wallet.
pub open spec fn sapling_set(keys: Seq<Seq<u8>>) -> ImportedKeysView {
    ImportedKeysView { sapling: hd_derived(keys), transparent: seq![], sprout: seq![] }
}

/// `keys` as the transparent keys of a wallet.
pub open spec fn transparent_set(keys: Seq<Seq<u8>>) -> ImportedKeysView {
    ImportedKeysView { sapling: seq![], transparent: hd_derived(keys), sprout: seq![] }
}

/// The transparent keys of one branch of an account, as keys of a wallet.
pub open spec fn transparent_keys(account: Seq<u8>, scope: AddressScope, count: u32) -> Result<
    ImportedKeysView,
    ErrorView,
> {
    match keys_below(transparent_branch(account, scope), count as nat) {
        Err(error) => Err(error),
        Ok(keys) => Ok(transparent_set(keys)),
    }
}

/// The keys of a wallet of zcashd 4.7.0 or later: the Sapling keys of the legacy
/// account, then its external transparent keys, then its internal ones.
pub open spec fn post47_keys(seed: Seq<u8>, network: ZeckNetwork, gaps: GapLimits) -> Result<
    ImportedKeysView,
    ErrorView,
> {
    match keys_below(legacy_sapling_branch(seed, network), gaps.sapling as nat) {
        Err(error) => Err(error),
        Ok(sapling) => match account_key_at(seed, network, ZCASH_LEGACY_ACCOUNT) {
            Err(error) => Err(error),
            Ok(account) => match keys_below(
                transparent_branch(account, AddressScope::External),
                gaps.transparent as nat,
            ) {
                Err(error) => Err(error),
                Ok(external) => match keys_below(
                    transparent_branch(account, AddressScope::Internal),
                    gaps.transparent as nat,
                ) {
                    Err(error) => Err(error),
                    Ok(internal) => Ok(
                        ImportedKeysView {
                            sapling: hd_derived(sapling),
                            transparent: hd_derived(external + internal),
                            sprout: seq![],
                        },
                    ),
                },
            },
        },
    }
}

/// The keys of a wallet from before zcashd 4.7.0: Sapling accounts alone. Such a
/// wallet drew its transparent keys at random.
pub open spec fn pre47_keys(seed: Seq<u8>, network: ZeckNetwork, gaps: GapLimits) -> Result<
    ImportedKeysView,
    ErrorView,
> {
    match keys_below(pre47_sapling_branch(seed, network), gaps.pre47_accounts as nat) {
        Err(error) => Err(error),
        Ok(sapling) => Ok(sapling_set(sapling)),
    }
}

/// The keys that a derivation of [`post47_keys`] has added when it ends, be it with
/// success or with an error.
pub open spec fn post47_gained(
    seed: Seq<u8>,
    network: ZeckNetwork,
    gaps: GapLimits,
) -> ImportedKeysView {
    let branch = legacy_sapling_branch(seed, network);
    let sapling = sapling_set(keys_gained(branch, gaps.sapling as nat));
    if keys_below(branch, gaps.sapling as nat) is Err {
        sapling
    } else {
        match account_key_at(seed, network, ZCASH_LEGACY_ACCOUNT) {
            Err(_) => sapling,
            Ok(account) => {
                let count = gaps.transparent as nat;
                let external = transparent_branch(account, AddressScope::External);
                let internal = transparent_branch(account, AddressScope::Internal);
                let first = sapling.append(transparent_set(keys_gained(external, count)));
                if keys_below(external, count) is Err {
                    first
                } else {
                    first.append(transparent_set(keys_gained(internal, count)))
                }
            },
        }
    }
}

/// The keys that a derivation of [`pre47_keys`] has added when it ends, be it with
/// success or with an error.
pub open spec fn pre47_gained(
    seed: Seq<u8>,
    network: ZeckNetwork,
    gaps: GapLimits,
) -> ImportedKeysView {
    sapling_set(keys_gained(pre47_sapling_branch(seed, network), gaps.pre47_accounts as nat))
}

/// What one era of a phrase derives.
pub open spec fn era_keys(
    phrase: Seq<char>,
    network: ZeckNetwork,
    kind: ZcashdSeedKind,
    gaps: GapLimits,
) -> Result<ImportedKeysView, ErrorView> {
    match mnemonic_entropy(phrase) {
        None => Err(invalid_phrase_error()),
        Some(entropy) => match kind {
            ZcashdSeedKind::Bip39 => post47_keys(bip39_seed_of(phrase), network, gaps),
            ZcashdSeedKind::LegacyEntropy => pre47_keys(entropy, network, gaps),
        },
    }
}

/// Both eras, in the order in which they are derived.
pub open spec fn all_kinds() -> Seq<ZcashdSeedKind> {
    seq![ZcashdSeedKind::Bip39, ZcashdSeedKind::LegacyEntropy]
}

/// What the eras `kinds` of a phrase derive, one after the other, or the error of the
/// first era that fails.
pub open spec fn derived_keys(
    phrase: Seq<char>,
    network: ZeckNetwork,
    kinds: Seq<ZcashdSeedKind>,
    gaps: GapLimits,
) -> Result<ImportedKeysView, ErrorView>
    decreases kinds.len(),
{
    if kinds.len() == 0 {
        Ok(ImportedKeysView::empty())
    } else {
        match derived_keys(phrase, network, kinds.drop_last(), gaps) {
            Err(error) => Err(error),
            Ok(keys) => match era_keys(phrase, network, kinds.last(), gaps) {
                Err(error) => Err(error),
                Ok(more) => Ok(keys.append(more)),
            },
        }
    }
}

/// A branch that fails below some index fails in the same way below every later one.
pub(crate) proof fn lemma_branch_failure_stays(
    branch: spec_fn(u32) -> Result<Seq<u8>, ErrorView>,
    count: nat,
    more: nat,
)
    requires
        count <= more,
        keys_below(branch, count) is Err,
    ensures
        keys_below(branch, more) == keys_below(branch, count),
        keys_gained(branch, more) == keys_gained(branch, count),
    decreases more,
{
    if count < more {
        lemma_branch_failure_stays(branch, count, (more - 1) as nat);
    }
}

/// Where the first eras fail, the whole derivation fails in the same way.
pub(crate) proof fn lemma_era_failure_stays(
    phrase: Seq<char>,
    network: ZeckNetwork,
    kinds: Seq<ZcashdSeedKind>,
    gaps: GapLimits,
    count: int,
)
    requires
        0 <= count <= kinds.len(),
        derived_keys(phrase, network, kinds.take(count), gaps) is Err,
    ensures
        derived_keys(phrase, network, kinds, gaps) == derived_keys(
            phrase,
            network,
            kinds.take(count),
            gaps,
        ),
    decreases kinds.len() - count,
{
    if count == kinds.len() {
        assert(kinds.take(count) =~= kinds);
    } else {
        assert(kinds.take(count + 1).drop_last() =~= kinds.take(count));
        lemma_era_failure_stays(phrase, network, kinds, gaps, count + 1);
    }
}

/// What a key source was made from.
#[verifier::ext_equal]
pub struct KeySourceView {
    pub phrase: Seq<char>,
    pub network: ZeckNetwork,
    pub kinds: Seq<ZcashdSeedKind>,
    pub gaps: GapLimits,
}

impl KeySourceView {
    /// What the source derives.
    pub open spec fn derived(self) -> Result<ImportedKeysView, ErrorView> {
        derived_keys(self.phrase, self.network, self.kinds, self.gaps)
    }
}

/// Whether `result` and `after` are what a derivation of `derived` ends in that starts
/// from `before` and adds `gained`: success with `derived` added, or its error with the
/// keys added that came before the failure. In either case no key is lost, and the
/// Sprout keys are left alone.
pub open spec fn extends_by(
    before: ImportedKeysView,
    after: ImportedKeysView,
    derived: Result<ImportedKeysView, ErrorView>,
    gained: ImportedKeysView,
    result: ZeckResult<()>,
) -> bool {
    &&& after == before.append(gained)
    &&& after.starts_with(before)
    &&& after.sprout == before.sprout
    &&& match derived {
        Ok(keys) => result is Ok && after == before.append(keys),
        Err(error) => result matches Err(failure) && failure@ == error,
    }
}

/// Whether every Sapling key of `keys` decodes.
pub open spec fn sapling_keys_decode(keys: ImportedKeysView) -> bool {
    forall|i: int|
        0 <= i < keys.sapling.len() ==> sapling_key_decodes(#[trigger] keys.sapling[i].bytes)
}

/// Whether no key occurs twice in `keys`.
pub open spec fn keys_differ(keys: Seq<KeyView>) -> bool {
    forall|i: int, j: int|
        #![trigger keys[i], keys[j]]
        0 <= i < j < keys.len() ==> keys[i].bytes != keys[j].bytes
}

/// The levels and last indices of the Sapling keys that an era derives, in order.
pub open spec fn era_places(kind: ZcashdSeedKind, gaps: GapLimits) -> Seq<(u8, u32)> {
    match kind {
        ZcashdSeedKind::Bip39 => Seq::new(gaps.sapling as nat, |i: int| (4u8, i as u32)),
        ZcashdSeedKind::LegacyEntropy => Seq::new(
            gaps.pre47_accounts as nat,
            |i: int| (3u8, i as u32),
        ),
    }
}

/// The levels and last indices of the Sapling keys that the eras `kinds` derive, in
/// order.
pub open spec fn sapling_places(kinds: Seq<ZcashdSeedKind>, gaps: GapLimits) -> Seq<(u8, u32)>
    decreases kinds.len(),
{
    if kinds.len() == 0 {
        seq![]
    } else {
        sapling_places(kinds.drop_last(), gaps) + era_places(kinds.last(), gaps)
    }
}

/// Whether the Sapling keys of `keys` stand at `places`, one by one.
pub open spec fn sapling_keys_stand_at(keys: ImportedKeysView, places: Seq<(u8, u32)>) -> bool {
    &&& keys.sapling.len() == places.len()
    &&& forall|i: int|
        0 <= i < places.len() ==> stands_at(
            (#[trigger] keys.sapling[i]).bytes,
            places[i].0,
            places[i].1,
        )
}

/// Whether `keys` are what a source made from `inputs` holds: the keys that it derives,
/// each Sapling key at its place and valid, no two of them the same, every key from the
/// seed, and no Sprout key.
pub open spec fn holds_keys(inputs: KeySourceView, keys: ImportedKeysView) -> bool {
    &&& inputs.derived() == Ok::<ImportedKeysView, ErrorView>(keys)
    &&& sapling_keys_stand_at(keys, sapling_places(inputs.kinds, inputs.gaps))
    &&& sapling_keys_decode(keys)
    &&& forall|i: int| 0 <= i < keys.sapling.len() ==> (#[trigger] keys.sapling[i]).bytes.len() == 169
    &&& keys_differ(keys.sapling)
    &&& all_hd_derived(keys.sapling)
    &&& all_hd_derived(keys.transparent)
    &&& keys.sprout.len() == 0
}

/// Whether the Sapling keys that `after` has over `before` stand at `places`.
pub open spec fn places_added(
    before: ImportedKeysView,
    after: ImportedKeysView,
    places: Seq<(u8, u32)>,
) -> bool {
    &&& after.sapling.len() == before.sapling.len() + places.len()
    &&& forall|i: int|
        before.sapling.len() <= i < after.sapling.len() ==> {
            let place = places[i - before.sapling.len()];
            stands_at((#[trigger] after.sapling[i]).bytes, place.0, place.1)
        }
}

/// The eras derive keys at different places.
pub(crate) proof fn lemma_places_distinct(kinds: Seq<ZcashdSeedKind>, gaps: GapLimits)
    requires
        kinds.no_duplicates(),
    ensures
        sapling_places(kinds, gaps).no_duplicates(),
        forall|i: int|
            0 <= i < sapling_places(kinds, gaps).len() ==> {
                ||| (#[trigger] sapling_places(kinds, gaps)[i]).0 == 4 && kinds.contains(
                    ZcashdSeedKind::Bip39,
                )
                ||| sapling_places(kinds, gaps)[i].0 == 3 && kinds.contains(
                    ZcashdSeedKind::LegacyEntropy,
                )
            },
    decreases kinds.len(),
{
    if kinds.len() > 0 {
        let before = kinds.drop_last();
        lemma_places_distinct(before, gaps);
        assert(kinds =~= before.push(kinds.last()));
        assert(kinds.contains(kinds.last())) by {
            assert(kinds[kinds.len() - 1] == kinds.last());
        }
        assert forall|kind: ZcashdSeedKind| #[trigger]
            before.contains(kind) implies kinds.contains(kind) && kind != kinds.last() by {
            let i = choose|i: int| 0 <= i < before.len() && before[i] == kind;
            assert(kinds[i] == kind);
        }
    }
}

/// Keys at different places are different.
pub(crate) proof fn lemma_keys_distinct(keys: ImportedKeysView, places: Seq<(u8, u32)>)
    requires
        sapling_keys_stand_at(keys, places),
        places.no_duplicates(),
    ensures
        keys_differ(keys.sapling),
{
    assert forall|i: int, j: int|
        #![trigger keys.sapling[i], keys.sapling[j]]
        0 <= i < j < keys.sapling.len() implies keys.sapling[i].bytes != keys.sapling[j].bytes by {
        if keys.sapling[i].bytes == keys.sapling[j].bytes {
            lemma_le_bytes_injective(
                (places[i].1 + HARDENED_KEY_LIMIT) as u32,
                (places[j].1 + HARDENED_KEY_LIMIT) as u32,
            );
            assert(places[i].1 == places[j].1);
            assert(places[i] == places[j]);
        }
    }
}

/// The BIP 39 seed of a phrase, under the empty passphrase.
pub open spec fn bip39_seed_of(phrase: Seq<char>) -> Seq<u8> {
    mnemonic_seed(phrase, ""@)@
}

/// The error for a phrase that is not a mnemonic. It is the same for every phrase,
/// so nothing of a phrase can reach a log through it.
pub open spec fn invalid_phrase_error() -> ErrorView {
    ErrorView::InvalidMnemonic("the recovery phrase is not a valid BIP-39 mnemonic"@)
}

} // verus!
