//! A zcashd emergency recovery phrase, with no `wallet.dat`.
//!
//! One phrase stands for two unrelated seeds. A wallet created by zcashd 4.7.0 or
//! later uses the phrase as an ordinary BIP 39 mnemonic. A wallet that was upgraded
//! into 4.7.0 already had a random Sapling seed, and its phrase encodes the bytes of
//! that seed as the mnemonic's entropy. A search under the wrong seed succeeds and
//! finds nothing, so [`ZcashdSeedKind`] makes every caller choose.
//!
//! | Keys | Path | Seed |
//! |---|---|---|
//! | Sapling, since 4.7.0 | `m/32'/coin_type'/0x7FFFFFFF'/address_index'` | BIP 39 |
//! | Sapling, before 4.7.0 | `m/32'/coin_type'/account'` | entropy |
//! | transparent, since 4.7.0 | `m/44'/coin_type'/0x7FFFFFFF'/change/index` | BIP 39 |
use crate::bytes::le_bytes;
use crate::bytes::push_bytes;
use crate::bytes::push_le_bytes;
use crate::error::ErrorView;
use crate::error::ZeckError;
use crate::error::ZeckResult;
use crate::fingerprint::FINGERPRINT_DOMAIN;
use crate::fingerprint::KeySourceFingerprint;
use crate::fingerprint::sha256;
use crate::fingerprint::sha256_digest;
use crate::keys::ImportedKeys;
use crate::keys::ImportedKeysView;
use crate::keys::KeyView;
use crate::keys::Provenance;
use crate::keys::SaplingKey;
use crate::keys::TransparentKey;
use crate::keys::hd_derived;
use crate::laws::law_what_a_source_derives;
use crate::mnemonic::is_entropy_len;
use crate::mnemonic::is_mnemonic;
use crate::mnemonic::is_mnemonic_len;
use crate::mnemonic::mnemonic_entropy;
use crate::mnemonic::read_entropy;
use crate::mnemonic::stretch_seed;
use crate::mnemonic::word_count;
use crate::models::AddressScope;
use crate::models::ConsensusNetwork;
use crate::models::ZeckNetwork;
use crate::sapling::ExtendedSpendingKey;
use crate::sapling::begins_with_prefix;
use crate::sapling::default_address;
use crate::sapling::derive_path;
use crate::sapling::is_lower_case;
use crate::sapling::key_result;
use crate::sapling::sapling_default_address;
use crate::sapling::sapling_key_at;
use crate::sapling::sapling_key_decodes;
use crate::search::KeySourceView;
use crate::search::all_kinds;
use crate::search::bip39_seed_of;
use crate::search::derived_keys;
use crate::search::era_places;
use crate::search::extends_by;
use crate::search::holds_keys;
use crate::search::invalid_phrase_error;
use crate::search::keys_below;
use crate::search::keys_gained;
use crate::search::legacy_sapling_branch;
use crate::search::legacy_sapling_path;
use crate::search::lemma_branch_failure_stays;
use crate::search::lemma_era_failure_stays;
use crate::search::lemma_keys_distinct;
use crate::search::lemma_places_distinct;
use crate::search::places_added;
use crate::search::post47_gained;
use crate::search::post47_keys;
use crate::search::pre47_gained;
use crate::search::pre47_keys;
use crate::search::pre47_sapling_branch;
use crate::search::pre47_sapling_path;
use crate::search::sapling_keys_decode;
use crate::search::sapling_keys_stand_at;
use crate::search::sapling_places;
use crate::search::sapling_set;
use crate::search::stands_at;
use crate::search::transparent_branch;
use crate::search::transparent_keys;
use crate::search::transparent_set;
use crate::secret::SecretBytes;
use crate::secret::SecretScalar;
use crate::secret::SecretSeed;
use crate::secret::SecretString;
use crate::text::decimal;
use crate::text::decimal_text;
use crate::text::hex;
use crate::transparent::AccountPrivKey;
use crate::transparent::account_key_at;
use crate::transparent::account_result;
use vstd::prelude::*;
use vstd::slice::slice_to_vec;
use vstd::string::*;
use vstd::utf8::encode_utf8;
use vstd::utf8::is_ascii_chars;

verus! {

/// zcashd's `ZCASH_LEGACY_ACCOUNT`: the largest index that a hardened derivation
/// accepts, and so out of the way of the accounts of ZIP 316.
pub const ZCASH_LEGACY_ACCOUNT: u32 = 0x7FFF_FFFF;

/// The purpose level of ZIP 32 for shielded keys: `m/32'/...`.
pub const ZIP32_SHIELDED_PURPOSE: u32 = 32;

/// What tells a recovery phrase from the other kinds of key source: the same phrase
/// as the seed of another wallet is another recovery.
pub const FINGERPRINT_LABEL: &'static str = "zcashd-phrase";

/// What the preimage of a phrase's digest begins with.
pub const PHRASE_ID_DOMAIN: &'static str = "argos-zcashd-phrase-id-v1";

/// How many addresses of each branch are searched unless a caller asks for another
/// number.
///
/// zcashd kept its address counters in `wallet.dat`, so how far a user got must be
/// searched for. Twenty is the gap of BIP 44.
pub const DEFAULT_GAP_LIMIT: u32 = 20;

/// What a recovery phrase provably cannot bring back.
///
/// A user who has lost a wallet file is owed an explicit boundary: an empty result
/// would read as "there was nothing there".
pub const PHRASE_CANNOT_RECOVER: &'static str = "A recovery phrase reproduces only keys that were derived from the wallet seed. It cannot recover randomly generated Sprout keys, keys imported with z_importkey or importprivkey, watch-only addresses, or any other secret that existed only inside wallet.dat. Those are not derived from the seed, so no phrase and no gap limit can find them. Recovering them requires the wallet.dat file itself.";

/// Which of its two seeds a phrase is reduced to.
///
/// There is no default. A caller that does not know the era of a wallet searches
/// both, with [`ZcashdPhraseKeySource::derive_all`].
#[derive(Debug, Clone, Copy, PartialEq, Eq, Structural)]
pub enum ZcashdSeedKind {
    /// zcashd 4.7.0 or later: the phrase is an ordinary BIP 39 mnemonic.
    Bip39,
    /// A wallet upgraded from before 4.7.0: the phrase encodes the bytes of its
    /// Sapling seed as entropy.
    LegacyEntropy,
}

/// How far each branch is searched.
#[derive(Debug, Clone, Copy, PartialEq, Eq, Structural)]
pub struct GapLimits {
    /// Legacy Sapling `address_index` values to derive.
    pub sapling: u32,
    /// Legacy transparent `index` values to derive, on each change branch.
    pub transparent: u32,
    /// ZIP 32 accounts to derive on the path of before 4.7.0, which counted accounts
    /// where later versions count addresses.
    pub pre47_accounts: u32,
}

impl Default for GapLimits {
    /// [`DEFAULT_GAP_LIMIT`] on every branch.
    fn default() -> (gaps: GapLimits)
        ensures
            gaps.sapling == DEFAULT_GAP_LIMIT,
            gaps.transparent == DEFAULT_GAP_LIMIT,
            gaps.pre47_accounts == DEFAULT_GAP_LIMIT,
    {
        GapLimits::uniform(DEFAULT_GAP_LIMIT)
    }
}

impl GapLimits {
    /// Every branch searched to the same depth.
    pub fn uniform(limit: u32) -> (gaps: GapLimits)
        ensures
            gaps.sapling == limit,
            gaps.transparent == limit,
            gaps.pre47_accounts == limit,
    {
        GapLimits { sapling: limit, transparent: limit, pre47_accounts: limit }
    }
}

fn invalid_phrase() -> (error: ZeckError)
    ensures
        error@ == invalid_phrase_error(),
{
    ZeckError::InvalidMnemonic("the recovery phrase is not a valid BIP-39 mnemonic".to_owned())
}

/// The 64-byte BIP 39 seed: the seed of a wallet created by zcashd 4.7.0 or later.
pub fn bip39_seed(phrase: &SecretString) -> (result: ZeckResult<SecretSeed>)
    ensures
        match result {
            Ok(seed) => {
                &&& is_mnemonic(phrase@)
                &&& seed@ == bip39_seed_of(phrase@)
                &&& seed@.len() == 64
                &&& is_ascii_chars(phrase@) ==> is_mnemonic_len(word_count(phrase@))
            },
            Err(error) => !is_mnemonic(phrase@) && error@ == invalid_phrase_error(),
        },
{
    match stretch_seed(phrase.expose_secret(), "") {
        Ok(seed) => Ok(SecretSeed::new(seed)),
        Err(_) => Err(invalid_phrase()),
    }
}

/// The Sapling seed of a wallet from before zcashd 4.7.0: the raw entropy of the
/// phrase.
///
/// It has four bytes for every three words, and is never the BIP 39 seed of the same
/// phrase. Whether a phrase does encode such a seed cannot be told from the phrase:
/// the entropy of every mnemonic is returned.
pub fn legacy_entropy_seed(phrase: &SecretString) -> (result: ZeckResult<SecretBytes>)
    ensures
        match result {
            Ok(seed) => {
                &&& mnemonic_entropy(phrase@) == Some(seed@)
                &&& is_entropy_len(seed@.len())
                &&& is_ascii_chars(phrase@) ==> 3 * seed@.len() == 4 * word_count(phrase@)
                &&& seed@ != bip39_seed_of(phrase@)
            },
            Err(error) => !is_mnemonic(phrase@) && error@ == invalid_phrase_error(),
        },
{
    // The error of the parser can quote a word of the phrase, so it is dropped.
    match read_entropy(phrase.expose_secret()) {
        Ok(entropy) => {
            assert(entropy@ != bip39_seed_of(phrase@)) by {
                assert(bip39_seed_of(phrase@).len() == 64);
            }
            Ok(SecretBytes::new(entropy))
        },
        Err(_) => Err(invalid_phrase()),
    }
}

/// The Sapling key of the address at `address_index` since zcashd 4.7.0.
pub fn legacy_sapling_spending_key(
    seed: &[u8],
    network: ZeckNetwork,
    address_index: u32,
) -> (result: ZeckResult<ExtendedSpendingKey>)
    ensures
        key_result(result) == sapling_key_at(seed@, legacy_sapling_path(network, address_index)),
        result matches Ok(key) ==> stands_at(key@, 4, address_index),
{
    let path: [u32; 4] = [
        ZIP32_SHIELDED_PURPOSE,
        network.coin_type(),
        ZCASH_LEGACY_ACCOUNT,
        address_index,
    ];
    assert(path@ =~= legacy_sapling_path(network, address_index));
    derive_path(seed, path.as_slice())
}

/// The Sapling key of `account` before zcashd 4.7.0, under the seed that
/// [`legacy_entropy_seed`] returns.
///
/// The path has three levels: there was no legacy account yet.
pub fn pre47_sapling_spending_key(seed: &[u8], network: ZeckNetwork, account: u32) -> (result:
    ZeckResult<ExtendedSpendingKey>)
    ensures
        key_result(result) == sapling_key_at(seed@, pre47_sapling_path(network, account)),
        result matches Ok(key) ==> stands_at(key@, 3, account),
{
    let path: [u32; 3] = [ZIP32_SHIELDED_PURPOSE, network.coin_type(), account];
    assert(path@ =~= pre47_sapling_path(network, account));
    derive_path(seed, path.as_slice())
}

/// The account key of the legacy transparent addresses, at
/// `m/44'/coin_type'/0x7FFFFFFF'`. The account is the legacy one, not account zero.
pub fn legacy_transparent_account_key(seed: &[u8; 64], network: ZeckNetwork) -> (result: ZeckResult<
    AccountPrivKey,
>)
    ensures
        account_result(result) == account_key_at(seed@, network, ZCASH_LEGACY_ACCOUNT),
{
    AccountPrivKey::from_seed(network, seed.as_slice(), ZCASH_LEGACY_ACCOUNT)
}

fn push_sapling(into: &mut ImportedKeys, extsk: &ExtendedSpendingKey)
    ensures
        final(into)@ == old(into)@.append(sapling_set(seq![extsk@])),
{
    let bytes = extsk.to_bytes();
    into.sapling.push(
        SaplingKey {
            extsk: SecretBytes::new(slice_to_vec(bytes.as_slice())),
            provenance: Provenance::HdDerived,
        },
    );
    assert(into@.sapling =~= old(into)@.sapling + hd_derived(seq![extsk@]));
}

fn push_transparent(into: &mut ImportedKeys, secret: SecretScalar)
    ensures
        final(into)@ == old(into)@.append(transparent_set(seq![secret@])),
{
    into.transparent.push(TransparentKey { secret, provenance: Provenance::HdDerived });
    assert(into@.transparent =~= old(into)@.transparent + hd_derived(seq![secret@]));
}

/// Adds the transparent keys of one branch of `account` at the indices below
/// `count`.
fn derive_transparent(
    account: &AccountPrivKey,
    scope: AddressScope,
    count: u32,
    into: &mut ImportedKeys,
) -> (result: ZeckResult<()>)
    ensures
        extends_by(
            old(into)@,
            final(into)@,
            transparent_keys(account@, scope, count),
            transparent_set(keys_gained(transparent_branch(account@, scope), count as nat)),
            result,
        ),
        final(into)@.sapling == old(into)@.sapling,
{
    let ghost branch = transparent_branch(account@, scope);
    let ghost mut keys: Seq<Seq<u8>> = seq![];
    assert(into@ =~= old(into)@.append(transparent_set(keys)));
    for index in 0..count
        invariant
            branch == transparent_branch(account@, scope),
            keys_below(branch, index as nat) == Ok::<Seq<Seq<u8>>, ErrorView>(keys),
            into@ == old(into)@.append(transparent_set(keys)),
    {
        let secret = match account.derive_secret_key(scope, index) {
            Ok(secret) => secret,
            Err(error) => {
                proof {
                    assert(keys_gained(branch, index as nat) == keys);
                    assert(keys_below(branch, (index + 1) as nat) is Err);
                    lemma_branch_failure_stays(branch, (index + 1) as nat, count as nat);
                    assert(into@.sapling =~= old(into)@.sapling);
                }
                return Err(error);
            },
        };
        let ghost next = keys.push(secret@);
        push_transparent(into, secret);
        proof {
            assert(hd_derived(next) =~= hd_derived(keys) + hd_derived(seq![next.last()]));
            keys = next;
            assert(into@ =~= old(into)@.append(transparent_set(keys)));
        }
    }
    assert(into@.sapling =~= old(into)@.sapling);
    Ok(())
}

/// A zcashd emergency recovery phrase, with no wallet file.
///
/// The keys are derived when the value is made, and handed out as a fixed set. They
/// are a function of the phrase, the network, the eras and the gap limits.
pub struct ZcashdPhraseKeySource {
    network: ZeckNetwork,
    gaps: GapLimits,
    keys: ImportedKeys,
    phrase: SecretString,
    kinds: Vec<ZcashdSeedKind>,
}

impl View for ZcashdPhraseKeySource {
    type V = KeySourceView;

    closed spec fn view(&self) -> KeySourceView {
        KeySourceView {
            phrase: self.phrase@,
            network: self.network,
            kinds: self.kinds@,
            gaps: self.gaps,
        }
    }
}

/// A constructor's result, over what it was given: a source made from `inputs`, or
/// the error that their derivation ends in.
pub open spec fn makes_source(
    inputs: KeySourceView,
    result: ZeckResult<ZcashdPhraseKeySource>,
) -> bool {
    match inputs.derived() {
        Ok(_) => result matches Ok(source) && source@ == inputs && holds_keys(
            inputs,
            source.derived_set(),
        ),
        Err(error) => result matches Err(failure) && failure@ == error,
    }
}

impl ZcashdSeedKind {
    /// The byte that stands for the era in a fingerprint.
    pub open spec fn spec_code(self) -> u8 {
        match self {
            ZcashdSeedKind::Bip39 => 0,
            ZcashdSeedKind::LegacyEntropy => 1,
        }
    }

    /// The byte that stands for the era in a fingerprint.
    #[verifier::when_used_as_spec(spec_code)]
    pub fn code(self) -> (code: u8)
        ensures
            code == self.spec_code(),
    {
        match self {
            ZcashdSeedKind::Bip39 => 0,
            ZcashdSeedKind::LegacyEntropy => 1,
        }
    }
}

/// The bytes that stand for `kinds` in a fingerprint.
pub open spec fn kind_codes(kinds: Seq<ZcashdSeedKind>) -> Seq<u8> {
    kinds.map_values(|kind: ZcashdSeedKind| kind.code())
}

/// What is hashed in place of the phrase itself.
pub open spec fn phrase_identity(phrase: Seq<char>) -> Seq<u8> {
    encode_utf8(PHRASE_ID_DOMAIN@) + encode_utf8(phrase)
}

/// What the fingerprint of a source is the digest of.
pub open spec fn fingerprint_preimage(source: KeySourceView) -> Seq<u8> {
    encode_utf8(FINGERPRINT_DOMAIN@) + encode_utf8(FINGERPRINT_LABEL@) + sha256(
        phrase_identity(source.phrase),
    )@ + le_bytes(source.network.coin_type()) + le_bytes(source.gaps.sapling) + le_bytes(
        source.gaps.transparent,
    ) + le_bytes(source.gaps.pre47_accounts) + kind_codes(source.kinds)
}

/// The digest of a source's fingerprint.
pub open spec fn fingerprint_digest(source: KeySourceView) -> [u8; 32] {
    sha256(fingerprint_preimage(source))
}

/// The name of a source's workspace directory.
pub open spec fn workspace_component(source: KeySourceView) -> Seq<char> {
    "zcashd-phrase-"@ + hex(fingerprint_digest(source)@)
}

/// The description of a search that covers so many keys.
pub open spec fn description(sapling: nat, transparent: nat, gaps: GapLimits) -> Seq<char> {
    "zcashd recovery phrase ("@ + decimal(sapling) + " sapling, "@ + decimal(transparent)
        + " transparent; gap "@ + decimal(gaps.sapling as nat) + "/"@ + decimal(
        gaps.transparent as nat,
    ) + ")"@
}

impl ZcashdPhraseKeySource {
    #[verifier::type_invariant]
    spec fn holds_derived_keys(self) -> bool {
        &&& holds_keys(self@, self.keys@)
        &&& self.kinds@.no_duplicates()
    }

    /// The keys that the source holds.
    pub closed spec fn derived_set(self) -> ImportedKeysView {
        self.keys@
    }

    /// Adds to `into` the keys since zcashd 4.7.0: Sapling at the legacy account, and
    /// transparent on both change branches.
    pub fn derive_post47(
        seed: &[u8; 64],
        network: ZeckNetwork,
        gaps: GapLimits,
        into: &mut ImportedKeys,
    ) -> (result: ZeckResult<()>)
        ensures
            extends_by(
                old(into)@,
                final(into)@,
                post47_keys(seed@, network, gaps),
                post47_gained(seed@, network, gaps),
                result,
            ),
            result is Ok ==> places_added(
                old(into)@,
                final(into)@,
                era_places(ZcashdSeedKind::Bip39, gaps),
            ),
    {
        let ghost branch = legacy_sapling_branch(seed@, network);
        let ghost mut sapling: Seq<Seq<u8>> = seq![];
        assert(into@ =~= old(into)@.append(sapling_set(sapling)));
        for index in 0..gaps.sapling
            invariant
                branch == legacy_sapling_branch(seed@, network),
                keys_below(branch, index as nat) == Ok::<Seq<Seq<u8>>, ErrorView>(sapling),
                into@ == old(into)@.append(sapling_set(sapling)),
                sapling.len() == index,
                places_added(
                    old(into)@,
                    into@,
                    era_places(ZcashdSeedKind::Bip39, gaps).take(index as int),
                ),
        {
            match legacy_sapling_spending_key(seed.as_slice(), network, index) {
                Ok(extsk) => {
                    push_sapling(into, &extsk);
                    proof {
                        let next = sapling.push(extsk@);
                        assert(hd_derived(next) =~= hd_derived(sapling) + hd_derived(seq![extsk@]));
                        sapling = next;
                        assert(into@ =~= old(into)@.append(sapling_set(sapling)));
                    }
                },
                Err(error) => {
                    proof {
                        assert(keys_gained(branch, index as nat) == sapling);
                        assert(keys_below(branch, (index + 1) as nat) is Err);
                        lemma_branch_failure_stays(branch, (index + 1) as nat, gaps.sapling as nat);
                    }
                    return Err(error);
                },
            }
        }
        let account = match legacy_transparent_account_key(seed, network) {
            Ok(account) => account,
            Err(error) => return Err(error),
        };
        match derive_transparent(&account, AddressScope::External, gaps.transparent, into) {
            Ok(_) => {},
            Err(error) => return Err(error),
        }
        let internal = derive_transparent(
            &account,
            AddressScope::Internal,
            gaps.transparent,
            into,
        );
        assert(into@ =~= old(into)@.append(post47_gained(seed@, network, gaps)));
        match internal {
            Ok(_) => {},
            Err(error) => return Err(error),
        }
        proof {
            let external = transparent_branch(account@, AddressScope::External);
            let internal = transparent_branch(account@, AddressScope::Internal);
            let outer = keys_below(external, gaps.transparent as nat)->Ok_0;
            let inner = keys_below(internal, gaps.transparent as nat)->Ok_0;
            assert(hd_derived(outer + inner) =~= hd_derived(outer) + hd_derived(inner));
            assert(into@ =~= old(into)@.append(post47_keys(seed@, network, gaps)->Ok_0));
        }
        Ok(())
    }

    /// Adds to `into` the keys from before zcashd 4.7.0: Sapling accounts under the
    /// entropy of the phrase.
    ///
    /// There is no transparent branch: those keys were drawn at random, and any
    /// derived here would be addresses that the wallet never had.
    pub fn derive_pre47(
        seed: &[u8],
        network: ZeckNetwork,
        gaps: GapLimits,
        into: &mut ImportedKeys,
    ) -> (result: ZeckResult<()>)
        ensures
            extends_by(
                old(into)@,
                final(into)@,
                pre47_keys(seed@, network, gaps),
                pre47_gained(seed@, network, gaps),
                result,
            ),
            final(into)@.transparent == old(into)@.transparent,
            result is Ok ==> places_added(
                old(into)@,
                final(into)@,
                era_places(ZcashdSeedKind::LegacyEntropy, gaps),
            ),
    {
        let ghost branch = pre47_sapling_branch(seed@, network);
        let ghost mut sapling: Seq<Seq<u8>> = seq![];
        assert(into@ =~= old(into)@.append(sapling_set(sapling)));
        for account in 0..gaps.pre47_accounts
            invariant
                branch == pre47_sapling_branch(seed@, network),
                keys_below(branch, account as nat) == Ok::<Seq<Seq<u8>>, ErrorView>(sapling),
                into@ == old(into)@.append(sapling_set(sapling)),
                sapling.len() == account,
                places_added(
                    old(into)@,
                    into@,
                    era_places(ZcashdSeedKind::LegacyEntropy, gaps).take(account as int),
                ),
        {
            match pre47_sapling_spending_key(seed, network, account) {
                Ok(extsk) => {
                    push_sapling(into, &extsk);
                    proof {
                        let next = sapling.push(extsk@);
                        assert(hd_derived(next) =~= hd_derived(sapling) + hd_derived(seq![extsk@]));
                        sapling = next;
                        assert(into@ =~= old(into)@.append(sapling_set(sapling)));
                    }
                },
                Err(error) => {
                    proof {
                        assert(keys_gained(branch, account as nat) == sapling);
                        assert(keys_below(branch, (account + 1) as nat) is Err);
                        lemma_branch_failure_stays(
                            branch,
                            (account + 1) as nat,
                            gaps.pre47_accounts as nat,
                        );
                    }
                    return Err(error);
                },
            }
        }
        Ok(())
    }

    /// Derives the eras `kinds` in order.
    fn build(
        phrase: SecretString,
        network: ZeckNetwork,
        kinds: Vec<ZcashdSeedKind>,
        gaps: GapLimits,
    ) -> (result: ZeckResult<ZcashdPhraseKeySource>)
        requires
            kinds@.no_duplicates(),
        ensures
            makes_source(
                (KeySourceView { phrase: phrase@, network, kinds: kinds@, gaps }),
                result,
            ),
    {
        let mut keys = ImportedKeys::default();
        assert(kinds@.take(0) =~= Seq::<ZcashdSeedKind>::empty());
        for i in 0..kinds.len()
            invariant
                derived_keys(phrase@, network, kinds@.take(i as int), gaps) == Ok::<
                    ImportedKeysView,
                    ErrorView,
                >(keys@),
                sapling_keys_stand_at(keys@, sapling_places(kinds@.take(i as int), gaps)),
        {
            let ghost before = keys@;
            assert(kinds@.take(i + 1).drop_last() =~= kinds@.take(i as int));
            let derived = match kinds[i] {
                ZcashdSeedKind::Bip39 => match bip39_seed(&phrase) {
                    Ok(seed) => Self::derive_post47(seed.expose_secret(), network, gaps, &mut keys),
                    Err(error) => Err(error),
                },
                ZcashdSeedKind::LegacyEntropy => match legacy_entropy_seed(&phrase) {
                    Ok(seed) => Self::derive_pre47(
                        seed.expose_secret().as_slice(),
                        network,
                        gaps,
                        &mut keys,
                    ),
                    Err(error) => Err(error),
                },
            };
            if let Err(error) = derived {
                proof {
                    lemma_era_failure_stays(phrase@, network, kinds@, gaps, i + 1);
                }
                return Err(error);
            }
            assert(places_added(before, keys@, era_places(kinds@[i as int], gaps)));
            assert(forall|j: int|
                0 <= j < before.sapling.len() ==> #[trigger] keys@.sapling[j] == before.sapling[j]);
        }
        assert(kinds@.take(kinds@.len() as int) =~= kinds@);
        proof {
            lemma_places_distinct(kinds@, gaps);
            lemma_keys_distinct(keys@, sapling_places(kinds@, gaps));
            law_what_a_source_derives(
                KeySourceView { phrase: phrase@, network, kinds: kinds@, gaps },
            );
        }
        Ok(ZcashdPhraseKeySource { network, gaps, keys, phrase, kinds })
    }

    /// Derives one era. Where the era of a wallet is not known, use
    /// [`Self::derive_all`].
    pub fn new(
        phrase: SecretString,
        network: ZeckNetwork,
        kind: ZcashdSeedKind,
        gaps: GapLimits,
    ) -> (result: ZeckResult<ZcashdPhraseKeySource>)
        ensures
            makes_source(
                (KeySourceView { phrase: phrase@, network, kinds: seq![kind], gaps }),
                result,
            ),
    {
        let kinds = vec![kind];
        assert(kinds@ =~= seq![kind]);
        Self::build(phrase, network, kinds, gaps)
    }

    /// Derives both eras, the later one first. To guess the wrong era is not an error
    /// that a scan can report, so this is the entry point to prefer.
    pub fn derive_all(phrase: SecretString, network: ZeckNetwork, gaps: GapLimits) -> (result:
        ZeckResult<ZcashdPhraseKeySource>)
        ensures
            makes_source(
                (KeySourceView { phrase: phrase@, network, kinds: all_kinds(), gaps }),
                result,
            ),
    {
        let kinds = vec![ZcashdSeedKind::Bip39, ZcashdSeedKind::LegacyEntropy];
        assert(kinds@ =~= all_kinds());
        Self::build(phrase, network, kinds, gaps)
    }

    /// The network whose keys were derived.
    pub fn network(&self) -> (network: ZeckNetwork)
        ensures
            network == self@.network,
    {
        self.network
    }

    /// How far each branch was derived.
    pub fn gap_limits(&self) -> (gaps: GapLimits)
        ensures
            gaps == self@.gaps,
    {
        self.gaps
    }

    /// Derives the same phrase, network and eras again, with other gap limits.
    ///
    /// A scan that found funds at the edge of its window widens rather than starts
    /// over. The fingerprint changes with the limits, so the wider search gets a
    /// workspace of its own.
    pub fn widen(&self, gaps: GapLimits) -> (result: ZeckResult<ZcashdPhraseKeySource>)
        ensures
            makes_source((KeySourceView { gaps, ..self@ }), result),
    {
        proof {
            use_type_invariant(self);
        }
        let kinds = self.kinds.clone();
        assert(kinds@ =~= self.kinds@);
        Self::build(self.phrase.clone(), self.network, kinds, gaps)
    }

    /// The keys that the source holds: those that follow from what it was made from.
    ///
    /// Every Sapling key is valid, and no two of them are the same.
    pub fn imported_keys(&self) -> (keys: Option<&ImportedKeys>)
        ensures
            keys matches Some(keys) && keys@ == self.derived_set() && holds_keys(self@, keys@),
    {
        proof {
            use_type_invariant(self);
        }
        Some(&self.keys)
    }

    /// No seed, ever.
    ///
    /// A caller that is given a seed enumerates the standard accounts of ZIP 32 under
    /// it, and the legacy addresses are on none of them: the scan would succeed and
    /// find nothing.
    pub fn wallet_seed(&self) -> (seed: ZeckResult<Option<[u8; 64]>>)
        ensures
            seed == Ok::<Option<[u8; 64]>, ZeckError>(None),
    {
        Ok(None)
    }

    /// A digest of the phrase, the network, the gap limits and the eras.
    ///
    /// The keys are a function of these, so it does not hash the keys: it stays the
    /// same should their order ever change.
    pub fn fingerprint(&self) -> (result: ZeckResult<KeySourceFingerprint>)
        ensures
            result matches Ok(fingerprint) && fingerprint@ == fingerprint_digest(self@),
    {
        let mut identity: Vec<u8> = Vec::new();
        push_bytes(&mut identity, PHRASE_ID_DOMAIN.as_bytes());
        push_bytes(&mut identity, self.phrase.expose_secret().as_bytes());
        let identity = SecretBytes::new(identity);
        let phrase_id = sha256_digest(identity.expose_secret().as_slice());

        let mut preimage: Vec<u8> = Vec::new();
        push_bytes(&mut preimage, FINGERPRINT_DOMAIN.as_bytes());
        push_bytes(&mut preimage, FINGERPRINT_LABEL.as_bytes());
        push_bytes(&mut preimage, phrase_id.as_slice());
        push_le_bytes(&mut preimage, self.network.coin_type());
        push_le_bytes(&mut preimage, self.gaps.sapling);
        push_le_bytes(&mut preimage, self.gaps.transparent);
        push_le_bytes(&mut preimage, self.gaps.pre47_accounts);
        let ghost before_kinds = preimage@;
        for i in 0..self.kinds.len()
            invariant
                preimage@ == before_kinds + kind_codes(self.kinds@.take(i as int)),
        {
            preimage.push(self.kinds[i].code());
            assert(preimage@ =~= before_kinds + kind_codes(self.kinds@.take(i + 1)));
        }
        assert(self.kinds@.take(self.kinds@.len() as int) =~= self.kinds@);
        Ok(KeySourceFingerprint::from_digest(sha256_digest(preimage.as_slice())))
    }

    /// The name of the source's workspace directory. Its label keeps it apart from
    /// the names of other kinds of source.
    pub fn workspace_path_component(&self) -> (result: ZeckResult<String>)
        ensures
            result matches Ok(component) && component@ == workspace_component(self@),
    {
        let fingerprint = match self.fingerprint() {
            Ok(fingerprint) => fingerprint,
            Err(error) => return Err(error),
        };
        let digest = fingerprint.to_hex();
        let mut component = "zcashd-phrase-".to_owned();
        component.append(digest.as_str());
        Ok(component)
    }

    /// One line on the search, for logs: how many keys it covers, and its limits.
    pub fn describe(&self) -> (text: String)
        ensures
            self@.derived() matches Ok(keys) && text@ == description(
                keys.sapling.len(),
                keys.transparent.len(),
                self@.gaps,
            ),
    {
        proof {
            use_type_invariant(self);
        }
        let sapling = decimal_text(self.keys.sapling.len() as u64);
        let transparent = decimal_text(self.keys.transparent.len() as u64);
        let sapling_gap = decimal_text(self.gaps.sapling as u64);
        let transparent_gap = decimal_text(self.gaps.transparent as u64);
        let mut text = "zcashd recovery phrase (".to_owned();
        text.append(sapling.as_str());
        text.append(" sapling, ");
        text.append(transparent.as_str());
        text.append(" transparent; gap ");
        text.append(sapling_gap.as_str());
        text.append("/");
        text.append(transparent_gap.as_str());
        text.append(")");
        text
    }
}

/// The error for a key that is not the encoding of a Sapling key.
pub open spec fn undecodable_key_error() -> ErrorView {
    ErrorView::Internal("a derived Sapling key failed to round-trip"@)
}

/// The default addresses of the Sapling keys of `keys` on the chain `params`, in
/// order, or an error where one of the keys does not decode.
pub open spec fn addresses_of(keys: ImportedKeysView, params: ConsensusNetwork) -> Result<
    Seq<Seq<char>>,
    ErrorView,
> {
    if sapling_keys_decode(keys) {
        Ok(
            keys.sapling.map_values(
                |key: KeyView| sapling_default_address(params.sapling_prefix(), key.bytes),
            ),
        )
    } else {
        Err(undecodable_key_error())
    }
}

/// A list of addresses, or an error, as values.
pub open spec fn address_result(result: ZeckResult<Vec<String>>) -> Result<
    Seq<Seq<char>>,
    ErrorView,
> {
    match result {
        Ok(addresses) => Ok(addresses@.map_values(|address: String| address@)),
        Err(error) => Err(error@),
    }
}

/// Whether every address of `addresses` begins as the chain `params` asks.
pub open spec fn all_belong_to(addresses: Seq<String>, params: ConsensusNetwork) -> bool {
    forall|i: int|
        0 <= i < addresses.len() ==> begins_with_prefix(
            (#[trigger] addresses[i])@,
            params.sapling_prefix(),
        )
}

/// The default Sapling address of every key in `keys`, under the address encoding in
/// force for `network`. `installed` is the encoding that the program has installed for
/// its whole process, if it has.
///
/// It shows which addresses a search will cover. Without a wallet file to compare
/// with, that is the only evidence that the right derivation ran. A private regtest
/// chain shares its keys with testnet, and its nodes reject testnet's addresses: that
/// is why the network alone does not decide.
pub fn sapling_addresses(
    keys: &ImportedKeys,
    network: ZeckNetwork,
    installed: Option<ConsensusNetwork>,
) -> (result: ZeckResult<Vec<String>>)
    ensures
        address_result(result) == addresses_of(keys@, network.encoding_in_force(installed)),
        result matches Ok(addresses) ==> {
            &&& addresses@.len() == keys@.sapling.len()
            &&& forall|i: int|
                0 <= i < keys@.sapling.len() ==> (#[trigger] keys@.sapling[i]).bytes.len() == 169
            &&& all_belong_to(addresses@, network.encoding_in_force(installed))
        },
{
    let params = network.encoding_in_force(installed);
    let prefix = params.hrp_sapling_payment_address();
    let mut addresses: Vec<String> = Vec::new();
    for i in 0..keys.sapling.len()
        invariant
            prefix@ == params.sapling_prefix(),
            prefix.spec_bytes().len() <= 83,
            is_lower_case(prefix@),
            addresses@.len() == i,
            all_belong_to(addresses@, params),
            forall|j: int|
                0 <= j < i ==> sapling_key_decodes(#[trigger] keys@.sapling[j].bytes)
                    && keys@.sapling[j].bytes.len() == 169 && addresses@[j]@ == sapling_default_address(
                    params.sapling_prefix(),
                    keys@.sapling[j].bytes,
                ),
    {
        match default_address(prefix, keys.sapling[i].extsk.expose_secret().as_slice()) {
            Ok(address) => {
                assert(keys@.sapling[i as int].bytes == keys.sapling@[i as int].extsk@);
                addresses.push(address);
            },
            Err(_) => {
                assert(!sapling_key_decodes(keys@.sapling[i as int].bytes));
                return Err(
                    ZeckError::Internal("a derived Sapling key failed to round-trip".to_owned()),
                );
            },
        }
    }
    assert(address_result(Ok(addresses))->Ok_0 =~= addresses_of(keys@, params)->Ok_0);
    Ok(addresses)
}

} // verus!
