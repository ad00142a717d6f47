//! What holds of the library as a whole.
//!
//! Each law is stated over the spec functions that the contracts of the executable
//! functions use.
use crate::bytes::le_bytes;
use crate::bytes::lemma_le_bytes_injective;
use crate::error::ErrorView;
use crate::error::ZeckResult;
use crate::fingerprint::FINGERPRINT_DOMAIN;
use crate::fingerprint::sha256;
use crate::fingerprint::sha256_collides;
use crate::keys::ImportedKeysView;
use crate::keys::KeyView;
use crate::keys::all_hd_derived;
use crate::mnemonic::is_mnemonic;
use crate::mnemonic::mnemonic_entropy;
use crate::models::AddressScope;
use crate::models::ConsensusNetwork;
use crate::models::ZeckNetwork;
use crate::sapling::HARDENED_KEY_LIMIT;
use crate::sapling::begins_with_prefix;
use crate::sapling::hardened_range_error;
use crate::sapling::no_key_error;
use crate::sapling::sapling_child;
use crate::sapling::sapling_key_at;
use crate::sapling::sapling_key_decodes;
use crate::search::KeySourceView;
use crate::search::all_kinds;
use crate::search::bip39_seed_of;
use crate::search::derived_keys;
use crate::search::era_keys;
use crate::search::extends_by;
use crate::search::holds_keys;
use crate::search::invalid_phrase_error;
use crate::search::keys_below;
use crate::search::keys_differ;
use crate::search::keys_gained;
use crate::search::legacy_sapling_branch;
use crate::search::legacy_sapling_path;
use crate::search::post47_gained;
use crate::search::post47_keys;
use crate::search::pre47_gained;
use crate::search::pre47_keys;
use crate::search::pre47_sapling_branch;
use crate::search::pre47_sapling_path;
use crate::search::sapling_keys_decode;
use crate::search::stands_at;
use crate::search::transparent_branch;
use crate::text::digit_char;
use crate::text::hex;
use crate::transparent::account_key_at;
use crate::transparent::secret_key_at;
use crate::zcashd_phrase::FINGERPRINT_LABEL;
use crate::zcashd_phrase::GapLimits;
use crate::zcashd_phrase::PHRASE_ID_DOMAIN;
use crate::zcashd_phrase::ZCASH_LEGACY_ACCOUNT;
use crate::zcashd_phrase::ZcashdPhraseKeySource;
use crate::zcashd_phrase::ZcashdSeedKind;
use crate::zcashd_phrase::addresses_of;
use crate::zcashd_phrase::description;
use crate::zcashd_phrase::fingerprint_digest;
use crate::zcashd_phrase::fingerprint_preimage;
use crate::zcashd_phrase::kind_codes;
use crate::zcashd_phrase::makes_source;
use crate::zcashd_phrase::phrase_identity;
use crate::zcashd_phrase::workspace_component;
use vstd::prelude::*;
use vstd::string::*;
use vstd::utf8::encode_utf8;
use vstd::utf8::encode_utf8_decode_utf8;
use vstd::utf8::is_ascii_chars_encode_utf8;

verus! {

// ---- Branches ----

/// A branch that succeeds below `count` has one key for each index below it: the key
/// at that index. It succeeds below every smaller number too, with the first of those
/// keys.
pub proof fn law_a_shorter_branch_is_a_prefix(
    branch: spec_fn(u32) -> Result<Seq<u8>, ErrorView>,
    shorter: nat,
    count: nat,
)
    requires
        shorter <= count <= u32::MAX,
        keys_below(branch, count) is Ok,
    ensures
        keys_below(branch, count)->Ok_0.len() == count,
        forall|i: int|
            0 <= i < count ==> branch(i as u32) == Ok::<Seq<u8>, ErrorView>(
                #[trigger] keys_below(branch, count)->Ok_0[i],
            ),
        keys_below(branch, shorter) is Ok,
        keys_below(branch, shorter)->Ok_0 == keys_below(branch, count)->Ok_0.take(shorter as int),
    decreases count,
{
    if count > 0 {
        let before = (count - 1) as nat;
        let all = keys_below(branch, count)->Ok_0;
        if shorter < count {
            law_a_shorter_branch_is_a_prefix(branch, shorter, before);
            assert(all.take(shorter as int) =~= keys_below(branch, before)->Ok_0.take(
                shorter as int,
            ));
        } else {
            law_a_shorter_branch_is_a_prefix(branch, before, before);
            assert(all.take(shorter as int) =~= all);
        }
    }
}

/// A branch fails below a number with an index that has no key before it.
pub proof fn law_a_failing_index_fails_the_branch(
    branch: spec_fn(u32) -> Result<Seq<u8>, ErrorView>,
    index: u32,
    count: nat,
)
    requires
        index < count <= u32::MAX,
        branch(index) is Err,
    ensures
        keys_below(branch, count) is Err,
{
    if keys_below(branch, count) is Ok {
        law_a_shorter_branch_is_a_prefix(branch, count, count);
        let key = keys_below(branch, count)->Ok_0[index as int];
        assert(branch(index) == Ok::<Seq<u8>, ErrorView>(key));
    }
}

/// A branch that fails below `count` has gained the keys of all indices before the
/// first one without a key, and its error is the error of that index.
pub proof fn law_a_failed_branch_keeps_the_keys_before_it(
    branch: spec_fn(u32) -> Result<Seq<u8>, ErrorView>,
    count: nat,
) -> (failing: nat)
    requires
        count <= u32::MAX,
        keys_below(branch, count) is Err,
    ensures
        failing < count,
        keys_below(branch, failing) == Ok::<Seq<Seq<u8>>, ErrorView>(keys_gained(branch, count)),
        branch(failing as u32) is Err,
        keys_below(branch, count)->Err_0 == branch(failing as u32)->Err_0,
    decreases count,
{
    let before = (count - 1) as nat;
    if keys_below(branch, before) is Err {
        law_a_failed_branch_keeps_the_keys_before_it(branch, before)
    } else {
        assert(keys_gained(branch, before) == keys_below(branch, before)->Ok_0);
        before
    }
}

// ---- Paths ----

/// The legacy key at an address index is the child at that index of the standard
/// account key at the legacy account, and fails where that key fails.
pub proof fn law_legacy_path_extends_the_account_path(
    seed: Seq<u8>,
    network: ZeckNetwork,
    address_index: u32,
)
    ensures
        sapling_key_at(seed, legacy_sapling_path(network, address_index)) == match sapling_key_at(
            seed,
            pre47_sapling_path(network, ZCASH_LEGACY_ACCOUNT),
        ) {
            Err(error) => Err::<Seq<u8>, ErrorView>(error),
            Ok(account) => if address_index >= HARDENED_KEY_LIMIT {
                Err(hardened_range_error(address_index))
            } else {
                match sapling_child(account, address_index) {
                    Some(key) => Ok(key),
                    None => Err(no_key_error()),
                }
            },
        },
{
    assert(legacy_sapling_path(network, address_index).drop_last() =~= pre47_sapling_path(
        network,
        ZCASH_LEGACY_ACCOUNT,
    ));
}

/// No two keys are searched at one path: the paths of one era differ wherever the
/// network or the index does, and no path of one era is a path of the other.
pub proof fn law_paths_differ(a: ZeckNetwork, b: ZeckNetwork, i: u32, j: u32)
    ensures
        legacy_sapling_path(a, i) == legacy_sapling_path(b, j) <==> a == b && i == j,
        pre47_sapling_path(a, i) == pre47_sapling_path(b, j) <==> a == b && i == j,
        legacy_sapling_path(a, i) != pre47_sapling_path(b, j),
{
    let (l, m) = (legacy_sapling_path(a, i), legacy_sapling_path(b, j));
    let (p, q) = (pre47_sapling_path(a, i), pre47_sapling_path(b, j));
    assert(l[1] == a.coin_type() && m[1] == b.coin_type() && l[3] == i && m[3] == j);
    assert(p[1] == a.coin_type() && q[1] == b.coin_type() && p[2] == i && q[2] == j);
    assert(l.len() == 4 && q.len() == 3);
}

/// The key at one place is never the key at another: legacy keys differ from index to
/// index, so do account keys, and no legacy key is an account key, whatever the seeds
/// and the networks.
pub proof fn law_keys_at_different_places_differ(
    a: Seq<u8>,
    b: Seq<u8>,
    depth_a: u8,
    depth_b: u8,
    index_a: u32,
    index_b: u32,
)
    requires
        stands_at(a, depth_a, index_a),
        stands_at(b, depth_b, index_b),
        depth_a != depth_b || index_a != index_b,
    ensures
        a != b,
{
    if a == b {
        lemma_le_bytes_injective(
            (index_a + HARDENED_KEY_LIMIT) as u32,
            (index_b + HARDENED_KEY_LIMIT) as u32,
        );
    }
}

/// A search that runs past the last hardened or non-hardened index fails: it neither
/// panics nor comes back short.
pub proof fn law_a_limit_out_of_range_fails(
    phrase: Seq<char>,
    network: ZeckNetwork,
    kind: ZcashdSeedKind,
    gaps: GapLimits,
)
    requires
        match kind {
            ZcashdSeedKind::Bip39 => gaps.sapling > HARDENED_KEY_LIMIT || gaps.transparent
                > HARDENED_KEY_LIMIT,
            ZcashdSeedKind::LegacyEntropy => gaps.pre47_accounts > HARDENED_KEY_LIMIT,
        },
    ensures
        era_keys(phrase, network, kind, gaps) is Err,
{
    if era_keys(phrase, network, kind, gaps) is Ok {
        let limit = HARDENED_KEY_LIMIT;
        match kind {
            ZcashdSeedKind::Bip39 => {
                let seed = bip39_seed_of(phrase);
                assert(legacy_sapling_path(network, limit).last() == limit);
                if gaps.sapling > limit {
                    law_a_failing_index_fails_the_branch(
                        legacy_sapling_branch(seed, network),
                        limit,
                        gaps.sapling as nat,
                    );
                } else {
                    let account = account_key_at(seed, network, ZCASH_LEGACY_ACCOUNT)->Ok_0;
                    law_a_failing_index_fails_the_branch(
                        transparent_branch(account, AddressScope::External),
                        limit,
                        gaps.transparent as nat,
                    );
                }
            },
            ZcashdSeedKind::LegacyEntropy => {
                let seed = mnemonic_entropy(phrase)->Some_0;
                assert(pre47_sapling_path(network, limit).last() == limit);
                law_a_failing_index_fails_the_branch(
                    pre47_sapling_branch(seed, network),
                    limit,
                    gaps.pre47_accounts as nat,
                );
            },
        }
    }
}

// ---- Eras ----

/// A phrase that is not a mnemonic is rejected in every era, with one and the same
/// error, whatever the phrase, the network and the limits.
pub proof fn law_an_invalid_phrase_is_rejected(
    phrase: Seq<char>,
    network: ZeckNetwork,
    kinds: Seq<ZcashdSeedKind>,
    gaps: GapLimits,
)
    requires
        !is_mnemonic(phrase),
        kinds.len() > 0,
    ensures
        derived_keys(phrase, network, kinds, gaps) == Err::<ImportedKeysView, ErrorView>(
            invalid_phrase_error(),
        ),
    decreases kinds.len(),
{
    reveal_with_fuel(derived_keys, 2);
    if kinds.len() > 1 {
        law_an_invalid_phrase_is_rejected(phrase, network, kinds.drop_last(), gaps);
    }
}

/// Deriving one era gives that era's keys or its error.
pub proof fn law_one_era_alone(
    phrase: Seq<char>,
    network: ZeckNetwork,
    kind: ZcashdSeedKind,
    gaps: GapLimits,
)
    ensures
        derived_keys(phrase, network, seq![kind], gaps) == era_keys(phrase, network, kind, gaps),
{
    let kinds = seq![kind];
    assert(kinds.drop_last() =~= Seq::<ZcashdSeedKind>::empty());
    reveal_with_fuel(derived_keys, 2);
    if let Ok(keys) = era_keys(phrase, network, kind, gaps) {
        assert(ImportedKeysView::empty().append(keys) =~= keys);
    }
}

/// Deriving all eras gives the keys since zcashd 4.7.0 followed by those from before
/// it, in each pool, and fails where either era fails.
pub proof fn law_all_eras_are_both_key_sets(
    phrase: Seq<char>,
    network: ZeckNetwork,
    gaps: GapLimits,
)
    ensures
        derived_keys(phrase, network, all_kinds(), gaps) == match era_keys(
            phrase,
            network,
            ZcashdSeedKind::Bip39,
            gaps,
        ) {
            Err(error) => Err::<ImportedKeysView, ErrorView>(error),
            Ok(post47) => match era_keys(phrase, network, ZcashdSeedKind::LegacyEntropy, gaps) {
                Err(error) => Err(error),
                Ok(pre47) => Ok(post47.append(pre47)),
            },
        },
{
    assert(all_kinds().drop_last() =~= seq![ZcashdSeedKind::Bip39]);
    law_one_era_alone(phrase, network, ZcashdSeedKind::Bip39, gaps);
}

/// The number of Sapling keys that an era derives.
pub open spec fn era_sapling_count(kind: ZcashdSeedKind, gaps: GapLimits) -> nat {
    match kind {
        ZcashdSeedKind::Bip39 => gaps.sapling as nat,
        ZcashdSeedKind::LegacyEntropy => gaps.pre47_accounts as nat,
    }
}

/// The number of transparent keys that an era derives: two branches, or none.
pub open spec fn era_transparent_count(kind: ZcashdSeedKind, gaps: GapLimits) -> nat {
    match kind {
        ZcashdSeedKind::Bip39 => 2 * gaps.transparent as nat,
        ZcashdSeedKind::LegacyEntropy => 0,
    }
}

/// One era derives as many keys as its limits ask for, all of them from the seed, and
/// no Sprout key. Before zcashd 4.7.0 there is no transparent key either.
pub proof fn law_what_an_era_derives(
    phrase: Seq<char>,
    network: ZeckNetwork,
    kind: ZcashdSeedKind,
    gaps: GapLimits,
)
    ensures
        era_keys(phrase, network, kind, gaps) matches Ok(keys) ==> {
            &&& keys.sapling.len() == era_sapling_count(kind, gaps)
            &&& keys.transparent.len() == era_transparent_count(kind, gaps)
            &&& keys.sprout.len() == 0
            &&& all_hd_derived(keys.sapling)
            &&& all_hd_derived(keys.transparent)
        },
{
    if era_keys(phrase, network, kind, gaps) is Ok {
        match kind {
            ZcashdSeedKind::Bip39 => {
                let seed = bip39_seed_of(phrase);
                let account = account_key_at(seed, network, ZCASH_LEGACY_ACCOUNT)->Ok_0;
                let sapling = gaps.sapling as nat;
                let transparent = gaps.transparent as nat;
                law_a_shorter_branch_is_a_prefix(
                    legacy_sapling_branch(seed, network),
                    sapling,
                    sapling,
                );
                law_a_shorter_branch_is_a_prefix(
                    transparent_branch(account, AddressScope::External),
                    transparent,
                    transparent,
                );
                law_a_shorter_branch_is_a_prefix(
                    transparent_branch(account, AddressScope::Internal),
                    transparent,
                    transparent,
                );
            },
            ZcashdSeedKind::LegacyEntropy => {
                let seed = mnemonic_entropy(phrase)->Some_0;
                let accounts = gaps.pre47_accounts as nat;
                law_a_shorter_branch_is_a_prefix(
                    pre47_sapling_branch(seed, network),
                    accounts,
                    accounts,
                );
            },
        }
    }
}

/// The number of Sapling keys that the eras `kinds` derive.
pub open spec fn sapling_count(kinds: Seq<ZcashdSeedKind>, gaps: GapLimits) -> nat
    decreases kinds.len(),
{
    if kinds.len() == 0 {
        0
    } else {
        sapling_count(kinds.drop_last(), gaps) + era_sapling_count(kinds.last(), gaps)
    }
}

/// The number of transparent keys that the eras `kinds` derive.
pub open spec fn transparent_count(kinds: Seq<ZcashdSeedKind>, gaps: GapLimits) -> nat
    decreases kinds.len(),
{
    if kinds.len() == 0 {
        0
    } else {
        transparent_count(kinds.drop_last(), gaps) + era_transparent_count(kinds.last(), gaps)
    }
}

/// How many keys a source derives follows from its eras and limits alone. All of them
/// come from the seed, and a phrase never yields a Sprout key.
pub proof fn law_what_a_source_derives(source: KeySourceView)
    ensures
        source.derived() matches Ok(keys) ==> {
            &&& keys.sapling.len() == sapling_count(source.kinds, source.gaps)
            &&& keys.transparent.len() == transparent_count(source.kinds, source.gaps)
            &&& keys.sprout.len() == 0
            &&& all_hd_derived(keys.sapling)
            &&& all_hd_derived(keys.transparent)
        },
    decreases source.kinds.len(),
{
    if source.kinds.len() > 0 {
        law_what_a_source_derives(KeySourceView { kinds: source.kinds.drop_last(), ..source });
        law_what_an_era_derives(source.phrase, source.network, source.kinds.last(), source.gaps);
    }
}

/// Deriving all eras gives as many Sapling keys as the limits for addresses and for
/// accounts add up to, and as many transparent keys as two branches hold.
pub proof fn law_counts_of_all_eras(phrase: Seq<char>, network: ZeckNetwork, gaps: GapLimits)
    ensures
        derived_keys(phrase, network, all_kinds(), gaps) matches Ok(keys) ==> {
            &&& keys.sapling.len() == gaps.sapling + gaps.pre47_accounts
            &&& keys.transparent.len() == 2 * gaps.transparent
            &&& keys.sprout.len() == 0
        },
{
    law_what_a_source_derives(KeySourceView { phrase, network, kinds: all_kinds(), gaps });
    assert(all_kinds().drop_last() =~= seq![ZcashdSeedKind::Bip39]);
    assert(seq![ZcashdSeedKind::Bip39].drop_last() =~= Seq::<ZcashdSeedKind>::empty());
    reveal_with_fuel(sapling_count, 3);
    reveal_with_fuel(transparent_count, 3);
}

/// The keys since zcashd 4.7.0, index by index: the Sapling key of each address index
/// below its limit stands at that index. The external transparent keys stand in front
/// of the internal ones, each at its own index.
pub proof fn law_where_each_post47_key_stands(
    phrase: Seq<char>,
    network: ZeckNetwork,
    gaps: GapLimits,
    index: u32,
)
    requires
        era_keys(phrase, network, ZcashdSeedKind::Bip39, gaps) is Ok,
    ensures
        ({
            let seed = bip39_seed_of(phrase);
            let keys = era_keys(phrase, network, ZcashdSeedKind::Bip39, gaps)->Ok_0;
            &&& index < gaps.sapling ==> sapling_key_at(seed, legacy_sapling_path(network, index))
                == Ok::<Seq<u8>, ErrorView>(keys.sapling[index as int].bytes)
            &&& account_key_at(seed, network, ZCASH_LEGACY_ACCOUNT) matches Ok(account) && (index
                < gaps.transparent ==> {
                &&& secret_key_at(account, AddressScope::External, index) == Ok::<
                    Seq<u8>,
                    ErrorView,
                >(keys.transparent[index as int].bytes)
                &&& secret_key_at(account, AddressScope::Internal, index) == Ok::<
                    Seq<u8>,
                    ErrorView,
                >(keys.transparent[gaps.transparent + index].bytes)
            })
        }),
{
    let seed = bip39_seed_of(phrase);
    let account = account_key_at(seed, network, ZCASH_LEGACY_ACCOUNT)->Ok_0;
    let sapling = legacy_sapling_branch(seed, network);
    let external = transparent_branch(account, AddressScope::External);
    let internal = transparent_branch(account, AddressScope::Internal);
    let transparent = gaps.transparent as nat;
    law_a_shorter_branch_is_a_prefix(sapling, 0, gaps.sapling as nat);
    law_a_shorter_branch_is_a_prefix(external, 0, transparent);
    law_a_shorter_branch_is_a_prefix(internal, 0, transparent);
    if index < gaps.sapling {
        let key = keys_below(sapling, gaps.sapling as nat)->Ok_0[index as int];
        assert(sapling(index) == Ok::<Seq<u8>, ErrorView>(key));
    }
    if index < gaps.transparent {
        let outer = keys_below(external, transparent)->Ok_0[index as int];
        let inner = keys_below(internal, transparent)->Ok_0[index as int];
        assert(external(index) == Ok::<Seq<u8>, ErrorView>(outer));
        assert(internal(index) == Ok::<Seq<u8>, ErrorView>(inner));
    }
}

/// The keys from before zcashd 4.7.0, account by account: the Sapling key of each
/// account below its limit, under the entropy of the phrase, stands at that account's
/// number.
pub proof fn law_where_each_pre47_key_stands(
    phrase: Seq<char>,
    network: ZeckNetwork,
    gaps: GapLimits,
    account: u32,
)
    requires
        era_keys(phrase, network, ZcashdSeedKind::LegacyEntropy, gaps) is Ok,
        account < gaps.pre47_accounts,
    ensures
        mnemonic_entropy(phrase) matches Some(seed) && sapling_key_at(
            seed,
            pre47_sapling_path(network, account),
        ) == Ok::<Seq<u8>, ErrorView>(
            era_keys(
                phrase,
                network,
                ZcashdSeedKind::LegacyEntropy,
                gaps,
            )->Ok_0.sapling[account as int].bytes,
        ),
{
    let branch = pre47_sapling_branch(mnemonic_entropy(phrase)->Some_0, network);
    let count = gaps.pre47_accounts as nat;
    law_a_shorter_branch_is_a_prefix(branch, 0, count);
    let key = keys_below(branch, count)->Ok_0[account as int];
    assert(branch(account) == Ok::<Seq<u8>, ErrorView>(key));
}

/// The limit for accounts has no effect on the keys since zcashd 4.7.0: two derivations
/// that start from the same keys, with the same seed and network and the same limits
/// for addresses, end alike, with success or the same error, and leave the same keys.
pub proof fn law_the_account_limit_has_no_effect_after_47(
    seed: Seq<u8>,
    network: ZeckNetwork,
    a: GapLimits,
    b: GapLimits,
    before: ImportedKeysView,
    after_a: ImportedKeysView,
    after_b: ImportedKeysView,
    result_a: ZeckResult<()>,
    result_b: ZeckResult<()>,
)
    requires
        a.sapling == b.sapling,
        a.transparent == b.transparent,
        extends_by(
            before,
            after_a,
            post47_keys(seed, network, a),
            post47_gained(seed, network, a),
            result_a,
        ),
        extends_by(
            before,
            after_b,
            post47_keys(seed, network, b),
            post47_gained(seed, network, b),
            result_b,
        ),
    ensures
        post47_keys(seed, network, a) == post47_keys(seed, network, b),
        after_a == after_b,
        result_a is Ok <==> result_b is Ok,
        result_a is Err ==> result_a->Err_0@ == result_b->Err_0@,
{
}

/// The limits for addresses have no effect on the keys from before zcashd 4.7.0: two
/// derivations that start from the same keys, with the same seed and network and the
/// same limit for accounts, end alike, with success or the same error, and leave the
/// same keys.
pub proof fn law_the_address_limits_have_no_effect_before_47(
    seed: Seq<u8>,
    network: ZeckNetwork,
    a: GapLimits,
    b: GapLimits,
    before: ImportedKeysView,
    after_a: ImportedKeysView,
    after_b: ImportedKeysView,
    result_a: ZeckResult<()>,
    result_b: ZeckResult<()>,
)
    requires
        a.pre47_accounts == b.pre47_accounts,
        extends_by(
            before,
            after_a,
            pre47_keys(seed, network, a),
            pre47_gained(seed, network, a),
            result_a,
        ),
        extends_by(
            before,
            after_b,
            pre47_keys(seed, network, b),
            pre47_gained(seed, network, b),
            result_b,
        ),
    ensures
        pre47_keys(seed, network, a) == pre47_keys(seed, network, b),
        after_a == after_b,
        result_a is Ok <==> result_b is Ok,
        result_a is Err ==> result_a->Err_0@ == result_b->Err_0@,
{
}

/// A source of one era follows from the limits of that era's branches: two such sources
/// that agree on the phrase, the network and those limits both succeed, with the same
/// keys, or fail with the same error.
pub proof fn law_a_source_of_one_era_ignores_the_other_limits(
    a: KeySourceView,
    b: KeySourceView,
    kind: ZcashdSeedKind,
    result_a: ZeckResult<ZcashdPhraseKeySource>,
    result_b: ZeckResult<ZcashdPhraseKeySource>,
)
    requires
        a.phrase == b.phrase,
        a.network == b.network,
        a.kinds == seq![kind],
        b.kinds == seq![kind],
        match kind {
            ZcashdSeedKind::Bip39 => a.gaps.sapling == b.gaps.sapling && a.gaps.transparent
                == b.gaps.transparent,
            ZcashdSeedKind::LegacyEntropy => a.gaps.pre47_accounts == b.gaps.pre47_accounts,
        },
        makes_source(a, result_a),
        makes_source(b, result_b),
    ensures
        match (result_a, result_b) {
            (Ok(first), Ok(second)) => first.derived_set() == second.derived_set(),
            (Err(first), Err(second)) => first@ == second@,
            _ => false,
        },
{
    law_one_era_alone(a.phrase, a.network, kind, a.gaps);
    law_one_era_alone(b.phrase, b.network, kind, b.gaps);
    law_an_era_reads_its_own_limits(a.phrase, a.network, a.gaps, b.gaps);
}

/// An era's keys follow from the limits of its own branches.
pub proof fn law_an_era_reads_its_own_limits(
    phrase: Seq<char>,
    network: ZeckNetwork,
    a: GapLimits,
    b: GapLimits,
)
    ensures
        a.sapling == b.sapling && a.transparent == b.transparent ==> era_keys(
            phrase,
            network,
            ZcashdSeedKind::Bip39,
            a,
        ) == era_keys(phrase, network, ZcashdSeedKind::Bip39, b),
        a.pre47_accounts == b.pre47_accounts ==> era_keys(
            phrase,
            network,
            ZcashdSeedKind::LegacyEntropy,
            a,
        ) == era_keys(phrase, network, ZcashdSeedKind::LegacyEntropy, b),
{
}

/// The keys are a function of the phrase, the network, the eras and the limits: two
/// sources made from the same things both succeed or fail with the same error. Where
/// they succeed they have that network and those limits, and the same keys in the same
/// order.
pub proof fn law_keys_are_a_function_of_the_inputs(
    inputs: KeySourceView,
    first: ZeckResult<ZcashdPhraseKeySource>,
    second: ZeckResult<ZcashdPhraseKeySource>,
)
    requires
        makes_source(inputs, first),
        makes_source(inputs, second),
    ensures
        match (first, second) {
            (Ok(a), Ok(b)) => {
                &&& a@ == inputs
                &&& b@ == inputs
                &&& a.derived_set() == b.derived_set()
            },
            (Err(a), Err(b)) => a@ == b@,
            _ => false,
        },
{
}

/// Two sets of keys that sources with equal views hand out are equal.
pub proof fn law_equal_sources_hold_equal_keys(
    a: KeySourceView,
    b: KeySourceView,
    keys_a: ImportedKeysView,
    keys_b: ImportedKeysView,
)
    requires
        a == b,
        holds_keys(a, keys_a),
        holds_keys(b, keys_b),
    ensures
        keys_a == keys_b,
{
}

/// What a source that was made holds, whatever it was made from: no two Sapling keys
/// are the same, each is a valid encoding of 169 bytes, every key comes from the seed,
/// and there is no Sprout key.
pub proof fn law_what_a_made_source_holds(
    inputs: KeySourceView,
    result: ZeckResult<ZcashdPhraseKeySource>,
)
    requires
        makes_source(inputs, result),
        result is Ok,
    ensures
        ({
            let keys = result->Ok_0.derived_set();
            &&& keys_differ(keys.sapling)
            &&& forall|i: int|
                0 <= i < keys.sapling.len() ==> (#[trigger] keys.sapling[i]).bytes.len() == 169
                    && sapling_key_decodes(keys.sapling[i].bytes)
            &&& all_hd_derived(keys.sapling)
            &&& all_hd_derived(keys.transparent)
            &&& keys.sprout.len() == 0
        }),
{
}

// ---- Widening ----

/// Whether no limit of `wide` is below that of `narrow`.
pub open spec fn covers(wide: GapLimits, narrow: GapLimits) -> bool {
    &&& narrow.sapling <= wide.sapling
    &&& narrow.transparent <= wide.transparent
    &&& narrow.pre47_accounts <= wide.pre47_accounts
}

/// Whether every key of `keys` is one of `more`.
pub open spec fn all_among(keys: Seq<KeyView>, more: Seq<KeyView>) -> bool {
    forall|i: int| 0 <= i < keys.len() ==> more.contains(#[trigger] keys[i])
}

/// Where an era can be derived with wider limits it can be derived with narrower ones.
/// The narrower search's Sapling keys stand at the same indices of the wider one. So
/// do its external transparent keys, and its internal ones behind the wider search's
/// external ones.
pub proof fn law_widening_extends_an_era(
    phrase: Seq<char>,
    network: ZeckNetwork,
    kind: ZcashdSeedKind,
    narrow: GapLimits,
    wide: GapLimits,
)
    requires
        covers(wide, narrow),
        era_keys(phrase, network, kind, wide) is Ok,
    ensures
        era_keys(phrase, network, kind, narrow) is Ok,
        ({
            let before = era_keys(phrase, network, kind, narrow)->Ok_0;
            let after = era_keys(phrase, network, kind, wide)->Ok_0;
            let short = narrow.transparent as int;
            let long = wide.transparent as int;
            &&& before.sapling == after.sapling.take(era_sapling_count(kind, narrow) as int)
            &&& kind == ZcashdSeedKind::Bip39 ==> before.transparent == after.transparent.subrange(
                0,
                short,
            ) + after.transparent.subrange(long, long + short)
        }),
{
    match kind {
        ZcashdSeedKind::Bip39 => {
            let seed = bip39_seed_of(phrase);
            let sapling = legacy_sapling_branch(seed, network);
            let account = account_key_at(seed, network, ZCASH_LEGACY_ACCOUNT)->Ok_0;
            let external = transparent_branch(account, AddressScope::External);
            let internal = transparent_branch(account, AddressScope::Internal);
            law_a_shorter_branch_is_a_prefix(
                sapling,
                narrow.sapling as nat,
                wide.sapling as nat,
            );
            law_a_shorter_branch_is_a_prefix(
                external,
                narrow.transparent as nat,
                wide.transparent as nat,
            );
            law_a_shorter_branch_is_a_prefix(
                internal,
                narrow.transparent as nat,
                wide.transparent as nat,
            );
            let before = era_keys(phrase, network, kind, narrow)->Ok_0;
            let after = era_keys(phrase, network, kind, wide)->Ok_0;
            let short = narrow.transparent as int;
            let long = wide.transparent as int;
            assert(before.sapling =~= after.sapling.take(narrow.sapling as int));
            assert(before.transparent =~= after.transparent.subrange(0, short)
                + after.transparent.subrange(long, long + short));
        },
        ZcashdSeedKind::LegacyEntropy => {
            let branch = pre47_sapling_branch(mnemonic_entropy(phrase)->Some_0, network);
            law_a_shorter_branch_is_a_prefix(
                branch,
                narrow.pre47_accounts as nat,
                wide.pre47_accounts as nat,
            );
            let before = era_keys(phrase, network, kind, narrow)->Ok_0;
            let after = era_keys(phrase, network, kind, wide)->Ok_0;
            assert(before.sapling =~= after.sapling.take(narrow.pre47_accounts as int));
        },
    }
}

/// Widening a search loses nothing: where the wider search can be derived, so can the
/// narrower one, and every key of the narrower one is still there.
pub proof fn law_widening_loses_no_key(narrow: KeySourceView, limits: GapLimits)
    requires
        covers(limits, narrow.gaps),
        (KeySourceView { gaps: limits, ..narrow }).derived() is Ok,
    ensures
        narrow.derived() is Ok,
        ({
            let before = narrow.derived()->Ok_0;
            let after = (KeySourceView { gaps: limits, ..narrow }).derived()->Ok_0;
            &&& all_among(before.sapling, after.sapling)
            &&& all_among(before.transparent, after.transparent)
        }),
    decreases narrow.kinds.len(),
{
    if narrow.kinds.len() > 0 {
        let kind = narrow.kinds.last();
        let first = KeySourceView { kinds: narrow.kinds.drop_last(), ..narrow };
        let wide = KeySourceView { gaps: limits, ..narrow };
        let wide_first = KeySourceView { gaps: limits, ..first };
        law_widening_loses_no_key(first, limits);
        law_widening_extends_an_era(narrow.phrase, narrow.network, kind, narrow.gaps, limits);
        law_what_an_era_derives(narrow.phrase, narrow.network, kind, narrow.gaps);
        law_what_an_era_derives(narrow.phrase, narrow.network, kind, limits);
        let old_before = first.derived()->Ok_0;
        let old_after = wide_first.derived()->Ok_0;
        let new_before = era_keys(narrow.phrase, narrow.network, kind, narrow.gaps)->Ok_0;
        let new_after = era_keys(narrow.phrase, narrow.network, kind, limits)->Ok_0;
        assert forall|i: int| 0 <= i < new_before.sapling.len() implies new_after.sapling.contains(
            #[trigger] new_before.sapling[i],
        ) by {
            assert(new_after.sapling[i] == new_before.sapling[i]);
        }
        assert forall|i: int|
            0 <= i < new_before.transparent.len() implies new_after.transparent.contains(
            #[trigger] new_before.transparent[i],
        ) by {
            let short = narrow.gaps.transparent as int;
            let long = limits.transparent as int;
            if i < short {
                assert(new_after.transparent[i] == new_before.transparent[i]);
            } else {
                assert(new_after.transparent[long + i - short] == new_before.transparent[i]);
            }
        }
        lemma_among_append(
            old_before.sapling,
            new_before.sapling,
            old_after.sapling,
            new_after.sapling,
        );
        lemma_among_append(
            old_before.transparent,
            new_before.transparent,
            old_after.transparent,
            new_after.transparent,
        );
    }
}

/// Membership carries over to two lists put together.
proof fn lemma_among_append(a: Seq<KeyView>, b: Seq<KeyView>, c: Seq<KeyView>, d: Seq<KeyView>)
    requires
        all_among(a, c),
        all_among(b, d),
    ensures
        all_among(a + b, c + d),
{
    assert forall|i: int| 0 <= i < (a + b).len() implies (c + d).contains(#[trigger] (a + b)[i]) by {
        if i < a.len() {
            let j = choose|j: int| 0 <= j < c.len() && c[j] == a[i];
            assert(c.contains(a[i]));
            assert((c + d)[j] == a[i]);
        } else {
            let k = i - a.len();
            assert(d.contains(b[k]));
            let j = choose|j: int| 0 <= j < d.len() && d[j] == b[k];
            assert((c + d)[c.len() + j] == b[k]);
        }
    }
}

// ---- Fingerprints ----

/// What stands in a preimage in front of the eras: 31 bytes of domain, 13 of label, 32
/// of digest, and four numbers.
proof fn lemma_preimage_layout(source: KeySourceView)
    ensures
        ({
            let preimage = fingerprint_preimage(source);
            &&& preimage.len() == 92 + source.kinds.len()
            &&& preimage.subrange(0, 31) == encode_utf8(FINGERPRINT_DOMAIN@)
            &&& preimage.subrange(31, 44) == encode_utf8(FINGERPRINT_LABEL@)
            &&& preimage.subrange(44, 76) == sha256(phrase_identity(source.phrase))@
            &&& preimage.subrange(76, 80) == le_bytes(source.network.coin_type())
            &&& preimage.subrange(80, 84) == le_bytes(source.gaps.sapling)
            &&& preimage.subrange(84, 88) == le_bytes(source.gaps.transparent)
            &&& preimage.subrange(88, 92) == le_bytes(source.gaps.pre47_accounts)
            &&& preimage.subrange(92, preimage.len() as int) == kind_codes(source.kinds)
        }),
{
    reveal_strlit("argos-key-source-fingerprint-v1");
    reveal_strlit("zcashd-phrase");
    is_ascii_chars_encode_utf8(FINGERPRINT_DOMAIN@);
    is_ascii_chars_encode_utf8(FINGERPRINT_LABEL@);
}

/// Two sources have the same preimage only where they agree on the network, the limits
/// and the eras, and where the digests of their phrases are the same.
pub proof fn law_preimages_tell_sources_apart(a: KeySourceView, b: KeySourceView)
    requires
        fingerprint_preimage(a) == fingerprint_preimage(b),
    ensures
        a.network == b.network,
        a.gaps == b.gaps,
        a.kinds == b.kinds,
        sha256(phrase_identity(a.phrase)) == sha256(phrase_identity(b.phrase)),
{
    lemma_preimage_layout(a);
    lemma_preimage_layout(b);
    lemma_le_bytes_injective(a.network.coin_type(), b.network.coin_type());
    lemma_le_bytes_injective(a.gaps.sapling, b.gaps.sapling);
    lemma_le_bytes_injective(a.gaps.transparent, b.gaps.transparent);
    lemma_le_bytes_injective(a.gaps.pre47_accounts, b.gaps.pre47_accounts);
    assert(a.kinds =~= b.kinds) by {
        assert forall|i: int| 0 <= i < a.kinds.len() implies a.kinds[i] == b.kinds[i] by {
            assert(kind_codes(a.kinds)[i] == kind_codes(b.kinds)[i]);
        }
    }
    assert(sha256(phrase_identity(a.phrase)) =~= sha256(phrase_identity(b.phrase)));
}

/// What is hashed for two different phrases is different.
pub proof fn law_identities_tell_phrases_apart(a: Seq<char>, b: Seq<char>)
    requires
        phrase_identity(a) == phrase_identity(b),
    ensures
        a == b,
{
    let skip = encode_utf8(PHRASE_ID_DOMAIN@).len() as int;
    assert(phrase_identity(a).skip(skip) =~= encode_utf8(a));
    assert(phrase_identity(b).skip(skip) =~= encode_utf8(b));
    encode_utf8_decode_utf8(a);
    encode_utf8_decode_utf8(b);
}

/// Two sources share a fingerprint only where they were made from the same things, or
/// where SHA-256 collides: another phrase, another network, wider limits and other
/// eras each make another source.
pub proof fn law_fingerprints_tell_sources_apart(a: KeySourceView, b: KeySourceView)
    requires
        fingerprint_digest(a) == fingerprint_digest(b),
    ensures
        ({
            ||| a == b
            ||| sha256_collides(fingerprint_preimage(a), fingerprint_preimage(b))
            ||| sha256_collides(phrase_identity(a.phrase), phrase_identity(b.phrase))
        }),
{
    if fingerprint_preimage(a) == fingerprint_preimage(b) {
        law_preimages_tell_sources_apart(a, b);
        if phrase_identity(a.phrase) == phrase_identity(b.phrase) {
            law_identities_tell_phrases_apart(a.phrase, b.phrase);
        }
    }
}

/// A recovery phrase has no preimage in common with a source of another kind, whose
/// label is `seed` or `imported`. The same phrase as the seed of another wallet is
/// another source, then, unless SHA-256 collides.
pub proof fn law_other_kinds_of_source_hash_other_preimages(source: KeySourceView, rest: Seq<u8>)
    ensures
        fingerprint_preimage(source) != encode_utf8(FINGERPRINT_DOMAIN@) + encode_utf8("seed"@)
            + rest,
        fingerprint_preimage(source) != encode_utf8(FINGERPRINT_DOMAIN@) + encode_utf8("imported"@)
            + rest,
{
    lemma_preimage_layout(source);
    let domain = encode_utf8(FINGERPRINT_DOMAIN@);
    assert(domain.len() == 31);
    reveal_strlit("zcashd-phrase");
    reveal_strlit("seed");
    reveal_strlit("imported");
    is_ascii_chars_encode_utf8("zcashd-phrase"@);
    is_ascii_chars_encode_utf8("seed"@);
    is_ascii_chars_encode_utf8("imported"@);
    let label = fingerprint_preimage(source).subrange(31, 44);
    assert(label[0] == fingerprint_preimage(source)[31]);
    assert(label[0] == 'z' as u8);
    assert((domain + encode_utf8("seed"@) + rest)[31] == 's' as u8);
    assert((domain + encode_utf8("imported"@) + rest)[31] == 'i' as u8);
}

/// The name of a workspace never begins as that of a seed, which is its Bech32
/// fingerprint, or as that of imported keys.
pub proof fn law_workspaces_of_other_kinds_have_other_names(source: KeySourceView, name: Seq<char>)
    requires
        "zip32seedfp1"@.is_prefix_of(name) || "imported-"@.is_prefix_of(name),
    ensures
        workspace_component(source) != name,
{
    reveal_strlit("zip32seedfp1");
    reveal_strlit("imported-");
    reveal_strlit("zcashd-phrase-");
    assert(workspace_component(source)[0] == 'z');
    assert(workspace_component(source)[1] == 'c');
    if "zip32seedfp1"@.is_prefix_of(name) {
        assert(name[1] == "zip32seedfp1"@[1]);
    } else {
        assert(name[0] == "imported-"@[0]);
    }
}

/// Two sources share a workspace only where they share a fingerprint.
pub proof fn law_workspaces_are_as_distinct_as_fingerprints(a: KeySourceView, b: KeySourceView)
    ensures
        workspace_component(a) == workspace_component(b) <==> fingerprint_digest(a)
            == fingerprint_digest(b),
{
    if workspace_component(a) == workspace_component(b) {
        let skip = "zcashd-phrase-"@.len() as int;
        assert(workspace_component(a).skip(skip) =~= hex(fingerprint_digest(a)@));
        assert(workspace_component(b).skip(skip) =~= hex(fingerprint_digest(b)@));
        law_hex_is_injective(fingerprint_digest(a)@, fingerprint_digest(b)@);
        assert(fingerprint_digest(a) =~= fingerprint_digest(b));
    }
}

/// Different bytes have different hexadecimal texts.
pub proof fn law_hex_is_injective(a: Seq<u8>, b: Seq<u8>)
    requires
        hex(a) == hex(b),
    ensures
        a == b,
{
    assert(hex(a).len() == 2 * a.len() && hex(b).len() == 2 * b.len());
    assert forall|i: int| 0 <= i < a.len() implies a[i] == b[i] by {
        assert(hex(a)[2 * i] == digit_char(a[i] as int / 16));
        assert(hex(b)[2 * i] == digit_char(b[i] as int / 16));
        assert(hex(a)[2 * i + 1] == digit_char(a[i] as int % 16));
        assert(hex(b)[2 * i + 1] == digit_char(b[i] as int % 16));
        lemma_digits_differ(a[i] as int / 16, b[i] as int / 16);
        lemma_digits_differ(a[i] as int % 16, b[i] as int % 16);
    }
    assert(a =~= b);
}

/// Different digits have different characters.
proof fn lemma_digits_differ(a: int, b: int)
    requires
        0 <= a < 16,
        0 <= b < 16,
        digit_char(a) == digit_char(b),
    ensures
        a == b,
{
    let x: u32 = if a < 10 {
        (48 + a) as u32
    } else {
        (87 + a) as u32
    };
    let y: u32 = if b < 10 {
        (48 + b) as u32
    } else {
        (87 + b) as u32
    };
    assert(digit_char(a) as u32 == x);
    assert(digit_char(b) as u32 == y);
}

// ---- What is shown ----

/// The description of a search follows from its eras and limits alone: it is the same
/// for every phrase and on both networks, so it can show nothing of the phrase.
pub proof fn law_a_description_says_nothing_of_the_phrase(source: KeySourceView)
    requires
        source.derived() is Ok,
    ensures
        ({
            let keys = source.derived()->Ok_0;
            description(keys.sapling.len(), keys.transparent.len(), source.gaps) == description(
                sapling_count(source.kinds, source.gaps),
                transparent_count(source.kinds, source.gaps),
                source.gaps,
            )
        }),
{
    law_what_a_source_derives(source);
}

/// No address is an address of two chains: each chain's prefix, with the separator
/// behind it, begins no address of another chain.
pub proof fn law_chains_share_no_address(address: Seq<char>, a: ConsensusNetwork, b: ConsensusNetwork)
    requires
        begins_with_prefix(address, a.sapling_prefix()),
        begins_with_prefix(address, b.sapling_prefix()),
    ensures
        a == b,
{
    reveal_strlit("zs");
    reveal_strlit("ztestsapling");
    reveal_strlit("zregtestsapling");
    let (first, second) = (a.sapling_prefix().push('1'), b.sapling_prefix().push('1'));
    assert(first[1] == address.subrange(0, first.len() as int)[1]);
    assert(second[1] == address.subrange(0, second.len() as int)[1]);
}

/// Every key of a search can be shown as an address before the search begins: the keys
/// that a source hands out all decode, and each gives one address.
pub proof fn law_every_searched_address_can_be_shown(
    keys: ImportedKeysView,
    params: ConsensusNetwork,
)
    requires
        sapling_keys_decode(keys),
    ensures
        addresses_of(keys, params) matches Ok(addresses) && addresses.len() == keys.sapling.len(),
{
}

} // verus!
