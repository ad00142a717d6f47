//! Key sources, their workspaces and their addresses.
use sapling_crypto::zip32::ExtendedSpendingKey;
use zcash_keys::encoding::decode_payment_address;
use zcash_keys::encoding::AddressCodec;
use zcash_protocol::consensus::MAIN_NETWORK;
use zcash_protocol::consensus::TEST_NETWORK;
use zcashd_phrase::error::ZeckError;
use zcashd_phrase::fingerprint::KeySourceFingerprint;
use zcashd_phrase::keys::ImportedKeys;
use zcashd_phrase::keys::Provenance;
use zcashd_phrase::keys::SaplingKey;
use zcashd_phrase::models::AddressScope;
use zcashd_phrase::models::ConsensusNetwork;
use zcashd_phrase::models::ZeckNetwork;
use zcashd_phrase::secret::SecretBytes;
use zcashd_phrase::secret::SecretString;
use zcashd_phrase::text::decimal_text;
use zcashd_phrase::text::hex_text;
use zcashd_phrase::zcashd_phrase::bip39_seed;
use zcashd_phrase::zcashd_phrase::legacy_entropy_seed;
use zcashd_phrase::zcashd_phrase::legacy_sapling_spending_key;
use zcashd_phrase::zcashd_phrase::legacy_transparent_account_key;
use zcashd_phrase::zcashd_phrase::pre47_sapling_spending_key;
use zcashd_phrase::zcashd_phrase::sapling_addresses;
use zcashd_phrase::zcashd_phrase::GapLimits;
use zcashd_phrase::zcashd_phrase::ZcashdPhraseKeySource;
use zcashd_phrase::zcashd_phrase::ZcashdSeedKind;
use zcashd_phrase::zcashd_phrase::DEFAULT_GAP_LIMIT;
use zcashd_phrase::zcashd_phrase::PHRASE_CANNOT_RECOVER;

/// A BIP 39 test vector. No real funds.
const SEED: &str = "abandon abandon abandon abandon abandon abandon abandon abandon \
                    abandon abandon abandon abandon abandon abandon abandon abandon \
                    abandon abandon abandon abandon abandon abandon abandon art";

fn phrase() -> SecretString {
    SecretString::new(SEED.to_owned())
}

fn derive_all(limit: u32) -> ZcashdPhraseKeySource {
    ZcashdPhraseKeySource::derive_all(phrase(), ZeckNetwork::Mainnet, GapLimits::uniform(limit))
        .unwrap()
}

fn sapling_bytes(source: &ZcashdPhraseKeySource) -> Vec<Vec<u8>> {
    let keys = source.imported_keys().unwrap();
    keys.sapling
        .iter()
        .map(|key| key.extsk.expose_secret().clone())
        .collect()
}

fn transparent_bytes(source: &ZcashdPhraseKeySource) -> Vec<[u8; 32]> {
    let keys = source.imported_keys().unwrap();
    keys.transparent
        .iter()
        .map(|key| *key.secret.expose_secret())
        .collect()
}

#[test]
fn deriving_all_eras_produces_both_key_sets() {
    let source = ZcashdPhraseKeySource::derive_all(
        phrase(),
        ZeckNetwork::Mainnet,
        GapLimits::uniform(4),
    )
    .unwrap();

    let keys = source.imported_keys().expect("phrase source is imported");
    // Four addresses since 4.7.0 and four accounts from before it.
    assert_eq!(keys.sapling.len(), 8);
    // Four external and four internal keys, since 4.7.0 only.
    assert_eq!(keys.transparent.len(), 8);
    assert!(keys.sprout.is_empty(), "a phrase never yields Sprout keys");
}

/// Each key of the set is the key at its own path, in the order of the branches.
#[test]
fn every_key_of_the_set_stands_at_its_place() {
    let gaps = GapLimits {
        sapling: 2,
        transparent: 3,
        pre47_accounts: 1,
    };
    let source = ZcashdPhraseKeySource::derive_all(phrase(), ZeckNetwork::Testnet, gaps).unwrap();
    let seed = bip39_seed(&phrase()).unwrap();
    let entropy = legacy_entropy_seed(&phrase()).unwrap();

    let sapling = sapling_bytes(&source);
    assert_eq!(sapling.len(), 3);
    for index in 0..2u32 {
        let key = legacy_sapling_spending_key(seed.expose_secret(), ZeckNetwork::Testnet, index);
        assert_eq!(sapling[index as usize], key.unwrap().to_bytes().to_vec());
    }
    let key = pre47_sapling_spending_key(entropy.expose_secret(), ZeckNetwork::Testnet, 0);
    assert_eq!(sapling[2], key.unwrap().to_bytes().to_vec());

    let transparent = transparent_bytes(&source);
    assert_eq!(transparent.len(), 6);
    let account =
        legacy_transparent_account_key(seed.expose_secret(), ZeckNetwork::Testnet).unwrap();
    for index in 0..3u32 {
        let external = account.derive_secret_key(AddressScope::External, index).unwrap();
        let internal = account.derive_secret_key(AddressScope::Internal, index).unwrap();
        assert_eq!(transparent[index as usize], *external.expose_secret());
        assert_eq!(transparent[3 + index as usize], *internal.expose_secret());
    }

    let keys = source.imported_keys().unwrap();
    assert!(keys.sapling.iter().all(|key| key.provenance == Provenance::HdDerived));
    assert!(keys.transparent.iter().all(|key| key.provenance == Provenance::HdDerived));
}

/// Both eras together are the one set followed by the other.
#[test]
fn all_eras_are_the_two_eras_one_after_the_other() {
    let gaps = GapLimits::uniform(2);
    let network = ZeckNetwork::Mainnet;
    let post =
        ZcashdPhraseKeySource::new(phrase(), network, ZcashdSeedKind::Bip39, gaps).unwrap();
    let pre =
        ZcashdPhraseKeySource::new(phrase(), network, ZcashdSeedKind::LegacyEntropy, gaps).unwrap();
    let both = derive_all(2);

    let mut sapling = sapling_bytes(&post);
    sapling.extend(sapling_bytes(&pre));
    assert_eq!(sapling_bytes(&both), sapling);
    assert_eq!(transparent_bytes(&both), transparent_bytes(&post));
    assert!(transparent_bytes(&pre).is_empty());
}

#[test]
fn the_derived_key_set_has_no_duplicates() {
    let source = ZcashdPhraseKeySource::derive_all(
        phrase(),
        ZeckNetwork::Mainnet,
        GapLimits::uniform(6),
    )
    .unwrap();
    let keys = source.imported_keys().unwrap();

    let mut sapling = std::collections::HashSet::new();
    for k in &keys.sapling {
        assert!(
            sapling.insert(k.extsk.expose_secret().clone()),
            "duplicate sapling key"
        );
    }
    let mut transparent = std::collections::HashSet::new();
    for k in &keys.transparent {
        assert!(
            transparent.insert(*k.secret.expose_secret()),
            "duplicate transparent key"
        );
    }
}

#[test]
fn a_phrase_source_reports_no_wallet_seed() {
    let source =
        ZcashdPhraseKeySource::derive_all(phrase(), ZeckNetwork::Mainnet, GapLimits::uniform(2))
            .unwrap();
    assert!(source.wallet_seed().unwrap().is_none());
}

#[test]
fn a_source_keeps_its_network_and_limits() {
    let gaps = GapLimits {
        sapling: 1,
        transparent: 0,
        pre47_accounts: 2,
    };
    let source = ZcashdPhraseKeySource::derive_all(phrase(), ZeckNetwork::Testnet, gaps).unwrap();
    assert_eq!(source.network(), ZeckNetwork::Testnet);
    assert_eq!(source.gap_limits(), gaps);
}

#[test]
fn the_default_limits_are_twenty_on_every_branch() {
    assert_eq!(DEFAULT_GAP_LIMIT, 20);
    assert_eq!(GapLimits::default(), GapLimits::uniform(20));
}

#[test]
fn a_wider_gap_is_a_different_key_source() {
    let narrow =
        ZcashdPhraseKeySource::derive_all(phrase(), ZeckNetwork::Mainnet, GapLimits::uniform(4))
            .unwrap();
    let wide = narrow.widen(GapLimits::uniform(40)).unwrap();

    assert_ne!(narrow.fingerprint().unwrap(), wide.fingerprint().unwrap());
    assert!(
        wide.imported_keys().unwrap().sapling.len()
            > narrow.imported_keys().unwrap().sapling.len()
    );
}

#[test]
fn widening_extends_rather_than_shifts_the_search() {
    let narrow =
        ZcashdPhraseKeySource::derive_all(phrase(), ZeckNetwork::Mainnet, GapLimits::uniform(3))
            .unwrap();
    let wide = narrow.widen(GapLimits::uniform(9)).unwrap();

    let narrow_keys = narrow.imported_keys().unwrap();
    let wide_keys = wide.imported_keys().unwrap();

    let wide_set: std::collections::HashSet<_> = wide_keys
        .sapling
        .iter()
        .map(|k| k.extsk.expose_secret().clone())
        .collect();
    for k in &narrow_keys.sapling {
        assert!(
            wide_set.contains(k.extsk.expose_secret()),
            "widening dropped a key the narrower search had found"
        );
    }
}

/// A widened source is the source that the wider limits give in the first place.
#[test]
fn widening_keeps_the_phrase_the_network_and_the_eras() {
    let network = ZeckNetwork::Testnet;
    let kind = ZcashdSeedKind::LegacyEntropy;
    let narrow =
        ZcashdPhraseKeySource::new(phrase(), network, kind, GapLimits::uniform(1)).unwrap();
    let wide = narrow.widen(GapLimits::uniform(3)).unwrap();
    let direct =
        ZcashdPhraseKeySource::new(phrase(), network, kind, GapLimits::uniform(3)).unwrap();
    assert_eq!(wide.network(), network);
    assert_eq!(wide.gap_limits(), GapLimits::uniform(3));
    assert_eq!(sapling_bytes(&wide), sapling_bytes(&direct));
    assert_eq!(sapling_bytes(&wide)[..1], sapling_bytes(&narrow)[..]);
    assert_eq!(wide.fingerprint().unwrap(), direct.fingerprint().unwrap());
}

/// Wider transparent limits keep each branch's keys at their indices.
#[test]
fn widening_keeps_the_transparent_keys() {
    let network = ZeckNetwork::Mainnet;
    let kind = ZcashdSeedKind::Bip39;
    let narrow =
        ZcashdPhraseKeySource::new(phrase(), network, kind, GapLimits::uniform(2)).unwrap();
    let wide = narrow.widen(GapLimits::uniform(5)).unwrap();
    let before = transparent_bytes(&narrow);
    let after = transparent_bytes(&wide);
    assert_eq!(before[..2], after[..2]);
    assert_eq!(before[2..], after[5..7]);
}

#[test]
fn the_fingerprint_is_stable_across_calls() {
    let source =
        ZcashdPhraseKeySource::derive_all(phrase(), ZeckNetwork::Mainnet, GapLimits::uniform(2))
            .unwrap();
    assert_eq!(source.fingerprint().unwrap(), source.fingerprint().unwrap());
}

#[test]
fn networks_do_not_share_a_workspace() {
    let main =
        ZcashdPhraseKeySource::derive_all(phrase(), ZeckNetwork::Mainnet, GapLimits::uniform(2))
            .unwrap();
    let test =
        ZcashdPhraseKeySource::derive_all(phrase(), ZeckNetwork::Testnet, GapLimits::uniform(2))
            .unwrap();
    assert_ne!(main.fingerprint().unwrap(), test.fingerprint().unwrap());
}

/// The digest worked out by hand from the layout of the preimage.
#[test]
fn the_fingerprint_of_a_known_source() {
    let gaps = GapLimits {
        sapling: 2,
        transparent: 3,
        pre47_accounts: 260,
    };
    let source = ZcashdPhraseKeySource::derive_all(phrase(), ZeckNetwork::Testnet, gaps).unwrap();
    let digest = "5fa4c03fb0ebf089d76eac434083feb36eaa725b45433f39d6465b6972393901";
    assert_eq!(source.fingerprint().unwrap().to_hex(), digest);
    assert_eq!(
        source.workspace_path_component().unwrap(),
        format!("zcashd-phrase-{digest}")
    );
}

/// Another era, another phrase and other limits each make another source.
#[test]
fn every_input_changes_the_fingerprint() {
    let gaps = GapLimits::uniform(1);
    let network = ZeckNetwork::Mainnet;
    let other_phrase = SecretString::new(
        "legal winner thank year wave sausage worth useful legal winner thank yellow".to_owned(),
    );
    let sources = [
        ZcashdPhraseKeySource::derive_all(phrase(), network, gaps).unwrap(),
        ZcashdPhraseKeySource::new(phrase(), network, ZcashdSeedKind::Bip39, gaps).unwrap(),
        ZcashdPhraseKeySource::new(phrase(), network, ZcashdSeedKind::LegacyEntropy, gaps).unwrap(),
        ZcashdPhraseKeySource::derive_all(other_phrase, network, gaps).unwrap(),
        ZcashdPhraseKeySource::derive_all(phrase(), network, GapLimits { sapling: 2, ..gaps })
            .unwrap(),
        ZcashdPhraseKeySource::derive_all(phrase(), network, GapLimits { transparent: 2, ..gaps })
            .unwrap(),
        ZcashdPhraseKeySource::derive_all(
            phrase(),
            network,
            GapLimits { pre47_accounts: 2, ..gaps },
        )
        .unwrap(),
    ];
    let mut names = std::collections::HashSet::new();
    for source in &sources {
        assert!(names.insert(source.workspace_path_component().unwrap()));
    }
}

/// The name is not that of a seed, whose Bech32 prefix is `zip32seedfp`, or of
/// imported keys.
#[test]
fn a_workspace_is_named_as_one_of_a_recovery_phrase() {
    let name = derive_all(1).workspace_path_component().unwrap();
    assert!(name.starts_with("zcashd-phrase-"));
    assert_eq!(name.len(), "zcashd-phrase-".len() + 64);
    assert!(!name.starts_with("zip32seedfp1"));
    assert!(!name.starts_with("imported-"));
}

#[test]
fn a_fingerprint_is_written_in_lower_case_hexadecimal() {
    let mut digest = [0u8; 32];
    digest[0] = 0x0f;
    digest[31] = 0xa0;
    assert_eq!(
        KeySourceFingerprint::from_digest(digest).to_hex(),
        format!("0f{}a0", "00".repeat(30))
    );
    assert_eq!(hex_text(&[0x9a, 0x01, 0xff]), "9a01ff");
    assert_eq!(decimal_text(0), "0");
    assert_eq!(decimal_text(u64::MAX), "18446744073709551615");
}

/// A limit acts on its own branches alone.
#[test]
fn a_limit_has_no_effect_on_the_other_era() {
    let network = ZeckNetwork::Mainnet;
    let post = |pre47_accounts: u32| {
        let gaps = GapLimits { sapling: 2, transparent: 1, pre47_accounts };
        ZcashdPhraseKeySource::new(phrase(), network, ZcashdSeedKind::Bip39, gaps).unwrap()
    };
    assert_eq!(sapling_bytes(&post(0)), sapling_bytes(&post(9)));
    assert_eq!(transparent_bytes(&post(0)), transparent_bytes(&post(9)));

    let pre = |limit: u32| {
        let gaps = GapLimits { sapling: limit, transparent: limit, pre47_accounts: 2 };
        ZcashdPhraseKeySource::new(phrase(), network, ZcashdSeedKind::LegacyEntropy, gaps).unwrap()
    };
    assert_eq!(sapling_bytes(&pre(0)), sapling_bytes(&pre(u32::MAX)));
}

/// Two sources made from the same things hold the same keys.
#[test]
fn equal_inputs_give_equal_keys() {
    let (a, b) = (derive_all(2), derive_all(2));
    assert_eq!(a.network(), b.network());
    assert_eq!(a.gap_limits(), b.gap_limits());
    assert_eq!(sapling_bytes(&a), sapling_bytes(&b));
    assert_eq!(transparent_bytes(&a), transparent_bytes(&b));
    assert!(sapling_bytes(&a).iter().all(|key| key.len() == 169));
}

#[test]
fn describe_never_leaks_the_phrase() {
    let source =
        ZcashdPhraseKeySource::derive_all(phrase(), ZeckNetwork::Mainnet, GapLimits::uniform(2))
            .unwrap();
    let described = source.describe();
    for word in SEED.split_whitespace() {
        assert!(
            !described.contains(word),
            "describe() leaked a phrase word: {word}"
        );
    }
}

#[test]
fn describe_counts_the_keys_and_names_the_limits() {
    assert_eq!(
        derive_all(3).describe(),
        "zcashd recovery phrase (6 sapling, 6 transparent; gap 3/3)"
    );
    let gaps = GapLimits {
        sapling: 12,
        transparent: 1,
        pre47_accounts: 4,
    };
    let network = ZeckNetwork::Mainnet;
    assert_eq!(
        ZcashdPhraseKeySource::new(phrase(), network, ZcashdSeedKind::Bip39, gaps)
            .unwrap()
            .describe(),
        "zcashd recovery phrase (12 sapling, 2 transparent; gap 12/1)"
    );
    assert_eq!(
        ZcashdPhraseKeySource::new(phrase(), network, ZcashdSeedKind::LegacyEntropy, gaps)
            .unwrap()
            .describe(),
        "zcashd recovery phrase (4 sapling, 0 transparent; gap 12/1)"
    );
}

#[test]
fn the_limits_statement_names_every_category_it_must() {
    for needle in [
        "Sprout",
        "z_importkey",
        "importprivkey",
        "watch-only",
        "wallet.dat",
    ] {
        assert!(
            PHRASE_CANNOT_RECOVER.contains(needle),
            "the limits statement must mention {needle}"
        );
    }
}

#[test]
fn an_invalid_phrase_makes_no_source() {
    let expected = ZeckError::InvalidMnemonic(
        "the recovery phrase is not a valid BIP-39 mnemonic".to_owned(),
    );
    for kind in [ZcashdSeedKind::Bip39, ZcashdSeedKind::LegacyEntropy] {
        let bad = SecretString::new("zebra zebra zebra zebra".to_owned());
        let result =
            ZcashdPhraseKeySource::new(bad, ZeckNetwork::Mainnet, kind, GapLimits::default());
        match result {
            Ok(_) => panic!("an invalid phrase must be rejected"),
            Err(error) => assert_eq!(error, expected),
        }
    }
}

/// The addresses are those of the keys, as `zcash_keys` writes them.
#[test]
fn the_addresses_are_the_default_addresses_of_the_keys() {
    let source = derive_all(2);
    let keys = source.imported_keys().unwrap();
    let main = sapling_addresses(keys, ZeckNetwork::Mainnet, None).unwrap();
    let test = sapling_addresses(keys, ZeckNetwork::Testnet, None).unwrap();
    assert_eq!(main.len(), 4);
    assert_eq!(test.len(), 4);
    for (i, bytes) in sapling_bytes(&source).iter().enumerate() {
        let address = ExtendedSpendingKey::from_bytes(bytes)
            .unwrap()
            .to_diversifiable_full_viewing_key()
            .default_address()
            .1;
        assert_eq!(main[i], address.encode(&MAIN_NETWORK));
        assert_eq!(test[i], address.encode(&TEST_NETWORK));
    }
}

/// A regtest chain has a prefix of its own, and the same addresses behind it.
#[test]
fn regtest_addresses_have_the_regtest_prefix() {
    let source = derive_all(1);
    let keys = source.imported_keys().unwrap();
    let installed = Some(ConsensusNetwork::Regtest);
    let regtest = sapling_addresses(keys, ZeckNetwork::Testnet, installed).unwrap();
    let test = sapling_addresses(keys, ZeckNetwork::Testnet, None).unwrap();
    assert_eq!(regtest.len(), 2);
    for (a, b) in regtest.iter().zip(&test) {
        assert!(a.starts_with("zregtestsapling1"));
        assert_eq!(
            decode_payment_address("zregtestsapling", a).unwrap(),
            decode_payment_address("ztestsapling", b).unwrap()
        );
    }
}

#[test]
fn an_installed_encoding_takes_the_place_of_the_network_s_own() {
    let installed = Some(ConsensusNetwork::Regtest);
    assert_eq!(ZeckNetwork::Testnet.encoding_in_force(installed), ConsensusNetwork::Regtest);
    assert_eq!(ZeckNetwork::Testnet.encoding_in_force(None), ConsensusNetwork::Test);
    assert_eq!(ZeckNetwork::Mainnet.encoding_in_force(None), ConsensusNetwork::Main);
}

#[test]
fn an_undecodable_key_has_no_address() {
    let mut keys = ImportedKeys::default();
    assert_eq!(
        sapling_addresses(&keys, ZeckNetwork::Mainnet, None).unwrap(),
        Vec::<String>::new()
    );
    keys.sapling.push(SaplingKey {
        extsk: SecretBytes::new(vec![0u8; 12]),
        provenance: Provenance::Imported,
    });
    assert_eq!(
        sapling_addresses(&keys, ZeckNetwork::Mainnet, None).unwrap_err(),
        ZeckError::Internal("a derived Sapling key failed to round-trip".to_owned())
    );
}

/// Only keys of 169 bytes decode: one that is cut short, or has a byte too many, is
/// refused, and with it the whole list.
#[test]
fn a_key_of_another_length_has_no_address() {
    let key = sapling_bytes(&derive_all(1))[0].clone();
    let mut longer = key.clone();
    longer.push(0);
    for bytes in [vec![1u8, 2, 3], key[..168].to_vec(), longer] {
        let mut keys = ImportedKeys::default();
        for extsk in [key.clone(), bytes] {
            keys.sapling.push(SaplingKey {
                extsk: SecretBytes::new(extsk),
                provenance: Provenance::HdDerived,
            });
        }
        assert_eq!(
            sapling_addresses(&keys, ZeckNetwork::Mainnet, None).unwrap_err(),
            ZeckError::Internal("a derived Sapling key failed to round-trip".to_owned())
        );
    }
}

/// Each era adds to the keys that are already there, and the account limit has no
/// effect on the later era.
#[test]
fn an_era_adds_to_what_is_there() {
    let seed = bip39_seed(&phrase()).unwrap();
    let entropy = legacy_entropy_seed(&phrase()).unwrap();
    let network = ZeckNetwork::Mainnet;
    let mut sets = Vec::new();
    for pre47_accounts in [1, 7] {
        let gaps = GapLimits { sapling: 2, transparent: 1, pre47_accounts };
        let mut keys = ImportedKeys::default();
        let one = GapLimits::uniform(1);
        ZcashdPhraseKeySource::derive_pre47(entropy.expose_secret(), network, one, &mut keys)
            .unwrap();
        assert_eq!((keys.sapling.len(), keys.transparent.len()), (1, 0));
        ZcashdPhraseKeySource::derive_post47(seed.expose_secret(), network, gaps, &mut keys)
            .unwrap();
        assert_eq!((keys.sapling.len(), keys.transparent.len()), (3, 2));
        assert!(keys.sprout.is_empty());
        sets.push(
            keys.sapling
                .iter()
                .map(|key| key.extsk.expose_secret().clone())
                .collect::<Vec<_>>(),
        );
    }
    assert_eq!(sets[0], sets[1]);
}

#[test]
fn the_error_message_is_the_text_of_the_error() {
    for error in [
        ZeckError::InvalidMnemonic("one".to_owned()),
        ZeckError::InvalidConfig("two".to_owned()),
        ZeckError::Internal("three".to_owned()),
    ] {
        let expected = match &error {
            ZeckError::InvalidMnemonic(text) => text,
            ZeckError::InvalidConfig(text) => text,
            ZeckError::Internal(text) => text,
        };
        assert_eq!(error.message(), expected);
    }
}
