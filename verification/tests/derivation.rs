//! Seeds, paths and keys.
use sapling_crypto::zip32::ExtendedSpendingKey;
use zcash_protocol::consensus::MAIN_NETWORK;
use zcash_transparent::keys::AccountPrivKey;
use zcashd_phrase::error::ZeckError;
use zcashd_phrase::models::AddressScope;
use zcashd_phrase::models::ZeckNetwork;
use zcashd_phrase::sapling::derive_path;
use zcashd_phrase::sapling::hardened;
use zcashd_phrase::secret::SecretString;
use zcashd_phrase::zcashd_phrase::bip39_seed;
use zcashd_phrase::zcashd_phrase::legacy_entropy_seed;
use zcashd_phrase::zcashd_phrase::legacy_sapling_spending_key;
use zcashd_phrase::zcashd_phrase::legacy_transparent_account_key;
use zcashd_phrase::zcashd_phrase::pre47_sapling_spending_key;
use zcashd_phrase::zcashd_phrase::ZCASH_LEGACY_ACCOUNT;
use zip32::AccountId;
use zip32::ChildIndex;

/// A BIP 39 test vector. No real funds.
const SEED: &str = "abandon abandon abandon abandon abandon abandon abandon abandon \
                    abandon abandon abandon abandon abandon abandon abandon abandon \
                    abandon abandon abandon abandon abandon abandon abandon art";

fn phrase() -> SecretString {
    SecretString::new(SEED.to_owned())
}

fn unhex(text: &str) -> Vec<u8> {
    (0..text.len() / 2)
        .map(|i| u8::from_str_radix(&text[2 * i..2 * i + 2], 16).unwrap())
        .collect()
}

/// The most important property: were the two seeds to coincide, a whole class of
/// wallet would silently stop being recoverable.
#[test]
fn a_phrase_yields_two_different_seeds() {
    let bip39 = bip39_seed(&phrase()).unwrap();
    let entropy = legacy_entropy_seed(&phrase()).unwrap();

    assert_eq!(bip39.expose_secret().len(), 64, "BIP-39 seed is 64 bytes");
    assert_eq!(
        entropy.expose_secret().len(),
        32,
        "a 24-word phrase encodes 32 bytes of entropy"
    );
    assert_ne!(
        &bip39.expose_secret()[..32],
        entropy.expose_secret().as_slice(),
        "the entropy must not be a prefix of the BIP-39 seed"
    );
}

/// The seed and the entropy that the test vectors of BIP 39 give for this phrase,
/// with an empty passphrase in place of theirs.
#[test]
fn the_seeds_of_the_test_vector() {
    let bip39 = bip39_seed(&phrase()).unwrap();
    let entropy = legacy_entropy_seed(&phrase()).unwrap();

    assert_eq!(
        bip39.expose_secret().to_vec(),
        unhex(
            "408b285c123836004f4b8842c89324c1f01382450c0d439af345ba7fc49acf70\
             5489c6fc77dbd4e3dc1dd8cc6bc9f043db8ada1e243c4a0eafb290d399480840"
        )
    );
    assert_eq!(entropy.expose_secret(), &vec![0u8; 32]);
}

/// Four bytes of entropy for every three words.
#[test]
fn the_entropy_has_four_bytes_for_every_three_words() {
    for (words, text) in [
        (12, "legal winner thank year wave sausage worth useful legal winner thank yellow"),
        (
            18,
            "legal winner thank year wave sausage worth useful legal winner thank year wave \
             sausage worth useful legal will",
        ),
        (
            24,
            "legal winner thank year wave sausage worth useful legal winner thank year wave \
             sausage worth useful legal winner thank year wave sausage worth title",
        ),
    ] {
        let entropy = legacy_entropy_seed(&SecretString::new(text.to_owned())).unwrap();
        assert_eq!(entropy.expose_secret(), &vec![0x7fu8; words * 4 / 3]);
    }
}

/// Reading a phrase gives back the bytes that it was made from, at every length.
#[test]
fn the_entropy_is_what_the_phrase_encodes() {
    for len in [16u8, 20, 24, 28, 32] {
        let bytes: Vec<u8> = (0..len).map(|i| i.wrapping_mul(73).wrapping_add(len)).collect();
        let text = bip0039::Mnemonic::<bip0039::English>::from_entropy(bytes.clone())
            .unwrap()
            .phrase()
            .to_owned();
        let entropy = legacy_entropy_seed(&SecretString::new(text)).unwrap();
        assert_eq!(entropy.expose_secret(), &bytes);
    }
}

#[test]
fn the_legacy_account_is_the_constant_zcashd_defines() {
    assert_eq!(ZCASH_LEGACY_ACCOUNT, (1u32 << 31) - 1);
    assert_eq!(ZCASH_LEGACY_ACCOUNT, 0x7FFF_FFFF);
    assert!(
        hardened(ZCASH_LEGACY_ACCOUNT).is_ok(),
        "the legacy account must be a valid hardened index"
    );

    // `zip32` reserves the same index for private use.
    assert_eq!(
        hardened(ZCASH_LEGACY_ACCOUNT).unwrap().index(),
        ChildIndex::PRIVATE_USE.index()
    );
}

#[test]
fn the_legacy_sapling_path_differs_from_the_standard_path() {
    let seed = bip39_seed(&phrase()).unwrap();

    let legacy = legacy_sapling_spending_key(seed.expose_secret(), ZeckNetwork::Mainnet, 0).unwrap();
    let standard = zcash_keys::keys::sapling::spending_key(
        seed.expose_secret(),
        ZeckNetwork::Mainnet.coin_type(),
        AccountId::ZERO,
    )
    .unwrap();

    assert_ne!(legacy.to_bytes(), standard.to_bytes());
}

/// `zcash_keys` walks the same path, so the two must agree byte for byte.
#[test]
fn the_pre47_path_is_byte_identical_to_librustzcash() {
    let seed = legacy_entropy_seed(&phrase()).unwrap();

    for account in 0..4u32 {
        let ours =
            pre47_sapling_spending_key(seed.expose_secret(), ZeckNetwork::Mainnet, account).unwrap();
        let theirs = zcash_keys::keys::sapling::spending_key(
            seed.expose_secret(),
            ZeckNetwork::Mainnet.coin_type(),
            AccountId::try_from(account).unwrap(),
        )
        .unwrap();

        assert_eq!(
            ours.to_bytes(),
            theirs.to_bytes(),
            "path construction diverged from librustzcash at account {account}"
        );
    }
}

#[test]
fn the_legacy_path_is_the_standard_path_extended_by_two_levels() {
    let seed = bip39_seed(&phrase()).unwrap();

    let expected = ExtendedSpendingKey::master(seed.expose_secret())
        .unwrap()
        .derive_child(ChildIndex::hardened(32))
        .unwrap()
        .derive_child(ChildIndex::hardened(ZeckNetwork::Mainnet.coin_type()))
        .unwrap()
        .derive_child(ChildIndex::hardened(ZCASH_LEGACY_ACCOUNT))
        .unwrap()
        .derive_child(ChildIndex::hardened(3))
        .unwrap();

    let actual = legacy_sapling_spending_key(seed.expose_secret(), ZeckNetwork::Mainnet, 3).unwrap();

    assert_eq!(actual.to_bytes(), expected.to_bytes());
}

/// The legacy key is the child, at the address index, of the key of the legacy account.
#[test]
fn the_legacy_key_is_a_child_of_the_account_key() {
    let seed = bip39_seed(&phrase()).unwrap();
    let account = pre47_sapling_spending_key(
        seed.expose_secret(),
        ZeckNetwork::Testnet,
        ZCASH_LEGACY_ACCOUNT,
    )
    .unwrap();
    let legacy = legacy_sapling_spending_key(seed.expose_secret(), ZeckNetwork::Testnet, 5).unwrap();
    let child = account.derive_child(hardened(5).unwrap()).unwrap();
    assert_eq!(child.to_bytes(), legacy.to_bytes());
}

#[test]
fn legacy_sapling_derivation_is_deterministic() {
    let seed = bip39_seed(&phrase()).unwrap();
    let a = legacy_sapling_spending_key(seed.expose_secret(), ZeckNetwork::Mainnet, 7).unwrap();
    let b = legacy_sapling_spending_key(seed.expose_secret(), ZeckNetwork::Mainnet, 7).unwrap();
    assert_eq!(a.to_bytes(), b.to_bytes());
}

#[test]
fn each_address_index_yields_a_distinct_key() {
    let seed = bip39_seed(&phrase()).unwrap();
    let mut seen = std::collections::HashSet::new();
    for index in 0..8 {
        let k =
            legacy_sapling_spending_key(seed.expose_secret(), ZeckNetwork::Mainnet, index).unwrap();
        assert!(seen.insert(k.to_bytes()), "index {index} collided");
    }
}

#[test]
fn networks_do_not_share_keys() {
    let seed = bip39_seed(&phrase()).unwrap();
    let main = legacy_sapling_spending_key(seed.expose_secret(), ZeckNetwork::Mainnet, 0).unwrap();
    let test = legacy_sapling_spending_key(seed.expose_secret(), ZeckNetwork::Testnet, 0).unwrap();
    assert_ne!(main.to_bytes(), test.to_bytes());
}

#[test]
fn the_two_eras_derive_different_keys() {
    let bip39 = bip39_seed(&phrase()).unwrap();
    let entropy = legacy_entropy_seed(&phrase()).unwrap();

    let post = legacy_sapling_spending_key(bip39.expose_secret(), ZeckNetwork::Mainnet, 0).unwrap();
    let pre = pre47_sapling_spending_key(entropy.expose_secret(), ZeckNetwork::Mainnet, 0).unwrap();

    assert_ne!(post.to_bytes(), pre.to_bytes());
}

/// The encoding shows the level and the last index of a key.
#[test]
fn a_key_shows_where_it_stands() {
    let seed = bip39_seed(&phrase()).unwrap();
    let legacy = legacy_sapling_spending_key(seed.expose_secret(), ZeckNetwork::Mainnet, 6)
        .unwrap()
        .to_bytes();
    let pre = pre47_sapling_spending_key(seed.expose_secret(), ZeckNetwork::Mainnet, 6)
        .unwrap()
        .to_bytes();
    assert_eq!(legacy[0], 4);
    assert_eq!(pre[0], 3);
    assert_eq!(&legacy[5..9], &[6, 0, 0, 0x80]);
    assert_eq!(&pre[5..9], &[6, 0, 0, 0x80]);
    assert_eq!(derive_path(seed.expose_secret(), &[]).unwrap().to_bytes()[0], 0);
}

#[test]
fn the_transparent_account_is_the_legacy_marker_not_zero() {
    let seed = bip39_seed(&phrase()).unwrap();

    let legacy = legacy_transparent_account_key(seed.expose_secret(), ZeckNetwork::Mainnet).unwrap();
    let legacy = AccountPrivKey::from_bytes(&legacy.to_bytes())
        .unwrap()
        .to_account_pubkey();
    let zero = AccountPrivKey::from_seed(&MAIN_NETWORK, seed.expose_secret(), AccountId::ZERO)
        .unwrap()
        .to_account_pubkey();

    assert_ne!(
        legacy.serialize(),
        zero.serialize(),
        "legacy transparent derivation must not use account 0"
    );
}

/// The transparent keys are those of `zcash_transparent` at the legacy account, on
/// either network and either branch.
#[test]
fn transparent_keys_agree_with_zcash_transparent() {
    let seed = bip39_seed(&phrase()).unwrap();
    let legacy = AccountId::try_from(ZCASH_LEGACY_ACCOUNT).unwrap();
    for (network, expected) in [
        (
            ZeckNetwork::Mainnet,
            AccountPrivKey::from_seed(&MAIN_NETWORK, seed.expose_secret(), legacy).unwrap(),
        ),
        (
            ZeckNetwork::Testnet,
            AccountPrivKey::from_seed(
                &zcash_protocol::consensus::TEST_NETWORK,
                seed.expose_secret(),
                legacy,
            )
            .unwrap(),
        ),
    ] {
        let account = legacy_transparent_account_key(seed.expose_secret(), network).unwrap();
        assert_eq!(account.to_bytes(), expected.to_bytes());
        for index in [0u32, 1, 13] {
            let child =
                zcash_transparent::keys::NonHardenedChildIndex::from_index(index).unwrap();
            assert_eq!(
                *account
                    .derive_secret_key(AddressScope::External, index)
                    .unwrap()
                    .expose_secret(),
                expected.derive_external_secret_key(child).unwrap().to_secret_bytes()
            );
            assert_eq!(
                *account
                    .derive_secret_key(AddressScope::Internal, index)
                    .unwrap()
                    .expose_secret(),
                expected.derive_internal_secret_key(child).unwrap().to_secret_bytes()
            );
        }
    }
}

#[test]
fn a_transparent_index_out_of_range_is_an_error() {
    let seed = bip39_seed(&phrase()).unwrap();
    let account = legacy_transparent_account_key(seed.expose_secret(), ZeckNetwork::Mainnet).unwrap();
    let error = match account.derive_secret_key(AddressScope::External, 1 << 31) {
        Ok(_) => panic!("an index out of range must be rejected"),
        Err(error) => error,
    };
    assert_eq!(
        error,
        ZeckError::InvalidConfig("transparent index 2147483648 is out of range".to_owned())
    );
    assert!(account
        .derive_secret_key(AddressScope::Internal, (1 << 31) - 1)
        .is_ok());
}

#[test]
fn a_hardened_index_out_of_range_is_an_error_not_a_panic() {
    assert!(hardened(1u32 << 31).is_err());
    assert!(hardened(u32::MAX).is_err());
}

#[test]
fn a_hardened_index_out_of_range_is_named_in_the_error() {
    assert_eq!(
        hardened(u32::MAX).unwrap_err(),
        ZeckError::InvalidConfig(
            "derivation index 4294967295 is out of range for hardened derivation".to_owned()
        )
    );
    assert_eq!(hardened(7).unwrap().index(), ChildIndex::hardened(7).index());
}

#[test]
fn a_sapling_index_out_of_range_is_an_error() {
    let seed = bip39_seed(&phrase()).unwrap();
    let expected = ZeckError::InvalidConfig(
        "derivation index 2147483648 is out of range for hardened derivation".to_owned(),
    );
    for result in [
        legacy_sapling_spending_key(seed.expose_secret(), ZeckNetwork::Mainnet, 1 << 31),
        pre47_sapling_spending_key(seed.expose_secret(), ZeckNetwork::Mainnet, 1 << 31),
    ] {
        match result {
            Ok(_) => panic!("an index out of range must be rejected"),
            Err(error) => assert_eq!(error, expected),
        }
    }
}

#[test]
fn an_invalid_phrase_is_rejected_by_both_seed_routes() {
    let bad = SecretString::new("not a valid bip39 mnemonic at all".to_owned());
    assert!(bip39_seed(&bad).is_err());
    assert!(legacy_entropy_seed(&bad).is_err());
}

/// A word that is known, and a checksum that is wrong.
#[test]
fn both_seed_routes_reject_a_phrase_with_the_same_error() {
    let bad = SecretString::new(
        "abandon abandon abandon abandon abandon abandon abandon abandon abandon abandon abandon \
         abandon"
            .to_owned(),
    );
    let expected = ZeckError::InvalidMnemonic(
        "the recovery phrase is not a valid BIP-39 mnemonic".to_owned(),
    );
    match bip39_seed(&bad) {
        Ok(_) => panic!("an invalid phrase must be rejected"),
        Err(error) => assert_eq!(error, expected),
    }
    match legacy_entropy_seed(&bad) {
        Ok(_) => panic!("an invalid phrase must be rejected"),
        Err(error) => assert_eq!(error, expected),
    }
}

/// Words are what ASCII separators part, and their number has to be right.
#[test]
fn the_words_of_a_phrase_are_counted() {
    let spaced = SecretString::new(format!(" {}\n", SEED.replace(' ', "\t \r\n")));
    assert_eq!(
        legacy_entropy_seed(&spaced).unwrap().expose_secret(),
        &vec![0u8; 32]
    );
    assert_eq!(
        bip39_seed(&spaced).unwrap().expose_secret(),
        bip39_seed(&phrase()).unwrap().expose_secret()
    );
    for bad in ["abandon 2 abandon abandon abandon abandon art", ""] {
        let bad = SecretString::new(bad.to_owned());
        assert!(bip39_seed(&bad).is_err());
        assert!(legacy_entropy_seed(&bad).is_err());
    }
}

#[test]
fn a_rejected_phrase_does_not_appear_in_the_error() {
    let bad = SecretString::new(
        "zebra zebra zebra zebra zebra zebra zebra zebra zebra zebra zebra zebra".to_owned(),
    );
    let err = match legacy_entropy_seed(&bad) {
        Ok(_) => panic!("an invalid phrase must be rejected"),
        Err(err) => err.message().to_owned(),
    };
    assert!(!err.contains("zebra"), "error leaked phrase material: {err}");
}
