//! BIP 39 mnemonics, read by the `bip0039` crate.
use bip0039::English;
use bip0039::Mnemonic;
use vstd::prelude::*;
use vstd::utf8::is_ascii_chars;

verus! {

/// The error of the `bip0039` crate, opaque to the verifier. Its text can quote a
/// word of the phrase, so the library never shows it.
#[verifier::external_type_specification]
#[verifier::external_body]
pub struct ExMnemonicError(bip0039::Error);

/// What `bip0039` reads `phrase` as: the entropy that the English mnemonic encodes,
/// or nothing where the phrase is not a valid mnemonic.
pub uninterp spec fn mnemonic_entropy(phrase: Seq<char>) -> Option<Seq<u8>>;

/// The seed that `bip0039` stretches `phrase` into, under `passphrase`.
pub uninterp spec fn mnemonic_seed(phrase: Seq<char>, passphrase: Seq<char>) -> [u8; 64];

/// Whether `phrase` is an English mnemonic with a correct checksum.
pub open spec fn is_mnemonic(phrase: Seq<char>) -> bool {
    mnemonic_entropy(phrase) is Some
}

/// Whether `c` is one of the ASCII characters that separate words: a space, a tab, a
/// line break, a vertical tab or a form feed.
pub open spec fn is_ascii_space(c: char) -> bool {
    c == ' ' || '\t' <= c <= '\r'
}

/// The number of words of an ASCII phrase: of the characters that stand behind a
/// separator, or first, and are none themselves.
pub open spec fn word_count(phrase: Seq<char>) -> nat
    decreases phrase.len(),
{
    if phrase.len() == 0 {
        0
    } else {
        let before = phrase.drop_last();
        let starts_word = !is_ascii_space(phrase.last()) && (before.len() == 0 || is_ascii_space(
            before.last(),
        ));
        word_count(before) + if starts_word {
            1nat
        } else {
            0nat
        }
    }
}

/// Whether mnemonics have `words` words.
pub open spec fn is_mnemonic_len(words: nat) -> bool {
    words == 12 || words == 15 || words == 18 || words == 21 || words == 24
}

/// Whether mnemonics encode entropy of `len` bytes: 12, 15, 18, 21 or 24 words
/// carry 16, 20, 24, 28 or 32 bytes.
pub open spec fn is_entropy_len(len: nat) -> bool {
    len == 16 || len == 20 || len == 24 || len == 28 || len == 32
}

/// `bip0039::Mnemonic::from_phrase` and `Mnemonic::entropy`: the raw entropy of an
/// English mnemonic, which depends on the phrase alone.
///
/// The entropy has one of the five lengths of BIP 39. Where the phrase is ASCII, which
/// the normalisation leaves as it is, the entropy's length is four thirds of the number
/// of words. For other phrases the words are counted behind the normalisation, and
/// nothing is said of their number.
#[verifier::external_body]
pub(crate) fn read_entropy(phrase: &str) -> (result: Result<Vec<u8>, bip0039::Error>)
    ensures
        match result {
            Ok(entropy) => {
                &&& mnemonic_entropy(phrase@) == Some(entropy@)
                &&& is_entropy_len(entropy@.len())
                &&& is_ascii_chars(phrase@) ==> 3 * entropy@.len() == 4 * word_count(phrase@)
            },
            Err(_) => mnemonic_entropy(phrase@) is None,
        },
{
    Ok(Mnemonic::<English>::from_phrase(phrase)?.entropy().to_vec())
}

/// `bip0039::Mnemonic::from_phrase` and `Mnemonic::to_seed`: the PBKDF2 seed of an
/// English mnemonic, which depends on the phrase and the passphrase alone. It
/// exists for the phrases that encode entropy, and for no others. Those that are ASCII
/// have one of the five numbers of words.
#[verifier::external_body]
pub(crate) fn stretch_seed(phrase: &str, passphrase: &str) -> (result: Result<
    [u8; 64],
    bip0039::Error,
>)
    ensures
        match result {
            Ok(seed) => {
                &&& is_mnemonic(phrase@)
                &&& seed == mnemonic_seed(phrase@, passphrase@)
                &&& is_ascii_chars(phrase@) ==> is_mnemonic_len(word_count(phrase@))
            },
            Err(_) => !is_mnemonic(phrase@),
        },
{
    Ok(Mnemonic::<English>::from_phrase(phrase)?.to_seed(passphrase))
}

} // verus!
