//! Sapling extended spending keys, derived by the `sapling-crypto` crate.
use crate::bytes::le_bytes;
use crate::error::ErrorView;
use crate::error::ZeckError;
use crate::error::ZeckResult;
use crate::text::decimal;
use crate::text::decimal_text;
use vstd::prelude::*;
use vstd::string::*;

verus! {

/// The number of hardened child indices: they run from zero up to this limit.
pub const HARDENED_KEY_LIMIT: u32 = 0x8000_0000;

/// The error of `ExtendedSpendingKey::from_bytes`, opaque to the verifier.
#[verifier::external_type_specification]
#[verifier::external_body]
pub struct ExDecodingError(sapling_crypto::keys::DecodingError);

/// The ZIP 32 encoding of the Sapling master key of `seed`, or nothing where the
/// seed has none.
pub uninterp spec fn sapling_master(seed: Seq<u8>) -> Option<Seq<u8>>;

/// The ZIP 32 encoding of the child of the Sapling key `parent` at the hardened
/// `index`, or nothing where that child is not a valid key.
pub uninterp spec fn sapling_child(parent: Seq<u8>, index: u32) -> Option<Seq<u8>>;

/// Whether `bytes` is the ZIP 32 encoding of a valid Sapling extended spending key.
pub uninterp spec fn sapling_key_decodes(bytes: Seq<u8>) -> bool;

/// The level of the key that `key` encodes, counted from the master key: the first
/// byte of the encoding.
pub open spec fn encoded_depth(key: Seq<u8>) -> u8 {
    key[0]
}

/// Whether `key` encodes a child at the hardened `index`: the encoding holds the
/// index, with its hardened bit, in the four bytes behind the tag of the parent.
pub open spec fn encodes_child(key: Seq<u8>, index: u32) -> bool {
    &&& index < HARDENED_KEY_LIMIT
    &&& key.subrange(5, 9) == le_bytes((index + HARDENED_KEY_LIMIT) as u32)
}

/// The default payment address of the Sapling key that `key` encodes, in Bech32
/// with the prefix `prefix`.
pub uninterp spec fn sapling_default_address(prefix: Seq<char>, key: Seq<u8>) -> Seq<char>;

/// Whether `text` holds nothing but the letters `a` to `z`.
pub open spec fn is_lower_case(text: Seq<char>) -> bool {
    forall|i: int| 0 <= i < text.len() ==> 'a' <= #[trigger] text[i] <= 'z'
}

/// Whether `address` begins with `prefix` and the character `1`, which separates the
/// prefix of a Bech32 text from its data.
pub open spec fn begins_with_prefix(address: Seq<char>, prefix: Seq<char>) -> bool {
    prefix.push('1').is_prefix_of(address)
}

/// `ExtendedSpendingKey::master` and `to_bytes`: the master key of `seed`, which
/// depends on the seed alone. It decodes again, and its first byte, the level, is
/// zero.
#[verifier::external_body]
fn master_bytes(seed: &[u8]) -> (key: Option<[u8; 169]>)
    ensures
        match key {
            Some(bytes) => {
                &&& sapling_master(seed@) == Some(bytes@)
                &&& sapling_key_decodes(bytes@)
                &&& encoded_depth(bytes@) == 0
            },
            None => sapling_master(seed@) is None,
        },
{
    Some(sapling_crypto::zip32::ExtendedSpendingKey::master(seed)?.to_bytes())
}

/// `ExtendedSpendingKey::derive_child`, on the key that `from_bytes` reads from
/// `parent` and with the result written by `to_bytes`: the child depends on the
/// parent and the index alone. It decodes again, stands one level deeper, and holds
/// the index in its encoding.
///
/// `ChildIndex::hardened` takes indices below the limit only, and the depth is
/// counted in one byte.
#[verifier::external_body]
fn child_bytes(parent: &[u8; 169], index: u32) -> (key: Option<[u8; 169]>)
    requires
        sapling_key_decodes(parent@),
        encoded_depth(parent@) < 255,
        index < HARDENED_KEY_LIMIT,
    ensures
        match key {
            Some(bytes) => {
                &&& sapling_child(parent@, index) == Some(bytes@)
                &&& sapling_key_decodes(bytes@)
                &&& encoded_depth(bytes@) == encoded_depth(parent@) + 1
                &&& encodes_child(bytes@, index)
            },
            None => sapling_child(parent@, index) is None,
        },
{
    let parent = sapling_crypto::zip32::ExtendedSpendingKey::from_bytes(parent).ok()?;
    Some(parent.derive_child(zip32::ChildIndex::hardened(index))?.to_bytes())
}

/// `ExtendedSpendingKey::from_bytes`, then the default address of the key's
/// `DiversifiableFullViewingKey`, written by `zcash_keys` as
/// `encode_payment_address` does: the address depends on the prefix and the key
/// alone, and exists where the key decodes, which keys of 169 bytes alone do. It begins with the prefix, where that is
/// in lower case, and the separator of Bech32.
///
/// The prefix has room in Bech32, which takes at most 83 bytes for it.
#[verifier::external_body]
pub(crate) fn default_address(prefix: &str, key: &[u8]) -> (result: Result<
    String,
    sapling_crypto::keys::DecodingError,
>)
    requires
        prefix.spec_bytes().len() <= 83,
    ensures
        match result {
            Ok(address) => {
                &&& sapling_key_decodes(key@)
                &&& key@.len() == 169
                &&& address@ == sapling_default_address(prefix@, key@)
                &&& is_lower_case(prefix@) ==> begins_with_prefix(address@, prefix@)
            },
            Err(_) => !sapling_key_decodes(key@),
        },
{
    let key = sapling_crypto::zip32::ExtendedSpendingKey::from_bytes(key)?;
    let address = key.to_diversifiable_full_viewing_key().default_address().1;
    Ok(zcash_keys::encoding::encode_payment_address(prefix, &address))
}

/// A hardened child index.
#[derive(Debug, Clone, Copy, PartialEq, Eq)]
pub struct ChildIndex {
    number: u32,
}

impl View for ChildIndex {
    type V = u32;

    /// The index without the hardened bit.
    closed spec fn view(&self) -> u32 {
        self.number
    }
}

impl ChildIndex {
    #[verifier::type_invariant]
    spec fn in_range(self) -> bool {
        self.number < HARDENED_KEY_LIMIT
    }

    /// The index as ZIP 32 encodes it, with the hardened bit set.
    pub fn index(&self) -> (index: u32)
        ensures
            index == self@ + HARDENED_KEY_LIMIT,
    {
        proof {
            use_type_invariant(self);
        }
        self.number + HARDENED_KEY_LIMIT
    }
}

/// The error for a child index that has no hardened form.
pub open spec fn hardened_range_error(index: u32) -> ErrorView {
    ErrorView::InvalidConfig(
        "derivation index "@ + decimal(index as nat)
            + " is out of range for hardened derivation"@,
    )
}

/// The hardened form of `index`, with an index out of range reported as an error.
///
/// Every index is either a constant or a gap position that a user asked for, and a
/// recovery tool must not panic on the latter.
pub fn hardened(index: u32) -> (result: ZeckResult<ChildIndex>)
    ensures
        match result {
            Ok(child) => index < HARDENED_KEY_LIMIT && child@ == index,
            Err(error) => index >= HARDENED_KEY_LIMIT && error@ == hardened_range_error(index),
        },
{
    if index >= HARDENED_KEY_LIMIT {
        let mut message = "derivation index ".to_owned();
        let number = decimal_text(index as u64);
        message.append(number.as_str());
        message.append(" is out of range for hardened derivation");
        return Err(ZeckError::InvalidConfig(message));
    }
    Ok(ChildIndex { number: index })
}

/// A Sapling extended spending key, in the encoding of ZIP 32.
pub struct ExtendedSpendingKey {
    bytes: [u8; 169],
}

impl View for ExtendedSpendingKey {
    type V = Seq<u8>;

    /// The encoding of the key.
    closed spec fn view(&self) -> Seq<u8> {
        self.bytes@
    }
}

impl ExtendedSpendingKey {
    #[verifier::type_invariant]
    spec fn decodes(self) -> bool {
        sapling_key_decodes(self.bytes@)
    }

    /// The number of levels between the master key and this one.
    pub open spec fn depth(self) -> int {
        encoded_depth(self@) as int
    }

    /// The master key of `seed`, or nothing where the seed has none.
    pub fn master(seed: &[u8]) -> (key: Option<ExtendedSpendingKey>)
        ensures
            match key {
                Some(key) => sapling_master(seed@) == Some(key@) && key.depth() == 0,
                None => sapling_master(seed@) is None,
            },
    {
        match master_bytes(seed) {
            Some(bytes) => Some(ExtendedSpendingKey { bytes }),
            None => None,
        }
    }

    /// The child key at a hardened index, or nothing where that child is not a valid
    /// key.
    pub fn derive_child(&self, index: ChildIndex) -> (key: Option<ExtendedSpendingKey>)
        requires
            self.depth() < 255,
        ensures
            match key {
                Some(key) => {
                    &&& sapling_child(self@, index@) == Some(key@)
                    &&& key.depth() == self.depth() + 1
                    &&& encodes_child(key@, index@)
                },
                None => sapling_child(self@, index@) is None,
            },
    {
        proof {
            use_type_invariant(self);
            use_type_invariant(&index);
        }
        match child_bytes(&self.bytes, index.number) {
            Some(bytes) => Some(ExtendedSpendingKey { bytes }),
            None => None,
        }
    }

    /// The encoding of the key, which decodes again.
    pub fn to_bytes(&self) -> (bytes: [u8; 169])
        ensures
            bytes@ == self@,
            sapling_key_decodes(bytes@),
    {
        proof {
            use_type_invariant(self);
        }
        self.bytes
    }
}

/// The error for a path that leads to no valid Sapling key.
///
/// `sapling-crypto` finds a key invalid where one of its scalars comes out as zero, with
/// a negligible chance. Up to its version 0.7 it panicked there. It now returns `None`,
/// and a recovery tool reports that.
pub open spec fn no_key_error() -> ErrorView {
    ErrorView::Internal("the derivation path yields no valid Sapling key"@)
}

fn no_key() -> (error: ZeckError)
    ensures
        error@ == no_key_error(),
{
    ZeckError::Internal("the derivation path yields no valid Sapling key".to_owned())
}

/// The Sapling key at `path` under the master key of `seed`, all levels hardened, or
/// the error of the first level that cannot be derived.
pub open spec fn sapling_key_at(seed: Seq<u8>, path: Seq<u32>) -> Result<Seq<u8>, ErrorView>
    decreases path.len(),
{
    if path.len() == 0 {
        match sapling_master(seed) {
            Some(key) => Ok(key),
            None => Err(no_key_error()),
        }
    } else {
        match sapling_key_at(seed, path.drop_last()) {
            Err(error) => Err(error),
            Ok(parent) => if path.last() >= HARDENED_KEY_LIMIT {
                Err(hardened_range_error(path.last()))
            } else {
                match sapling_child(parent, path.last()) {
                    Some(key) => Ok(key),
                    None => Err(no_key_error()),
                }
            },
        }
    }
}

/// A derivation result with its key and its error as values.
pub open spec fn key_result(result: ZeckResult<ExtendedSpendingKey>) -> Result<
    Seq<u8>,
    ErrorView,
> {
    match result {
        Ok(key) => Ok(key@),
        Err(error) => Err(error@),
    }
}

/// A failure part of the way down a path is the failure of the whole path.
proof fn lemma_failure_stays(seed: Seq<u8>, path: Seq<u32>, depth: int)
    requires
        0 <= depth <= path.len(),
        sapling_key_at(seed, path.take(depth)) is Err,
    ensures
        sapling_key_at(seed, path) == sapling_key_at(seed, path.take(depth)),
    decreases path.len() - depth,
{
    if depth == path.len() {
        assert(path.take(depth) =~= path);
    } else {
        assert(path.take(depth + 1).drop_last() =~= path.take(depth));
        lemma_failure_stays(seed, path, depth + 1);
    }
}

/// Walks `path` from the master key of `seed`, level by level.
pub fn derive_path(seed: &[u8], path: &[u32]) -> (result: ZeckResult<ExtendedSpendingKey>)
    requires
        path@.len() <= 255,
    ensures
        key_result(result) == sapling_key_at(seed@, path@),
        result matches Ok(key) ==> {
            &&& key@.len() == 169
            &&& sapling_key_decodes(key@)
            &&& key.depth() == path@.len()
            &&& path@.len() > 0 ==> encodes_child(key@, path@.last())
        },
{
    assert(path@.take(0) =~= Seq::<u32>::empty());
    let mut key = match ExtendedSpendingKey::master(seed) {
        Some(key) => key,
        None => {
            proof {
                lemma_failure_stays(seed@, path@, 0);
            }
            return Err(no_key());
        },
    };
    for depth in 0..path.len()
        invariant
            path@.len() <= 255,
            sapling_key_at(seed@, path@.take(depth as int)) == Ok::<Seq<u8>, ErrorView>(key@),
            key.depth() == depth,
            depth > 0 ==> encodes_child(key@, path@[depth - 1]),
    {
        assert(path@.take(depth + 1).drop_last() =~= path@.take(depth as int));
        let index = match hardened(path[depth]) {
            Ok(index) => index,
            Err(error) => {
                proof {
                    lemma_failure_stays(seed@, path@, depth + 1);
                }
                return Err(error);
            },
        };
        key = match key.derive_child(index) {
            Some(child) => child,
            None => {
                proof {
                    lemma_failure_stays(seed@, path@, depth + 1);
                }
                return Err(no_key());
            },
        };
    }
    assert(path@.take(path@.len() as int) =~= path@);
    proof {
        use_type_invariant(&key);
    }
    Ok(key)
}

} // verus!
