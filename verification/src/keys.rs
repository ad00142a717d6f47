//! A fixed set of spending keys, as a scan or a sweep takes it.
use crate::secret::SecretBytes;
use crate::secret::SecretScalar;
use vstd::prelude::*;

verus! {

/// How a key came to be in a wallet.
#[derive(Debug, Clone, Copy, PartialEq, Eq, Structural)]
pub enum Provenance {
    /// Derived from the wallet's seed.
    HdDerived,
    /// Brought in from elsewhere.
    Imported,
}

/// A Sapling extended spending key in its ZIP 32 encoding.
pub struct SaplingKey {
    pub extsk: SecretBytes,
    pub provenance: Provenance,
}

/// A transparent private key.
pub struct TransparentKey {
    pub secret: SecretScalar,
    pub provenance: Provenance,
}

/// A Sprout spending key.
pub struct SproutKey {
    pub secret: SecretScalar,
    pub provenance: Provenance,
}

/// The keys of a wallet, pool by pool.
pub struct ImportedKeys {
    pub sapling: Vec<SaplingKey>,
    pub transparent: Vec<TransparentKey>,
    pub sprout: Vec<SproutKey>,
}

/// A key of any pool: its bytes, and where it came from.
pub struct KeyView {
    pub bytes: Seq<u8>,
    pub provenance: Provenance,
}

/// The keys of a wallet, pool by pool, each as its bytes.
#[verifier::ext_equal]
pub struct ImportedKeysView {
    pub sapling: Seq<KeyView>,
    pub transparent: Seq<KeyView>,
    pub sprout: Seq<KeyView>,
}

impl View for SaplingKey {
    type V = KeyView;

    open spec fn view(&self) -> KeyView {
        KeyView { bytes: self.extsk@, provenance: self.provenance }
    }
}

impl View for TransparentKey {
    type V = KeyView;

    open spec fn view(&self) -> KeyView {
        KeyView { bytes: self.secret@, provenance: self.provenance }
    }
}

impl View for SproutKey {
    type V = KeyView;

    open spec fn view(&self) -> KeyView {
        KeyView { bytes: self.secret@, provenance: self.provenance }
    }
}

impl View for ImportedKeys {
    type V = ImportedKeysView;

    open spec fn view(&self) -> ImportedKeysView {
        ImportedKeysView {
            sapling: self.sapling@.map_values(|key: SaplingKey| key@),
            transparent: self.transparent@.map_values(|key: TransparentKey| key@),
            sprout: self.sprout@.map_values(|key: SproutKey| key@),
        }
    }
}

impl ImportedKeysView {
    /// No keys at all.
    pub open spec fn empty() -> ImportedKeysView {
        ImportedKeysView { sapling: seq![], transparent: seq![], sprout: seq![] }
    }

    /// The keys of `self` followed by those of `more`, in each pool.
    pub open spec fn append(self, more: ImportedKeysView) -> ImportedKeysView {
        ImportedKeysView {
            sapling: self.sapling + more.sapling,
            transparent: self.transparent + more.transparent,
            sprout: self.sprout + more.sprout,
        }
    }

    /// Whether `self` begins with the keys of `first`, in each pool.
    pub open spec fn starts_with(self, first: ImportedKeysView) -> bool {
        &&& first.sapling.is_prefix_of(self.sapling)
        &&& first.transparent.is_prefix_of(self.transparent)
        &&& first.sprout.is_prefix_of(self.sprout)
    }
}

/// `keys` as keys that were derived from a wallet's seed.
pub open spec fn hd_derived(keys: Seq<Seq<u8>>) -> Seq<KeyView> {
    keys.map_values(|bytes: Seq<u8>| KeyView { bytes, provenance: Provenance::HdDerived })
}

/// Whether every key of `keys` was derived from the wallet's seed.
pub open spec fn all_hd_derived(keys: Seq<KeyView>) -> bool {
    forall|i: int| 0 <= i < keys.len() ==> (#[trigger] keys[i]).provenance == Provenance::HdDerived
}

impl Default for ImportedKeys {
    /// No keys at all.
    fn default() -> (keys: ImportedKeys)
        ensures
            keys@ == ImportedKeysView::empty(),
    {
        ImportedKeys { sapling: Vec::new(), transparent: Vec::new(), sprout: Vec::new() }
    }
}

} // verus!
