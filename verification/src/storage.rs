use vstd::prelude::*;

verus! {

/// Storage strategy for the blindbit-oracle server.
///
/// Each variant enables a specific data storage model. The two endpoints
/// `/tweak-index` and `/tweaks` serve different data structures:
///
/// - `/tweak-index` queries the block-level index (TweakIndex or TweakIndexDust)
/// - `/tweaks` queries the per-transaction storage (individual Tweaks)
///
/// These are mutually exclusive storage strategies: only one endpoint returns
/// data, depending on which storage is enabled.
#[derive(Debug, PartialEq, Eq, Structural, Clone, Copy)]
pub enum Storage {
    /// Block-level index without dust filtering (`tweaks_full_basic=1`).
    FullBasic,
    /// Block-level index with dust filtering support (`tweaks_full_with_dust_filter=1`).
    DustFilter,
    /// Per-transaction storage with dust filtering and cut-through
    /// (`tweaks_cut_through_with_dust_filter=1`).
    ///
    /// Cannot be combined with `tweaks_only=true`: cut-through needs UTXO tracking.
    DustFilterCutThrough,
}

/// The server config flags of a storage strategy, in the order
/// (tweaks_full_basic, tweaks_full_with_dust_filter, tweaks_cut_through_with_dust_filter).
pub open spec fn flags_of(storage: Storage) -> (u8, u8, u8) {
    match storage {
        Storage::FullBasic => (1, 0, 0),
        Storage::DustFilter => (0, 1, 0),
        Storage::DustFilterCutThrough => (0, 0, 1),
    }
}

impl From<&Storage> for (u8, u8, u8) {
    fn from(value: &Storage) -> (flags: (u8, u8, u8)) {
        match value {
            Storage::FullBasic => (1, 0, 0),
            Storage::DustFilter => (0, 1, 0),
            Storage::DustFilterCutThrough => (0, 0, 1),
        }
    }
}

impl vstd::std_specs::convert::FromSpecImpl<&Storage> for (u8, u8, u8) {
    open spec fn obeys_from_spec() -> bool {
        true
    }

    open spec fn from_spec(v: &Storage) -> (u8, u8, u8) {
        flags_of(*v)
    }
}

impl Storage {
    /// Returns the server config flags as
    /// (tweaks_full_basic, tweaks_full_with_dust_filter, tweaks_cut_through_with_dust_filter).
    pub fn values(&self) -> (flags: (u8, u8, u8))
        ensures
            flags == flags_of(*self),
    {
        <(u8, u8, u8)>::from(self)
    }
}

/// Exactly one storage flag is set: the strategies are mutually exclusive,
/// so every strategy enables one server storage model and disables the two others.
pub proof fn lemma_flags_one_hot(storage: Storage)
    ensures
        flags_of(storage).0 + flags_of(storage).1 + flags_of(storage).2 == 1,
        flags_of(storage).0 <= 1 && flags_of(storage).1 <= 1 && flags_of(storage).2 <= 1,
{
}

/// Distinct strategies give distinct server flags, so the flags written to
/// the server config determine the strategy.
pub proof fn lemma_flags_injective(a: Storage, b: Storage)
    ensures
        flags_of(a) == flags_of(b) ==> a == b,
{
}

} // verus!
