//! The step from layout 0 to layout 1.
use vstd::prelude::*;
use crate::migrations::{lemma_upgrade_idempotent, upgraded, KittyVersion0, RecordStore, Step};

verus! {

/// A record of the layout before this step.
pub type OldKitty = KittyVersion0;

/// The stored records after this step: it runs only when the stored version
/// is 0 and the code's version is 1.
pub open spec fn migrate_spec(m: Map<u32, Seq<u8>>, on_chain_version: u16, current_version: u16) -> Map<u32, Seq<u8>> {
    if on_chain_version == 0 && current_version == 1 {
        upgraded(m, Step::V0ToV1)
    } else {
        m
    }
}

/// Rewrites every stored record from layout 0 to layout 1 when the stored
/// version is 0 and the code's version is 1, and does nothing otherwise.
/// Returns whether the records were rewritten.
pub fn migrate(store: &mut RecordStore, on_chain_version: u16, current_version: u16) -> (r: bool)
    requires
        old(store).wf(),
    ensures
        final(store).wf(),
        r == (on_chain_version == 0 && current_version == 1),
        final(store)@ == migrate_spec(old(store)@, on_chain_version, current_version),
{
    if on_chain_version != 0 {
        return false;
    }
    if current_version != 1 {
        return false;
    }
    store.upgrade_all(Step::V0ToV1);
    true
}

/// Running this step twice with the same versions leaves the same records
/// as running it once.
pub proof fn lemma_migrate_idempotent(m: Map<u32, Seq<u8>>, on_chain_version: u16, current_version: u16)
    ensures
        migrate_spec(migrate_spec(m, on_chain_version, current_version), on_chain_version, current_version)
            == migrate_spec(m, on_chain_version, current_version),
{
    lemma_upgrade_idempotent(m, Step::V0ToV1);
}

} // verus!
