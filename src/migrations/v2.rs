//! The step to layout 2, from layout 0 or from layout 1.
use vstd::prelude::*;
use crate::migrations::{lemma_upgrade_idempotent, upgraded, RecordStore, Step};

verus! {

/// The stored records after this step: it runs only when the code's version
/// is 2, from layout 0 when the stored version is 0 and from layout 1 when
/// it is 1.
pub open spec fn migrate_spec(m: Map<u32, Seq<u8>>, on_chain_version: u16, current_version: u16) -> Map<u32, Seq<u8>> {
    if current_version != 2 {
        m
    } else if on_chain_version == 0 {
        upgraded(m, Step::V0ToV2)
    } else if on_chain_version == 1 {
        upgraded(m, Step::V1ToV2)
    } else {
        m
    }
}

/// Rewrites every stored record to layout 2 when the code's version is 2:
/// from layout 0 when the stored version is 0, from layout 1 when it is 1.
/// Does nothing otherwise.  Returns whether the records were rewritten.
pub fn migrate(store: &mut RecordStore, on_chain_version: u16, current_version: u16) -> (r: bool)
    requires
        old(store).wf(),
    ensures
        final(store).wf(),
        r == ((on_chain_version == 0 || on_chain_version == 1) && current_version == 2),
        final(store)@ == migrate_spec(old(store)@, on_chain_version, current_version),
{
    if on_chain_version != 0 && on_chain_version != 1 {
        return false;
    }
    if current_version != 2 {
        return false;
    }
    if on_chain_version == 0 {
        store.upgrade_all(Step::V0ToV2);
    } else {
        store.upgrade_all(Step::V1ToV2);
    }
    true
}

/// Running this step twice with the same versions leaves the same records
/// as running it once.
pub proof fn lemma_migrate_idempotent(m: Map<u32, Seq<u8>>, on_chain_version: u16, current_version: u16)
    ensures
        migrate_spec(migrate_spec(m, on_chain_version, current_version), on_chain_version, current_version)
            == migrate_spec(m, on_chain_version, current_version),
{
    lemma_upgrade_idempotent(m, Step::V0ToV2);
    lemma_upgrade_idempotent(m, Step::V1ToV2);
}

} // verus!
