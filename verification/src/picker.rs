//! The picker's decision rule.
//!
//! The picker walks the store, decodes each image, and applies one that
//! has not been applied before, keyed by a perceptual hash recorded in
//! its own ledger.  The decoding, hashing and file handling live with the
//! caller; the decision — apply this hash or skip it — is taken here.

use vstd::prelude::*;

use crate::ledger::PersistentSet;

verus! {

/// The picker found no image it could apply.
#[derive(Clone, Copy, Debug, PartialEq, Eq, Structural)]
pub struct NoValidImage;

/// What to do with one decodable stored image.
#[derive(Clone, Copy, Debug, PartialEq, Eq, Structural)]
pub enum PickDecision {
    /// Its hash was applied before: remove the file and move on.
    AlreadyApplied,
    /// A fresh image: record its hash, apply it, and retire the file.
    Apply,
}

/// Decide one candidate by its perceptual hash: apply it exactly when its
/// hash is not yet in the applied-hash ledger, recording it at the same
/// time.
pub fn pick_step(applied: &mut PersistentSet, hash: &String) -> (r: PickDecision)
    ensures
        r == (if old(applied)@.contains(hash@) {
            PickDecision::AlreadyApplied
        } else {
            PickDecision::Apply
        }),
        final(applied)@ == old(applied)@.insert(hash@),
        final(applied).spec_name() == old(applied).spec_name(),
{
    let seen = applied.contains(hash);
    applied.insert(hash.clone());
    if seen {
        PickDecision::AlreadyApplied
    } else {
        PickDecision::Apply
    }
}

} // verus!
