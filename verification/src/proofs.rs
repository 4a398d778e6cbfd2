//! Facts about registered proof types: proof sizes, sector sizes and the proof types that
//! go together, read from `fvm_shared` by the numeric code of a proof type.

use vstd::prelude::*;

verus! {

/// The size class of a proof code: 0 for 2 KiB, 1 for 8 MiB, 2 for 512 MiB, 3 for 32 GiB
/// and 4 for 64 GiB sectors.
pub open spec fn size_class(code: i64) -> int {
    (code as int) % 5
}

/// The byte size of the sectors of a size class.
pub open spec fn class_sector_size(class: int) -> u64 {
    if class == 0 {
        2048
    } else if class == 1 {
        8_388_608
    } else if class == 2 {
        536_870_912
    } else if class == 3 {
        34_359_738_368
    } else {
        68_719_476_736
    }
}

/// The largest seal proof, in bytes, for a seal proof code; `None` for an unknown code.
/// Codes 0 to 14 are the interactive proofs and 15 to 19 the non-interactive ones.
pub open spec fn seal_proof_size_spec(code: i64) -> Option<usize> {
    if 0 <= code < 20 {
        let small = size_class(code) <= 2;
        if code < 15 {
            if small { Some(192usize) } else { Some(1_920usize) }
        } else {
            if small { Some(14_164usize) } else { Some(23_092usize) }
        }
    } else {
        None
    }
}

/// The replica-update proof code that goes with a seal proof code: the one of the same
/// sector size; `None` for an unknown code.
pub open spec fn seal_update_proof_spec(code: i64) -> Option<i64> {
    if 0 <= code < 20 {
        Some(((code as int) % 5) as i64)
    } else {
        None
    }
}

/// Whether a PoSt proof code is known: 0 to 4 (winning) and 10 to 14 (window).
pub open spec fn post_proof_known(code: i64) -> bool {
    (0 <= code < 5) || (10 <= code < 15)
}

/// The sector size of a PoSt proof code.
pub open spec fn post_sector_size_spec(code: i64) -> Option<u64> {
    if post_proof_known(code) {
        Some(class_sector_size(size_class(code)))
    } else {
        None
    }
}

/// The number of sectors in a Window PoSt partition for a PoSt proof code.
pub open spec fn post_partition_sectors_spec(code: i64) -> Option<u64> {
    if post_proof_known(code) {
        if size_class(code) == 3 {
            Some(2349u64)
        } else if size_class(code) == 4 {
            Some(2300u64)
        } else {
            Some(2u64)
        }
    } else {
        None
    }
}

/// Calls `RegisteredSealProof::proof_size` of `fvm_shared` on the seal proof with this code.
/// The contract restates the table in that function: 192 bytes for small interactive
/// proofs, 1920 for large ones, 14164 and 23092 for the non-interactive ones, and an error
/// (here `None`) for a code that names no proof.
#[verifier::external_body]
pub(crate) fn seal_proof_size(code: i64) -> (res: Option<usize>)
    ensures
        res == seal_proof_size_spec(code),
{
    fvm_shared::sector::RegisteredSealProof::from(code).proof_size().ok()
}

/// Calls `RegisteredSealProof::registered_update_proof` of `fvm_shared` and returns the
/// code of the update proof. The contract restates that function's table: the update proof
/// of the same sector size, and an error (here `None`) for a code that names no proof.
#[verifier::external_body]
pub(crate) fn seal_update_proof(code: i64) -> (res: Option<i64>)
    ensures
        res == seal_update_proof_spec(code),
{
    fvm_shared::sector::RegisteredSealProof::from(code).registered_update_proof().ok().map(i64::from)
}

/// Calls `RegisteredPoStProof::sector_size` of `fvm_shared` and returns the size in bytes.
/// The contract restates that function's table, with an error (here `None`) for a code
/// that names no proof.
#[verifier::external_body]
pub(crate) fn post_sector_size(code: i64) -> (res: Option<u64>)
    ensures
        res == post_sector_size_spec(code),
{
    fvm_shared::sector::RegisteredPoStProof::from(code).sector_size().ok().map(|s| s as u64)
}

/// Calls `RegisteredPoStProof::window_post_partition_sectors` of `fvm_shared`. The contract
/// restates that function's table: 2349 sectors for 32 GiB, 2300 for 64 GiB, 2 for the
/// smaller sizes, and an error (here `None`) for a code that names no proof.
#[verifier::external_body]
pub(crate) fn post_partition_sectors(code: i64) -> (res: Option<u64>)
    ensures
        res == post_partition_sectors_spec(code),
{
    fvm_shared::sector::RegisteredPoStProof::from(code).window_post_partition_sectors().ok()
}

} // verus!
