//! The address range that an arena reserves from the system.
//!
//! Everything in this file is taken on trust from `memmap2`: nothing here is
//! proved, and the rest of the crate is proved from what is stated here.

use memmap2::MmapMut;
use vstd::prelude::*;

verus! {

/// `memmap2::MmapMut`: a mapping of memory that can be written to. Nothing
/// is known of what is in it.
#[verifier::external_type_specification]
#[verifier::external_body]
pub struct ExMmapMut(MmapMut);

/// The number of bytes that an anonymous mapping was asked to span.
pub uninterp spec fn region_len(region: MmapMut) -> nat;

/// `memmap2::MmapMut::map_anon`: asks the system for an anonymous mapping of
/// `len` bytes. Whether the system grants it is not decided here, so nothing
/// is said of when `Some` comes back; a mapping that was granted spans the
/// `len` bytes it was asked for.
#[verifier::external_body]
pub(crate) fn reserve(len: usize) -> (region: Option<MmapMut>)
    ensures
        region matches Some(m) ==> region_len(m) == len,
{
    MmapMut::map_anon(len).ok()
}

/// `<[u8]>::len`, reached through the mapping's `Deref`: the number of bytes
/// the mapping was asked to span.
#[verifier::external_body]
pub(crate) fn region_size(region: &MmapMut) -> (len: usize)
    ensures
        len == region_len(*region),
{
    region.len()
}

/// `<[u8]>::as_ptr`, reached through the mapping's `Deref`: the address of the
/// mapping's first byte, as an integer. The system picks the address, so
/// nothing is claimed of it.
#[verifier::external_body]
pub(crate) fn region_address(region: &MmapMut) -> (address: usize) {
    region.as_ptr().addr()
}

} // verus!
