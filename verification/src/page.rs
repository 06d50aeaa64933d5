use vstd::prelude::*;

verus! {

/// The index of the page that byte offset `offset` falls into.
pub open spec fn page_class(offset: nat, page: nat) -> nat
    recommends
        page > 0,
{
    offset / page
}

/// The number of bytes that a mapping of a file of `mapped` bytes spans: whole
/// pages, none for an empty file.
pub open spec fn extent(mapped: nat, page: nat) -> nat
    recommends
        page > 0,
{
    if mapped == 0 {
        0
    } else {
        (page_class((mapped - 1) as nat, page) + 1) * page
    }
}

/// Whether taking a file from `current` to `len` bytes requires a new mapping:
/// the file was empty, it shrinks, or its last mapped byte and the new end lie
/// on different pages.
pub open spec fn remap_needed(current: nat, len: nat, page: nat) -> bool
    recommends
        page > 0,
{
    ||| current == 0
    ||| len < current
    ||| page_class((current - 1) as nat, page) != page_class(len, page)
}

/// Decides whether a resize from `current` to `len` bytes must replace the
/// mapping.
pub fn needs_remap(current: u64, len: u64, page: usize) -> (replace: bool)
    requires
        page > 0,
    ensures
        replace == remap_needed(current as nat, len as nat, page as nat),
{
    let page: u64 = page as u64;
    current > len || current == 0 || (current - 1) / page != len / page
}

/// The page size of the machine, as `sysconf::page::pagesize` reports it.
/// Nothing is claimed of the number: it differs between machines. The call
/// returns on every system that answers `sysconf(_SC_PAGESIZE)`, which POSIX
/// requires.
#[verifier::external_body]
pub(crate) fn system_page_size() -> usize {
    sysconf::page::pagesize()
}

/// A file's whole pages cover the file.
pub proof fn lemma_extent_covers(mapped: nat, page: nat)
    requires
        page > 0,
    ensures
        mapped <= extent(mapped, page),
{
    if mapped > 0 {
        let c = (mapped - 1) as nat;
        assert(c < (c / page + 1) * page) by (nonlinear_arith)
            requires
                page > 0,
        ;
    }
}

/// Growth that needs no new mapping ends inside the pages that the mapping
/// already spans.
pub proof fn lemma_growth_in_place_is_covered(mapped: nat, current: nat, len: nat, page: nat)
    requires
        page > 0,
        mapped <= current <= extent(mapped, page),
        !remap_needed(current, len, page),
    ensures
        mapped > 0,
        current <= len < extent(mapped, page),
{
    let k = page_class((mapped - 1) as nat, page);
    let c = (current - 1) as nat;
    assert(c / page <= k) by (nonlinear_arith)
        requires
            page > 0,
            c < (k + 1) * page,
    ;
    assert(len < (k + 1) * page) by (nonlinear_arith)
        requires
            page > 0,
            len / page <= k,
    ;
}

} // verus!
