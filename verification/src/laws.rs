//! What holds across calls: of runs of appends, of a write followed by a
//! read, and of resizes that replace the mapping against those that do not.

use crate::error::MmapError;
use crate::mapping::{lemma_resized_wf, Mapping, Outcome, Plan};
use crate::region::{spliced, zeroed};
use vstd::prelude::*;

verus! {

/// The sum of `lens`.
pub open spec fn total(lens: Seq<nat>) -> nat
    decreases lens.len(),
{
    if lens.len() == 0 {
        0
    } else {
        total(lens.drop_last()) + lens.last()
    }
}

/// The state after appending payloads of the lengths `lens`, one after the
/// other, each answered with [`Outcome::Done`].
pub open spec fn after_appends(m: Mapping, lens: Seq<nat>) -> Mapping
    decreases lens.len(),
{
    if lens.len() == 0 {
        m
    } else {
        after_appends(m, lens.drop_last()).appended(lens.last(), Outcome::Done)
    }
}

/// The sum of the first `i` lengths is at most the sum of all.
pub proof fn lemma_total_of_prefix(lens: Seq<nat>, i: int)
    requires
        0 <= i <= lens.len(),
    ensures
        total(lens.take(i)) <= total(lens),
    decreases lens.len(),
{
    if i == lens.len() {
        assert(lens.take(i) =~= lens);
    } else {
        lemma_total_of_prefix(lens.drop_last(), i);
        assert(lens.drop_last().take(i) =~= lens.take(i));
    }
}

/// After a run of appends the file is as long as it was before plus the sum
/// of the payloads' lengths, and it is still usable.
pub proof fn lemma_appends_add_up(m: Mapping, lens: Seq<nat>)
    requires
        m.wf(),
        m.usable(),
        m.len + total(lens) <= u64::MAX,
    ensures
        after_appends(m, lens).wf(),
        after_appends(m, lens).usable(),
        after_appends(m, lens).page == m.page,
        after_appends(m, lens).len == m.len + total(lens),
    decreases lens.len(),
{
    if lens.len() > 0 {
        lemma_appends_add_up(m, lens.drop_last());
        let before = after_appends(m, lens.drop_last());
        lemma_resized_wf(before, before.len + lens.last(), Outcome::Done);
    }
}

/// In a run of appends, the offset returned for each payload is the length
/// the file had at the start plus the sum of the lengths of the payloads
/// before it: the offsets are contiguous, and for a file that starts empty
/// each is the sum of the lengths before it.
pub proof fn lemma_append_offsets_are_prefix_sums(
    m: Mapping,
    lens: Seq<nat>,
    i: int,
    region_len: nat,
)
    requires
        m.wf(),
        m.usable(),
        m.len + total(lens) <= u64::MAX,
        0 <= i < lens.len(),
        m.len + total(lens.take(i + 1)) <= region_len,
    ensures
        after_appends(m, lens.take(i)).append_result(lens[i], Outcome::Done, region_len) == Ok::<
            u64,
            MmapError,
        >((m.len + total(lens.take(i))) as u64),
        after_appends(m, lens.take(i)).appended(lens[i], Outcome::Done) == after_appends(
            m,
            lens.take(i + 1),
        ),
{
    let upto = lens.take(i + 1);
    lemma_total_of_prefix(lens, i + 1);
    assert(upto.drop_last() =~= lens.take(i));
    assert(upto.last() == lens[i]);
    lemma_appends_add_up(m, lens.take(i));
}

/// Bytes written into a region are read back from it unchanged, and no other
/// byte of the region changes.
pub proof fn lemma_write_then_read(content: Seq<u8>, at: int, bytes: Seq<u8>)
    requires
        0 <= at,
        at + bytes.len() <= content.len(),
    ensures
        spliced(content, at, bytes).len() == content.len(),
        spliced(content, at, bytes).subrange(at, at + bytes.len()) == bytes,
        spliced(content, at, bytes).subrange(0, at) == content.subrange(0, at),
        spliced(content, at, bytes).subrange(at + bytes.len(), content.len() as int)
            == content.subrange(at + bytes.len(), content.len() as int),
{
    let after = spliced(content, at, bytes);
    assert(after.subrange(at, at + bytes.len()) =~= bytes);
    assert(after.subrange(0, at) =~= content.subrange(0, at));
    assert(after.subrange(at + bytes.len(), content.len() as int) =~= content.subrange(
        at + bytes.len(),
        content.len() as int,
    ));
}

/// Right after a payload was appended, reading as many bytes from the offset
/// that the append returned gives the payload.
pub proof fn lemma_append_round_trip(m: Mapping, bytes: Seq<u8>, region: Seq<u8>)
    requires
        m.wf(),
        m.append_result(bytes.len(), Outcome::Done, region.len()) is Ok,
    ensures
        m.appended(bytes.len(), Outcome::Done).read(
            spliced(region, m.len as int, bytes),
            m.len as int,
            bytes.len(),
        ) == Ok::<Seq<u8>, MmapError>(bytes),
{
    lemma_write_then_read(region, m.len as int, bytes);
}

/// A resize that the environment carried out leaves the file exactly as long
/// as was asked: when it grows, when it shrinks and when its length stays.
pub proof fn lemma_resize_sets_length(m: Mapping, len: nat)
    requires
        m.usable(),
    ensures
        m.resize_result(Outcome::Done) is Ok,
        m.resized(len, Outcome::Done).usable(),
        m.resized(len, Outcome::Done).len == len,
{
}

/// A resize that shrinks the file, or that starts from an empty file, replaces
/// the mapping whatever the page size is, and the new mapping is made of the
/// file at its new length: no mapping outlives bytes that left the file.
pub proof fn lemma_shrink_and_first_growth_replace(m: Mapping, len: nat)
    requires
        m.usable(),
        len < m.len || m.len == 0,
    ensures
        m.plan(len) == Ok::<Plan, MmapError>(Plan::Replace),
        m.resized(len, Outcome::Done).mapped == len,
{
}

/// Whether a resize replaces the mapping or leaves it in place cannot be seen
/// through reads: two files of one length that differ in page size and in the
/// mapping they hold have the same length after the same resize, and every
/// read through the same region gives the same result.
pub proof fn lemma_remap_is_not_observable(
    a: Mapping,
    b: Mapping,
    len: nat,
    region: Seq<u8>,
    addr: int,
    n: nat,
)
    requires
        a.usable(),
        b.usable(),
        a.len == b.len,
    ensures
        a.resized(len, Outcome::Done).len == b.resized(len, Outcome::Done).len,
        a.resized(len, Outcome::Done).read(region, addr, n) == b.resized(len, Outcome::Done).read(
            region,
            addr,
            n,
        ),
{
}

/// After a file shrank to `n` bytes and grew again to `len`, the span that
/// came back can be set to zero, and then reads as zeros whatever the region
/// held there before.
pub proof fn lemma_regrown_span_scrubs(m: Mapping, n: nat, len: nat, region: Seq<u8>)
    requires
        m.usable(),
        n <= m.len,
        n < len <= region.len(),
    ensures
        ({
            let regrown = m.resized(n, Outcome::Done).resized(len, Outcome::Done);
            let span = (len - n) as nat;
            &&& regrown.access(n as int, span, region.len()) is Ok
            &&& regrown.read(zeroed(region, n as int, span), n as int, span) == Ok::<
                Seq<u8>,
                MmapError,
            >(Seq::new(span, |i: int| 0u8))
        }),
{
    let span = (len - n) as nat;
    assert(zeroed(region, n as int, span).subrange(n as int, (n + span) as int) =~= Seq::new(
        span,
        |i: int| 0u8,
    ));
}

/// Bytes that were set to zero read as zero, and no other byte of the region
/// changes.
pub proof fn lemma_zero_then_read(content: Seq<u8>, at: int, n: nat)
    requires
        0 <= at,
        at + n <= content.len(),
    ensures
        zeroed(content, at, n).len() == content.len(),
        forall|i: int| at <= i < at + n ==> #[trigger] zeroed(content, at, n)[i] == 0,
        forall|i: int|
            0 <= i < content.len() && !(at <= i < at + n) ==> #[trigger] zeroed(content, at, n)[i]
                == content[i],
{
}

} // verus!
