use vstd::prelude::*;

verus! {

/// `content` with `bytes` written over it from index `at` on.
pub open spec fn spliced(content: Seq<u8>, at: int, bytes: Seq<u8>) -> Seq<u8> {
    Seq::new(
        content.len(),
        |i: int|
            if at <= i < at + bytes.len() {
                bytes[i - at]
            } else {
                content[i]
            },
    )
}

/// `content` with the `n` bytes from index `at` on set to zero.
pub open spec fn zeroed(content: Seq<u8>, at: int, n: nat) -> Seq<u8> {
    Seq::new(
        content.len(),
        |i: int|
            if at <= i < at + n {
                0u8
            } else {
                content[i]
            },
    )
}

/// Copies `bytes` into `region` from index `start` on.
pub fn copy_into(region: &mut [u8], start: usize, bytes: &[u8])
    requires
        start + bytes@.len() <= old(region)@.len(),
    ensures
        final(region)@ == spliced(old(region)@, start as int, bytes@),
{
    let n: usize = bytes.len();
    let total: usize = region.len();
    let mut i: usize = 0;
    while i < n
        invariant
            n == bytes@.len(),
            i <= n,
            start + n <= total,
            region@.len() == total,
            region@.len() == old(region)@.len(),
            region@ == spliced(old(region)@, start as int, bytes@.take(i as int)),
        decreases n - i,
    {
        region[start + i] = bytes[i];
        i += 1;
        assert(region@ =~= spliced(old(region)@, start as int, bytes@.take(i as int)));
    }
    assert(bytes@.take(n as int) =~= bytes@);
}

/// Sets the `n` bytes of `region` from index `start` on to zero.
pub fn fill_zero(region: &mut [u8], start: usize, n: usize)
    requires
        start + n <= old(region)@.len(),
    ensures
        final(region)@ == zeroed(old(region)@, start as int, n as nat),
{
    let total: usize = region.len();
    let mut i: usize = 0;
    while i < n
        invariant
            i <= n,
            start + n <= total,
            region@.len() == total,
            region@.len() == old(region)@.len(),
            region@ == zeroed(old(region)@, start as int, i as nat),
        decreases n - i,
    {
        region[start + i] = 0u8;
        i += 1;
        assert(region@ =~= zeroed(old(region)@, start as int, i as nat));
    }
}

} // verus!
