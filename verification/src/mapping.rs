use crate::error::MmapError;
use crate::page::{
    extent, lemma_extent_covers, lemma_growth_in_place_is_covered, needs_remap, remap_needed,
    system_page_size,
};
use crate::region::{copy_into, fill_zero, spliced, zeroed};
use vstd::prelude::*;
use vstd::slice::slice_subrange;

verus! {

/// Where a mapped file stands in its life.
#[derive(Clone, Copy, Debug, PartialEq, Eq, Structural)]
pub enum Phase {
    /// A mapping is in place and covers the file.
    Mapped,
    /// A resize left the file without a mapping; only closing remains.
    Poisoned,
    /// The mapping and the file handle have been released.
    Closed,
}

/// What the environment reports of opening the file and mapping it.
#[derive(Clone, Copy, Debug, PartialEq, Eq, Structural)]
pub enum Opened {
    /// The file is open and mapped, and holds this many bytes.
    Mapped(u64),
    /// The file could not be opened or created.
    OpenFailed,
    /// The length of the file could not be queried.
    MetadataFailed,
    /// The file is open, but no mapping of it could be made.
    MapFailed,
}

impl Opened {
    /// The error that the report carries, if it carries one.
    pub open spec fn failure(self) -> Option<MmapError> {
        match self {
            Opened::Mapped(_) => None,
            Opened::OpenFailed => Some(MmapError::OpenFailed),
            Opened::MetadataFailed => Some(MmapError::MetadataFailed),
            Opened::MapFailed => Some(MmapError::MapFailed),
        }
    }

    /// The length of the file that the report speaks of.
    pub open spec fn file_len(self) -> nat {
        match self {
            Opened::Mapped(n) => n as nat,
            _ => 0,
        }
    }
}

/// What a resize asks of the environment.
#[derive(Clone, Copy, Debug, PartialEq, Eq, Structural)]
pub enum Plan {
    /// Unmap, bring the file to the new length, then map it again.
    Replace,
    /// Bring the file to the new length; the mapping stays.
    Extend,
}

/// What the environment reports after carrying out a [`Plan`].
#[derive(Clone, Copy, Debug, PartialEq, Eq, Structural)]
pub enum Outcome {
    /// The file has the requested length and a mapping covers it.
    Done,
    /// The file could not be brought to the requested length.
    TruncateFailed,
    /// The file has the requested length, but no mapping is in place.
    MapFailed,
}

/// The state of a mapped file as contracts speak of it.
pub struct Mapping {
    /// The page size that decides when a mapping is replaced.
    pub page: nat,
    /// The length of the file.
    pub len: nat,
    /// The length the file had when the mapping in place was made; 0 when
    /// there is none.
    pub mapped: nat,
    pub phase: Phase,
}

impl Mapping {
    pub open spec fn usable(self) -> bool {
        self.phase == Phase::Mapped
    }

    /// The limits of the machine, and for a usable file that the pages of its
    /// mapping cover every byte of it.
    pub open spec fn wf(self) -> bool {
        &&& 0 < self.page <= usize::MAX
        &&& self.mapped <= self.len <= u64::MAX
        &&& self.usable() ==> self.len <= extent(self.mapped, self.page)
    }

    /// A file of `file_len` bytes, freshly mapped.
    pub open spec fn opened(page: nat, file_len: nat) -> Mapping {
        Mapping { page, len: file_len, mapped: file_len, phase: Phase::Mapped }
    }

    /// What a resize to `len` bytes asks of the environment.
    pub open spec fn plan(self, len: nat) -> Result<Plan, MmapError> {
        if !self.usable() {
            Err(MmapError::MapFailed)
        } else if remap_needed(self.len, len, self.page) {
            Ok(Plan::Replace)
        } else {
            Ok(Plan::Extend)
        }
    }

    /// What a resize reports once the environment has answered.
    pub open spec fn resize_result(self, outcome: Outcome) -> Result<(), MmapError> {
        if !self.usable() {
            Err(MmapError::MapFailed)
        } else {
            match outcome {
                Outcome::Done => Ok(()),
                Outcome::TruncateFailed => Err(MmapError::TruncateFailed),
                Outcome::MapFailed => Err(MmapError::MapFailed),
            }
        }
    }

    /// The state after a resize to `len` bytes that the environment answered
    /// with `outcome`. Done: the file has `len` bytes, behind a new mapping
    /// where one was needed and behind the old one where not. A failed
    /// truncate: the length stays, and where the mapping had to go first the
    /// file is left without one. A failed map: the file has `len` bytes and no
    /// mapping. A file that cannot be used stays as it is.
    pub open spec fn resized(self, len: nat, outcome: Outcome) -> Mapping {
        if !self.usable() {
            self
        } else {
            let replace = remap_needed(self.len, len, self.page);
            match outcome {
                Outcome::Done => Mapping {
                    len,
                    mapped: if replace { len } else { self.mapped },
                    ..self
                },
                Outcome::TruncateFailed => if replace {
                    Mapping { mapped: 0, phase: Phase::Poisoned, ..self }
                } else {
                    self
                },
                Outcome::MapFailed => Mapping { len, mapped: 0, phase: Phase::Poisoned, ..self },
            }
        }
    }

    /// The new length and the plan for appending `n` bytes.
    pub open spec fn append_plan(self, n: nat) -> Result<(u64, Plan), MmapError> {
        if !self.usable() {
            Err(MmapError::MapFailed)
        } else if self.len + n > u64::MAX {
            Err(MmapError::TruncateFailed)
        } else if remap_needed(self.len, self.len + n, self.page) {
            Ok(((self.len + n) as u64, Plan::Replace))
        } else {
            Ok(((self.len + n) as u64, Plan::Extend))
        }
    }

    /// What appending `n` bytes reports, given the environment's answer and
    /// the length of the region handed in.
    pub open spec fn append_result(self, n: nat, outcome: Outcome, region_len: nat) -> Result<
        u64,
        MmapError,
    > {
        if !self.usable() {
            Err(MmapError::MapFailed)
        } else if self.len + n > u64::MAX {
            Err(MmapError::TruncateFailed)
        } else {
            match outcome {
                Outcome::Done => if self.len + n <= region_len {
                    Ok(self.len as u64)
                } else {
                    Err(MmapError::BoundsViolation)
                },
                Outcome::TruncateFailed => Err(MmapError::TruncateFailed),
                Outcome::MapFailed => Err(MmapError::MapFailed),
            }
        }
    }

    /// The state after appending `n` bytes.
    pub open spec fn appended(self, n: nat, outcome: Outcome) -> Mapping {
        if self.usable() && self.len + n <= u64::MAX {
            self.resized(self.len + n, outcome)
        } else {
            self
        }
    }

    /// Whether the `n` bytes from `addr` on may be read or written through a
    /// region of `region_len` bytes.
    pub open spec fn access(self, addr: int, n: nat, region_len: nat) -> Result<(), MmapError> {
        if !self.usable() {
            Err(MmapError::MapFailed)
        } else if 0 <= addr && addr + n <= self.len && addr + n <= region_len {
            Ok(())
        } else {
            Err(MmapError::BoundsViolation)
        }
    }

    /// What reading the `n` bytes from `addr` on gives, through a region that
    /// holds `region`.
    pub open spec fn read(self, region: Seq<u8>, addr: int, n: nat) -> Result<Seq<u8>, MmapError> {
        match self.access(addr, n, region.len()) {
            Ok(_) => Ok(region.subrange(addr, addr + n)),
            Err(e) => Err(e),
        }
    }

    /// The state after teardown.
    pub open spec fn closed(self) -> Mapping {
        Mapping { mapped: 0, phase: Phase::Closed, ..self }
    }
}

/// Every resize leaves a well-formed state.
pub proof fn lemma_resized_wf(m: Mapping, len: nat, outcome: Outcome)
    requires
        m.wf(),
        len <= u64::MAX,
    ensures
        m.resized(len, outcome).wf(),
{
    if m.usable() {
        if remap_needed(m.len, len, m.page) {
            lemma_extent_covers(len, m.page);
        } else {
            lemma_growth_in_place_is_covered(m.mapped, m.len, len, m.page);
        }
    }
}

/// The lifecycle of one memory-mapped file: its length, the mapping in place
/// and whether it can still be used.
#[derive(Debug)]
pub struct FileMmap {
    page: usize,
    len: u64,
    mapped: u64,
    phase: Phase,
}

impl View for FileMmap {
    type V = Mapping;

    closed spec fn view(&self) -> Mapping {
        Mapping {
            page: self.page as nat,
            len: self.len as nat,
            mapped: self.mapped as nat,
            phase: self.phase,
        }
    }
}

impl FileMmap {
    #[verifier::type_invariant]
    spec fn inv(self) -> bool {
        self@.wf()
    }

    /// Starts the lifecycle of a file from what the environment reports of
    /// opening it, with `page` as the page size. A failure that was reported
    /// is handed on; a page size of 0 admits no mapping.
    pub fn with_page_size(page: usize, opened: Opened) -> (r: Result<FileMmap, MmapError>)
        ensures
            match opened.failure() {
                Some(e) => r == Err::<FileMmap, MmapError>(e),
                None => if page == 0 {
                    r == Err::<FileMmap, MmapError>(MmapError::MapFailed)
                } else {
                    r is Ok && r->Ok_0@ == Mapping::opened(page as nat, opened.file_len())
                },
            },
            r is Ok ==> r->Ok_0@.wf(),
    {
        match opened {
            Opened::OpenFailed => Err(MmapError::OpenFailed),
            Opened::MetadataFailed => Err(MmapError::MetadataFailed),
            Opened::MapFailed => Err(MmapError::MapFailed),
            Opened::Mapped(file_len) => {
                if page == 0 {
                    return Err(MmapError::MapFailed);
                }
                proof {
                    lemma_extent_covers(file_len as nat, page as nat);
                }
                Ok(FileMmap { page, len: file_len, mapped: file_len, phase: Phase::Mapped })
            },
        }
    }

    /// Starts the lifecycle of a file from what the environment reports of
    /// opening it, with the page size of this machine.
    pub fn new(opened: Opened) -> (r: Result<FileMmap, MmapError>)
        ensures
            match opened.failure() {
                Some(e) => r == Err::<FileMmap, MmapError>(e),
                None => match r {
                    Ok(m) => m@ == Mapping::opened(m@.page, opened.file_len()),
                    Err(e) => e == MmapError::MapFailed,
                },
            },
            r is Ok ==> r->Ok_0@.wf(),
    {
        let page = system_page_size();
        FileMmap::with_page_size(page, opened)
    }

    /// The length of the file.
    pub fn len(&self) -> (n: u64)
        ensures
            n == self@.len,
    {
        self.len
    }

    /// The length the file had when the mapping in place was made.
    pub fn mapped_len(&self) -> (n: u64)
        ensures
            n == self@.mapped,
    {
        self.mapped
    }

    /// The page size that decides when the mapping is replaced.
    pub fn page_size(&self) -> (n: usize)
        ensures
            n == self@.page,
    {
        self.page
    }

    pub fn phase(&self) -> (p: Phase)
        ensures
            p == self@.phase,
    {
        self.phase
    }

    /// Whether a mapping is in place, so that the file can be read, written
    /// and resized.
    pub fn is_usable(&self) -> (b: bool)
        ensures
            b == self@.usable(),
    {
        match self.phase {
            Phase::Mapped => true,
            _ => false,
        }
    }

    /// Says what the environment has to do to bring the file to `len` bytes.
    pub fn plan(&self, len: u64) -> (r: Result<Plan, MmapError>)
        ensures
            r == self@.plan(len as nat),
    {
        proof {
            use_type_invariant(self);
        }
        if !self.is_usable() {
            Err(MmapError::MapFailed)
        } else if needs_remap(self.len, len, self.page) {
            Ok(Plan::Replace)
        } else {
            Ok(Plan::Extend)
        }
    }

    /// Takes in what the environment answered to the plan for `len` bytes.
    pub fn set_len(&mut self, len: u64, outcome: Outcome) -> (r: Result<(), MmapError>)
        ensures
            r == old(self)@.resize_result(outcome),
            final(self)@ == old(self)@.resized(len as nat, outcome),
            final(self)@.wf(),
            r is Ok <==> old(self)@.usable() && outcome == Outcome::Done,
            r is Ok ==> final(self)@.usable() && final(self)@.len == len,
    {
        proof {
            use_type_invariant(&*self);
            lemma_resized_wf(self@, len as nat, outcome);
        }
        if !self.is_usable() {
            return Err(MmapError::MapFailed);
        }
        let replace = needs_remap(self.len, len, self.page);
        let page = self.page;
        match outcome {
            Outcome::Done => {
                let mapped = if replace {
                    len
                } else {
                    self.mapped
                };
                *self = FileMmap { page, len, mapped, phase: Phase::Mapped };
                Ok(())
            },
            Outcome::TruncateFailed => {
                if replace {
                    *self = FileMmap { page, len: self.len, mapped: 0, phase: Phase::Poisoned };
                }
                Err(MmapError::TruncateFailed)
            },
            Outcome::MapFailed => {
                *self = FileMmap { page, len, mapped: 0, phase: Phase::Poisoned };
                Err(MmapError::MapFailed)
            },
        }
    }

    /// Says where appended bytes will begin being `n` in number, which length
    /// the file has to be brought to, and what the environment has to do for
    /// that.
    pub fn plan_append(&self, n: usize) -> (r: Result<(u64, Plan), MmapError>)
        ensures
            r == self@.append_plan(n as nat),
    {
        proof {
            use_type_invariant(self);
        }
        if !self.is_usable() {
            return Err(MmapError::MapFailed);
        }
        let n: u64 = n as u64;
        if n > u64::MAX - self.len {
            return Err(MmapError::TruncateFailed);
        }
        let target: u64 = self.len + n;
        if needs_remap(self.len, target, self.page) {
            Ok((target, Plan::Replace))
        } else {
            Ok((target, Plan::Extend))
        }
    }

    /// Appends `bytes` to the file. The environment has carried out the plan
    /// of [`FileMmap::plan_append`] and answered `outcome`; `region` is the
    /// mapping as it now stands. Returns the offset at which the bytes begin:
    /// the length of the file before.
    pub fn append(&mut self, bytes: &[u8], outcome: Outcome, region: &mut [u8]) -> (r: Result<
        u64,
        MmapError,
    >)
        ensures
            r == old(self)@.append_result(bytes@.len(), outcome, old(region)@.len()),
            final(self)@ == old(self)@.appended(bytes@.len(), outcome),
            final(self)@.wf(),
            r is Ok ==> r == Ok::<u64, MmapError>(old(self)@.len as u64) && final(self)@.len
                == old(self)@.len + bytes@.len(),
            final(region)@ == if r is Ok {
                spliced(old(region)@, old(self)@.len as int, bytes@)
            } else {
                old(region)@
            },
    {
        proof {
            use_type_invariant(&*self);
        }
        if !self.is_usable() {
            return Err(MmapError::MapFailed);
        }
        let addr: u64 = self.len;
        let n: u64 = bytes.len() as u64;
        if n > u64::MAX - addr {
            return Err(MmapError::TruncateFailed);
        }
        let target: u64 = addr + n;
        match self.set_len(target, outcome) {
            Err(e) => {
                return Err(e);
            },
            Ok(()) => {},
        }
        let total: usize = region.len();
        if target > total as u64 {
            return Err(MmapError::BoundsViolation);
        }
        copy_into(region, addr as usize, bytes);
        Ok(addr)
    }

    /// Decides whether the `n` bytes from `addr` on may be touched, and gives
    /// the index of the first.
    fn locate(&self, addr: isize, n: usize, region_len: usize) -> (r: Result<usize, MmapError>)
        ensures
            match r {
                Ok(start) => start == addr && self@.access(addr as int, n as nat, region_len as nat)
                    is Ok,
                Err(e) => self@.access(addr as int, n as nat, region_len as nat) == Err::<
                    (),
                    MmapError,
                >(e),
            },
    {
        if !self.is_usable() {
            return Err(MmapError::MapFailed);
        }
        if addr < 0 {
            return Err(MmapError::BoundsViolation);
        }
        let start: usize = addr as usize;
        if start > region_len || n > region_len - start {
            return Err(MmapError::BoundsViolation);
        }
        let end: usize = start + n;
        if end as u64 > self.len {
            return Err(MmapError::BoundsViolation);
        }
        Ok(start)
    }

    /// Copies `bytes` into the mapped `region` from offset `addr` on.
    pub fn write(&self, region: &mut [u8], addr: isize, bytes: &[u8]) -> (r: Result<(), MmapError>)
        ensures
            r == self@.access(addr as int, bytes@.len(), old(region)@.len()),
            final(region)@ == if r is Ok {
                spliced(old(region)@, addr as int, bytes@)
            } else {
                old(region)@
            },
    {
        match self.locate(addr, bytes.len(), region.len()) {
            Err(e) => Err(e),
            Ok(start) => {
                copy_into(region, start, bytes);
                Ok(())
            },
        }
    }

    /// Sets the `len` bytes of the mapped `region` from offset `addr` on to
    /// zero.
    pub fn zero(&self, region: &mut [u8], addr: isize, len: usize) -> (r: Result<(), MmapError>)
        ensures
            r == self@.access(addr as int, len as nat, old(region)@.len()),
            final(region)@ == if r is Ok {
                zeroed(old(region)@, addr as int, len as nat)
            } else {
                old(region)@
            },
    {
        match self.locate(addr, len, region.len()) {
            Err(e) => Err(e),
            Ok(start) => {
                fill_zero(region, start, len);
                Ok(())
            },
        }
    }

    /// The `len` bytes of the mapped `region` from offset `addr` on.
    pub fn bytes<'a>(&self, region: &'a [u8], addr: isize, len: usize) -> (r: Result<
        &'a [u8],
        MmapError,
    >)
        ensures
            match r {
                Ok(view) => self@.read(region@, addr as int, len as nat) == Ok::<
                    Seq<u8>,
                    MmapError,
                >(view@),
                Err(e) => self@.read(region@, addr as int, len as nat) == Err::<
                    Seq<u8>,
                    MmapError,
                >(e),
            },
    {
        match self.locate(addr, len, region.len()) {
            Err(e) => Err(e),
            Ok(start) => Ok(slice_subrange(region, start, start + len)),
        }
    }

    /// Releases the file: nothing but its length can be asked afterwards.
    pub fn close(&mut self)
        ensures
            final(self)@ == old(self)@.closed(),
    {
        proof {
            use_type_invariant(&*self);
        }
        *self = FileMmap { page: self.page, len: self.len, mapped: 0, phase: Phase::Closed };
    }
}

} // verus!
