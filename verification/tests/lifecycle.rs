use file_mmap::{FileMmap, MmapError, Opened, Outcome, Phase, Plan};

const PAGE: usize = 4096;

fn fresh(page: usize) -> FileMmap {
    FileMmap::with_page_size(page, Opened::Mapped(0)).unwrap()
}

/// Plays the environment on a file held in memory: carries out the plan and
/// reports that it is done.
fn resize(core: &mut FileMmap, file: &mut Vec<u8>, len: u64) -> Result<Plan, MmapError> {
    let plan = core.plan(len)?;
    file.resize(len as usize, 0);
    core.set_len(len, Outcome::Done)?;
    Ok(plan)
}

fn append(core: &mut FileMmap, file: &mut Vec<u8>, bytes: &[u8]) -> Result<u64, MmapError> {
    let (target, _plan) = core.plan_append(bytes.len())?;
    file.resize(target as usize, 0);
    core.append(bytes, Outcome::Done, file.as_mut_slice())
}

#[test]
fn hello_world_scenario() {
    let mut file: Vec<u8> = Vec::new();
    let mut core = fresh(PAGE);
    assert_eq!(core.len(), 0);

    assert_eq!(append(&mut core, &mut file, b"hello"), Ok(0));
    assert_eq!(core.len(), 5);
    assert_eq!(append(&mut core, &mut file, b" world"), Ok(5));
    assert_eq!(core.len(), 11);
    assert_eq!(core.bytes(&file, 0, 11), Ok(&b"hello world"[..]));

    assert!(resize(&mut core, &mut file, 20).is_ok());
    assert_eq!(core.len(), 20);
    assert_eq!(core.bytes(&file, 11, 9), Ok(&[0u8; 9][..]));

    assert_eq!(core.write(&mut file, 11, b"X"), Ok(()));
    assert_eq!(core.bytes(&file, 11, 1), Ok(&b"X"[..]));
    assert_eq!(core.bytes(&file, 0, 12), Ok(&b"hello worldX"[..]));
}

#[test]
fn append_offsets_are_prefix_sums() {
    let payloads: Vec<&[u8]> = vec![b"a", b"", b"bcd", b"ef", b"ghijklm"];
    let mut file: Vec<u8> = Vec::new();
    let mut core = fresh(4);
    let mut sum: u64 = 0;
    for p in payloads.iter() {
        assert_eq!(append(&mut core, &mut file, p), Ok(sum));
        sum += p.len() as u64;
        assert_eq!(core.len(), sum);
    }
    assert_eq!(sum, 13);
    assert_eq!(core.bytes(&file, 0, 13), Ok(&b"abcdefghijklm"[..]));
}

#[test]
fn append_round_trips() {
    let mut file: Vec<u8> = Vec::new();
    let mut core = fresh(8);
    for p in [&b"first"[..], &b"second payload"[..], &b"3"[..]] {
        let at = append(&mut core, &mut file, p).unwrap();
        assert_eq!(core.bytes(&file, at as isize, p.len()), Ok(p));
    }
}

#[test]
fn resize_sets_length_on_growth_shrink_and_no_change() {
    let mut file: Vec<u8> = Vec::new();
    let mut core = fresh(PAGE);
    assert_eq!(resize(&mut core, &mut file, 100), Ok(Plan::Replace));
    assert_eq!(core.len(), 100);
    assert_eq!(resize(&mut core, &mut file, 10_000), Ok(Plan::Replace));
    assert_eq!(core.len(), 10_000);
    assert_eq!(resize(&mut core, &mut file, 10_000), Ok(Plan::Extend));
    assert_eq!(core.len(), 10_000);
    assert_eq!(resize(&mut core, &mut file, 7), Ok(Plan::Replace));
    assert_eq!(core.len(), 7);
    assert_eq!(resize(&mut core, &mut file, 7), Ok(Plan::Extend));
    assert_eq!(core.len(), 7);
    assert_eq!(resize(&mut core, &mut file, 0), Ok(Plan::Replace));
    assert_eq!(core.len(), 0);
    assert!(core.is_usable());
}

#[test]
fn mapped_length_follows_replacements_only() {
    let mut file: Vec<u8> = Vec::new();
    let mut core = fresh(PAGE);
    resize(&mut core, &mut file, 10).unwrap();
    assert_eq!(core.mapped_len(), 10);
    assert_eq!(resize(&mut core, &mut file, 4095), Ok(Plan::Extend));
    assert_eq!(core.mapped_len(), 10);
    assert_eq!(core.len(), 4095);
    assert_eq!(resize(&mut core, &mut file, 4096), Ok(Plan::Replace));
    assert_eq!(core.mapped_len(), 4096);
    assert_eq!(resize(&mut core, &mut file, 4096), Ok(Plan::Replace));
    assert_eq!(resize(&mut core, &mut file, 8191), Ok(Plan::Replace));
    assert_eq!(resize(&mut core, &mut file, 8191), Ok(Plan::Extend));
}

#[test]
fn growth_reads_the_same_with_and_without_a_new_mapping() {
    let mut small_file: Vec<u8> = Vec::new();
    let mut large_file: Vec<u8> = Vec::new();
    let mut small = fresh(4);
    let mut large = fresh(PAGE);
    append(&mut small, &mut small_file, b"abc").unwrap();
    append(&mut large, &mut large_file, b"abc").unwrap();
    assert_eq!(small.plan(9), Ok(Plan::Replace));
    assert_eq!(large.plan(9), Ok(Plan::Extend));
    assert_eq!(append(&mut small, &mut small_file, b"defghi"), Ok(3));
    assert_eq!(append(&mut large, &mut large_file, b"defghi"), Ok(3));
    assert_eq!(small.len(), large.len());
    assert_eq!(small.bytes(&small_file, 0, 9), large.bytes(&large_file, 0, 9));
    assert_eq!(small.bytes(&small_file, 0, 9), Ok(&b"abcdefghi"[..]));
    assert_eq!(small.bytes(&small_file, 2, 8), Err(MmapError::BoundsViolation));
    assert_eq!(large.bytes(&large_file, 2, 8), Err(MmapError::BoundsViolation));
}

#[test]
fn zero_scrubs_what_a_shrink_left_behind() {
    let mut core = fresh(PAGE);
    let mut region: Vec<u8> = b"0123456789".to_vec();
    assert_eq!(core.set_len(10, Outcome::Done), Ok(()));
    assert_eq!(core.set_len(4, Outcome::Done), Ok(()));
    assert_eq!(core.set_len(10, Outcome::Done), Ok(()));
    assert_eq!(core.zero(&mut region, 4, 6), Ok(()));
    assert_eq!(core.bytes(&region, 4, 6), Ok(&[0u8; 6][..]));
    assert_eq!(core.bytes(&region, 0, 4), Ok(&b"0123"[..]));
}

#[test]
fn zero_touches_only_its_span() {
    let mut core = fresh(PAGE);
    let mut region: Vec<u8> = vec![1, 2, 3, 4, 5, 6];
    core.set_len(6, Outcome::Done).unwrap();
    assert_eq!(core.zero(&mut region, 2, 3), Ok(()));
    assert_eq!(region, vec![1, 2, 0, 0, 0, 6]);
    assert_eq!(core.zero(&mut region, 6, 0), Ok(()));
    assert_eq!(region, vec![1, 2, 0, 0, 0, 6]);
    assert_eq!(core.zero(&mut region, 5, 2), Err(MmapError::BoundsViolation));
    assert_eq!(region, vec![1, 2, 0, 0, 0, 6]);
}

#[test]
fn write_touches_only_its_span() {
    let mut core = fresh(PAGE);
    let mut region: Vec<u8> = vec![9; 8];
    core.set_len(8, Outcome::Done).unwrap();
    assert_eq!(core.write(&mut region, 3, &[1, 2, 3]), Ok(()));
    assert_eq!(region, vec![9, 9, 9, 1, 2, 3, 9, 9]);
    assert_eq!(core.write(&mut region, 8, &[]), Ok(()));
    assert_eq!(core.write(&mut region, 0, &[7; 8]), Ok(()));
    assert_eq!(region, vec![7; 8]);
}

#[test]
fn access_outside_the_file_is_a_bounds_violation() {
    let mut core = fresh(PAGE);
    let mut region: Vec<u8> = vec![0; 16];
    core.set_len(8, Outcome::Done).unwrap();
    // inside the region, but past the end of the file
    assert_eq!(core.write(&mut region, 7, &[1, 2]), Err(MmapError::BoundsViolation));
    assert_eq!(core.bytes(&region, 0, 9), Err(MmapError::BoundsViolation));
    assert_eq!(core.bytes(&region, 9, 0), Err(MmapError::BoundsViolation));
    assert_eq!(core.bytes(&region, -1, 1), Err(MmapError::BoundsViolation));
    assert_eq!(core.write(&mut region, -1, &[1]), Err(MmapError::BoundsViolation));
    assert_eq!(core.zero(&mut region, isize::MAX, usize::MAX), Err(MmapError::BoundsViolation));
    assert_eq!(region, vec![0; 16]);
    // inside the file, but past the end of the region handed in
    let mut short: Vec<u8> = vec![0; 4];
    assert_eq!(core.write(&mut short, 3, &[1, 2]), Err(MmapError::BoundsViolation));
    assert_eq!(core.bytes(&short, 0, 8), Err(MmapError::BoundsViolation));
    assert_eq!(core.bytes(&short, 0, 4), Ok(&[0u8; 4][..]));
}

#[test]
fn opening_hands_on_what_the_environment_reported() {
    assert_eq!(FileMmap::new(Opened::OpenFailed).unwrap_err(), MmapError::OpenFailed);
    assert_eq!(FileMmap::new(Opened::MetadataFailed).unwrap_err(), MmapError::MetadataFailed);
    assert_eq!(FileMmap::new(Opened::MapFailed).unwrap_err(), MmapError::MapFailed);
    assert_eq!(
        FileMmap::with_page_size(PAGE, Opened::OpenFailed).unwrap_err(),
        MmapError::OpenFailed
    );
    assert_eq!(
        FileMmap::with_page_size(0, Opened::Mapped(3)).unwrap_err(),
        MmapError::MapFailed
    );
    let core = FileMmap::with_page_size(PAGE, Opened::Mapped(12_345)).unwrap();
    assert_eq!(core.len(), 12_345);
    assert_eq!(core.mapped_len(), 12_345);
    assert_eq!(core.page_size(), PAGE);
    assert_eq!(core.phase(), Phase::Mapped);
}

#[test]
fn new_takes_the_page_size_of_the_machine() {
    let core = FileMmap::new(Opened::Mapped(77)).unwrap();
    assert_eq!(core.page_size(), sysconf::page::pagesize());
    assert!(core.page_size() > 0);
    assert_eq!(core.len(), 77);
    assert!(core.is_usable());
}

#[test]
fn failed_truncate_leaves_an_extended_file_usable() {
    let mut core = FileMmap::with_page_size(PAGE, Opened::Mapped(10)).unwrap();
    assert_eq!(core.plan(20), Ok(Plan::Extend));
    assert_eq!(core.set_len(20, Outcome::TruncateFailed), Err(MmapError::TruncateFailed));
    assert_eq!(core.len(), 10);
    assert_eq!(core.mapped_len(), 10);
    assert!(core.is_usable());
    assert_eq!(core.set_len(20, Outcome::Done), Ok(()));
    assert_eq!(core.len(), 20);
}

#[test]
fn failed_truncate_after_unmapping_poisons() {
    let mut core = FileMmap::with_page_size(PAGE, Opened::Mapped(10)).unwrap();
    assert_eq!(core.plan(5), Ok(Plan::Replace));
    assert_eq!(core.set_len(5, Outcome::TruncateFailed), Err(MmapError::TruncateFailed));
    assert_eq!(core.len(), 10);
    assert_eq!(core.mapped_len(), 0);
    assert_eq!(core.phase(), Phase::Poisoned);
}

#[test]
fn failed_map_poisons_and_every_operation_fails() {
    let mut core = FileMmap::with_page_size(PAGE, Opened::Mapped(10)).unwrap();
    let mut region: Vec<u8> = vec![0; 10_000];
    assert_eq!(core.set_len(5000, Outcome::MapFailed), Err(MmapError::MapFailed));
    assert_eq!(core.phase(), Phase::Poisoned);
    assert!(!core.is_usable());
    assert_eq!(core.len(), 5000);
    assert_eq!(core.plan(6000), Err(MmapError::MapFailed));
    assert_eq!(core.plan_append(1), Err(MmapError::MapFailed));
    assert_eq!(core.set_len(6000, Outcome::Done), Err(MmapError::MapFailed));
    assert_eq!(core.len(), 5000);
    assert_eq!(core.append(b"x", Outcome::Done, &mut region), Err(MmapError::MapFailed));
    assert_eq!(core.write(&mut region, 0, b"x"), Err(MmapError::MapFailed));
    assert_eq!(core.zero(&mut region, 0, 1), Err(MmapError::MapFailed));
    assert_eq!(core.bytes(&region, 0, 1), Err(MmapError::MapFailed));
    assert_eq!(region, vec![0; 10_000]);
}

#[test]
fn close_is_terminal() {
    let mut core = FileMmap::with_page_size(PAGE, Opened::Mapped(10)).unwrap();
    let mut region: Vec<u8> = vec![0; 10];
    core.close();
    assert_eq!(core.phase(), Phase::Closed);
    assert_eq!(core.len(), 10);
    assert_eq!(core.mapped_len(), 0);
    assert_eq!(core.plan(10), Err(MmapError::MapFailed));
    assert_eq!(core.set_len(3, Outcome::Done), Err(MmapError::MapFailed));
    assert_eq!(core.write(&mut region, 0, b"x"), Err(MmapError::MapFailed));
    assert_eq!(core.bytes(&region, 0, 1), Err(MmapError::MapFailed));
    core.close();
    assert_eq!(core.phase(), Phase::Closed);
}

#[test]
fn append_reports_failures_and_leaves_the_region_alone() {
    let mut core = FileMmap::with_page_size(PAGE, Opened::Mapped(4)).unwrap();
    let mut region: Vec<u8> = vec![5; 8];
    assert_eq!(core.plan_append(2), Ok((6, Plan::Extend)));
    assert_eq!(
        core.append(b"ab", Outcome::TruncateFailed, &mut region),
        Err(MmapError::TruncateFailed)
    );
    assert_eq!(core.len(), 4);
    assert_eq!(region, vec![5; 8]);
    // the region handed in does not reach the new end of the file
    let mut short: Vec<u8> = vec![5; 5];
    assert_eq!(core.append(b"ab", Outcome::Done, &mut short), Err(MmapError::BoundsViolation));
    assert_eq!(core.len(), 6);
    assert_eq!(short, vec![5; 5]);
    assert_eq!(core.append(b"ab", Outcome::Done, &mut region), Ok(6));
    assert_eq!(region, vec![5, 5, 5, 5, 5, 5, b'a', b'b']);
    assert_eq!(core.append(b"ab", Outcome::MapFailed, &mut region), Err(MmapError::MapFailed));
    assert_eq!(core.len(), 10);
    assert!(!core.is_usable());
}

#[test]
fn append_past_the_largest_length_fails() {
    let mut core = FileMmap::with_page_size(PAGE, Opened::Mapped(u64::MAX - 1)).unwrap();
    let mut region: Vec<u8> = vec![0; 4];
    assert_eq!(core.plan_append(1), Ok((u64::MAX, Plan::Extend)));
    assert_eq!(core.plan_append(2), Err(MmapError::TruncateFailed));
    assert_eq!(core.append(b"ab", Outcome::Done, &mut region), Err(MmapError::TruncateFailed));
    assert_eq!(core.len(), u64::MAX - 1);
    assert!(core.is_usable());
}
