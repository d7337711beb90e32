use snarkvm_parameters::constants::{MAX_NUM_POWERS, NUM_POWERS_15};
use snarkvm_parameters::errors::PowersError;
use snarkvm_parameters::powers_of_beta_g::{check_shipped_block, PowersOfBetaG};

/// The shipped layout, where every element is the index of its power.
fn shipped() -> PowersOfBetaG<u32> {
    let normal: Vec<u32> = (0..NUM_POWERS_15 as u32).collect();
    let shifted: Vec<u32> = ((MAX_NUM_POWERS - NUM_POWERS_15) as u32..MAX_NUM_POWERS as u32).collect();
    PowersOfBetaG::new(normal, shifted)
}

#[test]
fn shipped_available_powers() {
    let p = shipped();
    let (normal, shifted) = p.available_powers();
    assert_eq!(normal, 0..NUM_POWERS_15);
    assert_eq!(shifted, (MAX_NUM_POWERS - NUM_POWERS_15)..MAX_NUM_POWERS);
    assert_eq!(p.num_powers(), NUM_POWERS_15);
}

#[test]
fn fully_downloaded_available_powers() {
    let p: PowersOfBetaG<()> = PowersOfBetaG::new(vec![(); MAX_NUM_POWERS], Vec::new());
    let (normal, shifted) = p.available_powers();
    assert_eq!(normal, 0..MAX_NUM_POWERS);
    assert_eq!(shifted, 0..MAX_NUM_POWERS);
    assert_eq!(p.needs_download(&(5..MAX_NUM_POWERS)), Ok(false));
    assert_eq!(p.stored_powers(&(MAX_NUM_POWERS - 3..MAX_NUM_POWERS)).unwrap().len(), 3);
}

#[test]
fn needs_download_cases() {
    let p = shipped();
    assert_eq!(p.needs_download(&(7..7)), Ok(false));
    assert_eq!(p.needs_download(&(9..3)), Ok(false));
    assert_eq!(p.needs_download(&(0..MAX_NUM_POWERS + 1)), Err(PowersError::UpperBoundTooLarge));
    assert_eq!(p.needs_download(&(0..NUM_POWERS_15)), Ok(false));
    assert_eq!(p.needs_download(&(0..NUM_POWERS_15 + 1)), Ok(true));
    assert_eq!(p.needs_download(&(MAX_NUM_POWERS - 10..MAX_NUM_POWERS)), Ok(false));
    assert_eq!(p.needs_download(&(MAX_NUM_POWERS - NUM_POWERS_15 - 1..MAX_NUM_POWERS)), Ok(true));
}

#[test]
fn stored_powers_from_normal_run() {
    let p = shipped();
    assert_eq!(p.stored_powers(&(3..7)).unwrap(), &[3, 4, 5, 6]);
    assert_eq!(p.stored_powers(&(NUM_POWERS_15 - 1..NUM_POWERS_15)).unwrap(), &[NUM_POWERS_15 as u32 - 1]);
}

#[test]
fn stored_powers_from_shifted_run() {
    let p = shipped();
    let start = MAX_NUM_POWERS - 4;
    let got = p.stored_powers(&(start..MAX_NUM_POWERS)).unwrap();
    let want: Vec<u32> = (start as u32..MAX_NUM_POWERS as u32).collect();
    assert_eq!(got, &want[..]);
    let first = MAX_NUM_POWERS - NUM_POWERS_15;
    assert_eq!(p.stored_powers(&(first..first + 2)).unwrap(), &[first as u32, first as u32 + 1]);
}

#[test]
fn stored_powers_of_empty_and_missing_ranges() {
    let p = shipped();
    assert_eq!(p.stored_powers(&(10..10)).unwrap().len(), 0);
    assert_eq!(p.stored_powers(&(20..4)).unwrap().len(), 0);
    assert_eq!(p.stored_powers(&(NUM_POWERS_15..NUM_POWERS_15 + 1)), Err(PowersError::NotInShiftedPowers));
    assert_eq!(p.stored_powers(&(0..NUM_POWERS_15 + 1)), Err(PowersError::NotInShiftedPowers));
}

#[test]
fn extend_prepend_and_drop() {
    let mut p = shipped();
    p.extend_powers((NUM_POWERS_15 as u32..2 * NUM_POWERS_15 as u32).collect());
    assert_eq!(p.num_powers(), 2 * NUM_POWERS_15);
    assert_eq!(p.stored_powers(&(NUM_POWERS_15..NUM_POWERS_15 + 2)).unwrap(), &[NUM_POWERS_15 as u32, NUM_POWERS_15 as u32 + 1]);

    let low = (MAX_NUM_POWERS - 2 * NUM_POWERS_15) as u32;
    p.prepend_shifted_powers((low..low + NUM_POWERS_15 as u32).collect());
    let (_, shifted) = p.available_powers();
    assert_eq!(shifted.start, MAX_NUM_POWERS - 2 * NUM_POWERS_15);
    assert_eq!(p.stored_powers(&(low as usize..low as usize + 1)).unwrap(), &[low]);
    let (normal, shifted_run) = p.parts();
    assert_eq!(normal.len(), 2 * NUM_POWERS_15);
    assert_eq!(shifted_run.len(), 2 * NUM_POWERS_15);
    assert_eq!(shifted_run[0], low);
    assert_eq!(shifted_run[shifted_run.len() - 1], MAX_NUM_POWERS as u32 - 1);

    p.drop_shifted_powers();
    let (normal, shifted_run) = p.parts();
    assert_eq!(normal.len(), 2 * NUM_POWERS_15);
    assert!(shifted_run.is_empty());
}

#[test]
fn stored_power_of_each_run() {
    let p = shipped();
    assert_eq!(p.stored_power(5), Ok(5));
    assert_eq!(p.stored_power(MAX_NUM_POWERS - 1), Ok(MAX_NUM_POWERS as u32 - 1));
    assert_eq!(p.stored_power(NUM_POWERS_15), Err(PowersError::NotInShiftedPowers));
}

#[test]
fn slice_and_single_queries_agree() {
    let p = shipped();
    let r = MAX_NUM_POWERS - 6..MAX_NUM_POWERS;
    let slice = p.stored_powers(&r).unwrap();
    for (i, x) in slice.iter().enumerate() {
        assert_eq!(p.stored_power(r.start + i), Ok(*x));
    }
    let slice = p.stored_powers(&(10..20)).unwrap();
    for (i, x) in slice.iter().enumerate() {
        assert_eq!(p.stored_power(10 + i), Ok(*x));
    }
}

#[test]
fn shipped_block_lengths() {
    assert_eq!(check_shipped_block(vec![1u8; NUM_POWERS_15]).map(|b| b.len()), Ok(NUM_POWERS_15));
    assert_eq!(check_shipped_block(vec![1u8; NUM_POWERS_15 + 1]), Err(PowersError::IncorrectNumberOfPowers));
    assert_eq!(check_shipped_block(Vec::<u8>::new()), Err(PowersError::IncorrectNumberOfPowers));
}
