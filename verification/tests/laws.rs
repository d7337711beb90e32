use snarkvm_parameters::constants::{MAX_NUM_POWERS, NUM_POWERS_15};
use snarkvm_parameters::powers_of_beta_g::{DownloadPlan, PowersOfBetaG};
use snarkvm_parameters::schedule::{normal_degree, shifted_degree};

fn shipped() -> PowersOfBetaG<u32> {
    let normal: Vec<u32> = (0..NUM_POWERS_15 as u32).collect();
    let shifted: Vec<u32> = ((MAX_NUM_POWERS - NUM_POWERS_15) as u32..MAX_NUM_POWERS as u32).collect();
    PowersOfBetaG::new(normal, shifted)
}

/// Applies a download of the normal powers up to `end`, each block of `n`
/// powers bringing the powers `n / 2 .. n`.
fn download_up_to(p: &mut PowersOfBetaG<u32>, end: usize) {
    for n in p.download_up_to_plan(end).unwrap() {
        assert!(normal_degree(n).is_ok());
        p.extend_powers((n as u32 / 2..n as u32).collect());
    }
}

/// Applies a download of the shifted powers from `start`, each block of `n`
/// powers bringing the powers `MAX - n .. MAX - n / 2`.
fn download_from(p: &mut PowersOfBetaG<u32>, start: usize) {
    let mut gathered = Vec::new();
    for n in p.download_from_plan(start).unwrap() {
        assert!(shifted_degree(n).is_ok());
        gathered.extend((MAX_NUM_POWERS - n) as u32..(MAX_NUM_POWERS - n / 2) as u32);
    }
    p.prepend_shifted_powers(gathered);
}

#[test]
fn normal_download_makes_the_request_held() {
    let mut p = shipped();
    let range = 40_000..70_000;
    assert_eq!(p.download_plan(&range), Ok(DownloadPlan::UpTo(70_000)));
    download_up_to(&mut p, range.end);
    assert_eq!(p.num_powers(), 1 << 17);
    assert_eq!(p.needs_download(&range), Ok(false));
    let got = p.stored_powers(&range).unwrap();
    assert_eq!(got.len(), 30_000);
    assert!(got.iter().enumerate().all(|(i, x)| *x as usize == range.start + i));
}

#[test]
fn shifted_download_makes_the_request_held() {
    let mut p = shipped();
    let range = MAX_NUM_POWERS - 100_000..MAX_NUM_POWERS - 99_000;
    assert_eq!(p.download_plan(&range), Ok(DownloadPlan::From(range.start)));
    download_from(&mut p, range.start);
    let (_, shifted) = p.available_powers();
    assert_eq!(shifted.start, MAX_NUM_POWERS - (1 << 17));
    assert_eq!(p.needs_download(&range), Ok(false));
    let got = p.stored_powers(&range).unwrap();
    assert_eq!(got.len(), 1_000);
    assert!(got.iter().enumerate().all(|(i, x)| *x as usize == range.start + i));
}

#[test]
fn repeated_shifted_downloads_keep_the_layout() {
    let mut p = shipped();
    download_from(&mut p, MAX_NUM_POWERS - 70_000);
    download_from(&mut p, MAX_NUM_POWERS - 300_000);
    let (_, shifted) = p.available_powers();
    assert_eq!(shifted.start, MAX_NUM_POWERS - (1 << 19));
    let r = MAX_NUM_POWERS - 300_000..MAX_NUM_POWERS - 299_990;
    let got = p.stored_powers(&r).unwrap();
    assert!(got.iter().enumerate().all(|(i, x)| *x as usize == r.start + i));
}

#[test]
fn midpoint_plan_downloads_every_power() {
    let half = MAX_NUM_POWERS / 2;
    let p: PowersOfBetaG<()> = PowersOfBetaG::new(vec![(); NUM_POWERS_15], vec![(); NUM_POWERS_15]);
    assert_eq!(p.download_plan(&(half - 2..half + 2)), Ok(DownloadPlan::UpToAndDropShifted(half + 2)));
    let queue = p.download_up_to_plan(half + 2).unwrap();
    let added: usize = queue.iter().map(|n| n / 2).sum();
    assert_eq!(NUM_POWERS_15 + added, MAX_NUM_POWERS);
}

#[test]
fn shifted_download_to_the_midpoint_stays_in_the_upper_half() {
    let mut p: PowersOfBetaG<()> = PowersOfBetaG::new(vec![(); NUM_POWERS_15], vec![(); NUM_POWERS_15]);
    let start = MAX_NUM_POWERS / 2;
    let mut gathered = Vec::new();
    for n in p.download_from_plan(start).unwrap() {
        assert!(shifted_degree(n).is_ok());
        gathered.extend(std::iter::repeat(()).take(n / 2));
    }
    p.prepend_shifted_powers(gathered);
    let (_, shifted) = p.available_powers();
    assert_eq!(shifted.start, MAX_NUM_POWERS / 2);
    assert_eq!(p.needs_download(&(start..start + 1)), Ok(false));
    assert_eq!(p.stored_powers(&(start..start + 1)).unwrap().len(), 1);
}

#[test]
fn shifted_download_below_the_midpoint_needs_an_unpublished_block() {
    let p: PowersOfBetaG<()> = PowersOfBetaG::new(vec![(); NUM_POWERS_15], vec![(); NUM_POWERS_15]);
    let queue = p.download_from_plan(MAX_NUM_POWERS / 2 - 1).unwrap();
    assert_eq!(queue[0], MAX_NUM_POWERS);
    assert!(shifted_degree(queue[0]).is_err());
}

#[test]
fn full_normal_download_then_drop_keeps_every_power() {
    let mut p: PowersOfBetaG<()> = PowersOfBetaG::new(vec![(); NUM_POWERS_15], vec![(); NUM_POWERS_15]);
    let end = MAX_NUM_POWERS / 2 + 1;
    assert_eq!(p.download_plan(&(1..end)), Ok(DownloadPlan::UpToAndDropShifted(end)));
    for n in p.download_up_to_plan(end).unwrap() {
        p.extend_powers(vec![(); n / 2]);
    }
    p.drop_shifted_powers();
    assert_eq!(p.num_powers(), MAX_NUM_POWERS);
    assert_eq!(p.available_powers(), (0..MAX_NUM_POWERS, 0..MAX_NUM_POWERS));
    assert_eq!(p.stored_powers(&(MAX_NUM_POWERS - 2..MAX_NUM_POWERS)).unwrap().len(), 2);
}

#[test]
fn repeated_normal_downloads_keep_powers_in_place() {
    let mut p = shipped();
    download_up_to(&mut p, (1 << 16) + 1);
    assert_eq!(p.num_powers(), 1 << 17);
    download_up_to(&mut p, (1 << 17) + 1);
    assert_eq!(p.num_powers(), 1 << 18);
    download_up_to(&mut p, 1 << 18);
    assert_eq!(p.num_powers(), 1 << 18);
    let (normal, _) = p.parts();
    assert!(normal.iter().enumerate().all(|(i, x)| *x as usize == i));
}

#[test]
fn midpoint_download_after_earlier_downloads_holds_every_power() {
    let mut p: PowersOfBetaG<()> = PowersOfBetaG::new(vec![(); NUM_POWERS_15], vec![(); NUM_POWERS_15]);
    for n in p.download_up_to_plan((1 << 17) + 1).unwrap() {
        p.extend_powers(vec![(); n / 2]);
    }
    let half = MAX_NUM_POWERS / 2;
    assert_eq!(p.download_plan(&(half..half + 1)), Ok(DownloadPlan::UpToAndDropShifted(half + 1)));
    for n in p.download_up_to_plan(half + 1).unwrap() {
        p.extend_powers(vec![(); n / 2]);
    }
    p.drop_shifted_powers();
    assert_eq!(p.num_powers(), MAX_NUM_POWERS);
    assert_eq!(p.needs_download(&(half..half + 1)), Ok(false));
}
