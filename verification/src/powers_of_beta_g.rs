//! The powers of beta times G that are held in memory: a contiguous run of
//! "normal" powers that starts at the 0-th power, and a contiguous run of
//! "shifted" powers that ends at the maximum degree.

use std::ops::Range;

use vstd::prelude::*;
use vstd::slice::slice_subrange;

use crate::constants::{MAX_NUM_POWERS, NUM_POWERS_15, NUM_POWERS_16};
use crate::errors::PowersError;
use crate::math::{
    checked_next_power_of_two,
    lemma_ceil_log2,
    lemma_next_pow2_is_least,
    lemma_pow2_values,
    next_pow2,
    ceil_log2,
};
use crate::schedule::{
    doublings_through,
    doublings_until,
    first_normal_block,
    normal_download_queue,
    shifted_download_queue,
};

verus! {

/// The distance between two positions.
pub open spec fn gap(a: int, b: int) -> int {
    if a >= b {
        a - b
    } else {
        b - a
    }
}

/// Computes the distance between two positions.
fn gap_of(a: usize, b: usize) -> (r: usize)
    ensures
        r == gap(a as int, b as int),
{
    if a >= b {
        a - b
    } else {
        b - a
    }
}

/// What a request for powers needs before it can be served.
#[derive(Debug, Clone, Copy, PartialEq, Eq, Structural)]
pub enum DownloadPlan {
    /// The requested powers are held already.
    AlreadyHeld,
    /// Download the normal powers up to the given end.
    UpTo(usize),
    /// Download the normal powers up to the given end, which then hold every
    /// power, and drop the shifted powers.
    UpToAndDropShifted(usize),
    /// Download the shifted powers from the given start.
    From(usize),
}

/// The powers of beta times G that are held.
#[derive(Clone, Debug)]
pub struct PowersOfBetaG<G> {
    /// Group elements of form `[G, beta * G, beta^2 * G, ..., beta^d * G]`.
    powers_of_beta_g: Vec<G>,
    /// Group elements of form `[beta^i * G, ..., beta^D * G]`, where `D` is the
    /// maximum degree supported by the SRS.
    shifted_powers_of_beta_g: Vec<G>,
}

/// The two runs of held powers.
pub struct PowersOfBetaGView<G> {
    /// The normal powers: the `i`-th is `beta^i * G`.
    pub normal: Seq<G>,
    /// The shifted powers: they end at the power `MAX_NUM_POWERS - 1`.
    pub shifted: Seq<G>,
}

impl<G> View for PowersOfBetaG<G> {
    type V = PowersOfBetaGView<G>;

    closed spec fn view(&self) -> PowersOfBetaGView<G> {
        PowersOfBetaGView {
            normal: self.powers_of_beta_g@,
            shifted: self.shifted_powers_of_beta_g@,
        }
    }
}

impl<G> PowersOfBetaGView<G> {
    /// The layout can be reported: the shifted run fits below the maximum
    /// degree, and without shifted powers the normal run holds every power.
    pub open spec fn layout_ok(self) -> bool {
        &&& self.shifted.len() <= MAX_NUM_POWERS
        &&& self.shifted.len() == 0 ==> self.normal.len() == MAX_NUM_POWERS
    }

    /// The end of the range of normal powers.
    pub open spec fn normal_end(self) -> int {
        if self.shifted.len() > 0 {
            self.normal.len() as int
        } else {
            MAX_NUM_POWERS as int
        }
    }

    /// The start of the range of shifted powers.
    pub open spec fn shifted_start(self) -> int {
        if self.shifted.len() > 0 {
            MAX_NUM_POWERS - self.shifted.len()
        } else {
            0
        }
    }

    /// The powers `start..end` lie within the normal range.
    pub open spec fn in_normal(self, start: int, end: int) -> bool {
        0 <= start < self.normal_end() && end <= self.normal_end()
    }

    /// The powers `start..end` lie within the shifted range.
    pub open spec fn in_shifted(self, start: int, end: int) -> bool {
        self.shifted_start() <= start < MAX_NUM_POWERS && end <= MAX_NUM_POWERS
    }

    /// The powers `start..end` are held.
    pub open spec fn holds(self, start: int, end: int) -> bool {
        self.in_normal(start, end) || self.in_shifted(start, end)
    }

    /// The shifted powers `start..end` can be sliced: below the midpoint they
    /// are read from the normal run, which then holds every power.
    pub open spec fn shifted_slice_ok(self, start: int, end: int) -> bool {
        self.in_shifted(start, end) ==> {
            &&& start <= end
            &&& start < MAX_NUM_POWERS / 2 ==> self.shifted.len() == 0
        }
    }

    /// The shifted powers `start..end` are read from the normal run: below the
    /// midpoint, or where every power has been downloaded.
    pub open spec fn shifted_read_from_normal(self, start: int) -> bool {
        start < MAX_NUM_POWERS / 2 || self.shifted.len() == 0
    }

    /// The non-empty request `start..end` can be served: the layout can be
    /// reported, and where the shifted run serves it, it can be sliced.
    pub open spec fn serves(self, start: int, end: int) -> bool {
        start < end ==> {
            &&& self.layout_ok()
            &&& !self.in_normal(start, end) ==> self.shifted_slice_ok(start, end)
        }
    }

    /// The held power `i` (which the normal run holds where it reaches `i`).
    pub open spec fn power_at(self, i: int) -> G {
        if 0 <= i < self.normal_end() {
            self.normal[i]
        } else {
            self.shifted[i - self.shifted_start()]
        }
    }

    /// The plan that a request for the held-or-not powers `start..end`
    /// (with `start < end <= MAX_NUM_POWERS`) calls for.
    pub open spec fn plan_for(self, start: usize, end: usize) -> DownloadPlan {
        let half = MAX_NUM_POWERS / 2;
        if self.holds(start as int, end as int) {
            DownloadPlan::AlreadyHeld
        } else if start <= half && end > half {
            DownloadPlan::UpToAndDropShifted(end)
        } else if gap(start as int, self.shifted_start()) < gap(end as int, self.normal_end()) {
            DownloadPlan::From(start)
        } else {
            DownloadPlan::UpTo(end)
        }
    }
}

impl<G> PowersOfBetaG<G> {
    /// Builds the powers from a run of normal and a run of shifted powers.
    pub fn new(powers_of_beta_g: Vec<G>, shifted_powers_of_beta_g: Vec<G>) -> (r: Self)
        ensures
            r@.normal == powers_of_beta_g@,
            r@.shifted == shifted_powers_of_beta_g@,
    {
        PowersOfBetaG { powers_of_beta_g, shifted_powers_of_beta_g }
    }

    /// The two runs, normal first.
    pub fn parts(&self) -> (r: (&[G], &[G]))
        ensures
            r.0@ == self@.normal,
            r.1@ == self@.shifted,
    {
        (self.powers_of_beta_g.as_slice(), self.shifted_powers_of_beta_g.as_slice())
    }

    /// Returns the number of contiguous powers of beta G starting from the 0-th power.
    pub fn num_powers(&self) -> (r: usize)
        ensures
            r == self@.normal.len(),
    {
        self.powers_of_beta_g.len()
    }

    /// Returns the range of the available normal powers, i.e. the contiguous
    /// powers of beta G starting from G, and the range of the shifted powers.
    ///
    /// For example, `(0..8, 24..32)` means that the powers `beta^0 * G, ..., beta^7 * G`
    /// and `beta^24 * G, ..., beta^31 * G` are held.
    pub fn available_powers(&self) -> (r: (Range<usize>, Range<usize>))
        requires
            self@.layout_ok(),
        ensures
            r.0.start == 0,
            r.0.end == self@.normal_end(),
            r.1.start == self@.shifted_start(),
            r.1.end == MAX_NUM_POWERS,
    {
        if self.shifted_powers_of_beta_g.len() != 0 {
            let lower_shifted_bound = MAX_NUM_POWERS - self.shifted_powers_of_beta_g.len();
            (0..self.powers_of_beta_g.len(), lower_shifted_bound..MAX_NUM_POWERS)
        } else {
            // Only once every power has been downloaded.
            (0..MAX_NUM_POWERS, 0..MAX_NUM_POWERS)
        }
    }

    fn contains_in_normal_powers(&self, range: &Range<usize>) -> (r: bool)
        requires
            self@.layout_ok(),
        ensures
            r == self@.in_normal(range.start as int, range.end as int),
    {
        let (normal, _) = self.available_powers();
        normal.start <= range.start && range.start < normal.end && normal.end >= range.end
    }

    fn contains_in_shifted_powers(&self, range: &Range<usize>) -> (r: bool)
        requires
            self@.layout_ok(),
        ensures
            r == self@.in_shifted(range.start as int, range.end as int),
    {
        let (_, shifted) = self.available_powers();
        shifted.start <= range.start && range.start < shifted.end && shifted.end >= range.end
    }

    fn contains_powers(&self, range: &Range<usize>) -> (r: bool)
        requires
            self@.layout_ok(),
        ensures
            r == self@.holds(range.start as int, range.end as int),
    {
        self.contains_in_normal_powers(range) || self.contains_in_shifted_powers(range)
    }

    fn distance_from_normal_of(&self, range: &Range<usize>) -> (r: usize)
        requires
            self@.layout_ok(),
        ensures
            r == gap(range.end as int, self@.normal_end()),
    {
        gap_of(range.end, self.available_powers().0.end)
    }

    fn distance_from_shifted_of(&self, range: &Range<usize>) -> (r: usize)
        requires
            self@.layout_ok(),
        ensures
            r == gap(range.start as int, self@.shifted_start()),
    {
        gap_of(range.start, self.available_powers().1.start)
    }

    /// The shifted powers `range`: below the midpoint, or where no shifted
    /// powers are left, every power has been downloaded, so they are read from
    /// the normal run.
    fn shifted_powers(&self, range: &Range<usize>) -> (r: Result<&[G], PowersError>)
        requires
            self@.layout_ok(),
            self@.shifted_slice_ok(range.start as int, range.end as int),
        ensures
            match r {
                Ok(s) => self@.in_shifted(range.start as int, range.end as int) && s@
                    == if self@.shifted_read_from_normal(range.start as int) {
                    self@.normal.subrange(range.start as int, range.end as int)
                } else {
                    self@.shifted.subrange(
                        range.start - self@.shifted_start(),
                        range.end - self@.shifted_start(),
                    )
                },
                Err(e) => e == PowersError::NotInShiftedPowers && !self@.in_shifted(
                    range.start as int,
                    range.end as int,
                ),
            },
    {
        if !self.contains_in_shifted_powers(range) {
            return Err(PowersError::NotInShiftedPowers);
        }
        if range.start < MAX_NUM_POWERS / 2 || self.shifted_powers_of_beta_g.len() == 0 {
            Ok(slice_subrange(self.powers_of_beta_g.as_slice(), range.start, range.end))
        } else {
            let lower = self.shifted_powers_of_beta_g.len() - (MAX_NUM_POWERS - range.start);
            let upper = self.shifted_powers_of_beta_g.len() - (MAX_NUM_POWERS - range.end);
            Ok(slice_subrange(self.shifted_powers_of_beta_g.as_slice(), lower, upper))
        }
    }

    /// The normal powers `range`.
    fn normal_powers(&self, range: &Range<usize>) -> (r: Result<&[G], PowersError>)
        requires
            self@.layout_ok(),
            self@.in_normal(range.start as int, range.end as int) ==> range.start <= range.end,
        ensures
            match r {
                Ok(s) => self@.in_normal(range.start as int, range.end as int) && s@
                    == self@.normal.subrange(range.start as int, range.end as int),
                Err(e) => e == PowersError::NotInNormalPowers && !self@.in_normal(
                    range.start as int,
                    range.end as int,
                ),
            },
    {
        if !self.contains_in_normal_powers(range) {
            return Err(PowersError::NotInNormalPowers);
        }
        Ok(slice_subrange(self.powers_of_beta_g.as_slice(), range.start, range.end))
    }

    /// The first step of a request for the powers `range`: whether any of them
    /// must be downloaded first. An empty range needs nothing; a range that ends
    /// beyond the maximum degree is refused.
    pub fn needs_download(&self, range: &Range<usize>) -> (r: Result<bool, PowersError>)
        requires
            range.start < range.end && range.end <= MAX_NUM_POWERS ==> self@.layout_ok(),
        ensures
            r == (if range.start >= range.end {
                Ok::<bool, PowersError>(false)
            } else if range.end > MAX_NUM_POWERS {
                Err(PowersError::UpperBoundTooLarge)
            } else {
                Ok(!self@.holds(range.start as int, range.end as int))
            }),
    {
        if range.start >= range.end {
            return Ok(false);
        }
        if range.end > MAX_NUM_POWERS {
            return Err(PowersError::UpperBoundTooLarge);
        }
        Ok(!self.contains_powers(range))
    }

    /// The last step of a request for the powers `range`: the held powers
    /// `range`, from the normal run where it holds them all, else from the
    /// shifted run. The `i`-th element returned is the power `range.start + i`.
    pub fn stored_powers(&self, range: &Range<usize>) -> (r: Result<&[G], PowersError>)
        requires
            self@.serves(range.start as int, range.end as int),
        ensures
            range.start >= range.end ==> (r matches Ok(s) && s@.len() == 0),
            range.start < range.end && self@.in_normal(range.start as int, range.end as int)
                ==> (r matches Ok(s) && s@ == self@.normal.subrange(
                range.start as int,
                range.end as int,
            )),
            range.start < range.end && !self@.in_normal(range.start as int, range.end as int)
                && self@.in_shifted(range.start as int, range.end as int) ==> (r matches Ok(s)
                && s@ == self@.shifted.subrange(
                range.start - self@.shifted_start(),
                range.end - self@.shifted_start(),
            )),
            range.start < range.end && !self@.holds(range.start as int, range.end as int) ==> r
                == Err::<&[G], PowersError>(PowersError::NotInShiftedPowers),
            r matches Ok(s) ==> s@.len() == if range.start < range.end {
                range.end - range.start
            } else {
                0
            },
            r matches Ok(s) ==> forall|i: int|
                0 <= i < s@.len() && (self@.in_normal(range.start as int, range.end as int)
                    || range.start + i >= self@.normal_end()) ==> s@[i] == #[trigger] self@.power_at(
                    range.start + i,
                ),
    {
        if range.start >= range.end {
            return Ok(slice_subrange(self.powers_of_beta_g.as_slice(), 0, 0));
        }
        if self.contains_in_normal_powers(range) {
            self.normal_powers(range)
        } else {
            self.shifted_powers(range)
        }
    }

    /// The held power `target`, served as the one-element request
    /// `target..target + 1`.
    pub fn stored_power(&self, target: usize) -> (r: Result<G, PowersError>) where G: Copy
        requires
            target < usize::MAX,
            self@.serves(target as int, target + 1),
        ensures
            self@.holds(target as int, target + 1) ==> r == Ok::<G, PowersError>(
                self@.power_at(target as int),
            ),
            !self@.holds(target as int, target + 1) ==> r == Err::<G, PowersError>(
                PowersError::NotInShiftedPowers,
            ),
    {
        let s = self.stored_powers(&(target..target + 1))?;
        Ok(s[0])
    }

    /// Decides how the powers `range` are to be made available: not at all
    /// where they are held (or the range is empty); refused where they reach
    /// beyond the maximum degree; all the normal powers up to `range.end` where
    /// the range contains the midpoint (the powers are rounded up to the next
    /// power of two, which is then the maximum degree); otherwise the shifted
    /// powers from `range.start` where these are closer to the range than the
    /// normal powers are, else the normal powers up to `range.end`.
    pub fn download_plan(&self, range: &Range<usize>) -> (r: Result<DownloadPlan, PowersError>)
        requires
            range.start < range.end && range.end <= MAX_NUM_POWERS ==> self@.layout_ok(),
        ensures
            r == (if range.start >= range.end {
                Ok::<DownloadPlan, PowersError>(DownloadPlan::AlreadyHeld)
            } else if range.end > MAX_NUM_POWERS {
                Err(PowersError::UpperBoundTooLarge)
            } else {
                Ok(self@.plan_for(range.start, range.end))
            }),
    {
        if range.start >= range.end {
            return Ok(DownloadPlan::AlreadyHeld);
        }
        if range.end > MAX_NUM_POWERS {
            return Err(PowersError::UpperBoundTooLarge);
        }
        if self.contains_in_normal_powers(range) || self.contains_in_shifted_powers(range) {
            return Ok(DownloadPlan::AlreadyHeld);
        }
        let half_max = MAX_NUM_POWERS / 2;
        if range.start <= half_max && range.end > half_max {
            Ok(DownloadPlan::UpToAndDropShifted(range.end))
        } else if self.distance_from_shifted_of(range) < self.distance_from_normal_of(range) {
            Ok(DownloadPlan::From(range.start))
        } else {
            Ok(DownloadPlan::UpTo(range.end))
        }
    }

    /// The blocks, by their number of powers and in download order, that bring
    /// the normal powers up to `end.next_power_of_two()`: the doublings of the
    /// next power of two above the held number of powers (at least 2^16) that
    /// do not exceed it. Nothing is left to fetch where the held powers reach it.
    pub fn download_up_to_plan(&self, end: usize) -> (r: Result<Vec<usize>, PowersError>)
        ensures
            next_pow2(end as nat) > usize::MAX ==> r == Err::<Vec<usize>, PowersError>(
                PowersError::TooManyPowers,
            ),
            usize::MAX >= next_pow2(end as nat) > MAX_NUM_POWERS ==> r == Err::<
                Vec<usize>,
                PowersError,
            >(PowersError::MoreThanExist),
            next_pow2(end as nat) <= MAX_NUM_POWERS ==> (r matches Ok(q) && q@.map_values(
                |n: usize| n as nat,
            ) == normal_download_queue(self@.normal.len(), end as nat)),
    {
        let total_powers = match checked_next_power_of_two(end) {
            Some(t) => t,
            None => return Err(PowersError::TooManyPowers),
        };
        if total_powers > MAX_NUM_POWERS {
            return Err(PowersError::MoreThanExist);
        }
        let held = self.powers_of_beta_g.len();
        proof {
            lemma_pow2_values();
            lemma_ceil_log2(held as nat + 1);
        }
        if held >= total_powers {
            proof {
                assert(normal_download_queue(held as nat, end as nat) =~= Seq::<nat>::empty());
            }
            return Ok(Vec::new());
        }
        proof {
            lemma_next_pow2_is_least(held as nat + 1, ceil_log2(end as nat));
        }
        let above_held = match checked_next_power_of_two(held + 1) {
            Some(h) => h,
            None => return Err(PowersError::TooManyPowers),
        };
        let mut next_num_powers = if above_held < NUM_POWERS_16 {
            NUM_POWERS_16
        } else {
            above_held
        };
        let ghost first = next_num_powers as nat;
        let mut download_queue: Vec<usize> = Vec::new();
        while next_num_powers <= total_powers
            invariant
                total_powers <= MAX_NUM_POWERS,
                MAX_NUM_POWERS == 268435456,
                next_num_powers >= 1,
                first == first_normal_block(self@.normal.len()),
                download_queue@.map_values(|n: usize| n as nat) + doublings_through(
                    next_num_powers as nat,
                    total_powers as nat,
                ) == doublings_through(first, total_powers as nat),
            decreases 2 * total_powers - next_num_powers,
        {
            let ghost before = download_queue@;
            download_queue.push(next_num_powers);
            proof {
                assert(download_queue@.map_values(|n: usize| n as nat) =~= before.map_values(
                    |n: usize| n as nat,
                ).push(next_num_powers as nat));
                assert(doublings_through(next_num_powers as nat, total_powers as nat) =~= seq![
                    next_num_powers as nat,
                ] + doublings_through(2 * next_num_powers as nat, total_powers as nat));
            }
            next_num_powers = next_num_powers * 2;
        }
        proof {
            assert(download_queue@.map_values(|n: usize| n as nat) =~= doublings_through(
                first,
                total_powers as nat,
            ));
        }
        Ok(download_queue)
    }

    /// Appends a downloaded block to the normal powers.
    pub fn extend_powers(&mut self, additional: Vec<G>)
        ensures
            final(self)@.normal == old(self)@.normal + additional@,
            final(self)@.shifted == old(self)@.shifted,
    {
        let mut additional = additional;
        self.powers_of_beta_g.append(&mut additional);
    }

    /// The blocks, by their number of powers and in download order, that bring
    /// the shifted powers down to `start`: the doublings of the held number of
    /// shifted powers up to the next power of two of `MAX_NUM_POWERS - start`,
    /// largest first, so that the smallest power comes first. Nothing is left to
    /// fetch where no shifted powers are held (every power is then held).
    pub fn download_from_plan(&self, start: usize) -> (r: Result<Vec<usize>, PowersError>)
        ensures
            start > MAX_NUM_POWERS ==> r == Err::<Vec<usize>, PowersError>(
                PowersError::MoreThanExist,
            ),
            start <= MAX_NUM_POWERS ==> (r matches Ok(q) && q@.map_values(|n: usize| n as nat)
                == shifted_download_queue(self@.shifted.len(), start as nat)),
    {
        if start > MAX_NUM_POWERS {
            return Err(PowersError::MoreThanExist);
        }
        proof {
            lemma_pow2_values();
            lemma_next_pow2_is_least((MAX_NUM_POWERS - start) as nat, 28);
        }
        let extra_powers_to_download = match checked_next_power_of_two(MAX_NUM_POWERS - start) {
            Some(e) => e,
            None => return Err(PowersError::TooManyPowers),
        };
        let ghost s = self.shifted_powers_of_beta_g.len() as nat;
        let ghost extra = extra_powers_to_download as nat;
        if self.shifted_powers_of_beta_g.len() == 0 {
            proof {
                assert(shifted_download_queue(s, start as nat) =~= Seq::<nat>::empty());
            }
            return Ok(Vec::new());
        }
        let mut download_queue: Vec<usize> = Vec::new();
        let mut existing_num_powers = self.shifted_powers_of_beta_g.len();
        while existing_num_powers < extra_powers_to_download
            invariant
                extra_powers_to_download == extra,
                extra <= MAX_NUM_POWERS,
                MAX_NUM_POWERS == 268435456,
                existing_num_powers > 0,
                download_queue@.map_values(|n: usize| n as nat) + doublings_until(
                    existing_num_powers as nat,
                    extra,
                ) == doublings_until(s, extra),
            decreases 2 * extra_powers_to_download - existing_num_powers,
        {
            let ghost before = download_queue@;
            existing_num_powers = existing_num_powers * 2;
            download_queue.push(existing_num_powers);
            proof {
                assert(download_queue@.map_values(|n: usize| n as nat) =~= before.map_values(
                    |n: usize| n as nat,
                ).push(existing_num_powers as nat));
                assert(doublings_until((existing_num_powers / 2) as nat, extra) =~= seq![
                    existing_num_powers as nat,
                ] + doublings_until(existing_num_powers as nat, extra));
            }
        }
        proof {
            assert(download_queue@.map_values(|n: usize| n as nat) =~= doublings_until(s, extra));
        }
        let reversed = reversed_queue(&download_queue);
        proof {
            assert(reversed@.map_values(|n: usize| n as nat) =~= download_queue@.map_values(
                |n: usize| n as nat,
            ).reverse());
        }
        Ok(reversed)
    }

    /// Puts the downloaded shifted blocks, joined in download order, in front
    /// of the held shifted powers.
    pub fn prepend_shifted_powers(&mut self, final_powers: Vec<G>)
        ensures
            final(self)@.shifted == final_powers@ + old(self)@.shifted,
            final(self)@.normal == old(self)@.normal,
    {
        let mut final_powers = final_powers;
        final_powers.append(&mut self.shifted_powers_of_beta_g);
        self.shifted_powers_of_beta_g = final_powers;
    }

    /// Drops the shifted powers, once the normal powers hold every power.
    pub fn drop_shifted_powers(&mut self)
        ensures
            final(self)@.shifted.len() == 0,
            final(self)@.normal == old(self)@.normal,
    {
        self.shifted_powers_of_beta_g = Vec::new();
    }
}

/// Checks a decoded shipped block: it must hold exactly 2^15 powers.
pub fn check_shipped_block<G>(block: Vec<G>) -> (r: Result<Vec<G>, PowersError>)
    ensures
        block@.len() == NUM_POWERS_15 ==> (r matches Ok(b) && b@ == block@),
        block@.len() != NUM_POWERS_15 ==> r == Err::<Vec<G>, PowersError>(
            PowersError::IncorrectNumberOfPowers,
        ),
{
    if block.len() != NUM_POWERS_15 {
        return Err(PowersError::IncorrectNumberOfPowers);
    }
    Ok(block)
}

/// The elements of `queue` in reverse order.
fn reversed_queue(queue: &Vec<usize>) -> (r: Vec<usize>)
    ensures
        r@ == queue@.reverse(),
{
    let mut r: Vec<usize> = Vec::new();
    let mut i = queue.len();
    while i > 0
        invariant
            i <= queue.len(),
            r@.len() == queue.len() - i,
            forall|j: int| 0 <= j < r@.len() ==> r@[j] == queue@[queue.len() - 1 - j],
        decreases i,
    {
        i = i - 1;
        r.push(queue[i]);
    }
    assert(r@ =~= queue@.reverse());
    r
}

} // verus!
