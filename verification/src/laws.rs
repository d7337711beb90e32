//! What the downloads promise: they make the requested powers available, they
//! only ever ask for blocks that are published, and they keep the layout of the
//! held powers consistent.

use vstd::prelude::*;

use crate::constants::{MAX_NUM_POWERS, NUM_POWERS_15, NUM_POWERS_27};
use crate::math::{
    ceil_log2,
    lemma_ceil_log2,
    lemma_next_pow2_above_pow2,
    lemma_pow2_pos,
    lemma_next_pow2_is_least,
    lemma_pow2_le_iff,
    lemma_pow2_values,
    next_pow2,
    pow2,
};
use crate::powers_of_beta_g::{DownloadPlan, PowersOfBetaGView};
use crate::schedule::{
    first_normal_block,
    half_sum,
    is_pow2_between,
    lemma_doublings_through_pow2,
    lemma_doublings_until_cover,
    lemma_doublings_until_pow2,
    lemma_half_sum_pow2_run,
    lemma_half_sum_reverse,
    normal_download_queue,
    shifted_download_queue,
};

verus! {

/// Downloading the normal powers up to `end` when `2^h` of them are held
/// (`h >= 15`), with each block of `n` powers adding the `n / 2` powers above
/// the previous one, leaves exactly `max(2^h, end.next_power_of_two())` normal
/// powers: a power of two, enough for every request that ends at `end`, and
/// never fewer than before.
pub proof fn law_normal_download_covers(h: nat, end: nat)
    requires
        15 <= h,
        next_pow2(end) <= MAX_NUM_POWERS,
    ensures
        pow2(h) + half_sum(normal_download_queue(pow2(h), end)) == if pow2(h) < next_pow2(end) {
            next_pow2(end)
        } else {
            pow2(h)
        },
        next_pow2(end) >= end,
{
    lemma_pow2_values();
    lemma_ceil_log2(end);
    lemma_next_pow2_above_pow2(h);
    lemma_pow2_le_iff(16, h + 1);
    let kt = ceil_log2(end);
    assert(first_normal_block(pow2(h)) == pow2(h + 1));
    lemma_doublings_through_pow2(h + 1, kt);
    lemma_pow2_le_iff(h, kt);
    if h < kt {
        lemma_half_sum_pow2_run(h + 1, kt);
    } else {
        assert(normal_download_queue(pow2(h), end) =~= Seq::<nat>::empty());
    }
}

/// Once the normal powers reach `end.next_power_of_two()`, a download up to
/// `end` fetches nothing: downloading is idempotent.
pub proof fn law_normal_download_is_idempotent(held: nat, end: nat)
    requires
        held >= next_pow2(end),
    ensures
        normal_download_queue(held, end) =~= Seq::<nat>::empty(),
{
    lemma_ceil_log2(held + 1);
    lemma_pow2_values();
}

/// Any layout whose normal run holds at least `end.next_power_of_two()`
/// powers, and which still has shifted powers, holds every request that ends
/// at `end`.
pub proof fn law_covered_requests_are_held<G>(v: PowersOfBetaGView<G>, start: int, end: int)
    requires
        v.shifted.len() > 0,
        0 <= start < end,
        v.normal.len() >= next_pow2(end as nat),
    ensures
        v.holds(start, end),
{
    lemma_ceil_log2(end as nat);
}

/// A request that spans the midpoint of the SRS is rounded up to every power:
/// the normal powers then hold all of them.
pub proof fn law_midpoint_download_is_complete(end: nat)
    requires
        MAX_NUM_POWERS / 2 < end <= MAX_NUM_POWERS,
    ensures
        next_pow2(end) == MAX_NUM_POWERS,
{
    lemma_pow2_values();
    lemma_ceil_log2(end);
    let c = ceil_log2(end);
    lemma_pow2_le_iff(c, 27);
    lemma_pow2_le_iff((c - 1) as nat, 28);
    lemma_pow2_le_iff(c, 28);
}

/// Downloading the shifted powers from `start`, with each block of `n` powers
/// adding the `n / 2` powers below the previous one, leaves at least
/// `MAX_NUM_POWERS - start` shifted powers, so that `start` lies in the shifted
/// range.
pub proof fn law_shifted_download_covers(held: nat, start: nat)
    requires
        held > 0,
        start <= MAX_NUM_POWERS,
    ensures
        held + half_sum(shifted_download_queue(held, start)) >= MAX_NUM_POWERS - start,
{
    let target = next_pow2((MAX_NUM_POWERS - start) as nat);
    lemma_ceil_log2((MAX_NUM_POWERS - start) as nat);
    lemma_doublings_until_cover(held, target);
    lemma_half_sum_reverse(crate::schedule::doublings_until(held, target));
}

/// Every block that a download of normal powers fetches is published (its
/// degree lies in `16..=28`), whatever number of powers is held.
pub proof fn law_normal_blocks_are_published(held: nat, end: nat)
    requires
        next_pow2(end) <= MAX_NUM_POWERS,
    ensures
        forall|i: int|
            0 <= i < normal_download_queue(held, end).len() ==> is_pow2_between(
                #[trigger] normal_download_queue(held, end)[i],
                16,
                28,
            ),
{
    lemma_pow2_values();
    let kt = ceil_log2(end);
    lemma_pow2_le_iff(kt, 28);
    let k0: nat = if next_pow2(held + 1) < pow2(16) {
        16
    } else {
        ceil_log2(held + 1)
    };
    lemma_pow2_le_iff(16, ceil_log2(held + 1));
    assert(first_normal_block(held) == pow2(k0));
    lemma_doublings_through_pow2(k0, kt);
    assert forall|i: int| 0 <= i < normal_download_queue(held, end).len() implies is_pow2_between(
        #[trigger] normal_download_queue(held, end)[i],
        16,
        28,
    ) by {
        assert(pow2((k0 + i) as nat) == normal_download_queue(held, end)[i]);
    }
}

/// Every block that a download of shifted powers fetches is published (its
/// degree lies in `16..=27`) when the held shifted powers are `2^k` with
/// `k >= 15` and the download reaches no lower than `MAX_NUM_POWERS - 2^27`.
pub proof fn law_shifted_blocks_are_published(k: nat, start: nat)
    requires
        k >= 15,
        MAX_NUM_POWERS - NUM_POWERS_27 <= start <= MAX_NUM_POWERS,
    ensures
        forall|i: int|
            0 <= i < shifted_download_queue(pow2(k), start).len() ==> is_pow2_between(
                #[trigger] shifted_download_queue(pow2(k), start)[i],
                16,
                27,
            ),
{
    lemma_pow2_values();
    let d = (MAX_NUM_POWERS - start) as nat;
    lemma_next_pow2_is_least(d, 27);
    let c = ceil_log2(d);
    lemma_pow2_le_iff(c, 27);
    lemma_doublings_until_pow2(k, c);
    let q = shifted_download_queue(pow2(k), start);
    let up = crate::schedule::doublings_until(pow2(k), pow2(c));
    assert forall|i: int| 0 <= i < q.len() implies is_pow2_between(#[trigger] q[i], 16, 27) by {
        let j = up.len() - 1 - i;
        assert(q[i] == up[j]);
        assert(up[j] == pow2((k + 1 + j) as nat));
        lemma_pow2_le_iff((k + 1 + j) as nat, c);
    }
}

/// Dropping the shifted powers once the normal run holds every power leaves a
/// consistent layout.
pub proof fn law_dropping_shifted_after_full_download<G>(v: PowersOfBetaGView<G>)
    requires
        v.normal.len() == MAX_NUM_POWERS,
    ensures
        (PowersOfBetaGView { normal: v.normal, shifted: Seq::<G>::empty() }).layout_ok(),
        forall|start: int, end: int|
            0 <= start < end <= MAX_NUM_POWERS ==> (PowersOfBetaGView {
                normal: v.normal,
                shifted: Seq::<G>::empty(),
            }).in_normal(start, end),
{
}

/// A download of shifted powers from `start`, when `2^k` shifted powers are
/// held, leaves exactly `max(2^k, (MAX_NUM_POWERS - start).next_power_of_two())`
/// shifted powers; where it reaches no lower than `MAX_NUM_POWERS - 2^27` from
/// at most 2^27 held powers, these stay within the upper half of the SRS.
pub proof fn law_shifted_download_size(k: nat, start: nat)
    requires
        start <= MAX_NUM_POWERS,
    ensures
        pow2(k) + half_sum(shifted_download_queue(pow2(k), start)) == if pow2(k) < next_pow2(
            (MAX_NUM_POWERS - start) as nat,
        ) {
            next_pow2((MAX_NUM_POWERS - start) as nat)
        } else {
            pow2(k)
        },
        k <= 27 && MAX_NUM_POWERS - NUM_POWERS_27 <= start ==> pow2(k) + half_sum(
            shifted_download_queue(pow2(k), start),
        ) <= MAX_NUM_POWERS / 2,
{
    lemma_pow2_values();
    let d = (MAX_NUM_POWERS - start) as nat;
    let c = ceil_log2(d);
    lemma_doublings_until_pow2(k, c);
    lemma_half_sum_reverse(crate::schedule::doublings_until(pow2(k), pow2(c)));
    lemma_pow2_le_iff(k, c);
    if k < c {
        lemma_half_sum_pow2_run(k + 1, c);
        assert(Seq::new((c - k) as nat, |i: int| pow2((k + 1 + i) as nat)) =~= Seq::new(
            (c + 1 - (k + 1)) as nat,
            |i: int| pow2((k + 1 + i) as nat),
        ));
    } else {
        assert(half_sum(Seq::<nat>::empty()) == 0);
        assert(Seq::<nat>::empty().reverse() =~= Seq::<nat>::empty());
    }
    if k <= 27 && MAX_NUM_POWERS - NUM_POWERS_27 <= start {
        lemma_next_pow2_is_least(d, 27);
        lemma_pow2_le_iff(k, 27);
    }
}

/// Appending downloaded powers to the normal run keeps every held power and
/// never lowers their number: a request that the normal run served before is
/// served with the same powers afterwards.
pub proof fn law_normal_download_keeps_held_powers<G>(
    v: PowersOfBetaGView<G>,
    added: Seq<G>,
    start: int,
    end: int,
)
    requires
        v.layout_ok(),
        v.in_normal(start, end),
        start <= end,
    ensures
        ({
            let w = PowersOfBetaGView { normal: v.normal + added, shifted: v.shifted };
            &&& w.normal.len() >= v.normal.len()
            &&& w.in_normal(start, end)
            &&& w.normal.subrange(start, end) == v.normal.subrange(start, end)
        }),
{
    let w = PowersOfBetaGView { normal: v.normal + added, shifted: v.shifted };
    assert(w.normal.subrange(start, end) =~= v.normal.subrange(start, end));
}

/// Prepending downloaded powers to a non-empty shifted run keeps every held
/// shifted power: a request that the shifted run served before is served with
/// the same powers afterwards, and the shifted range only grows downwards.
pub proof fn law_shifted_download_keeps_held_powers<G>(
    v: PowersOfBetaGView<G>,
    added: Seq<G>,
    start: int,
    end: int,
)
    requires
        v.shifted.len() > 0,
        added.len() + v.shifted.len() <= MAX_NUM_POWERS,
        v.in_shifted(start, end),
        start <= end,
    ensures
        ({
            let w = PowersOfBetaGView { normal: v.normal, shifted: added + v.shifted };
            &&& w.shifted_start() <= v.shifted_start()
            &&& w.in_shifted(start, end)
            &&& w.shifted.subrange(start - w.shifted_start(), end - w.shifted_start())
                == v.shifted.subrange(start - v.shifted_start(), end - v.shifted_start())
        }),
{
    let w = PowersOfBetaGView { normal: v.normal, shifted: added + v.shifted };
    assert(w.shifted.subrange(start - w.shifted_start(), end - w.shifted_start())
        =~= v.shifted.subrange(start - v.shifted_start(), end - v.shifted_start()));
}

/// The shape of held powers that loading and the downloads keep: `2^h` normal
/// powers (`15 <= h <= 28`), and either `2^k` shifted powers (`15 <= k <= 27`)
/// or none, in which case the normal powers hold every power.
pub open spec fn download_shape(normal: nat, shifted: nat) -> bool {
    &&& is_pow2_between(normal, 15, 28)
    &&& (shifted == 0 && normal == MAX_NUM_POWERS) || is_pow2_between(shifted, 15, 27)
}

/// The numbers of normal and shifted powers held after the download that a
/// request for `start..end` plans, where each fetched block of `n` powers
/// brings the `n / 2` powers that it is published for.
pub open spec fn counts_after_download<G>(v: PowersOfBetaGView<G>, start: usize, end: usize) -> (
    nat,
    nat,
) {
    let n = v.normal.len();
    let s = v.shifted.len();
    match v.plan_for(start, end) {
        DownloadPlan::AlreadyHeld => (n, s),
        DownloadPlan::UpTo(e) => (n + half_sum(normal_download_queue(n, e as nat)), s),
        DownloadPlan::UpToAndDropShifted(e) => (n + half_sum(normal_download_queue(n, e as nat)), 0),
        DownloadPlan::From(st) => (n, s + half_sum(shifted_download_queue(s, st as nat))),
    }
}

/// Loading gives the shape that the downloads keep: 2^15 normal and 2^15
/// shifted powers.
pub proof fn law_loaded_shape()
    ensures
        download_shape(NUM_POWERS_15 as nat, NUM_POWERS_15 as nat),
{
    lemma_pow2_values();
    assert(is_pow2_between(NUM_POWERS_15 as nat, 15, 28) && is_pow2_between(NUM_POWERS_15 as nat, 15, 27)) by {
        assert(pow2(15) == NUM_POWERS_15);
    }
}

/// A request for the powers `start..end` is held and can be served once the
/// download that it plans has run, and the held powers keep their shape and
/// never become fewer. This holds from any shape that loading and downloads
/// reach, whenever the planned download fetches only published blocks (a
/// download of shifted powers reaches no lower than the midpoint).
pub proof fn law_planned_download_serves<G>(
    v: PowersOfBetaGView<G>,
    w: PowersOfBetaGView<G>,
    start: usize,
    end: usize,
)
    requires
        download_shape(v.normal.len(), v.shifted.len()),
        start < end <= MAX_NUM_POWERS,
        v.plan_for(start, end) matches DownloadPlan::From(_) ==> start >= MAX_NUM_POWERS / 2,
        (w.normal.len(), w.shifted.len()) == counts_after_download(v, start, end),
    ensures
        w.holds(start as int, end as int),
        w.serves(start as int, end as int),
        download_shape(w.normal.len(), w.shifted.len()),
        w.normal.len() >= v.normal.len(),
{
    lemma_pow2_values();
    let n = v.normal.len();
    let s = v.shifted.len();
    let h = choose|h: nat| 15 <= h <= 28 && pow2(h) == n;
    lemma_pow2_le_iff(h, 28);
    lemma_next_pow2_is_least(end as nat, 28);
    if s > 0 {
        let k = choose|k: nat| 15 <= k <= 27 && pow2(k) == s;
        lemma_pow2_le_iff(k, 27);
        assert(s <= NUM_POWERS_27);
    } else if is_pow2_between(s, 15, 27) {
        let k = choose|k: nat| 15 <= k <= 27 && pow2(k) == s;
        lemma_pow2_pos(k);
    }
    match v.plan_for(start, end) {
        DownloadPlan::AlreadyHeld => {},
        DownloadPlan::UpTo(e) => {
            law_normal_download_covers(h, end as nat);
            let kt = ceil_log2(end as nat);
            lemma_pow2_le_iff(kt, 28);
            lemma_pow2_le_iff(h, kt);
            if pow2(h) < next_pow2(end as nat) {
                assert(is_pow2_between(w.normal.len(), 15, 28)) by {
                    assert(15 <= kt <= 28 && pow2(kt) == w.normal.len());
                }
            } else {
                assert(is_pow2_between(w.normal.len(), 15, 28)) by {
                    assert(15 <= h <= 28 && pow2(h) == w.normal.len());
                }
            }
        },
        DownloadPlan::UpToAndDropShifted(e) => {
            law_normal_download_covers(h, end as nat);
            law_midpoint_download_is_complete(end as nat);
            assert(is_pow2_between(w.normal.len(), 15, 28)) by {
                assert(pow2(28) == w.normal.len());
            }
        },
        DownloadPlan::From(st) => {
            let k = choose|k: nat| 15 <= k <= 27 && pow2(k) == s;
            law_shifted_download_size(k, start as nat);
            let d = (MAX_NUM_POWERS - start) as nat;
            let c = ceil_log2(d);
            lemma_ceil_log2(d);
            lemma_next_pow2_is_least(d, 27);
            lemma_pow2_le_iff(c, 27);
            lemma_pow2_le_iff(k, c);
            if pow2(k) < next_pow2(d) {
                assert(is_pow2_between(w.shifted.len(), 15, 27)) by {
                    assert(15 <= c <= 27 && pow2(c) == w.shifted.len());
                }
            } else {
                assert(is_pow2_between(w.shifted.len(), 15, 27)) by {
                    assert(15 <= k <= 27 && pow2(k) == w.shifted.len());
                }
            }
        },
    }
}

/// What a request for the non-empty range `start..end` (with `end` at most
/// the maximum degree) is planned to need, in terms of the `n` held normal
/// powers `0..n` and the `s` held shifted powers `MAX - s..MAX`. It needs
/// nothing exactly when every power is held (`s == 0`), or the range ends
/// within the normal powers, or starts within the shifted powers. Otherwise a
/// range across the midpoint fetches every normal power up to `end` and drops
/// the shifted run; any other range fetches the shifted powers from `start`
/// when `start` lies strictly closer to the shifted powers than `end` lies to
/// the normal powers, and the normal powers up to `end` otherwise.
pub proof fn law_download_plan_needs<G>(v: PowersOfBetaGView<G>, start: usize, end: usize)
    requires
        start < end <= MAX_NUM_POWERS,
    ensures
        (v.plan_for(start, end) == DownloadPlan::AlreadyHeld) <==> (v.shifted.len() == 0 || end
            <= v.normal.len() || MAX_NUM_POWERS - v.shifted.len() <= start),
        (v.plan_for(start, end) == DownloadPlan::AlreadyHeld) <==> v.holds(start as int, end as int),
        v.plan_for(start, end) matches DownloadPlan::UpToAndDropShifted(e) ==> {
            &&& e == end
            &&& start <= MAX_NUM_POWERS / 2 < end
            &&& v.shifted.len() > 0
            &&& v.normal.len() < end
            &&& start < MAX_NUM_POWERS - v.shifted.len()
        },
        v.plan_for(start, end) matches DownloadPlan::From(st) ==> {
            &&& st == start
            &&& !(start <= MAX_NUM_POWERS / 2 < end)
            &&& v.shifted.len() > 0
            &&& v.normal.len() < end
            &&& start < MAX_NUM_POWERS - v.shifted.len()
            &&& (MAX_NUM_POWERS - v.shifted.len()) - start < end - v.normal.len()
        },
        v.plan_for(start, end) matches DownloadPlan::UpTo(e) ==> {
            &&& e == end
            &&& !(start <= MAX_NUM_POWERS / 2 < end)
            &&& v.shifted.len() > 0
            &&& v.normal.len() < end
            &&& start < MAX_NUM_POWERS - v.shifted.len()
            &&& (MAX_NUM_POWERS - v.shifted.len()) - start >= end - v.normal.len()
        },
{
}

/// Which non-empty ranges `start..end` (with `end` at most the maximum
/// degree) are held, in terms of the `n` held normal powers `0..n` and the `s`
/// held shifted powers `MAX - s..MAX`: the normal powers hold those that end at
/// or below `n`, the shifted powers those that start at or above `MAX - s`,
/// and once the shifted run is dropped (`s == 0`) every range is held by both.
pub proof fn law_held_ranges<G>(v: PowersOfBetaGView<G>, start: usize, end: usize)
    requires
        start < end <= MAX_NUM_POWERS,
    ensures
        v.in_normal(start as int, end as int) <==> (v.shifted.len() == 0 || end
            <= v.normal.len()),
        v.in_shifted(start as int, end as int) <==> (v.shifted.len() == 0 || MAX_NUM_POWERS
            - v.shifted.len() <= start),
        v.holds(start as int, end as int) <==> (v.shifted.len() == 0 || end <= v.normal.len()
            || MAX_NUM_POWERS - v.shifted.len() <= start),
        v.normal_end() == if v.shifted.len() > 0 {
            v.normal.len() as int
        } else {
            MAX_NUM_POWERS as int
        },
        v.shifted_start() == if v.shifted.len() > 0 {
            MAX_NUM_POWERS - v.shifted.len()
        } else {
            0
        },
{
}

} // verus!
