//! The frame statistics that the diagnostics overlay can show.

use vstd::prelude::*;
use std::collections::HashMap;
use super::DebugFeatures;
use super::debug_overlay::STAT_MODE;

verus! {

broadcast use vstd::std_specs::hash::group_hash_axioms;

/// Statistic: time that the overlay's own drawing took, in nanoseconds.
pub const FRAME_TIME_CUSTOM: u32 = 0;

/// Statistic: time that the whole intercepted call took, in nanoseconds.
pub const FRAME_TIME_TOTAL: u32 = 1;

/// Statistic: time that the original routine took, in nanoseconds.
pub const FRAME_TIME_DIFF: u32 = 2;

/// Number of statistics that the table holds from the start.
pub const STAT_SLOTS: u32 = 100;

/// Shortest time between two redrawings of the statistics.
pub const REFRESH_INTERVAL_MILLIS: u64 = 500;

/// The table of statistics at the start: every statistic below `STAT_SLOTS`, at zero.
pub open spec fn zeroed_stats() -> Map<u32, u32> {
    Map::new(|key: u32| key < STAT_SLOTS, |key: u32| 0u32)
}

/// Builds the table of statistics, with every slot present and at zero.
pub fn get_stats_map() -> (stats: HashMap<u32, u32>)
    ensures
        stats@ == zeroed_stats(),
{
    let mut stats: HashMap<u32, u32> = HashMap::with_capacity(100);
    let mut i: u32 = 0;
    while i < STAT_SLOTS
        invariant
            i <= STAT_SLOTS,
            stats@ == Map::new(|key: u32| key < i, |key: u32| 0u32),
        decreases STAT_SLOTS - i,
    {
        stats.insert(i, 0);
        assert(stats@ =~= Map::new(|key: u32| key < i + 1, |key: u32| 0u32));
        i = i + 1;
    }
    stats
}

/// Delivers one statistic to the table: the value replaces what the table held
/// under the key.
pub fn send_statistic(stats: &mut HashMap<u32, u32>, key: u32, value: u32)
    ensures
        final(stats)@ == old(stats)@.insert(key, value),
{
    stats.insert(key, value);
}

/// Tells whether the statistics are to be drawn anew after a statistic came in:
/// the last drawing is at least `REFRESH_INTERVAL_MILLIS` ago, the overlay is
/// switched on, and it shows the statistics.
pub fn refresh_due(since_refresh_millis: u64, features: &DebugFeatures, mode: u8) -> (due: bool)
    ensures
        due == (since_refresh_millis >= REFRESH_INTERVAL_MILLIS && features.debug_overlay_enabled
            && mode == STAT_MODE),
{
    since_refresh_millis >= REFRESH_INTERVAL_MILLIS && features.debug_overlay_enabled && mode
        == STAT_MODE
}

/// The low 32 bits of a duration in nanoseconds.
pub open spec fn low_bits(nanos: u128) -> u32 {
    (nanos as int % 0x1_0000_0000) as u32
}

/// The three statistics of one frame. `custom_nanos` is the time up to the call
/// of the original routine, `total_nanos` the time up to its return. Each is cut
/// to its low 32 bits; the time of the original routine is their difference,
/// which wraps around where the cut makes the total the smaller one.
pub fn frame_statistics(custom_nanos: u128, total_nanos: u128) -> (stats: [(u32, u32); 3])
    ensures
        stats@ == seq![
            (FRAME_TIME_CUSTOM, low_bits(custom_nanos)),
            (FRAME_TIME_TOTAL, low_bits(total_nanos)),
            (
                FRAME_TIME_DIFF,
                ((low_bits(total_nanos) - low_bits(custom_nanos)) % 0x1_0000_0000) as u32,
            ),
        ],
{
    let custom: u32 = (custom_nanos % 0x1_0000_0000) as u32;
    let total: u32 = (total_nanos % 0x1_0000_0000) as u32;
    let diff: u32 = if total >= custom {
        total - custom
    } else {
        (total as u64 + 0x1_0000_0000 - custom as u64) as u32
    };
    let stats = [(FRAME_TIME_CUSTOM, custom), (FRAME_TIME_TOTAL, total), (FRAME_TIME_DIFF, diff)];
    assert(stats@ =~= seq![
        (FRAME_TIME_CUSTOM, low_bits(custom_nanos)),
        (FRAME_TIME_TOTAL, low_bits(total_nanos)),
        (
            FRAME_TIME_DIFF,
            ((low_bits(total_nanos) - low_bits(custom_nanos)) % 0x1_0000_0000) as u32,
        ),
    ]);
    stats
}

} // verus!
