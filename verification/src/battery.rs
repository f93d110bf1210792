//! The battery module: aggregation of per-battery telemetry samples, the
//! time-remaining estimation policy, and the rendered fragment.
use vstd::prelude::*;
use crate::config::{
    eff_color, eff_size, resolve, resolve_spec, GlobalConfig, ModuleConfigOverride, OptionsMap,
};
use crate::decimal::{all_digits, dec_str, dec_val, parse_u64, push_dec};
use crate::render::Fragment;
use crate::text::str_eq;

verus! {

/// One battery as a producer read it from the power-supply device: energies in
/// microwatt-hours, power in microwatts, voltage in microvolts.
#[derive(Clone, Copy, PartialEq, Eq, Structural, Debug)]
pub struct BatterySample {
    pub energy_now: u64,
    pub energy_full: u64,
    pub power_now: u64,
    pub voltage_now: u64,
    pub charging: bool,
}

/// The icon slot of the battery stats. It is chosen when the stats are
/// computed, and stays unset until the producer's first successful read.
#[derive(Clone, Copy, PartialEq, Eq, Structural, Debug)]
pub enum BatteryIcon {
    Unread,
    DischargingHigh,
    DischargingMedium,
    DischargingLow,
    DischargingEmpty,
    ChargingHigh,
    ChargingMedium,
    ChargingLow,
    ChargingEmpty,
}

/// The displayed battery state.
#[derive(Clone, Copy, PartialEq, Eq, Structural, Debug)]
pub struct BatteryStats {
    pub capacity: u16,
    pub hours: u16,
    pub minutes: u16,
    pub power_now_is_zero: bool,
    pub charging: bool,
    pub icon: BatteryIcon,
}

/// The icon for a computed charge state.
pub open spec fn icon_for(charging: bool, capacity: int) -> BatteryIcon {
    if !charging {
        if capacity >= 80 {
            BatteryIcon::DischargingHigh
        } else if capacity >= 60 {
            BatteryIcon::DischargingMedium
        } else if capacity >= 25 {
            BatteryIcon::DischargingLow
        } else {
            BatteryIcon::DischargingEmpty
        }
    } else {
        if capacity >= 80 {
            BatteryIcon::ChargingHigh
        } else if capacity >= 60 {
            BatteryIcon::ChargingMedium
        } else if capacity >= 25 {
            BatteryIcon::ChargingLow
        } else {
            BatteryIcon::ChargingEmpty
        }
    }
}

/// The battery module instance.
pub struct BatteryMod {
    pub stats: BatteryStats,
    pub cfg_override: ModuleConfigOverride,
}

/// The zero-initialized stats shown until the first successful read: no
/// icon, everything else zero.
pub open spec fn zero_stats() -> BatteryStats {
    BatteryStats {
        capacity: 0,
        hours: 0,
        minutes: 0,
        power_now_is_zero: false,
        charging: false,
        icon: BatteryIcon::Unread,
    }
}

/// The numeric value of a digit string, or zero as the sentinel for anything
/// unparseable.
pub open spec fn parse_or_zero(s: Seq<char>) -> nat {
    if s.len() > 0 && all_digits(s) && dec_val(s) <= u64::MAX {
        dec_val(s)
    } else {
        0
    }
}

/// Build one sample from the textual property values a power-supply device
/// reports. Unparseable values degrade to zero rather than failing.
pub fn sample_from_properties(
    energy_now: &str,
    energy_full: &str,
    power_now: &str,
    voltage_now: &str,
    status: &str,
) -> (r: BatterySample)
    ensures
        r.energy_now as nat == parse_or_zero(energy_now@),
        r.energy_full as nat == parse_or_zero(energy_full@),
        r.power_now as nat == parse_or_zero(power_now@),
        r.voltage_now as nat == parse_or_zero(voltage_now@),
        r.charging == (status@ == "Charging"@),
{
    BatterySample {
        energy_now: parse_u64(energy_now).unwrap_or(0),
        energy_full: parse_u64(energy_full).unwrap_or(0),
        power_now: parse_u64(power_now).unwrap_or(0),
        voltage_now: parse_u64(voltage_now).unwrap_or(0),
        charging: str_eq(status, "Charging"),
    }
}

/// Addition saturating at `u64::MAX`; the aggregates below use it so that an
/// absurd set of samples degrades to the maximum instead of wrapping.
pub open spec fn sat_add64(a: int, b: int) -> int {
    if a + b > u64::MAX {
        u64::MAX as int
    } else {
        a + b
    }
}

/// Total stored energy over all samples.
pub open spec fn sum_energy_now(s: Seq<BatterySample>) -> int
    decreases s.len(),
{
    if s.len() == 0 {
        0
    } else {
        sat_add64(sum_energy_now(s.drop_last()), s.last().energy_now as int)
    }
}

/// Total full-charge energy over all samples.
pub open spec fn sum_energy_full(s: Seq<BatterySample>) -> int
    decreases s.len(),
{
    if s.len() == 0 {
        0
    } else {
        sat_add64(sum_energy_full(s.drop_last()), s.last().energy_full as int)
    }
}

/// Total power draw, counting only batteries that report a nonzero draw.
pub open spec fn sum_power_now(s: Seq<BatterySample>) -> int
    decreases s.len(),
{
    if s.len() == 0 {
        0
    } else {
        sat_add64(
            sum_power_now(s.drop_last()),
            if s.last().power_now != 0 {
                s.last().power_now as int
            } else {
                0
            },
        )
    }
}

/// Total voltage, counting only batteries that report a nonzero power draw.
pub open spec fn sum_voltage_now(s: Seq<BatterySample>) -> int
    decreases s.len(),
{
    if s.len() == 0 {
        0
    } else {
        sat_add64(
            sum_voltage_now(s.drop_last()),
            if s.last().power_now != 0 {
                s.last().voltage_now as int
            } else {
                0
            },
        )
    }
}

/// Whether any battery reports that it is charging.
pub open spec fn any_charging(s: Seq<BatterySample>) -> bool
    decreases s.len(),
{
    if s.len() == 0 {
        false
    } else {
        any_charging(s.drop_last()) || s.last().charging
    }
}

/// Charge percentage, rounded to the nearest point, clamped to `u16`.
pub open spec fn capacity_spec(en: int, ef: int) -> int {
    if ef <= 0 {
        0
    } else {
        let c = (200 * en + ef) / (2 * ef);
        if c > u16::MAX {
            u16::MAX as int
        } else {
            c
        }
    }
}

/// The time-remaining estimation policy, in whole minutes, clamped to
/// `u64`. While discharging the estimate is stored energy over power draw.
/// While charging it scales missing energy by power and voltage with an
/// empirical calibration factor; the policy is replaceable and not a law of
/// the hardware.
pub open spec fn estimate_minutes(en: int, ef: int, pn: int, vn: int, charging: bool) -> int {
    let m = if charging {
        if pn * vn <= 0 || ef <= en {
            0
        } else {
            ((ef - en) * 753000000) / (pn * vn)
        }
    } else {
        if pn <= 0 {
            0
        } else {
            (en * 60) / pn
        }
    };
    if m > u64::MAX {
        u64::MAX as int
    } else {
        m
    }
}

/// The stats denoted by a set of samples.
pub open spec fn battery_stats_spec(s: Seq<BatterySample>) -> BatteryStats {
    let en = sum_energy_now(s);
    let ef = sum_energy_full(s);
    let pn = sum_power_now(s);
    let vn = sum_voltage_now(s);
    let charging = any_charging(s);
    let m = estimate_minutes(en, ef, pn, vn, charging);
    let hours = if m / 60 > u16::MAX {
        u16::MAX as int
    } else {
        m / 60
    };
    BatteryStats {
        capacity: capacity_spec(en, ef) as u16,
        hours: hours as u16,
        minutes: (m % 60) as u16,
        power_now_is_zero: pn == 0,
        charging,
        icon: icon_for(charging, capacity_spec(en, ef)),
    }
}

fn sat_add64_exec(a: u64, b: u64) -> (r: u64)
    ensures
        r as int == sat_add64(a as int, b as int),
{
    if a > u64::MAX - b {
        u64::MAX
    } else {
        a + b
    }
}

/// Aggregate the displayed battery state from all samples.
pub fn battery_stats_of(samples: &Vec<BatterySample>) -> (r: BatteryStats)
    ensures
        r == battery_stats_spec(samples@),
{
    let n = samples.len();
    let mut en: u64 = 0;
    let mut ef: u64 = 0;
    let mut pn: u64 = 0;
    let mut vn: u64 = 0;
    let mut charging = false;
    let mut i: usize = 0;
    proof {
        assert(samples@.take(0) =~= Seq::<BatterySample>::empty());
    }
    while i < n
        invariant
            n == samples@.len(),
            i <= n,
            en == sum_energy_now(samples@.take(i as int)),
            ef == sum_energy_full(samples@.take(i as int)),
            pn == sum_power_now(samples@.take(i as int)),
            vn == sum_voltage_now(samples@.take(i as int)),
            charging == any_charging(samples@.take(i as int)),
        decreases n - i,
    {
        let s = samples[i];
        proof {
            assert(samples@.take(i + 1).drop_last() =~= samples@.take(i as int));
            assert(samples@.take(i + 1).last() == samples@[i as int]);
        }
        en = sat_add64_exec(en, s.energy_now);
        ef = sat_add64_exec(ef, s.energy_full);
        if s.power_now != 0 {
            pn = sat_add64_exec(pn, s.power_now);
            vn = sat_add64_exec(vn, s.voltage_now);
        }
        charging = charging || s.charging;
        i = i + 1;
    }
    proof {
        assert(samples@.take(n as int) =~= samples@);
    }
    // capacity
    let capacity: u16 = if ef == 0 {
        0
    } else {
        let c = (200 * (en as u128) + (ef as u128)) / (2 * (ef as u128));
        if c > u16::MAX as u128 {
            u16::MAX
        } else {
            c as u16
        }
    };
    // time remaining
    let m: u128 = if charging {
        proof {
            assert((pn as int) * (vn as int) < u128::MAX) by (nonlinear_arith)
                requires
                    pn <= u64::MAX,
                    vn <= u64::MAX,
            ;
        }
        let pv = (pn as u128) * (vn as u128);
        if pv == 0 || ef <= en {
            0
        } else {
            (((ef - en) as u128) * 753000000) / pv
        }
    } else {
        if pn == 0 {
            0
        } else {
            ((en as u128) * 60) / (pn as u128)
        }
    };
    let m64: u64 = if m > u64::MAX as u128 {
        u64::MAX
    } else {
        m as u64
    };
    let hours: u16 = if m64 / 60 > u16::MAX as u64 {
        u16::MAX
    } else {
        (m64 / 60) as u16
    };
    let minutes: u16 = (m64 % 60) as u16;
    let icon = if !charging {
        if capacity >= 80 {
            BatteryIcon::DischargingHigh
        } else if capacity >= 60 {
            BatteryIcon::DischargingMedium
        } else if capacity >= 25 {
            BatteryIcon::DischargingLow
        } else {
            BatteryIcon::DischargingEmpty
        }
    } else {
        if capacity >= 80 {
            BatteryIcon::ChargingHigh
        } else if capacity >= 60 {
            BatteryIcon::ChargingMedium
        } else if capacity >= 25 {
            BatteryIcon::ChargingLow
        } else {
            BatteryIcon::ChargingEmpty
        }
    };
    let r = BatteryStats { capacity, hours, minutes, power_now_is_zero: pn == 0, charging, icon };
    proof {
        let sq = samples@;
        assert(r.capacity as int == capacity_spec(sum_energy_now(sq), sum_energy_full(sq)));
        assert(m64 as int == estimate_minutes(
            sum_energy_now(sq),
            sum_energy_full(sq),
            sum_power_now(sq),
            sum_voltage_now(sq),
            charging,
        ));
    }
    r
}

/// The glyph shown for the stats' icon slot: empty until the first read.
pub open spec fn battery_icon_spec(s: BatteryStats) -> Seq<char> {
    match s.icon {
        BatteryIcon::Unread => Seq::empty(),
        BatteryIcon::DischargingHigh => "\u{f12a3}"@,
        BatteryIcon::DischargingMedium => "\u{f12a2}"@,
        BatteryIcon::DischargingLow => "\u{f12a1}"@,
        BatteryIcon::DischargingEmpty => "\u{f008e}"@,
        BatteryIcon::ChargingHigh => "\u{f12a6} "@,
        BatteryIcon::ChargingMedium => "\u{f12a5} "@,
        BatteryIcon::ChargingLow => "\u{f12a4} "@,
        BatteryIcon::ChargingEmpty => "\u{f089f}"@,
    }
}

/// The fragment text: percentage plus the time estimate, or "(unknown)" when
/// no battery reports a power draw.
pub open spec fn battery_text_spec(s: BatteryStats) -> Seq<char> {
    if s.power_now_is_zero {
        dec_str(s.capacity as nat) + "% (unknown)"@
    } else {
        dec_str(s.capacity as nat) + "% ("@ + dec_str(s.hours as nat) + "h "@ + dec_str(
            s.minutes as nat,
        ) + "min left)"@
    }
}

impl BatteryMod {
    /// A fresh instance: zeroed stats, no overrides.
    pub fn new() -> (r: BatteryMod)
        ensures
            r.stats == zero_stats(),
            r.cfg_override == crate::config::empty_override(),
    {
        BatteryMod { stats: zero_stats_exec(), cfg_override: ModuleConfigOverride::none() }
    }

    /// The stable identifier of this module kind.
    pub fn name(&self) -> (r: String)
        ensures
            r@ == "battery"@,
    {
        "battery".to_owned()
    }

    /// Apply the raw per-module options.
    pub fn read_config(&mut self, config: &OptionsMap)
        ensures
            final(self).cfg_override == resolve_spec(config@),
            final(self).stats == old(self).stats,
    {
        self.cfg_override = resolve(config);
    }

    /// Render the battery fragment from current state; pure.
    pub fn view(&self, config: &GlobalConfig) -> (r: Fragment)
        ensures
            r.icon@ == battery_icon_spec(self.stats),
            r.text@ == battery_text_spec(self.stats),
            r.icon_color == eff_color(self.cfg_override.icon_color, config.icon_color),
            r.text_color == eff_color(self.cfg_override.text_color, config.text_color),
            r.icon_size == eff_size(self.cfg_override.icon_size, config.icon_size),
            r.font_size == eff_size(self.cfg_override.font_size, config.font_size),
            r.spacing == eff_size(self.cfg_override.spacing, config.spacing),
    {
        let icon = battery_icon(self.stats).to_owned();
        let mut text = String::new();
        push_dec(&mut text, self.stats.capacity as u64);
        if self.stats.power_now_is_zero {
            text.append("% (unknown)");
        } else {
            text.append("% (");
            push_dec(&mut text, self.stats.hours as u64);
            text.append("h ");
            push_dec(&mut text, self.stats.minutes as u64);
            text.append("min left)");
        }
        proof {
            assert(text@ =~= battery_text_spec(self.stats));
        }
        Fragment {
            icon,
            text,
            icon_color: crate::config::effective_color(
                self.cfg_override.icon_color,
                config.icon_color,
            ),
            text_color: crate::config::effective_color(
                self.cfg_override.text_color,
                config.text_color,
            ),
            icon_size: crate::config::effective_size(
                self.cfg_override.icon_size,
                config.icon_size,
            ),
            font_size: crate::config::effective_size(
                self.cfg_override.font_size,
                config.font_size,
            ),
            spacing: crate::config::effective_size(self.cfg_override.spacing, config.spacing),
        }
    }
}

impl Default for BatteryMod {
    /// A fresh instance: zeroed stats, no overrides.
    fn default() -> (r: BatteryMod)
        ensures
            r.stats == zero_stats(),
            r.cfg_override == crate::config::empty_override(),
    {
        BatteryMod::new()
    }
}

fn zero_stats_exec() -> (r: BatteryStats)
    ensures
        r == zero_stats(),
{
    BatteryStats {
        capacity: 0,
        hours: 0,
        minutes: 0,
        power_now_is_zero: false,
        charging: false,
        icon: BatteryIcon::Unread,
    }
}

fn battery_icon(s: BatteryStats) -> (r: &'static str)
    ensures
        r@ == battery_icon_spec(s),
{
    let r = match s.icon {
        BatteryIcon::Unread => "",
        BatteryIcon::DischargingHigh => "\u{f12a3}",
        BatteryIcon::DischargingMedium => "\u{f12a2}",
        BatteryIcon::DischargingLow => "\u{f12a1}",
        BatteryIcon::DischargingEmpty => "\u{f008e}",
        BatteryIcon::ChargingHigh => "\u{f12a6} ",
        BatteryIcon::ChargingMedium => "\u{f12a5} ",
        BatteryIcon::ChargingLow => "\u{f12a4} ",
        BatteryIcon::ChargingEmpty => "\u{f089f}",
    };
    proof {
        reveal_strlit("");
        assert(r@ =~= battery_icon_spec(s));
    }
    r
}

} // verus!
