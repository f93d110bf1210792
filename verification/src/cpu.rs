//! The CPU module: parsing of the aggregate line of the kernel's stat file and
//! the averaged usage percentage shown in the bar.
use vstd::prelude::*;
use crate::config::{
    eff_color, eff_size, resolve, resolve_spec, GlobalConfig, ModuleConfigOverride, OptionsMap,
};
use crate::decimal::{all_digits, dec_str, dec_val, parse_u64, push_dec};
use crate::render::Fragment;
use crate::text::{split_on, split_spec, views};

verus! {

/// The whitespace-separated fields of a stat line, empty pieces dropped.
pub open spec fn stat_fields(s: Seq<char>) -> Seq<Seq<char>> {
    split_spec(s, ' ').filter(|p: Seq<char>| p.len() > 0)
}

/// Whether a counter field is a decimal number that fits the kernel's `u32`.
pub open spec fn counter_ok(f: Seq<char>) -> bool {
    f.len() > 0 && all_digits(f) && dec_val(f) <= u32::MAX
}

/// Whether the aggregate stat line carries the seven leading counters.
pub open spec fn stat_line_valid(s: Seq<char>) -> bool {
    &&& stat_fields(s).len() >= 8
    &&& forall|k: int| 1 <= k < 8 ==> counter_ok(#[trigger] stat_fields(s)[k])
}

/// Active time: user, nice, system, irq and softirq counters.
pub open spec fn active_time(s: Seq<char>) -> int {
    let f = stat_fields(s);
    dec_val(f[1]) + dec_val(f[2]) + dec_val(f[3]) + dec_val(f[6]) + dec_val(f[7]) as int
}

/// Total time: active time plus idle and iowait counters.
pub open spec fn total_time(s: Seq<char>) -> int {
    active_time(s) + dec_val(stat_fields(s)[4]) + dec_val(stat_fields(s)[5])
}

/// Extract (active, total) clock ticks from the aggregate stat line.
/// Fails exactly on a line that does not carry the seven counters.
#[verifier::loop_isolation(false)]
pub fn read_stats_from_line(line: &str) -> (r: Option<(u64, u64)>)
    ensures
        match r {
            Some((a, t)) => stat_line_valid(line@) && a == active_time(line@) && t == total_time(
                line@,
            ),
            None => !stat_line_valid(line@),
        },
{
    broadcast use vstd::seq_lib::group_seq_lib_default;

    let parts = split_on(line, ' ');
    let mut fields: Vec<String> = Vec::new();
    let mut i: usize = 0;
    let ghost pred = |p: Seq<char>| p.len() > 0;
    proof {
        assert(views(parts@).take(0) =~= Seq::<Seq<char>>::empty());
        reveal(Seq::filter);
    }
    while i < parts.len()
        invariant
            i <= parts@.len(),
            views(fields@) == views(parts@).take(i as int).filter(pred),
        decreases parts@.len() - i,
    {
        let ghost prev = views(parts@).take(i as int);
        let ghost single = seq![parts@[i as int]@];
        proof {
            assert(views(parts@).take(i + 1) =~= prev + single);
            Seq::filter_distributes_over_add(prev, single, pred);
            assert(single.filter(pred) =~= if pred(single[0]) {
                single
            } else {
                Seq::<Seq<char>>::empty()
            }) by {
                reveal_with_fuel(Seq::filter, 2);
                assert(single.drop_last() =~= Seq::<Seq<char>>::empty());
                assert(single.last() == single[0]);
            }
        }
        if parts[i].as_str().unicode_len() > 0 {
            let ghost prev_fields = views(fields@);
            fields.push(parts[i].clone());
            proof {
                assert(views(fields@) =~= prev_fields.push(parts@[i as int]@));
                assert(views(parts@).take(i + 1).filter(pred) =~= prev.filter(pred).push(
                    parts@[i as int]@,
                ));
            }
        } else {
            proof {
                assert(!pred(single[0]));
                assert(single.filter(pred) =~= Seq::<Seq<char>>::empty());
                assert((prev + single).filter(pred) == prev.filter(pred) + single.filter(pred));
                assert(prev.filter(pred) + Seq::<Seq<char>>::empty() =~= prev.filter(pred));
                assert(views(parts@).take(i + 1).filter(pred) =~= prev.filter(pred));
            }
        }
        i = i + 1;
    }
    proof {
        assert(views(parts@).take(parts@.len() as int) =~= views(parts@));
        assert(views(fields@) == stat_fields(line@));
    }
    if fields.len() < 8 {
        return None;
    }
    let mut vals: Vec<u64> = Vec::new();
    let mut k: usize = 1;
    while k < 8
        invariant
            1 <= k <= 8,
            fields@.len() >= 8,
            views(fields@) == stat_fields(line@),
            vals@.len() == k - 1,
            forall|j: int|
                0 <= j < k - 1 ==> #[trigger] vals@[j] as int == dec_val(
                    stat_fields(line@)[j + 1],
                ) && counter_ok(stat_fields(line@)[j + 1]),
        decreases 8 - k,
    {
        match parse_u64(fields[k].as_str()) {
            Some(v) => {
                if v > u32::MAX as u64 {
                    proof {
                        assert(!counter_ok(stat_fields(line@)[k as int]));
                    }
                    return None;
                }
                let ghost prev_vals = vals@;
                vals.push(v);
                proof {
                    assert(vals@ =~= prev_vals.push(v));
                }
            },
            None => {
                proof {
                    assert(!counter_ok(stat_fields(line@)[k as int]));
                }
                return None;
            },
        }
        k = k + 1;
    }
    // vals holds the counters for fields 1..=7
    proof {
        assert(vals@[0] <= u32::MAX);
        assert(vals@[1] <= u32::MAX);
        assert(vals@[2] <= u32::MAX);
        assert(vals@[3] <= u32::MAX);
        assert(vals@[4] <= u32::MAX);
        assert(vals@[5] <= u32::MAX);
        assert(vals@[6] <= u32::MAX);
    }
    let active = vals[0] + vals[1] + vals[2] + vals[5] + vals[6];
    let total = active + vals[3] + vals[4];
    Some((active, total))
}

/// The usage percentage over three successive samples: the change in active
/// time over the change in total time, as the truncated percentage, zero when
/// total time did not advance, clamped to `u64`.
pub open spec fn cpu_average_spec(active: Seq<u64>, total: Seq<u64>) -> int {
    let da = active[2] - active[0];
    let dt = total[2] - total[0];
    if dt == 0 {
        0
    } else {
        let p = (da * 100) / dt;
        if p > u64::MAX {
            u64::MAX as int
        } else {
            p
        }
    }
}

/// Average the usage percentage from three successive (active, total) samples.
pub fn cpu_average(active: &Vec<u64>, total: &Vec<u64>) -> (r: u64)
    requires
        active@.len() == 3,
        total@.len() == 3,
        active@[0] <= active@[1] <= active@[2],
        total@[0] <= total@[1] <= total@[2],
    ensures
        r as int == cpu_average_spec(active@, total@),
{
    let da = (active[2] - active[0]) as u128;
    let dt = (total[2] - total[0]) as u128;
    if dt == 0 {
        0
    } else {
        let p = (da * 100) / dt;
        if p > u64::MAX as u128 {
            u64::MAX
        } else {
            p as u64
        }
    }
}

/// The CPU module instance.
pub struct CpuMod {
    pub usage: u64,
    pub cfg_override: ModuleConfigOverride,
}

impl Default for CpuMod {
    /// A fresh instance with zeroed usage.
    fn default() -> (r: CpuMod)
        ensures
            r.usage == 0,
            r.cfg_override == crate::config::empty_override(),
    {
        CpuMod::new()
    }
}

/// The fragment text of a usage percentage.
pub open spec fn percent_text_spec(usage: nat) -> Seq<char> {
    dec_str(usage) + "%"@
}

impl CpuMod {
    /// A fresh instance with zeroed usage.
    pub fn new() -> (r: CpuMod)
        ensures
            r.usage == 0,
            r.cfg_override == crate::config::empty_override(),
    {
        CpuMod { usage: 0, cfg_override: ModuleConfigOverride::none() }
    }

    /// The stable identifier of this module kind.
    pub fn id(&self) -> (r: String)
        ensures
            r@ == "cpu"@,
    {
        "cpu".to_owned()
    }

    /// Apply the raw per-module options.
    pub fn read_config(&mut self, config: &OptionsMap)
        ensures
            final(self).cfg_override == resolve_spec(config@),
            final(self).usage == old(self).usage,
    {
        self.cfg_override = resolve(config);
    }

    /// Render the CPU fragment from current state; pure.
    pub fn view(&self, config: &GlobalConfig) -> (r: Fragment)
        ensures
            r.icon@ == "\u{f0ee0}"@,
            r.text@ == percent_text_spec(self.usage as nat),
            r.icon_color == eff_color(self.cfg_override.icon_color, config.icon_color),
            r.text_color == eff_color(self.cfg_override.text_color, config.text_color),
            r.icon_size == eff_size(self.cfg_override.icon_size, config.icon_size),
            r.font_size == eff_size(self.cfg_override.font_size, config.font_size),
            r.spacing == eff_size(self.cfg_override.spacing, config.spacing),
    {
        let mut text = String::new();
        push_dec(&mut text, self.usage);
        text.append("%");
        proof {
            assert(text@ =~= percent_text_spec(self.usage as nat));
        }
        Fragment {
            icon: "\u{f0ee0}".to_owned(),
            text,
            icon_color: crate::config::effective_color(
                self.cfg_override.icon_color,
                config.icon_color,
            ),
            text_color: crate::config::effective_color(
                self.cfg_override.text_color,
                config.text_color,
            ),
            icon_size: crate::config::effective_size(
                self.cfg_override.icon_size,
                config.icon_size,
            ),
            font_size: crate::config::effective_size(
                self.cfg_override.font_size,
                config.font_size,
            ),
            spacing: crate::config::effective_size(self.cfg_override.spacing, config.spacing),
        }
    }
}

} // verus!
