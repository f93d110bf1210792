//! The volume module: parsing of the mixer tool's "Volume: x.yz [MUTED]"
//! output line into a percentage and mute flag, and the rendered fragment.
use vstd::prelude::*;
use crate::config::{
    eff_color, eff_size, resolve, resolve_spec, GlobalConfig, ModuleConfigOverride, OptionsMap,
};
use crate::cpu::percent_text_spec;
use crate::decimal::{all_digits, dec_val, digit_val, push_dec};
use crate::render::Fragment;
use crate::text::{split_on, split_spec, str_eq, trim, trim_spec, views};

verus! {

/// Whether `s` is a decimal number with at most one point: a nonempty integer
/// part and an optional fraction, digits throughout.
pub open spec fn fixed_valid(s: Seq<char>) -> bool {
    &&& (split_spec(s, '.').len() == 1 || split_spec(s, '.').len() == 2)
    &&& split_spec(s, '.')[0].len() > 0
    &&& all_digits(split_spec(s, '.')[0])
    &&& (split_spec(s, '.').len() == 2 ==> all_digits(split_spec(s, '.')[1]))
}

/// The first two fraction digits as a number of hundredths.
pub open spec fn frac_hundredths(f: Seq<char>) -> int {
    if f.len() == 0 {
        0
    } else if f.len() == 1 {
        10 * (digit_val(f[0]) as int)
    } else {
        10 * (digit_val(f[0]) as int) + digit_val(f[1])
    }
}

/// The value of a fixed-point number scaled by one hundred, truncated past the
/// second fraction digit.
pub open spec fn fixed_hundredths(s: Seq<char>) -> int {
    let p = split_spec(s, '.');
    dec_val(p[0]) * 100 + if p.len() == 2 {
        frac_hundredths(p[1])
    } else {
        0
    }
}

/// Parse a fixed-point decimal as hundredths. Fails exactly on a malformed
/// number or one whose scaled value exceeds `u64`.
#[verifier::loop_isolation(false)]
pub fn parse_fixed_hundredths(s: &str) -> (r: Option<u64>)
    ensures
        match r {
            Some(v) => fixed_valid(s@) && v as int == fixed_hundredths(s@) && fixed_hundredths(s@)
                <= u64::MAX,
            None => !fixed_valid(s@) || fixed_hundredths(s@) > u64::MAX,
        },
{
    let parts = split_on(s, '.');
    let ghost p = split_spec(s@, '.');
    proof {
        assert(p.len() == parts@.len());
        assert(parts@[0]@ == p[0]);
        if parts@.len() >= 2 {
            assert(parts@[1]@ == p[1]);
        }
    }
    if parts.len() != 1 && parts.len() != 2 {
        return None;
    }
    let ipart = match crate::decimal::parse_u64(parts[0].as_str()) {
        Some(v) => v,
        None => {
            proof {
                if fixed_valid(s@) {
                    // the integer part is nonempty digits, so only overflow remains
                    assert(dec_val(p[0]) > u64::MAX);
                    assert(dec_val(p[0]) * 100 >= dec_val(p[0]));
                }
            }
            return None;
        },
    };
    let mut frac: u64 = 0;
    if parts.len() == 2 {
        let f = parts[1].as_str();
        let fn_ = f.unicode_len();
        let mut k: usize = 0;
        while k < fn_
            invariant
                fn_ == f@.len(),
                k <= fn_,
                p.len() == 2,
                f@ == p[1],
                forall|j: int| 0 <= j < k ==> crate::decimal::is_digit(#[trigger] f@[j]),
            decreases fn_ - k,
        {
            let c = f.get_char(k);
            if !(('0' <= c) && (c <= '9')) {
                proof {
                    assert(!crate::decimal::is_digit(p[1][k as int]));
                    assert(!all_digits(p[1]));
                    assert(!fixed_valid(s@));
                }
                return None;
            }
            k = k + 1;
        }
        let d0: u64 = if fn_ >= 1 {
            (f.get_char(0) as u32 as u64) - 48
        } else {
            0
        };
        let d1: u64 = if fn_ >= 2 {
            (f.get_char(1) as u32 as u64) - 48
        } else {
            0
        };
        frac = if fn_ == 0 {
            0
        } else if fn_ == 1 {
            10 * d0
        } else {
            10 * d0 + d1
        };
        proof {
            assert(frac as int == frac_hundredths(p[1]));
        }
    }
    if ipart > (u64::MAX - frac) / 100 {
        proof {
            let q = (u64::MAX - frac) / 100;
            assert(q * 100 + 100 > u64::MAX - frac);
            assert(ipart >= q + 1);
            assert(ipart * 100 >= (q + 1) * 100);
            assert(ipart * 100 + frac > u64::MAX);
            assert(fixed_hundredths(s@) > u64::MAX);
        }
        return None;
    }
    proof {
        let q = (u64::MAX - frac) / 100;
        assert(ipart * 100 <= q * 100);
        assert(q * 100 <= u64::MAX - frac);
    }
    Some(ipart * 100 + frac)
}

/// What the mixer line denotes: the level in percent and the mute flag.
/// A line without the "Volume: " prefix degrades to level zero, as if it read
/// "0"; a line whose number is malformed denotes nothing.
pub open spec fn volume_body(s: Seq<char>) -> Seq<char> {
    if s.len() >= 8 && s.take(8) == "Volume: "@ {
        trim_spec(s.skip(8))
    } else {
        "0"@
    }
}

/// Whether the body carries the mute marker suffix.
pub open spec fn volume_muted(s: Seq<char>) -> bool {
    let b = volume_body(s);
    b.len() >= 8 && b.skip(b.len() - 8) == " [MUTED]"@
}

/// The number part of the body, with the mute marker removed.
pub open spec fn volume_number(s: Seq<char>) -> Seq<char> {
    let b = volume_body(s);
    if volume_muted(s) {
        b.take(b.len() - 8)
    } else {
        b
    }
}

/// Parse the mixer tool's output line. Returns the level in percent and the
/// mute flag; fails exactly when the number is malformed or out of range.
pub fn parse_volume_line(s: &str) -> (r: Option<(u64, bool)>)
    ensures
        match r {
            Some((level, muted)) => {
                &&& fixed_valid(volume_number(s@))
                &&& fixed_hundredths(volume_number(s@)) <= u64::MAX
                &&& level as int == fixed_hundredths(volume_number(s@))
                &&& muted == volume_muted(s@)
            },
            None => !fixed_valid(volume_number(s@)) || fixed_hundredths(volume_number(s@))
                > u64::MAX,
        },
{
    let n = s.unicode_len();
    let prefixed = if n >= 8 {
        let head = s.substring_char(0, 8);
        str_eq(head, "Volume: ")
    } else {
        false
    };
    let muted: bool;
    let number: String;
    if prefixed {
        let tail = s.substring_char(8, n);
        proof {
            assert(tail@ =~= s@.skip(8));
        }
        let body = trim(tail);
        let m = body.unicode_len();
        let marked = if m >= 8 {
            let suffix = body.substring_char(m - 8, m);
            proof {
                assert(suffix@ =~= body@.skip(m - 8));
            }
            str_eq(suffix, " [MUTED]")
        } else {
            false
        };
        if marked {
            let num = body.substring_char(0, m - 8);
            proof {
                assert(num@ =~= volume_body(s@).take(m - 8));
            }
            number = num.to_owned();
            muted = true;
        } else {
            number = body.to_owned();
            muted = false;
        }
    } else {
        number = "0".to_owned();
        muted = false;
        proof {
            reveal_strlit("0");
            reveal_strlit("Volume: ");
            assert(volume_number(s@) == "0"@) by {
                assert(!(s@.len() >= 8 && s@.take(8) == "Volume: "@));
                assert(volume_body(s@) == "0"@);
                assert(!volume_muted(s@));
            }
        }
    }
    match parse_fixed_hundredths(number.as_str()) {
        Some(level) => Some((level, muted)),
        None => None,
    }
}

/// The volume module instance.
pub struct VolumeMod {
    pub level: u64,
    pub muted: bool,
    pub cfg_override: ModuleConfigOverride,
}

/// The icon for the current volume state.
pub open spec fn volume_icon_spec(level: u64, muted: bool) -> Seq<char> {
    if muted {
        "\u{f0581}"@
    } else if level >= 50 {
        "\u{f057e}"@
    } else if level >= 25 {
        "\u{f0580}"@
    } else {
        "\u{f057f}"@
    }
}

impl Default for VolumeMod {
    /// A fresh instance: silent and unmuted.
    fn default() -> (r: VolumeMod)
        ensures
            r.level == 0,
            r.muted == false,
            r.cfg_override == crate::config::empty_override(),
    {
        VolumeMod::new()
    }
}

impl VolumeMod {
    /// A fresh instance: silent and unmuted.
    pub fn new() -> (r: VolumeMod)
        ensures
            r.level == 0,
            r.muted == false,
            r.cfg_override == crate::config::empty_override(),
    {
        VolumeMod { level: 0, muted: false, cfg_override: ModuleConfigOverride::none() }
    }

    /// The stable identifier of this module kind.
    pub fn id(&self) -> (r: String)
        ensures
            r@ == "volume"@,
    {
        "volume".to_owned()
    }

    /// Apply the raw per-module options.
    pub fn read_config(&mut self, config: &OptionsMap)
        ensures
            final(self).cfg_override == resolve_spec(config@),
            final(self).level == old(self).level,
            final(self).muted == old(self).muted,
    {
        self.cfg_override = resolve(config);
    }

    /// Render the volume fragment from current state; pure.
    pub fn view(&self, config: &GlobalConfig) -> (r: Fragment)
        ensures
            r.icon@ == volume_icon_spec(self.level, self.muted),
            r.text@ == percent_text_spec(self.level as nat),
            r.icon_color == eff_color(self.cfg_override.icon_color, config.icon_color),
            r.text_color == eff_color(self.cfg_override.text_color, config.text_color),
            r.icon_size == eff_size(self.cfg_override.icon_size, config.icon_size),
            r.font_size == eff_size(self.cfg_override.font_size, config.font_size),
            r.spacing == eff_size(self.cfg_override.spacing, config.spacing),
    {
        let icon: &'static str = if self.muted {
            "\u{f0581}"
        } else if self.level >= 50 {
            "\u{f057e}"
        } else if self.level >= 25 {
            "\u{f0580}"
        } else {
            "\u{f057f}"
        };
        let mut text = String::new();
        push_dec(&mut text, self.level);
        text.append("%");
        proof {
            assert(text@ =~= percent_text_spec(self.level as nat));
        }
        Fragment {
            icon: icon.to_owned(),
            text,
            icon_color: crate::config::effective_color(
                self.cfg_override.icon_color,
                config.icon_color,
            ),
            text_color: crate::config::effective_color(
                self.cfg_override.text_color,
                config.text_color,
            ),
            icon_size: crate::config::effective_size(
                self.cfg_override.icon_size,
                config.icon_size,
            ),
            font_size: crate::config::effective_size(
                self.cfg_override.font_size,
                config.font_size,
            ),
            spacing: crate::config::effective_size(self.cfg_override.spacing, config.spacing),
        }
    }
}

} // verus!
