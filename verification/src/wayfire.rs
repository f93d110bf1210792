//! The Wayfire workspace indicator: per-cell icon labels configured under
//! "(x, y)" option keys, and the rendered label for the active cell.
use vstd::prelude::*;
use crate::config::{
    eff_color, eff_size, resolve, resolve_spec, GlobalConfig, ModuleConfigOverride, OptionsMap,
};
use crate::decimal::{dec_str_signed, i64_to_string, int_str_val, int_str_valid, parse_i64};
use crate::render::Fragment;
use crate::text::{split_on, split_spec, trim, trim_spec};

verus! {

/// What a "(x, y)" option key denotes: the grid cell, if it is well-formed
/// with both coordinates in range for `i64`.
pub open spec fn coord_of(s: Seq<char>) -> Option<(i64, i64)> {
    if s.len() >= 2 && s[0] == '(' && s.last() == ')' {
        let inner = s.subrange(1, s.len() - 1);
        let p = split_spec(inner, ',');
        if p.len() == 2 {
            let tx = trim_spec(p[0]);
            let ty = trim_spec(p[1]);
            if int_str_valid(tx) && int_str_valid(ty) && -(i64::MAX as int) <= int_str_val(tx)
                <= i64::MAX && -(i64::MAX as int) <= int_str_val(ty) <= i64::MAX {
                Some((int_str_val(tx) as i64, int_str_val(ty) as i64))
            } else {
                None
            }
        } else {
            None
        }
    } else {
        None
    }
}

/// Parse a "(x, y)" option key into a grid cell.
pub fn parse_coord(s: &str) -> (r: Option<(i64, i64)>)
    ensures
        r == coord_of(s@),
{
    let n = s.unicode_len();
    if n < 2 {
        return None;
    }
    if s.get_char(0) != '(' || s.get_char(n - 1) != ')' {
        return None;
    }
    let inner = s.substring_char(1, n - 1);
    proof {
        assert(inner@ =~= s@.subrange(1, s@.len() - 1));
        assert(s@.last() == s@[n - 1]);
    }
    let parts = split_on(inner, ',');
    proof {
        assert(parts@.len() == split_spec(inner@, ',').len());
        assert(parts@[0]@ == split_spec(inner@, ',')[0]);
        if parts@.len() >= 2 {
            assert(parts@[1]@ == split_spec(inner@, ',')[1]);
        }
    }
    if parts.len() != 2 {
        return None;
    }
    let tx = trim(parts[0].as_str());
    let ty = trim(parts[1].as_str());
    match (parse_i64(tx), parse_i64(ty)) {
        (Some(x), Some(y)) => Some((x, y)),
        _ => None,
    }
}

/// The icon labels a raw option mapping contributes: one entry per key that
/// parses as a grid cell, an absent value read as the empty label.
pub open spec fn icons_of(entries: Seq<(String, Option<String>)>) -> Seq<((i64, i64), Seq<char>)>
    decreases entries.len(),
{
    if entries.len() == 0 {
        Seq::empty()
    } else {
        let rest = icons_of(entries.drop_last());
        match coord_of(entries.last().0@) {
            Some(cell) => rest.push(
                (
                    cell,
                    match entries.last().1 {
                        Some(v) => v@,
                        None => Seq::empty(),
                    },
                ),
            ),
            None => rest,
        }
    }
}

/// The label stored for a cell; the latest entry wins, as repeated
/// configuration keys overwrite earlier ones.
pub open spec fn icon_lookup(icons: Seq<((i64, i64), Seq<char>)>, cell: (i64, i64)) -> Option<
    Seq<char>,
>
    decreases icons.len(),
{
    if icons.len() == 0 {
        None
    } else if icons.last().0 == cell {
        Some(icons.last().1)
    } else {
        icon_lookup(icons.drop_last(), cell)
    }
}

/// The Wayfire workspace indicator module.
pub struct WayfireWorkspaceMod {
    pub active: (i64, i64),
    pub icons: Vec<((i64, i64), String)>,
    pub cfg_override: ModuleConfigOverride,
}

/// The views of the stored icon entries.
pub open spec fn icons_view(icons: Seq<((i64, i64), String)>) -> Seq<((i64, i64), Seq<char>)> {
    icons.map_values(|e: ((i64, i64), String)| (e.0, e.1@))
}

/// The label the module shows: the configured icon for the active cell, or
/// the "x/y" coordinates when none is configured.
pub open spec fn wayfire_label(m: WayfireWorkspaceMod) -> Seq<char> {
    match icon_lookup(icons_view(m.icons@), m.active) {
        Some(l) => l,
        None => dec_str_signed(m.active.0 as int) + "/"@ + dec_str_signed(m.active.1 as int),
    }
}

impl Default for WayfireWorkspaceMod {
    /// A fresh instance at the origin cell with no labels.
    fn default() -> (r: WayfireWorkspaceMod)
        ensures
            r.active == (0i64, 0i64),
            r.icons@.len() == 0,
            r.cfg_override == crate::config::empty_override(),
    {
        WayfireWorkspaceMod::new()
    }
}

impl WayfireWorkspaceMod {
    /// A fresh instance at the origin cell with no labels.
    pub fn new() -> (r: WayfireWorkspaceMod)
        ensures
            r.active == (0i64, 0i64),
            r.icons@.len() == 0,
            r.cfg_override == crate::config::empty_override(),
    {
        WayfireWorkspaceMod {
            active: (0, 0),
            icons: Vec::new(),
            cfg_override: ModuleConfigOverride::none(),
        }
    }

    /// The stable identifier of this module kind.
    pub fn id(&self) -> (r: String)
        ensures
            r@ == "wayfire.workspaces"@,
    {
        "wayfire.workspaces".to_owned()
    }

    /// Apply the raw per-module options: every "(x, y)" key contributes a
    /// label, and the shared visual overrides are resolved as usual.
    #[verifier::loop_isolation(false)]
    pub fn read_config(&mut self, config: &OptionsMap)
        ensures
            final(self).cfg_override == resolve_spec(config@),
            icons_view(final(self).icons@) == icons_view(old(self).icons@) + icons_of(config@),
            final(self).active == old(self).active,
    {
        let n = config.entries.len();
        let mut i: usize = 0;
        proof {
            assert(config@.take(0) =~= Seq::<(String, Option<String>)>::empty());
            assert(icons_view(self.icons@) =~= icons_view(self.icons@) + icons_of(
                config@.take(0),
            ));
        }
        while i < n
            invariant
                n == config@.len(),
                i <= n,
                icons_view(self.icons@) == icons_view(old(self).icons@) + icons_of(
                    config@.take(i as int),
                ),
                self.cfg_override == old(self).cfg_override,
                self.active == old(self).active,
            decreases n - i,
        {
            let ghost prev = icons_view(self.icons@);
            proof {
                assert(config@.take(i + 1).drop_last() =~= config@.take(i as int));
                assert(config@.take(i + 1).last() == config@[i as int]);
            }
            match parse_coord(config.entries[i].0.as_str()) {
                Some(cell) => {
                    let label: String = match &config.entries[i].1 {
                        Some(v) => v.clone(),
                        None => String::new(),
                    };
                    let ghost lv = label@;
                    self.icons.push((cell, label));
                    proof {
                        assert(icons_view(self.icons@) =~= prev.push((cell, lv)));
                        assert(icons_view(self.icons@) =~= icons_view(old(self).icons@)
                            + icons_of(config@.take(i + 1)));
                    }
                },
                None => {
                    proof {
                        assert(icons_of(config@.take(i + 1)) =~= icons_of(config@.take(i as int)));
                    }
                },
            }
            i = i + 1;
        }
        proof {
            assert(config@.take(n as int) =~= config@);
        }
        self.cfg_override = resolve(config);
    }

    /// Render the label for the active cell; pure.
    #[verifier::loop_isolation(false)]
    pub fn view(&self, config: &GlobalConfig) -> (r: Fragment)
        ensures
            r.icon@ == wayfire_label(*self),
            r.text@.len() == 0,
            r.icon_color == eff_color(self.cfg_override.icon_color, config.icon_color),
            r.text_color == eff_color(self.cfg_override.text_color, config.text_color),
            r.icon_size == eff_size(self.cfg_override.icon_size, config.icon_size),
            r.font_size == eff_size(self.cfg_override.font_size, config.font_size),
            r.spacing == eff_size(self.cfg_override.spacing, config.spacing),
    {
        let n = self.icons.len();
        let mut found: Option<String> = None;
        let mut i: usize = 0;
        proof {
            assert(icons_view(self.icons@).take(0) =~= Seq::<((i64, i64), Seq<char>)>::empty());
        }
        while i < n
            invariant
                n == self.icons@.len(),
                i <= n,
                match found {
                    Some(l) => icon_lookup(
                        icons_view(self.icons@).take(i as int),
                        self.active,
                    ) == Some(l@),
                    None => icon_lookup(icons_view(self.icons@).take(i as int), self.active)
                        is None,
                },
            decreases n - i,
        {
            proof {
                assert(icons_view(self.icons@).take(i + 1).drop_last() =~= icons_view(
                    self.icons@,
                ).take(i as int));
                assert(icons_view(self.icons@).take(i + 1).last() == icons_view(self.icons@)[
                    i as int]);
            }
            let e = &self.icons[i];
            if e.0.0 == self.active.0 && e.0.1 == self.active.1 {
                found = Some(e.1.clone());
            }
            i = i + 1;
        }
        proof {
            assert(icons_view(self.icons@).take(n as int) =~= icons_view(self.icons@));
        }
        let label: String = match found {
            Some(l) => l,
            None => {
                let mut out = i64_to_string(self.active.0);
                out.append("/");
                let ypart = i64_to_string(self.active.1);
                out.append(ypart.as_str());
                proof {
                    assert(out@ =~= dec_str_signed(self.active.0 as int) + "/"@ + dec_str_signed(
                        self.active.1 as int,
                    ));
                }
                out
            },
        };
        Fragment {
            icon: label,
            text: String::new(),
            icon_color: crate::config::effective_color(
                self.cfg_override.icon_color,
                config.icon_color,
            ),
            text_color: crate::config::effective_color(
                self.cfg_override.text_color,
                config.text_color,
            ),
            icon_size: crate::config::effective_size(
                self.cfg_override.icon_size,
                config.icon_size,
            ),
            font_size: crate::config::effective_size(
                self.cfg_override.font_size,
                config.font_size,
            ),
            spacing: crate::config::effective_size(self.cfg_override.spacing, config.spacing),
        }
    }
}

} // verus!
