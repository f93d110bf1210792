//! The memory module: the usage percentage a producer computed from the
//! system's memory counters, rendered with its icon.
use vstd::prelude::*;
use crate::config::{
    eff_color, eff_size, resolve, resolve_spec, GlobalConfig, ModuleConfigOverride, OptionsMap,
};
use crate::cpu::percent_text_spec;
use crate::decimal::push_dec;
use crate::render::Fragment;

verus! {

/// The memory module instance.
pub struct MemoryMod {
    pub usage: u64,
    pub cfg_override: ModuleConfigOverride,
}

impl Default for MemoryMod {
    /// A fresh instance with zeroed usage.
    fn default() -> (r: MemoryMod)
        ensures
            r.usage == 0,
            r.cfg_override == crate::config::empty_override(),
    {
        MemoryMod::new()
    }
}

impl MemoryMod {
    /// A fresh instance with zeroed usage.
    pub fn new() -> (r: MemoryMod)
        ensures
            r.usage == 0,
            r.cfg_override == crate::config::empty_override(),
    {
        MemoryMod { usage: 0, cfg_override: ModuleConfigOverride::none() }
    }

    /// The stable identifier of this module kind.
    pub fn id(&self) -> (r: String)
        ensures
            r@ == "memory"@,
    {
        "memory".to_owned()
    }

    /// Apply the raw per-module options.
    pub fn read_config(&mut self, config: &OptionsMap)
        ensures
            final(self).cfg_override == resolve_spec(config@),
            final(self).usage == old(self).usage,
    {
        self.cfg_override = resolve(config);
    }

    /// Render the memory fragment from current state; pure.
    pub fn view(&self, config: &GlobalConfig) -> (r: Fragment)
        ensures
            r.icon@ == "\u{f035b}"@,
            r.text@ == percent_text_spec(self.usage as nat),
            r.icon_color == eff_color(self.cfg_override.icon_color, config.icon_color),
            r.text_color == eff_color(self.cfg_override.text_color, config.text_color),
            r.icon_size == eff_size(self.cfg_override.icon_size, config.icon_size),
            r.font_size == eff_size(self.cfg_override.font_size, config.font_size),
            r.spacing == eff_size(self.cfg_override.spacing, config.spacing),
    {
        let mut text = String::new();
        push_dec(&mut text, self.usage);
        text.append("%");
        proof {
            assert(text@ =~= percent_text_spec(self.usage as nat));
        }
        Fragment {
            icon: "\u{f035b}".to_owned(),
            text,
            icon_color: crate::config::effective_color(
                self.cfg_override.icon_color,
                config.icon_color,
            ),
            text_color: crate::config::effective_color(
                self.cfg_override.text_color,
                config.text_color,
            ),
            icon_size: crate::config::effective_size(
                self.cfg_override.icon_size,
                config.icon_size,
            ),
            font_size: crate::config::effective_size(
                self.cfg_override.font_size,
                config.font_size,
            ),
            spacing: crate::config::effective_size(self.cfg_override.spacing, config.spacing),
        }
    }
}

} // verus!
