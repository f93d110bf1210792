//! Shared visual defaults, per-module overrides, and the resolver that turns a
//! raw option mapping into a typed override struct. Resolution never fails: an
//! absent key or an unparseable value defers to the global default.
use vstd::prelude::*;
use crate::color::{parse_color, spec_parse_color, Rgba};
use crate::decimal::{all_digits, dec_val, parse_u64};
use crate::text::str_eq;

verus! {

/// The global visual defaults shared by every module.
#[derive(Clone, Copy, PartialEq, Eq, Structural, Debug)]
pub struct GlobalConfig {
    pub icon_color: Rgba,
    pub text_color: Rgba,
    pub icon_size: u32,
    pub font_size: u32,
    pub spacing: u32,
}

impl GlobalConfig {
    /// The built-in defaults: white icons and text at the usual bar sizes.
    pub fn standard() -> (r: GlobalConfig)
        ensures
            r == standard_global(),
    {
        GlobalConfig {
            icon_color: Rgba { red: 255, green: 255, blue: 255, alpha: 255 },
            text_color: Rgba { red: 255, green: 255, blue: 255, alpha: 255 },
            icon_size: 20,
            font_size: 16,
            spacing: 10,
        }
    }
}

/// The value of `GlobalConfig::standard`.
pub open spec fn standard_global() -> GlobalConfig {
    GlobalConfig {
        icon_color: Rgba { red: 255, green: 255, blue: 255, alpha: 255 },
        text_color: Rgba { red: 255, green: 255, blue: 255, alpha: 255 },
        icon_size: 20,
        font_size: 16,
        spacing: 10,
    }
}

/// Optional per-module visual overrides. `None` defers to the global default.
#[derive(Clone, Copy, PartialEq, Eq, Structural, Debug)]
pub struct ModuleConfigOverride {
    pub icon_color: Option<Rgba>,
    pub text_color: Option<Rgba>,
    pub icon_size: Option<u32>,
    pub font_size: Option<u32>,
    pub spacing: Option<u32>,
}

impl ModuleConfigOverride {
    /// No overrides at all.
    pub fn none() -> (r: ModuleConfigOverride)
        ensures
            r == empty_override(),
    {
        ModuleConfigOverride {
            icon_color: None,
            text_color: None,
            icon_size: None,
            font_size: None,
            spacing: None,
        }
    }
}

/// The override struct with every field unset.
pub open spec fn empty_override() -> ModuleConfigOverride {
    ModuleConfigOverride {
        icon_color: None,
        text_color: None,
        icon_size: None,
        font_size: None,
        spacing: None,
    }
}

/// A raw option mapping scoped to one module: option name to optional value,
/// as the configuration source hands it over. Keys are unique in a parsed
/// configuration section; lookup takes the first match.
pub struct OptionsMap {
    pub entries: Vec<(String, Option<String>)>,
}

/// First-match lookup of `key` among raw entries.
pub open spec fn lookup(entries: Seq<(String, Option<String>)>, key: Seq<char>) -> Option<
    Option<Seq<char>>,
>
    decreases entries.len(),
{
    if entries.len() == 0 {
        None
    } else if entries[0].0@ == key {
        match entries[0].1 {
            Some(v) => Some(Some(v@)),
            None => Some(None),
        }
    } else {
        lookup(entries.drop_first(), key)
    }
}

impl OptionsMap {
    /// An empty mapping.
    pub fn new() -> (r: OptionsMap)
        ensures
            r@.len() == 0,
    {
        OptionsMap { entries: Vec::new() }
    }

    pub open spec fn view(&self) -> Seq<(String, Option<String>)> {
        self.entries@
    }

    /// Add one raw option.
    pub fn insert(&mut self, key: String, value: Option<String>)
        ensures
            final(self)@ == old(self)@.push((key, value)),
    {
        self.entries.push((key, value));
    }

    /// First-match lookup of `key`.
    pub fn get(&self, key: &str) -> (r: Option<Option<String>>)
        ensures
            match r {
                None => lookup(self@, key@) is None,
                Some(None) => lookup(self@, key@) == Some(None::<Seq<char>>),
                Some(Some(v)) => lookup(self@, key@) == Some(Some(v@)),
            },
    {
        let n = self.entries.len();
        let mut i: usize = 0;
        proof {
            assert(self@.skip(0) =~= self@);
        }
        while i < n
            invariant
                n == self@.len(),
                i <= n,
                lookup(self@, key@) == lookup(self@.skip(i as int), key@),
            decreases n - i,
        {
            proof {
                assert(self@.skip(i as int).drop_first() =~= self@.skip(i + 1));
                assert(self@.skip(i as int)[0] == self@[i as int]);
            }
            if str_eq(self.entries[i].0.as_str(), key) {
                let r = match &self.entries[i].1 {
                    Some(v) => Some(Some(v.clone())),
                    None => Some(None),
                };
                return r;
            }
            i = i + 1;
        }
        proof {
            assert(self@.skip(n as int) =~= Seq::<(String, Option<String>)>::empty());
        }
        None
    }
}

/// The color override denoted by the raw entries under `key`.
pub open spec fn resolved_color(entries: Seq<(String, Option<String>)>, key: Seq<char>) -> Option<
    Rgba,
> {
    match lookup(entries, key) {
        Some(Some(v)) => spec_parse_color(v),
        _ => None,
    }
}

/// The size override denoted by the raw entries under `key`.
pub open spec fn resolved_size(entries: Seq<(String, Option<String>)>, key: Seq<char>) -> Option<
    u32,
> {
    match lookup(entries, key) {
        Some(Some(v)) => if v.len() > 0 && all_digits(v) && dec_val(v) <= u32::MAX {
            Some(dec_val(v) as u32)
        } else {
            None
        },
        _ => None,
    }
}

fn resolve_color_opt(m: &OptionsMap, key: &str) -> (r: Option<Rgba>)
    ensures
        r == resolved_color(m@, key@),
{
    match m.get(key) {
        Some(Some(v)) => parse_color(v.as_str()),
        _ => None,
    }
}

fn resolve_size_opt(m: &OptionsMap, key: &str) -> (r: Option<u32>)
    ensures
        r == resolved_size(m@, key@),
{
    match m.get(key) {
        Some(Some(v)) => {
            match parse_u64(v.as_str()) {
                Some(x) => if x <= u32::MAX as u64 {
                    Some(x as u32)
                } else {
                    None
                },
                None => {
                    proof {
                        if v@.len() > 0 && all_digits(v@) && dec_val(v@) <= u32::MAX {
                            assert(dec_val(v@) <= u64::MAX);
                        }
                    }
                    None
                },
            }
        },
        _ => None,
    }
}

/// The override struct denoted by a raw option mapping: each recognized key is
/// parsed independently; anything absent or unparseable stays unset, and
/// unrecognized keys are ignored.
pub open spec fn resolve_spec(entries: Seq<(String, Option<String>)>) -> ModuleConfigOverride {
    ModuleConfigOverride {
        icon_color: resolved_color(entries, "icon_color"@),
        text_color: resolved_color(entries, "text_color"@),
        icon_size: resolved_size(entries, "icon_size"@),
        font_size: resolved_size(entries, "font_size"@),
        spacing: resolved_size(entries, "spacing"@),
    }
}

/// Turn a raw option mapping into the typed override struct.
pub fn resolve(m: &OptionsMap) -> (r: ModuleConfigOverride)
    ensures
        r == resolve_spec(m@),
{
    ModuleConfigOverride {
        icon_color: resolve_color_opt(m, "icon_color"),
        text_color: resolve_color_opt(m, "text_color"),
        icon_size: resolve_size_opt(m, "icon_size"),
        font_size: resolve_size_opt(m, "font_size"),
        spacing: resolve_size_opt(m, "spacing"),
    }
}

/// The effective color: the override when set, else the global default.
pub open spec fn eff_color(over: Option<Rgba>, global: Rgba) -> Rgba {
    match over {
        Some(c) => c,
        None => global,
    }
}

/// The effective size: the override when set, else the global default.
pub open spec fn eff_size(over: Option<u32>, global: u32) -> u32 {
    match over {
        Some(v) => v,
        None => global,
    }
}

/// Exec counterpart of `eff_color`.
pub fn effective_color(over: Option<Rgba>, global: Rgba) -> (r: Rgba)
    ensures
        r == eff_color(over, global),
{
    match over {
        Some(c) => c,
        None => global,
    }
}

/// Exec counterpart of `eff_size`.
pub fn effective_size(over: Option<u32>, global: u32) -> (r: u32)
    ensures
        r == eff_size(over, global),
{
    match over {
        Some(v) => v,
        None => global,
    }
}

/// Override resolution law, stated for the size keyed options: an unset option
/// yields the global default, a set and well-formed option overrides it, and a
/// set but malformed option behaves as unset. The same holds for color options
/// with `spec_parse_color` as the notion of well-formedness.
pub proof fn lemma_override_resolution_size(
    entries: Seq<(String, Option<String>)>,
    key: Seq<char>,
    global: u32,
)
    requires
        key == "icon_size"@ || key == "font_size"@ || key == "spacing"@,
    ensures
        lookup(entries, key) is None ==> eff_size(resolved_size(entries, key), global) == global,
        lookup(entries, key) == Some(None::<Seq<char>>) ==> eff_size(
            resolved_size(entries, key),
            global,
        ) == global,
        forall|v: Seq<char>|
            lookup(entries, key) == Some(Some(v)) && v.len() > 0 && all_digits(v) && dec_val(v)
                <= u32::MAX ==> eff_size(resolved_size(entries, key), global) == dec_val(v),
        forall|v: Seq<char>|
            lookup(entries, key) == Some(Some(v)) && !(v.len() > 0 && all_digits(v) && dec_val(v)
                <= u32::MAX) ==> eff_size(resolved_size(entries, key), global) == global,
{
}

/// Override resolution law for the color keyed options.
pub proof fn lemma_override_resolution_color(
    entries: Seq<(String, Option<String>)>,
    key: Seq<char>,
    global: Rgba,
)
    requires
        key == "icon_color"@ || key == "text_color"@,
    ensures
        lookup(entries, key) is None ==> eff_color(resolved_color(entries, key), global) == global,
        lookup(entries, key) == Some(None::<Seq<char>>) ==> eff_color(
            resolved_color(entries, key),
            global,
        ) == global,
        forall|v: Seq<char>|
            lookup(entries, key) == Some(Some(v)) && spec_parse_color(v) is Some ==> eff_color(
                resolved_color(entries, key),
                global,
            ) == spec_parse_color(v)->0,
        forall|v: Seq<char>|
            lookup(entries, key) == Some(Some(v)) && spec_parse_color(v) is None ==> eff_color(
                resolved_color(entries, key),
                global,
            ) == global,
{
}

} // verus!
