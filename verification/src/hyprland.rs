//! The Hyprland modules and helpers: the workspace indicator with its
//! active-workspace highlight, the window-title module with its truncation,
//! and the directive that reserves on-screen space for the bar.
use vstd::prelude::*;
use crate::color::Rgba;
use crate::config::{
    eff_color, eff_size, resolve, resolve_spec, resolved_color, GlobalConfig,
    ModuleConfigOverride, OptionsMap,
};
use crate::decimal::push_dec;
use crate::render::{Fragment, WorkspaceSpan};

verus! {

/// The height in pixels that the bar reserves at the top edge.
pub const BAR_HEIGHT: u64 = 30;

/// One open workspace as reported by the compositor.
pub struct WorkspaceInfo {
    pub id: i64,
    pub name: String,
    pub fullscreen: bool,
}

/// The workspace list a window-manager listener broadcasts: the open
/// workspace names in id order and the index of the active one.
pub struct OpenWorkspaces {
    pub active: usize,
    pub open: Vec<String>,
}

/// Whether the workspaces are ordered by their ids.
pub open spec fn sorted_ws(s: Seq<WorkspaceInfo>) -> bool {
    forall|a: int, b: int| 0 <= a <= b < s.len() ==> s[a].id <= s[b].id
}

/// Sort the workspaces by their ids; a permutation of the input.
#[verifier::loop_isolation(false)]
pub fn sort_by_id(v: &mut Vec<WorkspaceInfo>)
    ensures
        sorted_ws(final(v)@),
        final(v)@.to_multiset() == old(v)@.to_multiset(),
        final(v)@.len() == old(v)@.len(),
{
    broadcast use vstd::seq_lib::group_to_multiset_ensures;

    if v.len() <= 1 {
        return;
    }
    let mut i: usize = 1;
    proof {
        assert(sorted_ws(v@.take(1)));
    }
    while i < v.len()
        invariant
            1 <= i <= v@.len(),
            v@.len() == old(v)@.len(),
            v@.to_multiset() == old(v)@.to_multiset(),
            sorted_ws(v@.take(i as int)),
        decreases v@.len() - i,
    {
        // find the insertion point for v[i] within the sorted prefix
        let mut j: usize = 0;
        while j < i && v[j].id <= v[i].id
            invariant
                j <= i,
                forall|k: int| 0 <= k < j ==> v@[k].id <= v@[i as int].id,
            decreases i - j,
        {
            j = j + 1;
        }
        let ghost before = v@;
        let x = v.remove(i);
        let ghost mid = v@;
        v.insert(j, x);
        proof {
            assert(mid =~= before.remove(i as int));
            assert(v@ =~= mid.insert(j as int, x));
            assert(mid.to_multiset() == before.to_multiset().remove(before[i as int]));
            assert(v@.to_multiset() == mid.to_multiset().insert(x));
            assert(before.to_multiset().contains(x)) by {
                assert(before[i as int] == x);
                assert(before.contains(x));
            }
            assert(v@.to_multiset() =~= before.to_multiset());
            // the prefix one longer is sorted again
            assert(sorted_ws(v@.take(i + 1))) by {
                assert(forall|k: int| 0 <= k < j ==> v@[k] == before[k]);
                assert(forall|k: int| j < k <= i ==> v@[k] == before[k - 1]);
                assert(v@[j as int] == x);
                assert(j < i ==> before[j as int].id > x.id);
                assert(forall|a: int, b: int| 0 <= a <= b < i ==> before[a].id <= before[b].id)
                    by {
                    assert(forall|k: int| 0 <= k < i ==> before.take(i as int)[k] == before[k]);
                }
                assert(forall|a: int, b: int| 0 <= a <= b <= i ==> v@[a].id <= v@[b].id);
                assert(forall|k: int| 0 <= k <= i ==> v@.take(i + 1)[k] == v@[k]);
            }
        }
        i = i + 1;
    }
    proof {
        assert(v@.take(v@.len() as int) =~= v@);
    }
}

impl OpenWorkspaces {
    /// Build the broadcast list from the compositor's unordered report: the
    /// names in workspace-id order, plus the active index as given.
    pub fn from_list(list: Vec<WorkspaceInfo>, active: usize) -> (r: OpenWorkspaces)
        ensures
            r.active == active,
            r.open@.len() == list@.len(),
            exists|s: Seq<WorkspaceInfo>|
                sorted_ws(s) && s.to_multiset() == list@.to_multiset() && crate::text::views(
                    r.open@,
                ) == s.map_values(|w: WorkspaceInfo| w.name@),
    {
        let mut sorted = list;
        sort_by_id(&mut sorted);
        let mut names: Vec<String> = Vec::new();
        let mut i: usize = 0;
        let n = sorted.len();
        while i < n
            invariant
                n == sorted@.len(),
                i <= n,
                crate::text::views(names@) == sorted@.take(i as int).map_values(
                    |w: WorkspaceInfo| w.name@,
                ),
            decreases n - i,
        {
            let ghost prev = crate::text::views(names@);
            names.push(sorted[i].name.clone());
            proof {
                assert(sorted@.take(i + 1) =~= sorted@.take(i as int).push(sorted@[i as int]));
                assert(crate::text::views(names@) =~= prev.push(sorted@[i as int].name@));
                assert(sorted@.take(i + 1).map_values(|w: WorkspaceInfo| w.name@) =~= sorted@.take(
                    i as int,
                ).map_values(|w: WorkspaceInfo| w.name@).push(sorted@[i as int].name@));
            }
            i = i + 1;
        }
        proof {
            assert(sorted@.take(n as int) =~= sorted@);
            broadcast use vstd::seq_lib::group_to_multiset_ensures;

        }
        OpenWorkspaces { active, open: names }
    }
}

/// Order the open workspaces by id and locate the active one: the compositor
/// reports them unordered. Returns the active index and the ordered list.
pub fn arrange_workspaces(list: Vec<WorkspaceInfo>, active_id: i64) -> (r: (usize, Vec<
    WorkspaceInfo,
>))
    ensures
        sorted_ws(r.1@),
        r.1@.to_multiset() == list@.to_multiset(),
        r.1@.len() == list@.len(),
        (exists|k: int| 0 <= k < r.1@.len() && r.1@[k].id == active_id) ==> {
            &&& 0 <= r.0 < r.1@.len()
            &&& r.1@[r.0 as int].id == active_id
            &&& forall|j: int| 0 <= j < r.0 ==> r.1@[j].id != active_id
        },
        !(exists|k: int| 0 <= k < r.1@.len() && r.1@[k].id == active_id) ==> r.0 == 0,
{
    let mut sorted = list;
    sort_by_id(&mut sorted);
    let mut pos: usize = 0;
    let mut found = false;
    let mut k: usize = 0;
    while k < sorted.len()
        invariant
            k <= sorted@.len(),
            !found ==> pos == 0,
            !found ==> forall|j: int| 0 <= j < k ==> sorted@[j].id != active_id,
            found ==> 0 <= pos < k && sorted@[pos as int].id == active_id && forall|j: int|
                0 <= j < pos ==> sorted@[j].id != active_id,
        decreases sorted@.len() - k,
    {
        if !found && sorted[k].id == active_id {
            pos = k;
            found = true;
        }
        k = k + 1;
    }
    (pos, sorted)
}

/// The Hyprland window-title module: shows the active window's title as the
/// compositor's listener broadcasts it.
pub struct HyprWindowMod {
    pub title: Option<String>,
    pub cfg_override: ModuleConfigOverride,
}

/// The view of an optional title.
pub open spec fn opt_title_view(t: Option<String>) -> Option<Seq<char>> {
    match t {
        Some(s) => Some(s@),
        None => None,
    }
}

impl Default for HyprWindowMod {
    /// A fresh instance: no title yet.
    fn default() -> (r: HyprWindowMod)
        ensures
            r.title is None,
            r.cfg_override == crate::config::empty_override(),
    {
        HyprWindowMod::new()
    }
}

impl HyprWindowMod {
    /// A fresh instance: no title yet.
    pub fn new() -> (r: HyprWindowMod)
        ensures
            r.title is None,
            r.cfg_override == crate::config::empty_override(),
    {
        HyprWindowMod { title: None, cfg_override: ModuleConfigOverride::none() }
    }

    /// The stable identifier of this module kind.
    pub fn id(&self) -> (r: String)
        ensures
            r@ == "hyprland.window"@,
    {
        "hyprland.window".to_owned()
    }

    /// Apply the raw per-module options.
    pub fn read_config(&mut self, config: &OptionsMap)
        ensures
            final(self).cfg_override == resolve_spec(config@),
            final(self).title == old(self).title,
    {
        self.cfg_override = resolve(config);
    }

    /// Render the title fragment from current state; pure. An absent title
    /// renders as the empty string.
    pub fn view(&self, config: &GlobalConfig) -> (r: Fragment)
        ensures
            r.icon@.len() == 0,
            r.text@ == match opt_title_view(self.title) {
                Some(t) => t,
                None => Seq::<char>::empty(),
            },
            r.icon_color == eff_color(self.cfg_override.icon_color, config.icon_color),
            r.text_color == eff_color(self.cfg_override.text_color, config.text_color),
            r.icon_size == eff_size(self.cfg_override.icon_size, config.icon_size),
            r.font_size == eff_size(self.cfg_override.font_size, config.font_size),
            r.spacing == eff_size(self.cfg_override.spacing, config.spacing),
    {
        let text: String = match &self.title {
            Some(t) => t.clone(),
            None => String::new(),
        };
        Fragment {
            icon: String::new(),
            text,
            icon_color: crate::config::effective_color(
                self.cfg_override.icon_color,
                config.icon_color,
            ),
            text_color: crate::config::effective_color(
                self.cfg_override.text_color,
                config.text_color,
            ),
            icon_size: crate::config::effective_size(
                self.cfg_override.icon_size,
                config.icon_size,
            ),
            font_size: crate::config::effective_size(
                self.cfg_override.font_size,
                config.font_size,
            ),
            spacing: crate::config::effective_size(self.cfg_override.spacing, config.spacing),
        }
    }
}

/// The window-title length cap and the shortened prefix length.
pub open spec fn truncate_spec(s: Seq<char>) -> Seq<char> {
    if s.len() > 25 {
        s.take(22) + "..."@
    } else {
        s
    }
}

/// Shorten an overlong window title to its first characters and an ellipsis.
pub fn truncate_title(s: &str) -> (r: String)
    ensures
        r@ == truncate_spec(s@),
{
    let n = s.unicode_len();
    if n > 25 {
        let head = s.substring_char(0, 22);
        let mut out = head.to_owned();
        out.append("...");
        proof {
            assert(head@ =~= s@.take(22));
        }
        out
    } else {
        s.to_owned()
    }
}

/// The keyword directive that reserves the bar's space with the compositor:
/// the caller hands it to the window manager's control interface.
pub fn reserve_bar_space() -> (r: (String, String))
    ensures
        r.0@ == "monitor"@,
        r.1@ == reserve_directive(),
{
    let keyword = "monitor".to_owned();
    let mut value = "eDP-1, addreserved, ".to_owned();
    push_dec(&mut value, BAR_HEIGHT);
    value.append(", 0, 0, 0");
    proof {
        assert(value@ =~= reserve_directive());
    }
    (keyword, value)
}

/// The reservation directive: monitor name, reserved top edge, no other edges.
pub open spec fn reserve_directive() -> Seq<char> {
    "eDP-1, addreserved, "@ + crate::decimal::dec_str(BAR_HEIGHT as nat) + ", 0, 0, 0"@
}

/// The Hyprland workspace indicator module.
pub struct HyprWorkspaceMod {
    pub active: usize,
    pub open: Vec<WorkspaceInfo>,
    pub cfg_override: ModuleConfigOverride,
    pub active_color: Rgba,
    pub active_background: Rgba,
}

impl Default for HyprWorkspaceMod {
    /// A fresh instance: no workspaces, black-on-translucent-white highlight.
    fn default() -> (r: HyprWorkspaceMod)
        ensures
            r.active == 0,
            r.open@.len() == 0,
            r.cfg_override == crate::config::empty_override(),
            r.active_color == (Rgba { red: 0, green: 0, blue: 0, alpha: 255 }),
            r.active_background == (Rgba { red: 255, green: 255, blue: 255, alpha: 128 }),
    {
        HyprWorkspaceMod::new()
    }
}

impl HyprWorkspaceMod {
    /// A fresh instance: no workspaces, black-on-translucent-white highlight.
    pub fn new() -> (r: HyprWorkspaceMod)
        ensures
            r.active == 0,
            r.open@.len() == 0,
            r.cfg_override == crate::config::empty_override(),
            r.active_color == (Rgba { red: 0, green: 0, blue: 0, alpha: 255 }),
            r.active_background == (Rgba { red: 255, green: 255, blue: 255, alpha: 128 }),
    {
        HyprWorkspaceMod {
            active: 0,
            open: Vec::new(),
            cfg_override: ModuleConfigOverride::none(),
            active_color: Rgba { red: 0, green: 0, blue: 0, alpha: 255 },
            active_background: Rgba { red: 255, green: 255, blue: 255, alpha: 128 },
        }
    }

    /// The stable identifier of this module kind.
    pub fn id(&self) -> (r: String)
        ensures
            r@ == "hyprland.workspaces"@,
    {
        "hyprland.workspaces".to_owned()
    }

    /// Apply the raw per-module options, including the highlight colors.
    pub fn read_config(&mut self, config: &OptionsMap)
        ensures
            final(self).cfg_override == resolve_spec(config@),
            final(self).active_color == eff_color(
                resolved_color(config@, "active_color"@),
                old(self).active_color,
            ),
            final(self).active_background == eff_color(
                resolved_color(config@, "active_background"@),
                old(self).active_background,
            ),
            final(self).active == old(self).active,
            final(self).open@ == old(self).open@,
    {
        self.cfg_override = resolve(config);
        match config.get("active_color") {
            Some(Some(v)) => {
                match crate::color::parse_color(v.as_str()) {
                    Some(c) => {
                        self.active_color = c;
                    },
                    None => {},
                }
            },
            _ => {},
        }
        match config.get("active_background") {
            Some(Some(v)) => {
                match crate::color::parse_color(v.as_str()) {
                    Some(c) => {
                        self.active_background = c;
                    },
                    None => {},
                }
            },
            _ => {},
        }
    }

    /// Render one span per open workspace; the active one is highlighted.
    /// Pure in the module state and configuration.
    pub fn view(&self, config: &GlobalConfig) -> (r: Vec<WorkspaceSpan>)
        ensures
            r@.len() == self.open@.len(),
            forall|k: int|
                0 <= k < r@.len() ==> {
                    &&& (#[trigger] r@[k]).label@ == self.open@[k].name@
                    &&& r@[k].size == eff_size(self.cfg_override.icon_size, config.icon_size)
                    &&& r@[k].color == eff_color(self.cfg_override.icon_color, config.icon_color)
                    &&& r@[k].highlighted == (k == self.active)
                    &&& r@[k].highlight_color == self.active_color
                    &&& r@[k].highlight_background == self.active_background
                },
    {
        let mut spans: Vec<WorkspaceSpan> = Vec::new();
        let mut k: usize = 0;
        while k < self.open.len()
            invariant
                k <= self.open@.len(),
                spans@.len() == k,
                forall|j: int|
                    0 <= j < k ==> {
                        &&& (#[trigger] spans@[j]).label@ == self.open@[j].name@
                        &&& spans@[j].size == eff_size(
                            self.cfg_override.icon_size,
                            config.icon_size,
                        )
                        &&& spans@[j].color == eff_color(
                            self.cfg_override.icon_color,
                            config.icon_color,
                        )
                        &&& spans@[j].highlighted == (j == self.active)
                        &&& spans@[j].highlight_color == self.active_color
                        &&& spans@[j].highlight_background == self.active_background
                    },
            decreases self.open@.len() - k,
        {
            spans.push(
                WorkspaceSpan {
                    label: self.open[k].name.clone(),
                    size: crate::config::effective_size(
                        self.cfg_override.icon_size,
                        config.icon_size,
                    ),
                    color: crate::config::effective_color(
                        self.cfg_override.icon_color,
                        config.icon_color,
                    ),
                    highlighted: k == self.active,
                    highlight_color: self.active_color,
                    highlight_background: self.active_background,
                },
            );
            k = k + 1;
        }
        spans
    }
}

} // verus!
