//! The registry: the single owner of all live module instances, the catalog
//! that constructs them from their stable identifiers, and the serialized
//! update dispatch that is the only path by which module state changes.
//! Dispatch is specified over a mathematical view of module state.
use vstd::prelude::*;
use crate::battery::{BatteryMod, BatteryStats};
use crate::color::Rgba;
use crate::config::{ModuleConfigOverride, OptionsMap};
use crate::cpu::CpuMod;
use crate::hyprland::{HyprWindowMod, HyprWorkspaceMod, WorkspaceInfo};
use crate::listener::{contains_listener, Listener};
use crate::memory::MemoryMod;
use crate::text::{str_eq, views};
use crate::volume::VolumeMod;
use crate::wayfire::WayfireWorkspaceMod;

verus! {

/// One live module instance, of any of the known kinds.
pub enum Module {
    Battery(BatteryMod),
    Cpu(CpuMod),
    Memory(MemoryMod),
    Volume(VolumeMod),
    HyprWorkspaces(HyprWorkspaceMod),
    HyprWindow(HyprWindowMod),
    WayfireWorkspaces(WayfireWorkspaceMod),
}

/// A deferred mutation: the typed payload that a producer computed, applied to
/// the one module of the matching kind by the dispatcher.
pub enum UpdateCommand {
    CpuUsage(u64),
    MemoryUsage(u64),
    Battery(BatteryStats),
    Volume(u64, bool),
    HyprWorkspaces(usize, Vec<WorkspaceInfo>),
    Window(Option<String>),
    WayfireActive(i64, i64),
}

/// The mathematical view of one open workspace.
pub struct WsView {
    pub id: i64,
    pub name: Seq<char>,
    pub fullscreen: bool,
}

/// The view of one workspace record.
pub open spec fn ws_view(w: WorkspaceInfo) -> WsView {
    WsView { id: w.id, name: w.name@, fullscreen: w.fullscreen }
}

/// The view of a workspace list.
pub open spec fn ws_views(l: Seq<WorkspaceInfo>) -> Seq<WsView> {
    l.map_values(|w: WorkspaceInfo| ws_view(w))
}

/// The mathematical view of one module's state.
#[allow(inconsistent_fields)]
pub enum ModuleState {
    Battery { stats: BatteryStats, cfg: ModuleConfigOverride },
    Cpu { usage: u64, cfg: ModuleConfigOverride },
    Memory { usage: u64, cfg: ModuleConfigOverride },
    Volume { level: u64, muted: bool, cfg: ModuleConfigOverride },
    HyprWorkspaces {
        active: usize,
        open: Seq<WsView>,
        cfg: ModuleConfigOverride,
        active_color: Rgba,
        active_background: Rgba,
    },
    HyprWindow { title: Option<Seq<char>>, cfg: ModuleConfigOverride },
    WayfireWorkspaces {
        active: (i64, i64),
        icons: Seq<((i64, i64), Seq<char>)>,
        cfg: ModuleConfigOverride,
    },
}

/// The mathematical view of one update command.
pub enum CommandView {
    CpuUsage(u64),
    MemoryUsage(u64),
    Battery(BatteryStats),
    Volume(u64, bool),
    HyprWorkspaces(usize, Seq<WsView>),
    Window(Option<Seq<char>>),
    WayfireActive(i64, i64),
}

impl Module {
    /// The stable identifier of the module's kind.
    pub open spec fn id_spec(&self) -> Seq<char> {
        match self {
            Module::Battery(_) => "battery"@,
            Module::Cpu(_) => "cpu"@,
            Module::Memory(_) => "memory"@,
            Module::Volume(_) => "volume"@,
            Module::HyprWorkspaces(_) => "hyprland.workspaces"@,
            Module::HyprWindow(_) => "hyprland.window"@,
            Module::WayfireWorkspaces(_) => "wayfire.workspaces"@,
        }
    }

    /// The mathematical view of this module's state.
    pub open spec fn state(&self) -> ModuleState {
        match self {
            Module::Battery(m) => ModuleState::Battery { stats: m.stats, cfg: m.cfg_override },
            Module::Cpu(m) => ModuleState::Cpu { usage: m.usage, cfg: m.cfg_override },
            Module::Memory(m) => ModuleState::Memory { usage: m.usage, cfg: m.cfg_override },
            Module::Volume(m) => ModuleState::Volume {
                level: m.level,
                muted: m.muted,
                cfg: m.cfg_override,
            },
            Module::HyprWorkspaces(m) => ModuleState::HyprWorkspaces {
                active: m.active,
                open: ws_views(m.open@),
                cfg: m.cfg_override,
                active_color: m.active_color,
                active_background: m.active_background,
            },
            Module::HyprWindow(m) => ModuleState::HyprWindow {
                title: crate::hyprland::opt_title_view(m.title),
                cfg: m.cfg_override,
            },
            Module::WayfireWorkspaces(m) => ModuleState::WayfireWorkspaces {
                active: m.active,
                icons: crate::wayfire::icons_view(m.icons@),
                cfg: m.cfg_override,
            },
        }
    }

    /// The stable identifier of the module's kind.
    pub fn id(&self) -> (r: String)
        ensures
            r@ == self.id_spec(),
    {
        match self {
            Module::Battery(m) => m.name(),
            Module::Cpu(m) => m.id(),
            Module::Memory(m) => m.id(),
            Module::Volume(m) => m.id(),
            Module::HyprWorkspaces(m) => m.id(),
            Module::HyprWindow(m) => m.id(),
            Module::WayfireWorkspaces(m) => m.id(),
        }
    }

    /// The listener capabilities this module depends on.
    pub open spec fn required_spec(&self) -> Seq<Listener> {
        match self {
            Module::HyprWorkspaces(_) => seq![Listener::Hyprland],
            Module::HyprWindow(_) => seq![Listener::Hyprland],
            Module::WayfireWorkspaces(_) => seq![Listener::Wayfire],
            _ => Seq::empty(),
        }
    }

    /// The listener capabilities this module depends on.
    pub fn required_listeners(&self) -> (r: Vec<Listener>)
        ensures
            r@ == self.required_spec(),
    {
        let mut v: Vec<Listener> = Vec::new();
        match self {
            Module::HyprWorkspaces(_) => {
                v.push(Listener::Hyprland);
                proof {
                    assert(v@ =~= self.required_spec());
                }
            },
            Module::HyprWindow(_) => {
                v.push(Listener::Hyprland);
                proof {
                    assert(v@ =~= self.required_spec());
                }
            },
            Module::WayfireWorkspaces(_) => {
                v.push(Listener::Wayfire);
                proof {
                    assert(v@ =~= self.required_spec());
                }
            },
            _ => {
                proof {
                    assert(v@ =~= self.required_spec());
                }
            },
        }
        v
    }

    /// Apply the raw per-module options to this module.
    pub fn read_config(&mut self, config: &OptionsMap)
        ensures
            config_applied(*old(self), *final(self), config@),
            final(self).id_spec() == old(self).id_spec(),
    {
        match self {
            Module::Battery(m) => m.read_config(config),
            Module::Cpu(m) => m.read_config(config),
            Module::Memory(m) => m.read_config(config),
            Module::Volume(m) => m.read_config(config),
            Module::HyprWorkspaces(m) => m.read_config(config),
            Module::HyprWindow(m) => m.read_config(config),
            Module::WayfireWorkspaces(m) => m.read_config(config),
        }
    }
}

/// How ingesting a raw option mapping relates the module before and after:
/// the overrides are resolved anew, everything else is untouched.
pub open spec fn config_applied(
    o: Module,
    n: Module,
    entries: Seq<(String, Option<String>)>,
) -> bool {
    match (o, n) {
        (Module::Battery(a), Module::Battery(b)) => b.stats == a.stats && b.cfg_override
            == crate::config::resolve_spec(entries),
        (Module::Cpu(a), Module::Cpu(b)) => b.usage == a.usage && b.cfg_override
            == crate::config::resolve_spec(entries),
        (Module::Memory(a), Module::Memory(b)) => b.usage == a.usage && b.cfg_override
            == crate::config::resolve_spec(entries),
        (Module::Volume(a), Module::Volume(b)) => b.level == a.level && b.muted == a.muted
            && b.cfg_override == crate::config::resolve_spec(entries),
        (Module::HyprWorkspaces(a), Module::HyprWorkspaces(b)) => b.active == a.active && b.open@
            == a.open@ && b.cfg_override == crate::config::resolve_spec(entries) && b.active_color
            == crate::config::eff_color(
            crate::config::resolved_color(entries, "active_color"@),
            a.active_color,
        ) && b.active_background == crate::config::eff_color(
            crate::config::resolved_color(entries, "active_background"@),
            a.active_background,
        ),
        (Module::HyprWindow(a), Module::HyprWindow(b)) => b.title == a.title && b.cfg_override
            == crate::config::resolve_spec(entries),
        (Module::WayfireWorkspaces(a), Module::WayfireWorkspaces(b)) => b.active == a.active
            && crate::wayfire::icons_view(b.icons@) == crate::wayfire::icons_view(a.icons@)
            + crate::wayfire::icons_of(entries) && b.cfg_override == crate::config::resolve_spec(
            entries,
        ),
        _ => false,
    }
}

/// The view of one update command.
pub open spec fn cmd_view(c: UpdateCommand) -> CommandView {
    match c {
        UpdateCommand::CpuUsage(u) => CommandView::CpuUsage(u),
        UpdateCommand::MemoryUsage(u) => CommandView::MemoryUsage(u),
        UpdateCommand::Battery(s) => CommandView::Battery(s),
        UpdateCommand::Volume(l, mu) => CommandView::Volume(l, mu),
        UpdateCommand::HyprWorkspaces(a, list) => CommandView::HyprWorkspaces(a, ws_views(list@)),
        UpdateCommand::Window(t) => CommandView::Window(crate::hyprland::opt_title_view(t)),
        UpdateCommand::WayfireActive(x, y) => CommandView::WayfireActive(x, y),
    }
}

/// The module a command addresses, by its stable identifier.
pub open spec fn target_id(c: CommandView) -> Seq<char> {
    match c {
        CommandView::CpuUsage(_) => "cpu"@,
        CommandView::MemoryUsage(_) => "memory"@,
        CommandView::Battery(_) => "battery"@,
        CommandView::Volume(_, _) => "volume"@,
        CommandView::HyprWorkspaces(_, _) => "hyprland.workspaces"@,
        CommandView::Window(_) => "hyprland.window"@,
        CommandView::WayfireActive(_, _) => "wayfire.workspaces"@,
    }
}

/// The identifier of the module a state belongs to.
pub open spec fn state_id(s: ModuleState) -> Seq<char> {
    match s {
        ModuleState::Battery { .. } => "battery"@,
        ModuleState::Cpu { .. } => "cpu"@,
        ModuleState::Memory { .. } => "memory"@,
        ModuleState::Volume { .. } => "volume"@,
        ModuleState::HyprWorkspaces { .. } => "hyprland.workspaces"@,
        ModuleState::HyprWindow { .. } => "hyprland.window"@,
        ModuleState::WayfireWorkspaces { .. } => "wayfire.workspaces"@,
    }
}

/// One command applied to one module state: the payload replaces the
/// addressed part of the state of the module of the matching kind; any other
/// module state is untouched.
pub open spec fn apply_to_state(s: ModuleState, c: CommandView) -> ModuleState {
    match (s, c) {
        (ModuleState::Cpu { usage: _, cfg }, CommandView::CpuUsage(u)) => ModuleState::Cpu {
            usage: u,
            cfg,
        },
        (ModuleState::Memory { usage: _, cfg }, CommandView::MemoryUsage(u)) => ModuleState::
        Memory { usage: u, cfg },
        (ModuleState::Battery { stats: _, cfg }, CommandView::Battery(st)) => ModuleState::
        Battery { stats: st, cfg },
        (ModuleState::Volume { level: _, muted: _, cfg }, CommandView::Volume(l, mu)) => ModuleState::
        Volume { level: l, muted: mu, cfg },
        (
            ModuleState::HyprWorkspaces {
                active: _,
                open: _,
                cfg,
                active_color,
                active_background,
            },
            CommandView::HyprWorkspaces(a, list),
        ) => ModuleState::HyprWorkspaces {
            active: a,
            open: list,
            cfg,
            active_color,
            active_background,
        },
        (ModuleState::HyprWindow { title: _, cfg }, CommandView::Window(t)) => ModuleState::
        HyprWindow { title: t, cfg },
        (
            ModuleState::WayfireWorkspaces { active: _, icons, cfg },
            CommandView::WayfireActive(x, y),
        ) => ModuleState::WayfireWorkspaces { active: (x, y), icons, cfg },
        (s2, _) => s2,
    }
}

/// The views of all modules of a registry.
pub open spec fn states(s: Seq<Module>) -> Seq<ModuleState> {
    s.map_values(|m: Module| m.state())
}

/// One command applied pointwise over all module states; only the state of
/// the matching kind changes.
pub open spec fn spec_apply(s: Seq<ModuleState>, c: CommandView) -> Seq<ModuleState> {
    s.map_values(|m: ModuleState| apply_to_state(m, c))
}

/// A whole command sequence applied in arrival order.
pub open spec fn spec_apply_all(s: Seq<ModuleState>, cs: Seq<CommandView>) -> Seq<ModuleState>
    decreases cs.len(),
{
    if cs.len() == 0 {
        s
    } else {
        spec_apply(spec_apply_all(s, cs.drop_last()), cs.last())
    }
}

/// A command sequence applied to a single module's state.
pub open spec fn apply_cmds_to(s: ModuleState, cs: Seq<CommandView>) -> ModuleState
    decreases cs.len(),
{
    if cs.len() == 0 {
        s
    } else {
        apply_to_state(apply_cmds_to(s, cs.drop_last()), cs.last())
    }
}

/// The views of a command sequence.
pub open spec fn cmd_views(cs: Seq<UpdateCommand>) -> Seq<CommandView> {
    cs.map_values(|c: UpdateCommand| cmd_view(c))
}

/// Dispatch is serialized per module: after applying a command sequence to
/// the registry, every module's state is what applying the same commands one
/// at a time to that module alone yields — whatever producers enqueued them.
pub proof fn lemma_dispatch_per_module(s: Seq<ModuleState>, cs: Seq<CommandView>, i: int)
    requires
        0 <= i < s.len(),
    ensures
        spec_apply_all(s, cs).len() == s.len(),
        spec_apply_all(s, cs)[i] == apply_cmds_to(s[i], cs),
    decreases cs.len(),
{
    if cs.len() > 0 {
        lemma_dispatch_per_module(s, cs.drop_last(), i);
    }
}

/// Commands addressed to other modules leave a module's state alone: applying
/// a command sequence to one module state is applying only the commands
/// addressed to it, and the state keeps its identity.
pub proof fn lemma_commands_isolated(s: ModuleState, cs: Seq<CommandView>)
    ensures
        apply_cmds_to(s, cs) == apply_cmds_to(
            s,
            cs.filter(|c: CommandView| target_id(c) == state_id(s)),
        ),
        state_id(apply_cmds_to(s, cs)) == state_id(s),
    decreases cs.len(),
{
    reveal(Seq::filter);
    let pred = |c: CommandView| target_id(c) == state_id(s);
    if cs.len() == 0 {
        assert(cs.filter(pred) =~= Seq::<CommandView>::empty());
    } else {
        lemma_commands_isolated(s, cs.drop_last());
        let prev = apply_cmds_to(s, cs.drop_last());
        let fd = cs.drop_last().filter(pred);
        let f = cs.filter(pred);
        assert(state_id(prev) == state_id(s));
        if pred(cs.last()) {
            assert(f == fd.push(cs.last()));
            assert(f.drop_last() =~= fd);
            assert(f.last() == cs.last());
            assert(f.len() > 0);
        } else {
            assert(f == fd);
            assert(apply_to_state(prev, cs.last()) == prev);
        }
    }
}

/// The registry of live modules. The invariant: module identifiers are unique,
/// so there is exactly one live instance per configured module kind.
pub struct Registry {
    pub modules: Vec<Module>,
}

/// The index of the module with the given identifier, or -1.
pub open spec fn index_of_id(s: Seq<Module>, id: Seq<char>) -> int
    decreases s.len(),
{
    if s.len() == 0 {
        -1
    } else if s[0].id_spec() == id {
        0
    } else {
        let r = index_of_id(s.drop_first(), id);
        if r < 0 {
            -1
        } else {
            r + 1
        }
    }
}

proof fn lemma_index_of_id_found(s: Seq<Module>, id: Seq<char>, i: int)
    requires
        0 <= i < s.len(),
        s[i].id_spec() == id,
        forall|k: int| 0 <= k < i ==> s[k].id_spec() != id,
    ensures
        index_of_id(s, id) == i,
    decreases s.len(),
{
    if i > 0 {
        lemma_index_of_id_found(s.drop_first(), id, i - 1);
    }
}

proof fn lemma_index_of_id_missing(s: Seq<Module>, id: Seq<char>)
    requires
        forall|k: int| 0 <= k < s.len() ==> s[k].id_spec() != id,
    ensures
        index_of_id(s, id) == -1,
    decreases s.len(),
{
    if s.len() > 0 {
        lemma_index_of_id_missing(s.drop_first(), id);
    }
}

/// The identifiers of the modules that declared a dependency on `l`, in
/// registry order.
pub open spec fn requiring_ids(s: Seq<Module>, l: Listener) -> Seq<Seq<char>>
    decreases s.len(),
{
    if s.len() == 0 {
        Seq::empty()
    } else {
        let rest = requiring_ids(s.drop_last(), l);
        if s.last().required_spec().contains(l) {
            rest.push(s.last().id_spec())
        } else {
            rest
        }
    }
}

/// The shared-listener broadcast law: under unique module identifiers, the
/// identifiers that a broadcast for capability `l` addresses — `requiring_ids`,
/// which `Registry::broadcast` delivers to in exactly this order — cover every
/// module that declared `l`, cover nothing else, and name each module exactly
/// once. Together with `plan_listeners`' duplicate-free contract this is the
/// single-listener, full-broadcast guarantee.
pub proof fn lemma_broadcast_reaches_declaring_modules(s: Seq<Module>, l: Listener)
    requires
        forall|i: int, j: int| 0 <= i < j < s.len() ==> s[i].id_spec() != s[j].id_spec(),
    ensures
        forall|i: int|
            0 <= i < s.len() && (#[trigger] s[i].required_spec()).contains(l) ==> requiring_ids(
                s,
                l,
            ).contains(s[i].id_spec()),
        forall|x: Seq<char>|
            #[trigger] requiring_ids(s, l).contains(x) ==> exists|i: int|
                0 <= i < s.len() && (#[trigger] s[i].id_spec()) == x && s[i].required_spec(
                ).contains(l),
        forall|a: int, b: int|
            0 <= a < b < requiring_ids(s, l).len() ==> requiring_ids(s, l)[a] != requiring_ids(
                s,
                l,
            )[b],
    decreases s.len(),
{
    if s.len() == 0 {
    } else {
        let d = s.drop_last();
        assert(forall|i: int, j: int| 0 <= i < j < d.len() ==> d[i].id_spec() != d[j].id_spec())
            by {
            assert(forall|k: int| 0 <= k < d.len() ==> d[k] == s[k]);
        }
        lemma_broadcast_reaches_declaring_modules(d, l);
        let rest = requiring_ids(d, l);
        let whole = requiring_ids(s, l);
        if s.last().required_spec().contains(l) {
            assert(whole == rest.push(s.last().id_spec()));
            // completeness: earlier declaring modules keep their entry
            assert forall|i: int|
                0 <= i < s.len() && (#[trigger] s[i].required_spec()).contains(
                    l,
                ) implies whole.contains(s[i].id_spec()) by {
                if i < s.len() - 1 {
                    assert(d[i] == s[i]);
                    assert(rest.contains(s[i].id_spec()));
                    let k = choose|k: int| 0 <= k < rest.len() && rest[k] == s[i].id_spec();
                    assert(whole[k] == s[i].id_spec());
                } else {
                    assert(whole[whole.len() - 1] == s[i].id_spec());
                }
            }
            // soundness: every entry names a declaring module
            assert forall|x: Seq<char>| #[trigger] whole.contains(x) implies exists|i: int|
                0 <= i < s.len() && (#[trigger] s[i].id_spec()) == x && s[i].required_spec(
                ).contains(l) by {
                let k = choose|k: int| 0 <= k < whole.len() && whole[k] == x;
                if k < rest.len() {
                    assert(rest[k] == x);
                    assert(rest.contains(x));
                    let i = choose|i: int|
                        0 <= i < d.len() && (#[trigger] d[i].id_spec()) == x
                            && d[i].required_spec().contains(l);
                    assert(s[i] == d[i]);
                    assert(s[i].id_spec() == x && s[i].required_spec().contains(l));
                } else {
                    assert(x == s.last().id_spec());
                    assert(s[s.len() - 1].id_spec() == x && s[s.len() - 1].required_spec(
                    ).contains(l));
                }
            }
            // exactly once: the new entry's identifier is fresh
            assert(!rest.contains(s.last().id_spec())) by {
                if rest.contains(s.last().id_spec()) {
                    let i = choose|i: int|
                        0 <= i < d.len() && (#[trigger] d[i].id_spec()) == s.last().id_spec()
                            && d[i].required_spec().contains(l);
                    assert(s[i] == d[i]);
                    assert(s[i].id_spec() == s[s.len() - 1].id_spec());
                }
            }
            assert forall|a: int, b: int|
                0 <= a < b < whole.len() implies whole[a] != whole[b] by {
                if b < rest.len() {
                    assert(whole[a] == rest[a] && whole[b] == rest[b]);
                } else {
                    assert(whole[a] == rest[a]);
                    assert(whole[b] == s.last().id_spec());
                    assert(rest.contains(rest[a]));
                }
            }
        } else {
            assert(whole == rest);
            assert forall|i: int|
                0 <= i < s.len() && (#[trigger] s[i].required_spec()).contains(
                    l,
                ) implies whole.contains(s[i].id_spec()) by {
                assert(i < s.len() - 1);
                assert(d[i] == s[i]);
            }
            assert forall|x: Seq<char>| #[trigger] whole.contains(x) implies exists|i: int|
                0 <= i < s.len() && (#[trigger] s[i].id_spec()) == x && s[i].required_spec(
                ).contains(l) by {
                let i = choose|i: int|
                    0 <= i < d.len() && (#[trigger] d[i].id_spec()) == x && d[i].required_spec(
                    ).contains(l);
                assert(s[i] == d[i]);
                assert(s[i].id_spec() == x && s[i].required_spec().contains(l));
            }
        }
    }
}

impl Registry {
    /// Module identifiers are unique.
    pub open spec fn wf(&self) -> bool {
        forall|i: int, j: int|
            0 <= i < j < self.modules@.len() ==> self.modules@[i].id_spec()
                != self.modules@[j].id_spec()
    }

    /// An empty registry.
    pub fn new() -> (r: Registry)
        ensures
            r.modules@.len() == 0,
            r.wf(),
    {
        Registry { modules: Vec::new() }
    }

    /// Insert a module instance; a prior instance with the same identifier is
    /// replaced. Used during startup composition only.
    #[verifier::loop_isolation(false)]
    pub fn register(&mut self, m: Module)
        requires
            old(self).wf(),
        ensures
            final(self).wf(),
            ({
                let i = index_of_id(old(self).modules@, m.id_spec());
                if i < 0 {
                    final(self).modules@ == old(self).modules@.push(m)
                } else {
                    final(self).modules@ == old(self).modules@.update(i, m)
                }
            }),
    {
        let id = m.id();
        let n = self.modules.len();
        let mut i: usize = 0;
        while i < n
            invariant
                n == self.modules@.len(),
                i <= n,
                self.modules@ == old(self).modules@,
                forall|k: int| 0 <= k < i ==> self.modules@[k].id_spec() != id@,
            decreases n - i,
        {
            let other = self.modules[i].id();
            if str_eq(other.as_str(), id.as_str()) {
                proof {
                    lemma_index_of_id_found(self.modules@, id@, i as int);
                }
                let ghost before = self.modules@;
                let _removed = self.modules.remove(i);
                self.modules.insert(i, m);
                proof {
                    assert(self.modules@ =~= before.update(i as int, m));
                    assert(self.modules@[i as int].id_spec() == before[i as int].id_spec());
                    assert(forall|a: int|
                        0 <= a < self.modules@.len() && a != i ==> self.modules@[a]
                            == before[a]);
                }
                return ;
            }
            i = i + 1;
        }
        proof {
            lemma_index_of_id_missing(self.modules@, id@);
        }
        self.modules.push(m);
    }

    /// Apply one update command: the only path by which module state changes
    /// after construction. Exactly the module of the matching kind changes.
    #[verifier::loop_isolation(false)]
    pub fn apply(&mut self, c: &UpdateCommand)
        requires
            old(self).wf(),
        ensures
            final(self).wf(),
            states(final(self).modules@) == spec_apply(states(old(self).modules@), cmd_view(*c)),
            final(self).modules@.len() == old(self).modules@.len(),
            forall|k: int|
                0 <= k < final(self).modules@.len() ==> (#[trigger] final(self).modules@[k]).id_spec()
                    == old(self).modules@[k].id_spec(),
    {
        let n = self.modules.len();
        let mut i: usize = 0;
        while i < n
            invariant
                n == self.modules@.len(),
                i <= n,
                forall|k: int|
                    0 <= k < i ==> (#[trigger] self.modules@[k]).state() == apply_to_state(
                        old(self).modules@[k].state(),
                        cmd_view(*c),
                    ) && self.modules@[k].id_spec() == old(self).modules@[k].id_spec(),
                forall|k: int| i <= k < n ==> self.modules@[k] == old(self).modules@[k],
            decreases n - i,
        {
            let ghost before = self.modules@;
            let mcur = self.modules.remove(i);
            let applied = apply_command(mcur, c);
            self.modules.insert(i, applied);
            proof {
                assert(self.modules@ =~= before.update(i as int, applied));
            }
            i = i + 1;
        }
        proof {
            assert(states(self.modules@) =~= spec_apply(states(old(self).modules@), cmd_view(*c)));
        }
    }

    /// Apply a whole command queue in arrival order, one at a time.
    #[verifier::loop_isolation(false)]
    pub fn apply_all(&mut self, cmds: &Vec<UpdateCommand>)
        requires
            old(self).wf(),
        ensures
            final(self).wf(),
            states(final(self).modules@) == spec_apply_all(
                states(old(self).modules@),
                cmd_views(cmds@),
            ),
    {
        let ghost cs = cmd_views(cmds@);
        let mut i: usize = 0;
        let n = cmds.len();
        proof {
            assert(spec_apply_all(states(old(self).modules@), cs.take(0)) == states(
                old(self).modules@,
            )) by {
                assert(cs.take(0) =~= Seq::<CommandView>::empty());
            }
        }
        while i < n
            invariant
                n == cmds@.len(),
                cs == cmd_views(cmds@),
                i <= n,
                self.wf(),
                states(self.modules@) == spec_apply_all(
                    states(old(self).modules@),
                    cs.take(i as int),
                ),
            decreases n - i,
        {
            self.apply(&cmds[i]);
            proof {
                assert(cs.take(i + 1).drop_last() =~= cs.take(i as int));
                assert(cs.take(i + 1).last() == cs[i as int]);
                assert(cs[i as int] == cmd_view(cmds@[i as int]));
            }
            i = i + 1;
        }
        proof {
            assert(cs.take(n as int) =~= cs);
        }
    }

    /// The identifiers of the modules that declared a dependency on `l`; the
    /// registry starts each listed listener once, before any task runs.
    #[verifier::loop_isolation(false)]
    pub fn modules_requiring(&self, l: Listener) -> (r: Vec<String>)
        ensures
            views(r@) == requiring_ids(self.modules@, l),
    {
        let mut out: Vec<String> = Vec::new();
        let mut i: usize = 0;
        let n = self.modules.len();
        proof {
            assert(self.modules@.take(0) =~= Seq::<Module>::empty());
            assert(views(out@) =~= requiring_ids(self.modules@.take(0), l));
        }
        while i < n
            invariant
                n == self.modules@.len(),
                i <= n,
                views(out@) == requiring_ids(self.modules@.take(i as int), l),
            decreases n - i,
        {
            let ghost prev = views(out@);
            proof {
                assert(self.modules@.take(i + 1).drop_last() =~= self.modules@.take(i as int));
                assert(self.modules@.take(i + 1).last() == self.modules@[i as int]);
            }
            let req = self.modules[i].required_listeners();
            if contains_listener(&req, l) {
                let id = self.modules[i].id();
                let ghost idv = id@;
                out.push(id);
                proof {
                    assert(views(out@) =~= prev.push(idv));
                }
            }
            i = i + 1;
        }
        proof {
            assert(self.modules@.take(n as int) =~= self.modules@);
        }
        out
    }

    /// The set of listeners to start: each capability some module declared,
    /// once — never a duplicate, so exactly one instance runs per tag.
    #[verifier::loop_isolation(false)]
    pub fn plan_listeners(&self) -> (r: Vec<Listener>)
        ensures
            forall|a: int, b: int| 0 <= a < b < r@.len() ==> r@[a] != r@[b],
            forall|l: Listener|
                r@.contains(l) <==> exists|k: int|
                    0 <= k < self.modules@.len() && (#[trigger] self.modules@[k].required_spec(
                    )).contains(l),
    {
        let mut out: Vec<Listener> = Vec::new();
        let mut i: usize = 0;
        let n = self.modules.len();
        while i < n
            invariant
                n == self.modules@.len(),
                i <= n,
                forall|a: int, b: int| 0 <= a < b < out@.len() ==> out@[a] != out@[b],
                forall|l: Listener|
                    out@.contains(l) <==> exists|k: int|
                        0 <= k < i && (#[trigger] self.modules@[k].required_spec()).contains(l),
            decreases n - i,
        {
            let req = self.modules[i].required_listeners();
            let mut j: usize = 0;
            while j < req.len()
                invariant
                    j <= req@.len(),
                    req@ == self.modules@[i as int].required_spec(),
                    forall|a: int, b: int| 0 <= a < b < out@.len() ==> out@[a] != out@[b],
                    forall|l: Listener|
                        out@.contains(l) <==> (exists|k: int|
                            0 <= k < i && (#[trigger] self.modules@[k].required_spec()).contains(
                                l,
                            )) || (exists|jj: int| 0 <= jj < j && req@[jj] == l),
                decreases req@.len() - j,
            {
                let ghost prev = out@;
                if !contains_listener(&out, req[j]) {
                    out.push(req[j]);
                    proof {
                        assert forall|l: Listener|
                            out@.contains(l) <==> prev.contains(l) || req@[j as int] == l by {
                            if out@.contains(l) {
                                let k = choose|k: int|
                                    0 <= k < out@.len() && out@[k] == l;
                                if k < prev.len() {
                                    assert(prev[k] == l);
                                    assert(prev.contains(l));
                                } else {
                                    assert(out@[k] == req@[j as int]);
                                }
                            }
                            if prev.contains(l) {
                                let k = choose|k: int| 0 <= k < prev.len() && prev[k] == l;
                                assert(out@[k] == l);
                                assert(out@.contains(l));
                            }
                            if req@[j as int] == l {
                                assert(out@[out@.len() - 1] == l);
                                assert(out@.contains(l));
                            }
                        }
                    }
                } else {
                    proof {
                        assert(out@.contains(req@[j as int]));
                    }
                }
                proof {
                    assert forall|l: Listener|
                        out@.contains(l) <==> (exists|k: int|
                            0 <= k < i && (#[trigger] self.modules@[k].required_spec()).contains(
                                l,
                            )) || (exists|jj: int| 0 <= jj < j + 1 && req@[jj] == l) by {
                        let a_side = exists|k: int|
                            0 <= k < i && (#[trigger] self.modules@[k].required_spec()).contains(
                                l,
                            );
                        if out@.contains(l) {
                            if prev.contains(l) {
                                // the invariant for the processed part
                                if !a_side {
                                    let jj = choose|jj: int| 0 <= jj < j && req@[jj] == l;
                                    assert(0 <= jj < j + 1 && req@[jj] == l);
                                }
                            } else {
                                assert(l == req@[j as int]);
                                assert(0 <= j < j + 1 && req@[j as int] == l);
                            }
                        }
                        if exists|jj: int| 0 <= jj < j + 1 && req@[jj] == l {
                            let jj = choose|jj: int| 0 <= jj < j + 1 && req@[jj] == l;
                            if jj < j {
                                assert(prev.contains(l));
                                let k = choose|k: int| 0 <= k < prev.len() && prev[k] == l;
                                assert(out@[k] == l);
                                assert(out@.contains(l));
                            } else {
                                assert(req@[j as int] == l);
                                assert(out@.contains(l));
                            }
                        }
                        if a_side {
                            assert(prev.contains(l));
                            let k = choose|k: int| 0 <= k < prev.len() && prev[k] == l;
                            assert(out@[k] == l);
                            assert(out@.contains(l));
                        }
                    }
                }
                j = j + 1;
            }
            i = i + 1;
        }
        out
    }

    /// A read-only snapshot of the live modules, taken between dispatch steps;
    /// the render pass reads it.
    pub fn snapshot_for_render(&self) -> (r: &Vec<Module>)
        ensures
            r@ == self.modules@,
    {
        &self.modules
    }
}

/// Whether the fixed catalog knows a module identifier.
pub open spec fn catalog_has(id: Seq<char>) -> bool {
    ||| id == "battery"@
    ||| id == "cpu"@
    ||| id == "memory"@
    ||| id == "volume"@
    ||| id == "hyprland.workspaces"@
    ||| id == "hyprland.window"@
    ||| id == "wayfire.workspaces"@
}

/// Whether a module instance carries its construction-time default state:
/// zeroed readings and no overrides, until the first update or config read.
pub open spec fn module_defaulted(m: Module) -> bool {
    let e = crate::config::empty_override();
    match m {
        Module::Battery(b) => b.stats == crate::battery::zero_stats() && b.cfg_override == e,
        Module::Cpu(b) => b.usage == 0 && b.cfg_override == e,
        Module::Memory(b) => b.usage == 0 && b.cfg_override == e,
        Module::Volume(b) => b.level == 0 && !b.muted && b.cfg_override == e,
        Module::HyprWorkspaces(b) => b.active == 0 && b.open@.len() == 0 && b.cfg_override == e
            && b.active_color == (Rgba { red: 0, green: 0, blue: 0, alpha: 255 })
            && b.active_background == (Rgba { red: 255, green: 255, blue: 255, alpha: 128 }),
        Module::HyprWindow(b) => b.title is None && b.cfg_override == e,
        Module::WayfireWorkspaces(b) => b.active == (0i64, 0i64) && b.icons@.len() == 0
            && b.cfg_override == e,
    }
}

/// The catalog: construct the default instance of a module kind from its
/// stable identifier. Unknown identifiers construct nothing; the caller skips
/// them and reports.
pub fn construct(id: &str) -> (r: Option<Module>)
    ensures
        r is Some <==> catalog_has(id@),
        r is Some ==> r->0.id_spec() == id@ && module_defaulted(r->0),
{
    if str_eq(id, "battery") {
        Some(Module::Battery(BatteryMod::new()))
    } else if str_eq(id, "cpu") {
        Some(Module::Cpu(CpuMod::new()))
    } else if str_eq(id, "memory") {
        Some(Module::Memory(MemoryMod::new()))
    } else if str_eq(id, "volume") {
        Some(Module::Volume(VolumeMod::new()))
    } else if str_eq(id, "hyprland.workspaces") {
        Some(Module::HyprWorkspaces(HyprWorkspaceMod::new()))
    } else if str_eq(id, "hyprland.window") {
        Some(Module::HyprWindow(HyprWindowMod::new()))
    } else if str_eq(id, "wayfire.workspaces") {
        Some(Module::WayfireWorkspaces(WayfireWorkspaceMod::new()))
    } else {
        None
    }
}

proof fn lemma_index_of_id_props(s: Seq<Module>, id: Seq<char>)
    ensures
        index_of_id(s, id) >= 0 ==> 0 <= index_of_id(s, id) < s.len() && s[index_of_id(
            s,
            id,
        )].id_spec() == id,
    decreases s.len(),
{
    if s.len() > 0 && s[0].id_spec() != id {
        lemma_index_of_id_props(s.drop_first(), id);
    }
}

/// Whether some module in the sequence has the identifier.
pub open spec fn has_module(s: Seq<Module>, id: Seq<char>) -> bool {
    exists|k: int| 0 <= k < s.len() && (#[trigger] s[k]).id_spec() == id
}

impl Registry {
    /// Startup composition: construct one default instance per configured
    /// identifier the catalog knows, exactly one however often it is listed,
    /// and report the unknown identifiers in order, to be skipped with a
    /// diagnostic. The bar continues without them.
    #[verifier::loop_isolation(false)]
    pub fn from_ids(ids: &Vec<String>) -> (r: (Registry, Vec<String>))
        ensures
            r.0.wf(),
            forall|k: int|
                0 <= k < r.0.modules@.len() ==> module_defaulted(#[trigger] r.0.modules@[k])
                    && views(ids@).contains(r.0.modules@[k].id_spec()),
            forall|id: Seq<char>|
                views(ids@).contains(id) && catalog_has(id) ==> has_module(r.0.modules@, id),
            views(r.1@) == views(ids@).filter(|id: Seq<char>| !catalog_has(id)),
    {
        broadcast use vstd::seq_lib::group_seq_lib_default;

        let ghost pred = |id: Seq<char>| !catalog_has(id);
        let mut reg = Registry::new();
        let mut skipped: Vec<String> = Vec::new();
        let mut i: usize = 0;
        let n = ids.len();
        proof {
            reveal(Seq::filter);
            assert(views(ids@).take(0) =~= Seq::<Seq<char>>::empty());
            assert(views(skipped@) =~= views(ids@).take(0).filter(pred));
        }
        while i < n
            invariant
                n == ids@.len(),
                i <= n,
                reg.wf(),
                forall|k: int|
                    0 <= k < reg.modules@.len() ==> module_defaulted(#[trigger] reg.modules@[k])
                        && views(ids@).take(i as int).contains(reg.modules@[k].id_spec()),
                forall|id: Seq<char>|
                    views(ids@).take(i as int).contains(id) && catalog_has(id) ==> has_module(
                        reg.modules@,
                        id,
                    ),
                views(skipped@) == views(ids@).take(i as int).filter(pred),
            decreases n - i,
        {
            let ghost prev_take = views(ids@).take(i as int);
            let ghost cur = ids@[i as int]@;
            proof {
                assert(views(ids@).take(i + 1).drop_last() =~= prev_take);
                assert(views(ids@).take(i + 1).last() == cur);
                assert(forall|id: Seq<char>|
                    views(ids@).take(i + 1).contains(id) <==> prev_take.contains(id) || id
                        == cur) by {
                    assert(forall|k: int|
                        0 <= k < prev_take.len() ==> views(ids@).take(i + 1)[k] == prev_take[k]);
                }
            }
            match construct(ids[i].as_str()) {
                Some(m) => {
                    let ghost before = reg.modules@;
                    let ghost mid = m.id_spec();
                    reg.register(m);
                    proof {
                        lemma_index_of_id_props(before, mid);
                        let ix = index_of_id(before, mid);
                        if ix < 0 {
                            assert(reg.modules@ =~= before.push(m));
                        } else {
                            assert(reg.modules@ =~= before.update(ix, m));
                        }
                        assert(forall|id: Seq<char>|
                            has_module(before, id) ==> has_module(reg.modules@, id)) by {
                            assert forall|id: Seq<char>|
                                has_module(before, id) implies has_module(reg.modules@, id) by {
                                let k = choose|k: int|
                                    0 <= k < before.len() && (#[trigger] before[k]).id_spec()
                                        == id;
                                if ix >= 0 && k == ix {
                                    assert(reg.modules@[k].id_spec() == id);
                                } else {
                                    assert(reg.modules@[k].id_spec() == id);
                                }
                            }
                        }
                        assert(has_module(reg.modules@, cur)) by {
                            if ix < 0 {
                                assert(reg.modules@[reg.modules@.len() - 1].id_spec() == cur);
                            } else {
                                assert(reg.modules@[ix].id_spec() == cur);
                            }
                        }
                        assert(views(skipped@) =~= views(ids@).take(i + 1).filter(pred));
                    }
                },
                None => {
                    let ghost prev_skipped = views(skipped@);
                    skipped.push(ids[i].clone());
                    proof {
                        assert(views(skipped@) =~= prev_skipped.push(cur));
                        assert(views(ids@).take(i + 1).filter(pred) =~= prev_take.filter(
                            pred,
                        ).push(cur)) by {
                            assert(views(ids@).take(i + 1) =~= prev_take + seq![cur]);
                            Seq::filter_distributes_over_add(prev_take, seq![cur], pred);
                            assert(seq![cur].filter(pred) =~= seq![cur]) by {
                                reveal_with_fuel(Seq::filter, 2);
                                assert(seq![cur].drop_last() =~= Seq::<Seq<char>>::empty());
                            }
                        }
                    }
                },
            }
            i = i + 1;
        }
        proof {
            assert(views(ids@).take(n as int) =~= views(ids@));
        }
        (reg, skipped)
    }

    /// Apply a module's raw option section to the module with the given
    /// identifier; reports whether such a module is live. Called once per
    /// configured module at startup.
    #[verifier::loop_isolation(false)]
    #[verifier::rlimit(60)]
    pub fn configure(&mut self, id: &str, options: &OptionsMap) -> (r: bool)
        requires
            old(self).wf(),
        ensures
            r == has_module(old(self).modules@, id@),
            final(self).modules@.len() == old(self).modules@.len(),
            forall|k: int|
                0 <= k < final(self).modules@.len() && old(self).modules@[k].id_spec() != id@
                    ==> final(self).modules@[k] == old(self).modules@[k],
            forall|k: int|
                0 <= k < final(self).modules@.len() && old(self).modules@[k].id_spec() == id@
                    ==> config_applied(
                    old(self).modules@[k],
                    #[trigger] final(self).modules@[k],
                    options@,
                ),
            final(self).wf(),
    {
        let n = self.modules.len();
        let mut i: usize = 0;
        while i < n
            invariant
                n == self.modules@.len(),
                i <= n,
                forall|k: int| i <= k < n ==> self.modules@[k] == old(self).modules@[k],
                forall|k: int|
                    0 <= k < i ==> (#[trigger] self.modules@[k]) == old(self).modules@[k] && old(
                        self,
                    ).modules@[k].id_spec() != id@,
            decreases n - i,
        {
            let mid = self.modules[i].id();
            if str_eq(mid.as_str(), id) {
                let ghost before = self.modules@;
                let mut mcur = self.modules.remove(i);
                mcur.read_config(options);
                self.modules.insert(i, mcur);
                proof {
                    assert(self.modules@ =~= before.update(i as int, self.modules@[i as int]));
                    assert(config_applied(
                        before[i as int],
                        self.modules@[i as int],
                        options@,
                    ));
                    assert(has_module(old(self).modules@, id@)) by {
                        assert(old(self).modules@[i as int].id_spec() == id@);
                    }
                    assert(forall|a: int, b: int|
                        0 <= a < b < self.modules@.len() ==> self.modules@[a].id_spec()
                            == old(self).modules@[a].id_spec() && self.modules@[b].id_spec()
                            == old(self).modules@[b].id_spec());
                }
                return true;
            }
            proof {
                assert(self.modules@[i as int].id_spec() == mid@);
                assert(self.modules@[i as int] == old(self).modules@[i as int]);
                assert(old(self).modules@[i as int].id_spec() != id@);
            }
            i = i + 1;
        }
        proof {
            assert(!has_module(old(self).modules@, id@)) by {
                if has_module(old(self).modules@, id@) {
                    let k = choose|k: int|
                        0 <= k < old(self).modules@.len() && (#[trigger] old(
                            self,
                        ).modules@[k]).id_spec() == id@;
                    assert(self.modules@[k] == old(self).modules@[k]);
                }
            }
        }
        false
    }
}

/// One event observed by a shared listener, to be broadcast to every module
/// that declared the listener's capability.
pub enum ListenerEvent {
    HyprWorkspacesChanged(usize, Vec<WorkspaceInfo>),
    WindowChanged(Option<String>),
    WayfireActiveChanged(i64, i64),
}

/// The capability tag of the listener that emits this event.
pub open spec fn event_listener(e: ListenerEvent) -> Listener {
    match e {
        ListenerEvent::HyprWorkspacesChanged(_, _) => Listener::Hyprland,
        ListenerEvent::WindowChanged(_) => Listener::Hyprland,
        ListenerEvent::WayfireActiveChanged(_, _) => Listener::Wayfire,
    }
}

/// The update command view an event turns into. An overlong window title is
/// shortened before it is broadcast.
pub open spec fn event_cmd_view(e: ListenerEvent) -> CommandView {
    match e {
        ListenerEvent::HyprWorkspacesChanged(a, list) => CommandView::HyprWorkspaces(
            a,
            ws_views(list@),
        ),
        ListenerEvent::WindowChanged(t) => CommandView::Window(
            match t {
                Some(s) => Some(crate::hyprland::truncate_spec(s@)),
                None => None,
            },
        ),
        ListenerEvent::WayfireActiveChanged(x, y) => CommandView::WayfireActive(x, y),
    }
}

/// Turn an event into the update command it carries.
fn event_command(e: &ListenerEvent) -> (r: UpdateCommand)
    ensures
        cmd_view(r) == event_cmd_view(*e),
{
    match e {
        ListenerEvent::HyprWorkspacesChanged(a, list) => {
            let copied = copy_workspaces(list);
            UpdateCommand::HyprWorkspaces(*a, copied)
        },
        ListenerEvent::WindowChanged(t) => {
            let shortened: Option<String> = match t {
                Some(s) => Some(crate::hyprland::truncate_title(s.as_str())),
                None => None,
            };
            UpdateCommand::Window(shortened)
        },
        ListenerEvent::WayfireActiveChanged(x, y) => UpdateCommand::WayfireActive(*x, *y),
    }
}

impl Registry {
    /// Broadcast one listener event: one update command per module that
    /// declared the listener's capability, addressed in registry order. Every
    /// declaring module receives every event, and the order across modules is
    /// the same for every event.
    #[verifier::loop_isolation(false)]
    pub fn broadcast(&self, e: &ListenerEvent) -> (r: Vec<(String, UpdateCommand)>)
        ensures
            r@.len() == requiring_ids(self.modules@, event_listener(*e)).len(),
            forall|k: int|
                0 <= k < r@.len() ==> (#[trigger] r@[k]).0@ == requiring_ids(
                    self.modules@,
                    event_listener(*e),
                )[k] && cmd_view(r@[k].1) == event_cmd_view(*e),
    {
        let mut out: Vec<(String, UpdateCommand)> = Vec::new();
        let mut i: usize = 0;
        let n = self.modules.len();
        proof {
            assert(self.modules@.take(0) =~= Seq::<Module>::empty());
        }
        while i < n
            invariant
                n == self.modules@.len(),
                i <= n,
                out@.len() == requiring_ids(
                    self.modules@.take(i as int),
                    event_listener(*e),
                ).len(),
                forall|k: int|
                    0 <= k < out@.len() ==> (#[trigger] out@[k]).0@ == requiring_ids(
                        self.modules@.take(i as int),
                        event_listener(*e),
                    )[k] && cmd_view(out@[k].1) == event_cmd_view(*e),
            decreases n - i,
        {
            let ghost l = event_listener(*e);
            let ghost prev_ids = requiring_ids(self.modules@.take(i as int), l);
            proof {
                assert(self.modules@.take(i + 1).drop_last() =~= self.modules@.take(i as int));
                assert(self.modules@.take(i + 1).last() == self.modules@[i as int]);
            }
            let req = self.modules[i].required_listeners();
            let is_hypr = match e {
                ListenerEvent::HyprWorkspacesChanged(_, _) => true,
                ListenerEvent::WindowChanged(_) => true,
                ListenerEvent::WayfireActiveChanged(_, _) => false,
            };
            let tag = if is_hypr {
                Listener::Hyprland
            } else {
                Listener::Wayfire
            };
            proof {
                assert(tag == l);
            }
            if contains_listener(&req, tag) {
                let id = self.modules[i].id();
                let cmd = event_command(e);
                let ghost idv = id@;
                out.push((id, cmd));
                proof {
                    assert(requiring_ids(self.modules@.take(i + 1), l) == prev_ids.push(idv));
                    assert(forall|k: int|
                        0 <= k < prev_ids.len() ==> prev_ids.push(idv)[k] == prev_ids[k]);
                    assert(out@[out@.len() - 1].0@ == idv);
                }
            }
            i = i + 1;
        }
        proof {
            assert(self.modules@.take(n as int) =~= self.modules@);
        }
        out
    }
}

/// Copy a workspace list element by element.
fn copy_workspaces(list: &Vec<WorkspaceInfo>) -> (r: Vec<WorkspaceInfo>)
    ensures
        r@ == list@,
{
    let mut copied: Vec<WorkspaceInfo> = Vec::new();
    let mut k: usize = 0;
    while k < list.len()
        invariant
            k <= list@.len(),
            copied@.len() == k,
            forall|t: int| 0 <= t < k ==> copied@[t] == list@[t],
        decreases list@.len() - k,
    {
        copied.push(
            WorkspaceInfo {
                id: list[k].id,
                name: list[k].name.clone(),
                fullscreen: list[k].fullscreen,
            },
        );
        k = k + 1;
    }
    proof {
        assert(copied@ =~= list@);
    }
    copied
}

/// Exec counterpart of `apply_to_state`, on the module itself.
fn apply_command(m: Module, c: &UpdateCommand) -> (r: Module)
    ensures
        r.state() == apply_to_state(m.state(), cmd_view(*c)),
        r.id_spec() == m.id_spec(),
{
    match (m, c) {
        (Module::Cpu(x), UpdateCommand::CpuUsage(u)) => Module::Cpu(
            CpuMod { usage: *u, cfg_override: x.cfg_override },
        ),
        (Module::Memory(x), UpdateCommand::MemoryUsage(u)) => Module::Memory(
            MemoryMod { usage: *u, cfg_override: x.cfg_override },
        ),
        (Module::Battery(x), UpdateCommand::Battery(s)) => Module::Battery(
            BatteryMod { stats: *s, cfg_override: x.cfg_override },
        ),
        (Module::Volume(x), UpdateCommand::Volume(l, mu)) => Module::Volume(
            VolumeMod { level: *l, muted: *mu, cfg_override: x.cfg_override },
        ),
        (Module::HyprWorkspaces(x), UpdateCommand::HyprWorkspaces(a, list)) => {
            let copied = copy_workspaces(list);
            Module::HyprWorkspaces(
                HyprWorkspaceMod {
                    active: *a,
                    open: copied,
                    cfg_override: x.cfg_override,
                    active_color: x.active_color,
                    active_background: x.active_background,
                },
            )
        },
        (Module::HyprWindow(x), UpdateCommand::Window(t)) => {
            let title: Option<String> = match t {
                Some(s) => Some(s.clone()),
                None => None,
            };
            Module::HyprWindow(HyprWindowMod { title, cfg_override: x.cfg_override })
        },
        (Module::WayfireWorkspaces(x), UpdateCommand::WayfireActive(cx, cy)) => Module::
        WayfireWorkspaces(
            WayfireWorkspaceMod {
                active: (*cx, *cy),
                icons: x.icons,
                cfg_override: x.cfg_override,
            },
        ),
        (m2, _) => m2,
    }
}

} // verus!
