use bar_core::battery::{battery_stats_of, BatteryIcon, BatteryMod, BatterySample, BatteryStats};
use bar_core::color::{parse_color, Rgba};
use bar_core::config::{resolve, GlobalConfig, OptionsMap};
use bar_core::cpu::{cpu_average, read_stats_from_line, CpuMod};
use bar_core::decimal::{i64_to_string, parse_i64, parse_u64, u64_to_string};
use bar_core::enabled_modules::EnabledModules;
use bar_core::hyprland::{
    arrange_workspaces, reserve_bar_space, truncate_title, HyprWorkspaceMod, OpenWorkspaces,
    WorkspaceInfo,
};
use bar_core::listener::Listener;
use bar_core::memory::MemoryMod;
use bar_core::registry::{construct, ListenerEvent, Module, Registry, UpdateCommand};
use bar_core::volume::{parse_volume_line, VolumeMod};
use bar_core::wayfire::{parse_coord, WayfireWorkspaceMod};
use configparser::ini::Ini;

fn ws(id: i64, name: &str) -> WorkspaceInfo {
    WorkspaceInfo { id, name: name.to_string(), fullscreen: false }
}

fn options(pairs: &[(&str, Option<&str>)]) -> OptionsMap {
    let mut m = OptionsMap::new();
    for (k, v) in pairs {
        m.insert(k.to_string(), v.map(|s| s.to_string()));
    }
    m
}

#[test]
fn number_rendering() {
    assert_eq!(u64_to_string(0).as_str(), "0");
    assert_eq!(u64_to_string(57).as_str(), "57");
    assert_eq!(u64_to_string(18446744073709551615).as_str(), "18446744073709551615");
    assert_eq!(i64_to_string(-42).as_str(), "-42");
    assert_eq!(i64_to_string(7).as_str(), "7");
}

#[test]
fn number_parsing() {
    assert_eq!(parse_u64("0"), Some(0));
    assert_eq!(parse_u64("4095"), Some(4095));
    assert_eq!(parse_u64(""), None);
    assert_eq!(parse_u64("12a"), None);
    assert_eq!(parse_u64("99999999999999999999999"), None);
    assert_eq!(parse_i64("-17"), Some(-17));
    assert_eq!(parse_i64("-"), None);
    assert_eq!(parse_i64("3"), Some(3));
}

#[test]
fn color_parsing() {
    assert_eq!(
        parse_color("#ff0080"),
        Some(Rgba { red: 255, green: 0, blue: 128, alpha: 255 })
    );
    assert_eq!(
        parse_color("#FF008040"),
        Some(Rgba { red: 255, green: 0, blue: 128, alpha: 64 })
    );
    assert_eq!(parse_color("ff0080"), None);
    assert_eq!(parse_color("#ff008"), None);
    assert_eq!(parse_color("#gg0080"), None);
}

// An unset option yields the global default; a set, valid option overrides
// it; a set, invalid option behaves as unset.
#[test]
fn override_resolution() {
    let global = GlobalConfig::standard();

    let unset = resolve(&options(&[]));
    assert_eq!(unset.icon_size, None);
    assert_eq!(unset.icon_color, None);

    let valid = resolve(&options(&[("icon_size", Some("42")), ("icon_color", Some("#102030"))]));
    assert_eq!(valid.icon_size, Some(42));
    assert_eq!(
        valid.icon_color,
        Some(Rgba { red: 16, green: 32, blue: 48, alpha: 255 })
    );

    let invalid = resolve(&options(&[("icon_size", Some("huge")), ("icon_color", Some("#nope"))]));
    assert_eq!(invalid.icon_size, None);
    assert_eq!(invalid.icon_color, None);

    // the effective values in a rendered fragment follow the same rule
    let mut m = MemoryMod::new();
    m.read_config(&options(&[("icon_size", Some("42"))]));
    let frag = m.view(&global);
    assert_eq!(frag.icon_size, 42);
    assert_eq!(frag.font_size, global.font_size);
    assert_eq!(frag.icon_color, global.icon_color);
}

// Scenario: capacity=57, hours=2, minutes=30 must render "57%", "2h", "30min".
#[test]
fn battery_render_literal_parts() {
    let mut m = BatteryMod::new();
    m.stats = BatteryStats {
        capacity: 57,
        hours: 2,
        minutes: 30,
        power_now_is_zero: false,
        charging: false,
        icon: BatteryIcon::DischargingLow,
    };
    let frag = m.view(&GlobalConfig::standard());
    assert!(frag.text.contains("57%"));
    assert!(frag.text.contains("2h"));
    assert!(frag.text.contains("30min"));
    assert_eq!(frag.text.as_str(), "57% (2h 30min left)");
}

#[test]
fn battery_render_unknown_time() {
    let mut m = BatteryMod::new();
    m.stats = BatteryStats {
        capacity: 80,
        hours: 0,
        minutes: 0,
        power_now_is_zero: true,
        charging: false,
        icon: BatteryIcon::DischargingHigh,
    };
    let frag = m.view(&GlobalConfig::standard());
    assert_eq!(frag.text.as_str(), "80% (unknown)");
}

#[test]
fn battery_aggregation() {
    // one battery at half charge, discharging: 1000 µWh left at 400 µW
    let samples = vec![BatterySample {
        energy_now: 1000,
        energy_full: 2000,
        power_now: 400,
        voltage_now: 5,
        charging: false,
    }];
    let stats = battery_stats_of(&samples);
    assert_eq!(stats.capacity, 50);
    assert_eq!(stats.hours, 2);
    assert_eq!(stats.minutes, 30);
    assert!(!stats.power_now_is_zero);
    assert!(!stats.charging);
    assert_eq!(stats.icon, BatteryIcon::DischargingLow);
}

#[test]
fn battery_zero_power_sentinel() {
    let samples = vec![BatterySample {
        energy_now: 1,
        energy_full: 4,
        power_now: 0,
        voltage_now: 0,
        charging: false,
    }];
    let stats = battery_stats_of(&samples);
    assert_eq!(stats.capacity, 25);
    assert!(stats.power_now_is_zero);
    assert_eq!(stats.hours, 0);
    assert_eq!(stats.minutes, 0);
    assert_eq!(stats.icon, BatteryIcon::DischargingLow);
}

#[test]
fn proc_stat_parsing() {
    let line = "cpu  10 20 30 40 50 60 70 0 0 0";
    let (active, total) = read_stats_from_line(line).unwrap();
    assert_eq!(active, 10 + 20 + 30 + 60 + 70);
    assert_eq!(total, active + 40 + 50);
    assert_eq!(read_stats_from_line("cpu 1 2 3"), None);
    assert_eq!(read_stats_from_line("cpu a b c d e f g"), None);
}

#[test]
fn cpu_averaging() {
    let active = vec![100, 150, 200];
    let total = vec![1000, 1500, 2000];
    // 100 active ticks out of 1000 total ticks
    assert_eq!(cpu_average(&active, &total), 10);
    let flat = vec![5, 5, 5];
    assert_eq!(cpu_average(&flat, &flat), 0);
}

#[test]
fn volume_line_parsing() {
    assert_eq!(parse_volume_line("Volume: 1.05 [MUTED]"), Some((105, true)));
    assert_eq!(parse_volume_line("Volume: 0.50"), Some((50, false)));
    assert_eq!(parse_volume_line("Volume: 1"), Some((100, false)));
    // a line without the expected prefix degrades to the zero sentinel
    assert_eq!(parse_volume_line("no volume here"), Some((0, false)));
    // a malformed number is a parse failure
    assert_eq!(parse_volume_line("Volume: x.y"), None);
}

#[test]
fn volume_render() {
    let mut m = VolumeMod::new();
    m.level = 55;
    let frag = m.view(&GlobalConfig::standard());
    assert_eq!(frag.text.as_str(), "55%");
    assert_eq!(frag.icon.as_str(), "\u{f057e}");
    m.muted = true;
    let frag = m.view(&GlobalConfig::standard());
    assert_eq!(frag.icon.as_str(), "\u{f0581}");
}

#[test]
fn workspace_arrangement() {
    let list = vec![ws(3, "three"), ws(1, "one"), ws(2, "two")];
    let (active, sorted) = arrange_workspaces(list, 2);
    assert_eq!(active, 1);
    let names: Vec<&str> = sorted.iter().map(|w| w.name.as_str()).collect();
    assert_eq!(names, vec!["one", "two", "three"]);

    // an absent active id falls back to the first position
    let list = vec![ws(5, "five")];
    let (active, _) = arrange_workspaces(list, 9);
    assert_eq!(active, 0);
}

#[test]
fn open_workspaces_ordering() {
    let list = vec![ws(2, "b"), ws(1, "a")];
    let open = OpenWorkspaces::from_list(list, 0);
    assert_eq!(open.active, 0);
    let names: Vec<&str> = open.open.iter().map(|s| s.as_str()).collect();
    assert_eq!(names, vec!["a", "b"]);
}

#[test]
fn title_truncation() {
    assert_eq!(truncate_title("short title").as_str(), "short title");
    let long = "a very long window title that keeps going";
    let cut = truncate_title(long);
    assert_eq!(cut.as_str(), format!("{}...", &long[..22]));
    assert_eq!(cut.chars().count(), 25);
}

#[test]
fn space_reservation_directive() {
    let (keyword, value) = reserve_bar_space();
    assert_eq!(keyword.as_str(), "monitor");
    assert_eq!(value.as_str(), "eDP-1, addreserved, 30, 0, 0, 0");
}

#[test]
fn hyprland_highlight_config() {
    let mut m = HyprWorkspaceMod::new();
    m.read_config(&options(&[("active_color", Some("#112233"))]));
    assert_eq!(m.active_color, Rgba { red: 17, green: 34, blue: 51, alpha: 255 });
    // an invalid color keeps the previous highlight
    let kept = m.active_background;
    m.read_config(&options(&[("active_background", Some("oops"))]));
    assert_eq!(m.active_background, kept);
}

#[test]
fn hyprland_span_rendering() {
    let mut m = HyprWorkspaceMod::new();
    m.open = vec![ws(1, "one"), ws(2, "two")];
    m.active = 1;
    let spans = m.view(&GlobalConfig::standard());
    assert_eq!(spans.len(), 2);
    assert_eq!(spans[0].label.as_str(), "one");
    assert!(!spans[0].highlighted);
    assert!(spans[1].highlighted);
}

#[test]
fn coordinate_parsing() {
    assert_eq!(parse_coord("(1, 2)"), Some((1, 2)));
    assert_eq!(parse_coord("(-3,4)"), Some((-3, 4)));
    assert_eq!(parse_coord("1, 2"), None);
    assert_eq!(parse_coord("(1, 2, 3)"), None);
    assert_eq!(parse_coord("(a, b)"), None);
}

#[test]
fn wayfire_labels() {
    let mut m = WayfireWorkspaceMod::new();
    m.read_config(&options(&[("(1, 2)", Some("work"))]));
    m.active = (1, 2);
    let frag = m.view(&GlobalConfig::standard());
    assert_eq!(frag.icon.as_str(), "work");
    // a cell without a configured label shows its coordinates
    m.active = (3, 4);
    let frag = m.view(&GlobalConfig::standard());
    assert_eq!(frag.icon.as_str(), "3/4");
}

#[test]
fn catalog_construction() {
    for id in [
        "battery",
        "cpu",
        "memory",
        "volume",
        "hyprland.workspaces",
        "hyprland.window",
        "wayfire.workspaces",
    ] {
        let m = construct(id).unwrap();
        assert_eq!(m.id().as_str(), id);
    }
    assert!(construct("nonsense").is_none());
    assert!(construct("").is_none());
}

// Unknown module ids are skipped with a diagnostic; the bar continues.
#[test]
fn registry_from_ids_skips_unknown() {
    let ids = vec!["cpu".to_string(), "nonsense".to_string(), "battery".to_string()];
    let (reg, skipped) = Registry::from_ids(&ids);
    assert_eq!(reg.modules.len(), 2);
    assert_eq!(skipped, vec!["nonsense".to_string()]);
}

// Exactly one live instance per configured module id, however often listed.
#[test]
fn registry_deduplicates_instances() {
    let ids = vec!["cpu".to_string(), "cpu".to_string(), "cpu".to_string()];
    let (reg, skipped) = Registry::from_ids(&ids);
    assert_eq!(reg.modules.len(), 1);
    assert!(skipped.is_empty());
}

// The registry's final state equals the sequential application of the
// commands in submission order, for each module independently.
#[test]
fn dispatch_is_sequential() {
    let ids = vec!["cpu".to_string(), "memory".to_string()];
    let (mut reg, _) = Registry::from_ids(&ids);
    let cmds = vec![
        UpdateCommand::CpuUsage(10),
        UpdateCommand::MemoryUsage(5),
        UpdateCommand::CpuUsage(30),
    ];
    reg.apply_all(&cmds);
    let snapshot = reg.snapshot_for_render();
    let mut cpu_usage = None;
    let mut mem_usage = None;
    for m in snapshot {
        match m {
            Module::Cpu(c) => cpu_usage = Some(c.usage),
            Module::Memory(me) => mem_usage = Some(me.usage),
            _ => {}
        }
    }
    assert_eq!(cpu_usage, Some(30));
    assert_eq!(mem_usage, Some(5));
}

// A command addressed to an absent module changes nothing.
#[test]
fn dispatch_ignores_absent_target() {
    let ids = vec!["cpu".to_string()];
    let (mut reg, _) = Registry::from_ids(&ids);
    reg.apply_all(&vec![UpdateCommand::MemoryUsage(77), UpdateCommand::CpuUsage(1)]);
    for m in reg.snapshot_for_render() {
        match m {
            Module::Cpu(c) => assert_eq!(c.usage, 1),
            _ => panic!("unexpected module"),
        }
    }
}

// Scenario: two modules declare a dependency on the Hyprland capability;
// starting the registry plans exactly one listener instance per capability.
#[test]
fn one_listener_per_capability() {
    let ids = vec![
        "hyprland.workspaces".to_string(),
        "hyprland.window".to_string(),
        "wayfire.workspaces".to_string(),
        "cpu".to_string(),
    ];
    let (reg, _) = Registry::from_ids(&ids);
    let plan = reg.plan_listeners();
    let hypr_count = plan.iter().filter(|l| **l == Listener::Hyprland).count();
    let wayfire_count = plan.iter().filter(|l| **l == Listener::Wayfire).count();
    assert_eq!(hypr_count, 1);
    assert_eq!(wayfire_count, 1);
    assert_eq!(plan.len(), 2);
    assert_eq!(reg.modules_requiring(Listener::Hyprland).len(), 2);

    // re-registering the declaring module must not add a second instance
    let (mut reg, _) = Registry::from_ids(&ids);
    reg.register(construct("hyprland.workspaces").unwrap());
    assert_eq!(
        reg.plan_listeners()
            .iter()
            .filter(|l| **l == Listener::Hyprland)
            .count(),
        1
    );
}

#[test]
fn no_listener_without_declaration() {
    let ids = vec!["cpu".to_string(), "battery".to_string()];
    let (reg, _) = Registry::from_ids(&ids);
    assert!(reg.plan_listeners().is_empty());
    assert!(reg.modules_requiring(Listener::Hyprland).is_empty());
}

// Every declaring module receives every broadcast event, in registry order.
#[test]
fn broadcast_reaches_declaring_modules() {
    let ids = vec![
        "cpu".to_string(),
        "hyprland.workspaces".to_string(),
        "hyprland.window".to_string(),
    ];
    let (reg, _) = Registry::from_ids(&ids);
    let event = ListenerEvent::HyprWorkspacesChanged(0, vec![ws(1, "one")]);
    let deliveries = reg.broadcast(&event);
    assert_eq!(deliveries.len(), 2);
    assert_eq!(deliveries[0].0.as_str(), "hyprland.workspaces");
    assert_eq!(deliveries[1].0.as_str(), "hyprland.window");
    match &deliveries[0].1 {
        UpdateCommand::HyprWorkspaces(active, list) => {
            assert_eq!(*active, 0);
            assert_eq!(list.len(), 1);
            assert_eq!(list[0].name.as_str(), "one");
        }
        _ => panic!("wrong command kind"),
    }
    assert_eq!(reg.modules_requiring(Listener::Hyprland).len(), 2);
}

// The window title flows from the listener event to the window module's
// render, shortened on the way when overlong.
#[test]
fn window_title_path() {
    let ids = vec!["hyprland.window".to_string()];
    let (mut reg, _) = Registry::from_ids(&ids);
    let long = "a very long window title that keeps going and going";
    let deliveries = reg.broadcast(&ListenerEvent::WindowChanged(Some(long.to_string())));
    assert_eq!(deliveries.len(), 1);
    assert_eq!(deliveries[0].0.as_str(), "hyprland.window");
    let cmds: Vec<UpdateCommand> = deliveries.into_iter().map(|(_, c)| c).collect();
    reg.apply_all(&cmds);
    for m in reg.snapshot_for_render() {
        match m {
            Module::HyprWindow(w) => {
                let frag = w.view(&GlobalConfig::standard());
                assert_eq!(frag.text.as_str(), format!("{}...", &long[..22]));
                assert_eq!(frag.text.chars().count(), 25);
            }
            _ => panic!("unexpected module"),
        }
    }
    // clearing the title clears the render
    reg.apply_all(&vec![UpdateCommand::Window(None)]);
    for m in reg.snapshot_for_render() {
        match m {
            Module::HyprWindow(w) => {
                assert!(w.view(&GlobalConfig::standard()).text.is_empty());
            }
            _ => panic!("unexpected module"),
        }
    }
}

#[test]
fn configure_targets_one_module() {
    let ids = vec!["cpu".to_string(), "memory".to_string()];
    let (mut reg, _) = Registry::from_ids(&ids);
    assert!(reg.configure("memory", &options(&[("icon_size", Some("33"))])));
    assert!(!reg.configure("battery", &options(&[])));
    for m in reg.snapshot_for_render() {
        match m {
            Module::Memory(me) => assert_eq!(me.cfg_override.icon_size, Some(33)),
            Module::Cpu(c) => assert_eq!(c.cfg_override.icon_size, None),
            _ => panic!("unexpected module"),
        }
    }
}

#[test]
fn enabled_modules_defaults_and_order() {
    let em = EnabledModules::standard();
    let all_owned = em.get_all();
    let all: Vec<&str> = all_owned.iter().map(|s| s.as_str()).collect::<Vec<_>>();
    assert_eq!(
        all,
        vec!["hyprland.workspaces", "hyprland.window", "time", "media", "volume", "cpu", "memory"]
    );
}

// Round trip: writing the enabled-module lists to the configuration source
// and re-reading reproduces them, order preserved per placement group.
#[test]
fn enabled_modules_round_trip() {
    let em = EnabledModules {
        left: vec!["hyprland.workspaces".to_string()],
        center: vec!["time".to_string(), "cpu".to_string()],
        right: vec!["volume".to_string(), "memory".to_string(), "battery".to_string()],
    };
    let mut ini = Ini::new();
    em.write_to_ini(&mut ini);
    // the value really went through the store
    assert_eq!(
        ini.get("modules", "right").as_deref(),
        Some("volume, memory, battery")
    );
    let back = EnabledModules::from_ini(&ini);
    assert_eq!(back.left, em.left);
    assert_eq!(back.center, em.center);
    assert_eq!(back.right, em.right);
}

// Scenario: a modules section with only `left` set; the other groups keep
// their defaults, and an unconfigured battery module renders with the
// defaults and its zero-initialized state.
#[test]
fn sparse_config_uses_defaults() {
    let mut ini = Ini::new();
    ini.read("[modules]\nleft = hyprland.workspaces\n".to_string()).unwrap();
    let em = EnabledModules::from_ini(&ini);
    assert_eq!(em.left, vec!["hyprland.workspaces".to_string()]);
    assert_eq!(em.center, vec!["time".to_string()]);
    assert_eq!(
        em.right,
        vec![
            "media".to_string(),
            "volume".to_string(),
            "cpu".to_string(),
            "memory".to_string()
        ]
    );

    // no battery section anywhere: the battery module keeps every default
    let battery = construct("battery").unwrap();
    match battery {
        Module::Battery(b) => {
            assert_eq!(b.stats.capacity, 0);
            assert_eq!(b.stats.hours, 0);
            assert_eq!(b.stats.minutes, 0);
            let global = GlobalConfig::standard();
            let frag = b.view(&global);
            assert_eq!(frag.icon_color, global.icon_color);
            assert_eq!(frag.text_color, global.text_color);
            assert_eq!(frag.icon_size, global.icon_size);
            assert_eq!(frag.font_size, global.font_size);
            assert_eq!(frag.spacing, global.spacing);
            assert!(frag.text.contains("0%"));
            // no icon is shown until the producer's first successful read
            assert_eq!(b.stats.icon, BatteryIcon::Unread);
            assert!(frag.icon.is_empty());
        }
        _ => panic!("wrong module kind"),
    }
}

#[test]
fn cpu_fragment_icon_and_text() {
    let mut m = CpuMod::new();
    m.usage = 57;
    let frag = m.view(&GlobalConfig::standard());
    assert_eq!(frag.text.as_str(), "57%");
    assert_eq!(frag.icon.as_str(), "\u{f0ee0}");
    let mem = MemoryMod::new().view(&GlobalConfig::standard());
    assert_eq!(mem.icon.as_str(), "\u{f035b}");
}

#[test]
fn list_values_are_trimmed() {
    let mut ini = Ini::new();
    ini.read("[modules]\nleft =  cpu ,   memory\n".to_string()).unwrap();
    let em = EnabledModules::from_ini(&ini);
    assert_eq!(em.left, vec!["cpu".to_string(), "memory".to_string()]);
}

#[test]
fn store_wrappers_reach_the_store() {
    let mut ini = bar_core::enabled_modules::ini_new();
    bar_core::enabled_modules::ini_set(&mut ini, "modules", "left", Some("cpu".to_string()));
    assert_eq!(
        bar_core::enabled_modules::ini_get(&ini, "modules", "left"),
        Some("cpu".to_string())
    );
    // a key stored without a value reads back as absent
    bar_core::enabled_modules::ini_set(&mut ini, "modules", "left", None);
    assert_eq!(bar_core::enabled_modules::ini_get(&ini, "modules", "left"), None);
    assert_eq!(bar_core::enabled_modules::ini_get(&ini, "modules", "right"), None);
}

#[test]
fn size_override_boundaries() {
    let m = resolve(&options(&[("icon_size", Some("4294967295"))]));
    assert_eq!(m.icon_size, Some(u32::MAX));
    let over = resolve(&options(&[("icon_size", Some("4294967296"))]));
    assert_eq!(over.icon_size, None);
}
