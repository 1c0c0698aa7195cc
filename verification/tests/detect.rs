use moonclip::detect::auto::{
    auto_game, decide, effective_duration, is_playable, pick_game, AutoAction, AutoGame, AutoInput,
    AutoState,
};
use moonclip::detect::icons::{cache_icon, icon_path, icon_place, load_tray_icon, plan_icon};
use moonclip::detect::matcher::{best_custom, strategy_matches, with_custom, CustomApp};
use moonclip::detect::parsers::{
    add_path, is_blacklisted, is_manifest_name, is_minecraft_java, is_wine_helper, looks_like_wine,
    parse_acf, parse_flatpak_id, parse_heroic_installed, parse_libraryfolders,
    parse_prism_game_dir, parse_prism_instance_cfg, parse_steam_appid_env, prism_name,
    title_from_exe, unescape, wine_exe_from_cmdline,
};
use moonclip::detect::resolve::{
    exe_key, lookups_stale, resolve, resolve_all, steam_key, wine_key, Lookups, ResolvedCandidate,
    SRC_CUSTOM, SRC_FALLBACK, SRC_HEROIC, SRC_PRISM, SRC_STEAM, SRC_WINE,
};
use moonclip::detect::tick::{
    apply_registrations, detect_tick, game_context, running_applications, DetectState,
};
use moonclip::detect::types::{CandidateProcess, SourceKind, WindowInfo};
use moonclip::settings::TextMap;
use std::collections::hash_map::DefaultHasher;
use std::collections::HashMap;
use std::hash::{Hash, Hasher};

fn game(key: &str) -> AutoGame {
    AutoGame {
        key: key.to_string(),
        title: "Game".to_string(),
        known: true,
        auto_buffer: true,
    }
}

fn seen(now_ms: i64, detected: Option<&AutoGame>, buffer_running: bool) -> AutoInput<'_> {
    AutoInput {
        now_ms,
        detected,
        buffer_running,
    }
}

#[test]
fn starts_only_after_the_debounce() {
    let mut s = AutoState::default();
    let g = game("steam:1");
    assert_eq!(decide(&mut s, seen(0, Some(&g), false)), AutoAction::Wait);
    assert_eq!(decide(&mut s, seen(2_999, Some(&g), false)), AutoAction::Wait);
    assert_eq!(decide(&mut s, seen(3_000, Some(&g), false)), AutoAction::Start);
    assert!(s.auto_started);
}

#[test]
fn game_switch_restarts_the_debounce() {
    let mut s = AutoState::default();
    let a = game("steam:1");
    let b = game("steam:2");
    assert_eq!(decide(&mut s, seen(0, Some(&a), false)), AutoAction::Wait);
    assert_eq!(decide(&mut s, seen(2_000, Some(&b), false)), AutoAction::Wait);
    assert_eq!(decide(&mut s, seen(4_000, Some(&b), false)), AutoAction::Wait);
    assert_eq!(decide(&mut s, seen(5_000, Some(&b), false)), AutoAction::Start);
}

#[test]
fn stops_only_auto_sessions_after_the_debounce() {
    let mut s = AutoState {
        auto_started: true,
        ..Default::default()
    };
    assert_eq!(decide(&mut s, seen(0, None, true)), AutoAction::Wait);
    assert_eq!(decide(&mut s, seen(6_999, None, true)), AutoAction::Wait);
    assert_eq!(decide(&mut s, seen(7_000, None, true)), AutoAction::Stop);
    assert!(!s.auto_started);
}

#[test]
fn a_released_session_is_the_users() {
    let mut s = AutoState {
        auto_started: true,
        ..Default::default()
    };
    s.release();
    assert_eq!(decide(&mut s, seen(0, None, true)), AutoAction::Wait);
    assert_eq!(decide(&mut s, seen(60_000, None, true)), AutoAction::Wait);
}

#[test]
fn manual_sessions_are_never_stopped_nor_double_started() {
    let mut s = AutoState::default(); // auto_started = false
    let g = game("steam:1");
    assert_eq!(decide(&mut s, seen(0, Some(&g), true)), AutoAction::Wait);
    assert_eq!(decide(&mut s, seen(60_000, None, true)), AutoAction::Wait);
}

#[test]
fn duration_precedence_is_override_game_global() {
    assert_eq!(effective_duration(Some(15), Some(45), 30), 15);
    assert_eq!(effective_duration(None, Some(45), 30), 45);
    assert_eq!(effective_duration(None, None, 30), 30);
    assert_eq!(effective_duration(None, None, 1), 5);
    assert_eq!(effective_duration(None, None, 99_999), 3600);
}

#[test]
fn unknown_or_disabled_games_never_start() {
    let mut s = AutoState::default();
    let unknown = AutoGame {
        key: "exe:foo".into(),
        title: "Foo".into(),
        known: false,
        auto_buffer: true,
    };
    let disabled = AutoGame {
        key: "steam:9".into(),
        title: "Off".into(),
        known: true,
        auto_buffer: false,
    };
    for g in [&unknown, &disabled] {
        for now in [0, 60_000] {
            assert_eq!(decide(&mut s, seen(now, Some(g), false)), AutoAction::Wait);
        }
    }
}

fn app(strategy: &str, target: &str) -> CustomApp {
    CustomApp {
        id: "row-1".to_string(),
        display_name: "Mi Juego".to_string(),
        target_exe: target.to_string(),
        match_strategy: strategy.to_string(),
        clip_duration_seconds: Some(45),
        icon_path: None,
        is_wine_proton: false,
        game_key: None,
        capture_mode: "window".to_string(),
        source_kind: Some("x11".to_string()),
        window_match: None,
        portal_token: None,
        auto_buffer: false,
        last_seen_ms: None,
    }
}

fn terraria() -> CandidateProcess {
    CandidateProcess {
        pid: 42,
        ppid: 1,
        exe: "/games/Terraria".to_string(),
        comm: "Terraria".to_string(),
        cmdline: vec!["./Terraria".to_string()],
        uses_gpu: true,
        is_wine: false,
        flatpak_id: None,
        steam_app_id: None,
        window: None,
    }
}

/// The process of `terraria`, with a window of its own.
fn shown() -> CandidateProcess {
    let mut c = terraria();
    c.pid = 7;
    c.window = Some(WindowInfo {
        id: 9,
        name: "Terraria 1.4".to_string(),
        class: "terraria".to_string(),
        wm_pid: 7,
    });
    c
}

fn window() -> WindowInfo {
    WindowInfo {
        id: 0x3a00007,
        name: "Terraria".to_string(),
        class: "terraria".to_string(),
        wm_pid: 42,
    }
}

fn strings(v: &[&str]) -> Vec<String> {
    v.iter().map(|s| s.to_string()).collect()
}

#[test]
fn every_strategy_matches_its_process_shape() {
    let c = shown();
    assert!(strategy_matches(&app("exact_exe", "terraria"), &c));
    assert!(strategy_matches(&app("exact_exe", "/games/Terraria"), &c));
    assert!(strategy_matches(&app("cmdline_contains", "./terraria"), &c));
    assert!(strategy_matches(&app("window_title", "terraria 1.4"), &c));
    assert!(!strategy_matches(&app("window_title", "otro"), &c));

    let mut steam = shown();
    steam.steam_app_id = Some(105600);
    assert!(strategy_matches(&app("steam_appid", "105600"), &steam));
    assert!(!strategy_matches(&app("steam_appid", "570"), &steam));

    let mut prism = shown();
    prism.cmdline = strings(&[
        "java",
        "--gameDir",
        "/instances/MiMundo",
        "net.minecraft.client.main.Main",
    ]);
    assert!(strategy_matches(&app("prism_instance", "mimundo"), &prism));

    let mut wine = shown();
    wine.is_wine = true;
    wine.cmdline = strings(&["Z:\\games\\eldenring.exe"]);
    assert!(strategy_matches(&app("wine_target", "eldenring.exe"), &wine));
    assert!(!strategy_matches(&app("wine_target", "terraria.exe"), &wine));

    // Auto-created rows never match as rules.
    assert!(!strategy_matches(&app("auto", "terraria"), &c));
}

#[test]
fn precedence_prefers_exact_exe_over_title() {
    let c = shown();
    let loose = app("window_title", "terraria");
    let strict = app("exact_exe", "terraria");
    let apps = vec![loose, strict];
    let best = best_custom(&apps, &c).unwrap();
    assert_eq!(best.match_strategy, "exact_exe");
}

#[test]
fn the_registered_game_is_one_of_the_rows() {
    let c = shown();
    let mut first = app("exact_exe", "terraria");
    first.capture_mode = "screen".to_string();
    first.last_seen_ms = Some(7);
    let mut second = app("exact_exe", "terraria");
    second.id = "row-2".to_string();
    let apps = vec![app("window_title", "terraria"), first, second];
    let best = best_custom(&apps, &c).unwrap();
    assert!(std::ptr::eq(best, &apps[1]));
    assert_eq!((best.capture_mode.as_str(), best.last_seen_ms), ("screen", Some(7)));
    assert!(best_custom(&[app("auto", "terraria"), app("exact_exe", "other")], &c).is_none());
}

#[test]
fn with_custom_overrides_title_and_prefs() {
    let c = shown();
    let steam: HashMap<u32, String> = HashMap::new();
    let texts = TextMap::new();
    let lookups = Lookups {
        steam_names: &steam,
        heroic_titles: &texts,
        prism_names: &texts,
    };
    let base = resolve(&c, &lookups);
    assert!(!base.registered);

    let apps = vec![app("exact_exe", "terraria")];
    let over = with_custom(base, &c, &apps);
    assert_eq!(over.title, "Mi Juego");
    assert_eq!(over.source, SRC_CUSTOM);
    assert!(over.registered);
    assert_eq!(over.custom_id.as_deref(), Some("row-1"));
    assert!(!over.auto_buffer);
    assert_eq!(over.clip_duration_seconds, Some(45));
}

#[test]
fn blacklist_covers_our_engine_and_browsers() {
    assert!(is_blacklisted("moonclip-engine"));
    assert!(is_blacklisted("/usr/lib/MoonClip/moonclip-mux"));
    assert!(is_blacklisted("firefox"));
    assert!(is_blacklisted("kwin_wayland"));
    assert!(is_blacklisted("discord"));
    assert!(is_blacklisted("xdg-desktop-portal-kde"));
    assert!(is_blacklisted("plasma-keyboard"));
    assert!(is_blacklisted("steam"));
    assert!(!is_blacklisted("eldenring.exe"));
    assert!(!is_blacklisted("Terraria"));
}

#[test]
fn wine_detection_is_strict() {
    assert!(looks_like_wine("/usr/bin/wine-preloader", &vec![]));
    assert!(looks_like_wine("/usr/bin/wine64", &vec![]));
    assert!(looks_like_wine(
        "/usr/lib/pressure-vessel/from-host/bin/pressure-vessel-wrap",
        &vec![]
    ));
    assert!(looks_like_wine("Z:\\game.exe", &vec![]));
    assert!(looks_like_wine("/bin/sh", &strings(&["game.exe"])));
    assert!(!looks_like_wine(
        "/bin/bash",
        &strings(&["bash", "-c", "echo wine is nice"])
    ));
    assert!(!looks_like_wine("/games/Terraria", &strings(&["./Terraria"])));
}

#[test]
fn wine_helpers_are_not_games() {
    assert!(is_wine_helper("/games/winedevice.exe"));
    assert!(is_wine_helper("services.exe"));
    assert!(!is_wine_helper("/games/eldenring.exe"));
    let args = strings(&["Z:\\game.exe", "/path/gamemoderun", "eldenring.exe", "-novid"]);
    assert_eq!(wine_exe_from_cmdline(&args).as_deref(), Some("Z:\\game.exe"));
}

#[test]
fn steam_env_and_flatpak_cgroup() {
    let environ = b"PATH=/usr/bin\0SteamAppId=570\0SteamGameId=570\0";
    assert_eq!(parse_steam_appid_env(environ), Some(570));
    assert_eq!(parse_steam_appid_env(b"PATH=/usr/bin\0"), None);
    let cgroup = "0::/user.slice/user-1000.slice/app-flatpak-com.valvesoftware.Steam-123.scope";
    assert_eq!(
        parse_flatpak_id(cgroup).as_deref(),
        Some("com.valvesoftware.Steam")
    );
    assert_eq!(parse_flatpak_id("0::/user.slice/user-1000.slice"), None);
}

#[test]
fn acf_parses_id_and_name() {
    let acf = r#"
"AppState"
{
	"appid"		"105600"
	"name"		"Terraria"
	"installdir"		"Terraria"
}
"#;
    assert_eq!(parse_acf(acf), Some((105600, "Terraria".to_string())));
    assert_eq!(parse_acf("nonsense"), None);
}

#[test]
fn libraryfolders_parses_paths() {
    let text = r#"
"libraryfolders"
{
	"0"
	{
		"path"		"/home/u/.steam/steam"
	}
	"1"
	{
		"path"		"/mnt/games/Steam"
	}
}
"#;
    assert_eq!(
        parse_libraryfolders(text),
        vec!["/home/u/.steam/steam", "/mnt/games/Steam"]
    );
}

#[test]
fn prism_and_minecraft() {
    assert_eq!(
        parse_prism_instance_cfg("InstanceType=OneSix\nname=Fabulously Optimized\n"),
        Some("Fabulously Optimized".to_string())
    );
    let args = strings(&[
        "java",
        "-Xmx4G",
        "--gameDir",
        "/home/u/.var/app/org.prismlauncher.PrismLauncher/data/PrismLauncher/instances/MiMundo",
        "net.minecraft.client.main.Main",
    ]);
    assert_eq!(parse_prism_game_dir(&args).as_deref(), Some("MiMundo"));
    assert!(is_minecraft_java(&args));
}

#[test]
fn heroic_installed_json() {
    let json = r#"{
        "Terraria": { "title": "Terraria", "executable": "Terraria.exe" },
        "Empty": { "title": "" }
    }"#;
    assert_eq!(
        parse_heroic_installed(json, "Terraria"),
        Some(("Terraria".to_string(), Some("Terraria.exe".to_string())))
    );
    assert_eq!(parse_heroic_installed(json, "Nope"), None);
}

#[test]
fn titles_are_humanized() {
    assert_eq!(title_from_exe("Z:\\games\\eldenring.exe"), "Eldenring");
    assert_eq!(title_from_exe("/opt/game/My_Cool-Game"), "My Cool Game");
}

#[test]
fn steam_wins_over_generic() {
    let mut names = HashMap::new();
    names.insert(105600, "Terraria".to_string());
    let heroic = TextMap::new();
    let prism = TextMap::new();
    let lookups = Lookups {
        steam_names: &names,
        heroic_titles: &heroic,
        prism_names: &prism,
    };
    let mut c = terraria();
    c.steam_app_id = Some(105600);
    c.window = Some(window());
    let r = resolve(&c, &lookups);
    assert_eq!(r.title, "Terraria");
    assert_eq!(r.game_key, "steam:105600");
    assert_eq!(r.source, SRC_STEAM);
    assert_eq!(
        r.window_match.as_deref(),
        Some("60817415\r\nTerraria\r\nterraria")
    );
}

#[test]
fn wine_and_heroic_paths() {
    let steam = HashMap::new();
    let mut heroic = TextMap::new();
    heroic.insert("eldenring.exe".to_string(), "ELDEN RING".to_string());
    let prism = TextMap::new();
    let lookups = Lookups {
        steam_names: &steam,
        heroic_titles: &heroic,
        prism_names: &prism,
    };
    let mut c = terraria();
    c.exe = "Z:\\games\\eldenring.exe".to_string();
    c.cmdline = strings(&["Z:\\games\\eldenring.exe"]);
    c.is_wine = true;
    assert_eq!(resolve(&c, &lookups).title, "ELDEN RING");
    assert_eq!(resolve(&c, &lookups).source, SRC_HEROIC);

    // Unknown wine exe -> humanized title, wine key.
    c.exe = "Z:\\games\\cool_game.exe".to_string();
    c.cmdline = strings(&["Z:\\games\\cool_game.exe"]);
    let r = resolve(&c, &lookups);
    assert_eq!(r.title, "Cool Game");
    assert_eq!(r.source, SRC_WINE);
}

#[test]
fn minecraft_prism_instance() {
    let steam = HashMap::new();
    let heroic = TextMap::new();
    let mut prism = TextMap::new();
    prism.insert("MiMundo".to_string(), "Mi Mundo".to_string());
    let lookups = Lookups {
        steam_names: &steam,
        heroic_titles: &heroic,
        prism_names: &prism,
    };
    let mut c = terraria();
    c.exe = "/usr/bin/java".to_string();
    c.cmdline = strings(&[
        "java",
        "--gameDir",
        "/instances/MiMundo",
        "net.minecraft.client.main.Main",
    ]);
    let r = resolve(&c, &lookups);
    assert_eq!(r.title, "Mi Mundo");
    assert_eq!(r.game_key, "prism:mimundo");
    assert_eq!(r.source, SRC_PRISM);
}

#[test]
fn fallback_uses_window_name_then_exe() {
    let empty_nums: HashMap<u32, String> = HashMap::new();
    let empty_strings = TextMap::new();
    let lookups = Lookups {
        steam_names: &empty_nums,
        heroic_titles: &empty_strings,
        prism_names: &empty_strings,
    };
    let mut c = terraria();
    c.window = Some(window());
    assert_eq!(resolve(&c, &lookups).title, "Terraria");
    c.window = None;
    let r = resolve(&c, &lookups);
    assert_eq!(r.title, "Terraria");
    assert_eq!(r.source, SRC_FALLBACK);
    assert_eq!(r.game_key, "exe:terraria");
}

fn png_bytes() -> Vec<u8> {
    let img = image::RgbaImage::from_pixel(2, 2, image::Rgba([10, 20, 30, 255]));
    let mut out = std::io::Cursor::new(Vec::new());
    image::DynamicImage::ImageRgba8(img)
        .write_to(&mut out, image::ImageFormat::Png)
        .unwrap();
    out.into_inner()
}

#[test]
fn caches_and_dedupes_by_content() {
    let bytes = png_bytes();
    let a = cache_icon(&bytes, 0xabc, "/cache/icons", false).unwrap();
    let b = cache_icon(&bytes, 0xabc, "/cache/icons", true).unwrap();
    assert_eq!(a.path, b.path, "same bytes must map to the same cached file");
    assert!(a.png.is_some());
    assert!(b.png.is_none(), "a file that is there is not written again");
    assert!(a.path.ends_with(".png"));
    assert!(cache_icon(b"not an image", 0xabc, "/cache/icons", false).is_none());
}

#[test]
fn icons_are_placed_by_their_content() {
    let bytes = png_bytes();
    let place = icon_place(&bytes, "/cache/icons");
    let mut hasher = DefaultHasher::new();
    bytes.hash(&mut hasher);
    assert_eq!(place.hash, hasher.finish());
    assert_eq!(place.path, format!("/cache/icons/{:016x}.png", place.hash));
    assert_eq!(icon_place(&bytes, "/cache/icons").path, place.path);
    assert_ne!(icon_place(b"other", "/cache/icons").hash, place.hash);
}

#[test]
fn cached_icons_are_png_files_of_the_same_picture() {
    let mut jpeg = std::io::Cursor::new(Vec::new());
    image::DynamicImage::ImageRgb8(image::RgbImage::from_pixel(3, 2, image::Rgb([9, 9, 9])))
        .write_to(&mut jpeg, image::ImageFormat::Jpeg)
        .unwrap();
    let icon = cache_icon(jpeg.get_ref(), 1, "/i", false).unwrap();
    let png = icon.png.unwrap();
    assert_eq!(image::guess_format(&png).unwrap(), image::ImageFormat::Png);
    let back = image::load_from_memory(&png).unwrap();
    assert_eq!((back.width(), back.height()), (3, 2));
    assert_eq!(icon.path, icon_path("/i", 1));
    assert_ne!(icon_path("/i", 1), icon_path("/i", 2));
}

#[test]
fn a_picture_that_cannot_be_written_is_not_cached() {
    assert!(plan_icon(true, None, 1, "/i", false).is_none());
    assert!(plan_icon(true, None, 1, "/i", true).is_some());
    assert!(plan_icon(false, Some(vec![1]), 1, "/i", false).is_none());
}

#[test]
fn tray_icons_are_rgba_pixels() {
    let p = load_tray_icon(&png_bytes()).unwrap();
    assert_eq!((p.width, p.height), (2, 2));
    assert_eq!(p.pixels[..4], [10, 20, 30, 255]);
    assert_eq!(p.pixels.len(), 16);
    assert!(load_tray_icon(b"no picture").is_none());
}

#[test]
fn names_are_cleaned_up() {
    let c = shown();
    assert_eq!(c.exe_basename(), "terraria");
    assert_eq!(c.fallback_title(), "Terraria 1.4");
    assert_eq!(terraria().fallback_title(), "Terraria");
    assert_eq!(window().xcomposite_match(), "60817415\r\nTerraria\r\nterraria");
    assert_eq!(
        parse_flatpak_id("0::/user.slice/app/org.game.Thing/run").as_deref(),
        Some("org.game.Thing")
    );
    // Nothing follows the id.
    assert_eq!(parse_flatpak_id("0::/user.slice/app/org.game.Thing"), None);
    assert_eq!(unescape("C:\\\\Games"), "C:\\Games");
    assert!(is_manifest_name("appmanifest_10.acf"));
    assert!(!is_manifest_name("appmanifest_10.txt"));
    assert_eq!(prism_name("Inst", Some("name=Nice\n")), "Nice");
    assert_eq!(prism_name("Inst", None), "Inst");
    let mut paths = strings(&["/a"]);
    add_path(&mut paths, "/a".to_string());
    add_path(&mut paths, "/b".to_string());
    assert_eq!(paths, ["/a", "/b"]);
}

#[test]
fn identities_tell_games_apart() {
    assert_eq!(steam_key(570), "steam:570");
    assert_ne!(steam_key(570), steam_key(57));
    assert_eq!(wine_key("Elden.exe"), "wine:elden.exe");
    assert_eq!(exe_key("ÉLAN"), "exe:élan");
    assert!(!lookups_stale(59_999));
    assert!(lookups_stale(60_000));
}

fn resolved(key: &str, title: &str) -> ResolvedCandidate {
    ResolvedCandidate {
        pid: 7,
        exe: "/g".to_string(),
        comm: "g".to_string(),
        title: title.to_string(),
        game_key: key.to_string(),
        source: SRC_STEAM.to_string(),
        uses_gpu: true,
        is_wine: false,
        steam_app_id: Some(1),
        window_match: None,
        source_kind: SourceKind::Portal,
        registered: false,
        custom_id: None,
        auto_buffer: true,
        clip_duration_seconds: None,
        icon_path: None,
    }
}

#[test]
fn the_best_candidate_is_picked() {
    let mut plain = resolved("exe:a", "A");
    plain.steam_app_id = None;
    plain.source = SRC_FALLBACK.to_string();
    let mut mine = resolved("steam:2", "B");
    mine.registered = true;
    let all = vec![plain.copy(), resolved("steam:1", "C"), mine];
    assert_eq!(pick_game(&all).unwrap().game_key, "steam:2");
    assert!(pick_game(&[]).is_none());
    let mut idle = resolved("exe:x", "X");
    idle.uses_gpu = false;
    idle.steam_app_id = None;
    assert!(!is_playable(&idle));
    let g = auto_game(&all[1]);
    assert_eq!((g.key.as_str(), g.title.as_str()), ("steam:1", "C"));
}

#[test]
fn registrations_apply_to_their_process() {
    let steam: HashMap<u32, String> = HashMap::new();
    let texts = TextMap::new();
    let lookups = Lookups {
        steam_names: &steam,
        heroic_titles: &texts,
        prism_names: &texts,
    };
    let candidates = vec![shown()];
    let found = resolve_all(&candidates, &lookups);
    assert_eq!(found.len(), 1);
    let apps = vec![app("exact_exe", "terraria")];
    let found = apply_registrations(found, &candidates, &apps);
    assert_eq!(found[0].title, "Mi Juego");
    assert_eq!(found[0].pid, 7);
}

#[test]
fn running_applications_are_listed_by_title() {
    let mut idle = resolved("exe:x", "Idle");
    idle.uses_gpu = false;
    idle.steam_app_id = None;
    let list = running_applications(vec![
        resolved("steam:2", "Zed"),
        idle,
        resolved("steam:1", "Abc"),
    ]);
    let titles: Vec<&str> = list.iter().map(|r| r.title.as_str()).collect();
    assert_eq!(titles, ["Abc", "Zed"]);
}

#[test]
fn a_game_starts_and_stops_the_buffer() {
    let mut state = DetectState {
        auto: AutoState::default(),
        current: None,
    };
    let all = vec![resolved("steam:1", "Game")];
    let mut row = app("exact_exe", "g");
    row.game_key = Some("steam:1".to_string());
    let rows = [row];
    let first = detect_tick(&mut state, &all, &rows, 0, false);
    assert!(first.changed);
    assert_eq!(first.action, AutoAction::Wait);
    let second = detect_tick(&mut state, &all, &rows, 3_000, false);
    assert!(!second.changed);
    assert_eq!(second.action, AutoAction::Start);
    let start = second.start.unwrap();
    assert_eq!((start.key.as_str(), start.duration_seconds), ("steam:1", Some(45)));
    let gone = detect_tick(&mut state, &vec![], &[], 4_000, true);
    assert!(gone.changed && gone.game.is_none());
    assert_eq!(gone.action, AutoAction::Wait);
    let stop = detect_tick(&mut state, &vec![], &[], 11_000, true);
    assert_eq!(stop.action, AutoAction::Stop);
    assert!(stop.start.is_none());
}

#[test]
fn a_registered_game_brings_its_token() {
    let mut row = app("exact_exe", "g");
    row.portal_token = Some("tok".to_string());
    row.game_key = Some("steam:1".to_string());
    row.clip_duration_seconds = Some(2);
    let mut found = resolved("steam:1", "Game");
    let rows = [row];
    let g = game_context(&found, &rows);
    assert_eq!(g.token.as_deref(), Some("tok"));
    assert_eq!(g.source_kind.as_deref(), Some("portal"));
    assert_eq!(g.duration_seconds, Some(5));
    found.window_match = Some("9\r\nA\r\nb".to_string());
    let g = game_context(&found, &rows);
    assert_eq!(g.source_kind.as_deref(), Some("x11"));
    assert_eq!(g.window_match, found.window_match);
    assert!(game_context(&resolved("steam:2", "B"), &rows).token.is_none());
}
