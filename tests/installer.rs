use libmoonlight::detect::{detect_installs, install_candidates, latest_app_dir_of, name_le};
use libmoonlight::flatpak::{ensure_access, format_filesystems, parse_filesystems};
use libmoonlight::installer::{decimal_of, InstallProbe};
use libmoonlight::json::{injector_script, package_json};
use libmoonlight::release::{archive_url, first_line_of, LatestRelease};
use libmoonlight::{
    Branch, DetectedInstall, FlatpakFilesystemOverride, FlatpakFilesystemOverridePermission,
    FlatpakOverrides, FlatpakOverridesContext, FsOp, IniSection, GitHubAsset, GitHubRelease, Installer,
    InstallerError, Os, PlatformDirs,
};

fn windows_dirs() -> PlatformDirs {
    PlatformDirs {
        os: Os::Windows,
        home: "C:/Users/me".to_string(),
        data_root: "C:/Users/me/AppData/Local".to_string(),
        config_root: "C:/Users/me/AppData/Roaming".to_string(),
    }
}

fn linux_dirs() -> PlatformDirs {
    PlatformDirs {
        os: Os::Linux,
        home: "/home/me".to_string(),
        data_root: "/home/me/.local/share".to_string(),
        config_root: "/home/me/.config".to_string(),
    }
}

fn install(path: &str, branch: Branch, flatpak_id: Option<&str>) -> DetectedInstall {
    DetectedInstall { branch, path: path.to_string(), flatpak_id: flatpak_id.map(|s| s.to_string()) }
}

fn release(name: &str, assets: &[(&str, &str)]) -> GitHubRelease {
    GitHubRelease {
        name: name.to_string(),
        assets: assets
            .iter()
            .map(|(n, u)| GitHubAsset { name: n.to_string(), browser_download_url: u.to_string() })
            .collect(),
    }
}

#[test]
fn nightly_version_is_first_line_of_marker() {
    let latest = LatestRelease::Nightly("v2.3.0\nextra text".to_string());
    assert_eq!(Installer::new().get_latest_moonlight_version(&latest), "v2.3.0");
}

#[test]
fn nightly_version_of_empty_marker_is_empty() {
    let latest = LatestRelease::Nightly(String::new());
    assert_eq!(Installer::new().get_latest_moonlight_version(&latest), "");
}

#[test]
fn first_line_drops_crlf_and_keeps_lone_text() {
    assert_eq!(first_line_of("v1.0\r\nrest"), "v1.0");
    assert_eq!(first_line_of("only"), "only");
    assert_eq!(first_line_of("\nsecond"), "");
    assert_eq!(first_line_of("tail\r"), "tail\r");
}

#[test]
fn stable_version_is_release_name() {
    let latest = LatestRelease::Stable(release("v1.3.4", &[]));
    assert_eq!(Installer::new().get_latest_moonlight_version(&latest), "v1.3.4");
}

#[test]
fn patch_windows_stable_install() {
    let dirs = windows_dirs();
    let inst = install("C:/Users/me/AppData/Local/Discord/app-1.0.9", Branch::Stable, None);
    let plan = Installer::new().patch_install(&dirs, &inst, None, "require(MOONLIGHT_INJECTOR);");
    let res = "C:/Users/me/AppData/Local/Discord/app-1.0.9/resources";
    assert_eq!(plan.ops.len(), 4);
    match &plan.ops[0] {
        FsOp::Rename { from, to } => {
            assert_eq!(from, &format!("{res}/app.asar"));
            assert_eq!(to, &format!("{res}/_app.asar"));
        }
        _ => panic!("first step must move app.asar"),
    }
    match &plan.ops[1] {
        FsOp::CreateDir { path } => assert_eq!(path, &format!("{res}/app")),
        _ => panic!("second step must create the entry package"),
    }
    match &plan.ops[2] {
        FsOp::WriteFile { path, contents } => {
            assert_eq!(path, &format!("{res}/app/package.json"));
            assert_eq!(contents, r#"{"main":"./injector.js","name":"discord","private":true}"#);
            assert!(contents.contains(r#""main":"./injector.js""#));
        }
        _ => panic!("third step must write package.json"),
    }
    match &plan.ops[3] {
        FsOp::WriteFile { path, contents } => {
            assert_eq!(path, &format!("{res}/app/injector.js"));
            assert!(!contents.is_empty());
            assert_eq!(
                contents,
                "const MOONLIGHT_INJECTOR = \"C:/Users/me/AppData/Roaming/moonlight-mod/dist/injector.js\";\n\
                 const PATCHED_ASAR = \"_app.asar\";\n\
                 const DOWNLOAD_DIR = \"dist\";\n\
                 require(MOONLIGHT_INJECTOR);"
            );
        }
        _ => panic!("fourth step must write injector.js"),
    }
    assert!(plan.flatpak_id.is_none());
}

#[test]
fn patch_flatpak_install_asks_for_override() {
    let dirs = linux_dirs();
    let inst = install(
        "/home/me/.local/share/flatpak/app/com.discordapp.Discord/current/active/files/discord",
        Branch::Stable,
        Some("com.discordapp.Discord"),
    );
    let plan = Installer::new().patch_install(&dirs, &inst, Some("/tmp/dl".to_string()), "x");
    assert_eq!(plan.flatpak_id.as_deref(), Some("com.discordapp.Discord"));
    match &plan.ops[3] {
        FsOp::WriteFile { contents, .. } => assert!(contents.starts_with("const MOONLIGHT_INJECTOR = \"/tmp/dl/injector.js\";")),
        _ => panic!("fourth step must write injector.js"),
    }
}

#[test]
fn injector_script_escapes_json_strings() {
    let s = injector_script("C:\\dl\\\"x\"\n", "");
    assert!(s.starts_with("const MOONLIGHT_INJECTOR = \"C:\\\\dl\\\\\\\"x\\\"\\n\";\n"));
    assert_eq!(package_json("a\u{1}b"), "{\"main\":\"./injector.js\",\"name\":\"a\\u0001b\",\"private\":true}");
}

#[test]
fn macos_patch_uses_install_path_as_resources() {
    let dirs = PlatformDirs { os: Os::MacOs, ..linux_dirs() };
    let inst = install("/Applications/Discord Canary.app/Contents/Resources", Branch::Canary, None);
    let plan = Installer::new().patch_install(&dirs, &inst, None, "");
    match &plan.ops[0] {
        FsOp::Rename { from, .. } => assert_eq!(from, "/Applications/Discord Canary.app/Contents/Resources/app.asar"),
        _ => panic!("first step must move app.asar"),
    }
    match &plan.ops[2] {
        FsOp::WriteFile { contents, .. } => assert!(contents.contains("\"name\":\"discord-canary\"")),
        _ => panic!("third step must write package.json"),
    }
}

#[test]
fn unpatch_moves_archive_back_and_removes_entry_package() {
    let dirs = linux_dirs();
    let inst = install("/home/me/.local/share/Discord", Branch::Stable, None);
    let ops = Installer::new()
        .unpatch_install(&dirs, &inst, &vec!["_app.asar".to_string(), "app".to_string()])
        .unwrap();
    assert_eq!(ops.len(), 2);
    match &ops[0] {
        FsOp::Rename { from, to } => {
            assert_eq!(from, "/home/me/.local/share/Discord/resources/_app.asar");
            assert_eq!(to, "/home/me/.local/share/Discord/resources/app.asar");
        }
        _ => panic!("first step must move the archive back"),
    }
    match &ops[1] {
        FsOp::RemoveDirAll { path } => assert_eq!(path, "/home/me/.local/share/Discord/resources/app"),
        _ => panic!("second step must remove the entry package"),
    }
}

#[test]
fn set_then_get_downloaded_version_names_same_file() {
    let dirs = linux_dirs();
    match Installer::new().set_downloaded_version(&dirs, "1.2.3") {
        FsOp::WriteFile { path, contents } => {
            assert_eq!(path, "/home/me/.config/moonlight-mod/.moonlight-installed-version");
            assert_eq!(path, dirs.installed_version_file());
            assert_eq!(contents, "1.2.3");
        }
        _ => panic!("recording a version writes the marker"),
    }
}

#[test]
fn is_patched_iff_app_asar_absent() {
    let i = Installer::new();
    assert!(!i.is_install_patched(&vec!["app.asar".to_string(), "other".to_string()]));
    assert!(i.is_install_patched(&vec!["_app.asar".to_string(), "app".to_string()]));
    assert!(i.is_install_patched(&vec![]));
}

#[test]
fn get_installs_reports_probes() {
    let installs = vec![
        install("/a", Branch::Stable, None),
        install("/b", Branch::Canary, None),
        install("/c", Branch::PTB, None),
    ];
    let probes = vec![
        InstallProbe { resources: Some(vec!["_app.asar".to_string()]), config_exists: true },
        InstallProbe { resources: None, config_exists: false },
    ];
    let infos = Installer::new().get_installs(installs, &probes);
    assert_eq!(infos.len(), 3);
    assert!(infos[0].patched && infos[0].has_config);
    assert!(!infos[1].patched && !infos[1].has_config);
    assert!(!infos[2].patched && !infos[2].has_config);
    assert_eq!(infos[1].install.path, "/b");
}

#[test]
fn windows_detection_picks_greatest_app_dir() {
    let dirs = windows_dirs();
    let cands = install_candidates(&dirs);
    assert_eq!(cands.len(), 4);
    assert_eq!(cands[2].path, "C:/Users/me/AppData/Local/DiscordCanary");
    let listings = vec![
        Some(vec!["app-1.0.9".to_string(), "Update.exe".to_string(), "app-1.0.10".to_string()]),
        None,
        Some(vec!["packages".to_string()]),
        None,
    ];
    let found = detect_installs(&cands, &listings);
    assert_eq!(found.len(), 1);
    assert_eq!(found[0].branch, Branch::Stable);
    assert_eq!(found[0].path, "C:/Users/me/AppData/Local/Discord/app-1.0.9");
}

#[test]
fn linux_detection_includes_flatpak() {
    let dirs = linux_dirs();
    let cands = install_candidates(&dirs);
    assert_eq!(cands.len(), 6);
    let mut listings: Vec<Option<Vec<String>>> = vec![None; 6];
    listings[1] = Some(vec![]);
    listings[5] = Some(vec![]);
    let found = detect_installs(&cands, &listings);
    assert_eq!(found.len(), 2);
    assert_eq!(found[0].branch, Branch::PTB);
    assert_eq!(found[0].path, "/home/me/.local/share/DiscordPTB");
    assert!(found[0].flatpak_id.is_none());
    assert_eq!(found[1].branch, Branch::Canary);
    assert_eq!(
        found[1].path,
        "/home/me/.local/share/flatpak/app/com.discordapp.DiscordCanary/current/active/files/discord-canary"
    );
    assert_eq!(found[1].flatpak_id.as_deref(), Some("com.discordapp.DiscordCanary"));
}

#[test]
fn macos_detection_searches_both_application_dirs() {
    let dirs = PlatformDirs { os: Os::MacOs, home: "/Users/me".to_string(), ..linux_dirs() };
    let cands = install_candidates(&dirs);
    assert_eq!(cands.len(), 8);
    assert_eq!(cands[0].probe, "/Applications/Discord.app/Contents/Resources");
    assert_eq!(cands[5].probe, "/Users/me/Applications/Discord PTB.app/Contents/Resources");
    assert_eq!(cands[5].path, cands[5].probe);
    let mut listings: Vec<Option<Vec<String>>> = vec![None; 8];
    listings[0] = Some(vec![]);
    listings[4] = Some(vec![]);
    let found = detect_installs(&cands, &listings);
    assert_eq!(found.len(), 2);
    assert_eq!(found[0].path, "/Applications/Discord.app/Contents/Resources");
    assert_eq!(found[1].path, "/Users/me/Applications/Discord.app/Contents/Resources");
}

#[test]
fn other_os_detects_nothing() {
    let dirs = PlatformDirs { os: Os::Other, ..linux_dirs() };
    assert!(install_candidates(&dirs).is_empty());
    assert!(detect_installs(&install_candidates(&dirs), &vec![]).is_empty());
}

#[test]
fn name_order_and_app_dir_choice() {
    assert!(name_le("app-1", "app-2"));
    assert!(name_le("app-10", "app-2"));
    assert!(name_le("", ""));
    assert!(!name_le("b", "a"));
    assert_eq!(latest_app_dir_of(&vec!["x".to_string(), "ap".to_string()]), None);
}

#[test]
fn ensure_access_on_missing_file_adds_entry() {
    let r = ensure_access(None).expect("a file to write");
    let fs = r.context.unwrap().filesystems.unwrap();
    assert_eq!(fs.len(), 1);
    assert_eq!(fs[0].path, "xdg-config/moonlight-mod");
    assert_eq!(fs[0].permission, FlatpakFilesystemOverridePermission::ReadWrite);
}

#[test]
fn ensure_access_is_idempotent() {
    let existing = FlatpakOverrides {
        context: Some(FlatpakOverridesContext {
            filesystems: Some(vec![FlatpakFilesystemOverride {
                path: "xdg-config/moonlight-mod".to_string(),
                permission: FlatpakFilesystemOverridePermission::ReadOnly,
            }]),
            other_keys: vec![("shared".to_string(), "network;".to_string())],
        }),
        other_sections: vec![IniSection {
            name: "Environment".to_string(),
            entries: vec![("FOO".to_string(), "bar".to_string())],
        }],
    };
    let first = ensure_access(Some(existing)).expect("read-only access is not enough");
    let entries = first.context.clone().unwrap().filesystems.unwrap();
    assert_eq!(entries.len(), 2);
    assert_eq!(entries[0].permission, FlatpakFilesystemOverridePermission::ReadOnly);
    assert_eq!(entries[1].permission, FlatpakFilesystemOverridePermission::ReadWrite);
    assert_eq!(first.other_sections.len(), 1);
    assert_eq!(first.other_sections[0].name, "Environment");
    assert_eq!(first.other_sections[0].entries[0].1, "bar");
    assert_eq!(first.context.as_ref().unwrap().other_keys[0].0, "shared");
    assert!(ensure_access(Some(first)).is_none());
}

#[test]
fn ensure_access_fills_empty_context() {
    let r = ensure_access(Some(FlatpakOverrides {
        context: Some(FlatpakOverridesContext { filesystems: None, other_keys: vec![] }),
        other_sections: vec![],
    }))
        .expect("a file to write");
    assert_eq!(r.context.unwrap().filesystems.unwrap().len(), 1);
}

#[test]
fn stable_download_needs_archive_asset() {
    let rel = release("v1", &[("other.zip", "https://x/other.zip")]);
    assert_eq!(archive_url(&rel).unwrap_err(), InstallerError::MissingAsset);
    let latest = LatestRelease::Stable(rel);
    let r = Installer::new().download_moonlight(&linux_dirs(), &latest);
    assert_eq!(r.unwrap_err(), InstallerError::MissingAsset);
}

#[test]
fn stable_download_plan() {
    let rel = release("v1.2", &[("a", "https://x/a"), ("dist.tar.gz", "https://x/dist.tar.gz")]);
    let plan = Installer::new()
        .download_moonlight(&linux_dirs(), &LatestRelease::Stable(rel))
        .unwrap();
    assert_eq!(plan.archive_url, "https://x/dist.tar.gz");
    assert_eq!(plan.version, "v1.2");
    assert_eq!(plan.target_dir, "/home/me/.config/moonlight-mod/dist");
    let ops = Installer::new().prepare_download_dir(&linux_dirs(), false);
    assert_eq!(ops.len(), 1);
    assert!(matches!(&ops[0], FsOp::CreateDirAll { path } if path == "/home/me/.config/moonlight-mod/dist"));
}

#[test]
fn second_download_clears_scratch_first() {
    let latest = LatestRelease::Nightly("v9\n".to_string());
    let plan = Installer::new().download_moonlight(&linux_dirs(), &latest).unwrap();
    assert_eq!(plan.archive_url, "https://moonlight-mod.github.io/moonlight/dist.tar.gz");
    assert_eq!(plan.version, "v9");
    let ops = Installer::new().prepare_download_dir(&linux_dirs(), true);
    assert_eq!(ops.len(), 2);
    assert!(matches!(&ops[0], FsOp::RemoveDirAll { path } if path == "/home/me/.config/moonlight-mod/dist"));
    assert!(matches!(&ops[1], FsOp::CreateDirAll { path } if path == "/home/me/.config/moonlight-mod/dist"));
}

#[test]
fn reset_config_renames_to_timestamped_backup() {
    match Installer::new().reset_config(&linux_dirs(), Branch::Canary, 1700000000) {
        FsOp::Rename { from, to } => {
            assert_eq!(from, "/home/me/.config/moonlight-mod/canary.json");
            assert_eq!(to, "/home/me/.config/moonlight-mod/canary-backup-1700000000.json");
        }
        _ => panic!("a reset renames the settings"),
    }
    assert_eq!(decimal_of(0), "0");
    assert_eq!(decimal_of(u64::MAX), "18446744073709551615");
}

#[test]
fn filesystems_value_parses_pieces_and_suffixes() {
    let v = parse_filesystems("home:ro;;xdg-config/moonlight-mod;/opt/x:rw;a:create");
    assert_eq!(v.len(), 4);
    assert_eq!(v[0].path, "home");
    assert_eq!(v[0].permission, FlatpakFilesystemOverridePermission::ReadOnly);
    assert_eq!(v[1].path, "xdg-config/moonlight-mod");
    assert_eq!(v[1].permission, FlatpakFilesystemOverridePermission::ReadWrite);
    assert_eq!(v[2].path, "/opt/x");
    assert_eq!(v[2].permission, FlatpakFilesystemOverridePermission::ReadWrite);
    assert_eq!(v[3].path, "a:create");
    assert!(parse_filesystems("").is_empty());
}

#[test]
fn filesystems_value_round_trips() {
    let v = parse_filesystems("home:ro;xdg-config/moonlight-mod;");
    let text = format_filesystems(&v);
    assert_eq!(text, "home:ro;xdg-config/moonlight-mod;");
    let again = parse_filesystems(&text);
    assert_eq!(again.len(), 2);
    assert_eq!(again[0].path, "home");
    assert_eq!(again[1].permission, FlatpakFilesystemOverridePermission::ReadWrite);
}

#[test]
fn unpatch_refuses_when_app_asar_present() {
    let dirs = linux_dirs();
    let inst = install("/home/me/.local/share/Discord", Branch::Stable, None);
    let resources = vec!["app.asar".to_string(), "_app.asar".to_string(), "app".to_string()];
    let r = Installer::new().unpatch_install(&dirs, &inst, &resources);
    assert_eq!(r.unwrap_err(), InstallerError::AlreadyUnpatched);
}

#[test]
fn default_installer_is_new() {
    let _a: Installer = Default::default();
    let _b = Installer::new();
}
