use saveconfig::apps::{
    app_path, get_all_apps_info, get_app, install_commands, package_id, restore_decision,
    EnvPaths, RestoreDecision,
};
use saveconfig::engine::{
    find_entry_by_target_hint, get_backup_chain_info, latest_backup_index, list_backups,
};
use saveconfig::entry::Entry;
use saveconfig::manifest::Manifest;

fn manifest(name: &str, created_at: &str) -> Manifest {
    Manifest::new(name.to_string(), created_at.to_string(), "linux".to_string())
}

#[test]
fn test_get_app() {
    assert_eq!(get_app("zed").unwrap().target_hint, "app:zed");
    assert_eq!(get_app("vscode").unwrap().name, "Visual Studio Code");
    assert_eq!(get_app("windows-terminal").unwrap().target_hint, "sys:windows-terminal");
    assert!(get_app("emacs").is_none());
}

#[test]
fn test_get_all_apps_info() {
    let infos = get_all_apps_info(&vec![true, false, true]);
    assert_eq!(infos.len(), 3);
    assert_eq!(infos[0].id, "zed");
    assert!(infos[0].is_installed);
    assert_eq!(infos[1].id, "windows-terminal");
    assert!(!infos[1].is_installed);
    assert_eq!(infos[2].id, "vscode");
    assert!(infos[2].is_installed);
}

#[test]
fn test_package_ids() {
    assert_eq!(package_id("zed", "linux").as_deref(), Some("zed"));
    assert_eq!(package_id("zed", "windows"), None);
    assert_eq!(
        package_id("windows-terminal", "windows").as_deref(),
        Some("Microsoft.WindowsTerminal")
    );
    assert_eq!(package_id("windows-terminal", "linux"), None);
    assert_eq!(
        package_id("vscode", "windows").as_deref(),
        Some("Microsoft.VisualStudioCode")
    );
    assert_eq!(package_id("vscode", "darwin").as_deref(), Some("visual-studio-code"));
    assert_eq!(package_id("vscode", "linux").as_deref(), Some("code"));
}

#[test]
fn test_app_paths() {
    let env = EnvPaths {
        appdata: Some("C:/Users/u/AppData/Roaming".to_string()),
        local_appdata: Some("C:/Users/u/AppData/Local".to_string()),
        xdg_config_home: None,
        home: Some("/home/u".to_string()),
    };
    assert_eq!(app_path("zed", "linux", &env).unwrap(), "/home/u/.config/zed");
    assert_eq!(
        app_path("zed", "windows", &env).unwrap(),
        "C:/Users/u/AppData/Roaming/zed"
    );
    assert_eq!(
        app_path("vscode", "darwin", &env).unwrap(),
        "/home/u/Library/Application Support/Code"
    );
    assert_eq!(
        app_path("windows-terminal", "windows", &env).unwrap(),
        "C:/Users/u/AppData/Local/Packages/Microsoft.WindowsTerminal_8wekyb3d8bbwe/LocalState"
    );
    assert!(app_path("windows-terminal", "linux", &env).is_err());

    let xdg = EnvPaths {
        appdata: None,
        local_appdata: None,
        xdg_config_home: Some("/home/u/.cfg".to_string()),
        home: Some("/home/u".to_string()),
    };
    assert_eq!(app_path("vscode", "linux", &xdg).unwrap(), "/home/u/.cfg/Code");
}

#[test]
fn test_install_commands() {
    let snap = install_commands("linux", true, "zed");
    assert_eq!(snap.len(), 2);
    assert_eq!(snap[0], vec!["sudo", "apt-get", "install", "-y", "snapd"]);
    assert_eq!(snap[1], vec!["sudo", "snap", "install", "zed"]);

    let winget = install_commands("windows", false, "Microsoft.VisualStudioCode");
    assert_eq!(winget.len(), 1);
    assert_eq!(
        winget[0],
        vec!["winget", "install", "-e", "--id", "Microsoft.VisualStudioCode"]
    );

    let brew = install_commands("darwin", false, "visual-studio-code");
    assert_eq!(brew[0], vec!["brew", "install", "visual-studio-code"]);

    let apt = install_commands("linux", false, "code");
    assert_eq!(apt[0], vec!["sudo", "apt-get", "install", "-y", "code"]);
}

#[test]
fn test_restore_decision() {
    assert_eq!(restore_decision(true, &None), RestoreDecision::Proceed);
    assert_eq!(
        restore_decision(false, &Some("z-pkg".to_string())),
        RestoreDecision::InstallFirst
    );
    assert_eq!(restore_decision(false, &None), RestoreDecision::Skip);
}

#[test]
fn test_list_backups_and_latest() {
    let stores = vec![
        manifest("snap-2", "2024-01-02T00:00:00Z"),
        manifest("snap-1", "2024-01-01T00:00:00Z"),
        manifest("snap-3", "2024-01-03T00:00:00Z"),
    ];
    let listing = list_backups(&stores);
    assert_eq!(listing.len(), 3);
    assert_eq!(listing[0].name, "snap-2");
    assert_eq!(listing[2].created_at, "2024-01-03T00:00:00Z");

    assert_eq!(latest_backup_index(&stores), Some(2));
    assert_eq!(latest_backup_index(&Vec::new()), None);
}

#[test]
fn test_backup_chain_info() {
    let mut m = manifest("snap-1", "2024-01-01T00:00:00Z");
    let info_before = get_backup_chain_info(&m);
    assert!(!info_before.is_integrity_valid);
    assert_eq!(info_before.chain_hash, "");

    m.finalize_chain_hash();
    let info = get_backup_chain_info(&m);
    assert_eq!(info.name, "snap-1");
    assert!(info.is_integrity_valid);
    assert_eq!(info.backup_hash.len(), 64);
    assert_eq!(Some(info.chain_hash), m.backup_chain_hash);
    assert_eq!(info.previous_backup_hash, None);
}

#[test]
fn test_find_entry_by_target_hint() {
    let mut m = manifest("snap-1", "2024-01-01T00:00:00Z");
    let blob = saveconfig::blob::BlobPayload::new("tar.zst".to_string(), b"x");
    m.add_blob_for_testing("id1".to_string(), blob);
    m.entries.push(Entry {
        blob_id: "id1".to_string(),
        target_hint: "app:zed".to_string(),
        logical_path: "/one".to_string(),
        tar_member: None,
    });
    assert_eq!(find_entry_by_target_hint(&m, "app:zed"), Some(0));
    assert_eq!(find_entry_by_target_hint(&m, "app:vscode"), None);
}
