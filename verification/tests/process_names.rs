use cyan_skillfish_governor::process_detection::{
    extract_steam_game_name, is_excluded_process, resolve_process_name,
};

#[test]
fn exact_basenames_are_excluded() {
    assert!(is_excluded_process("steam"));
    assert!(is_excluded_process("kwin_wayland"));
    assert!(is_excluded_process("/usr/bin/firefox"));
    assert!(is_excluded_process("Discord"));
}

#[test]
fn near_misses_are_not_excluded() {
    assert!(!is_excluded_process("steamgame"));
    assert!(!is_excluded_process("my-firefox-like"));
    assert!(!is_excluded_process("GameX/game"));
    assert!(!is_excluded_process(""));
}

#[test]
fn the_directory_after_common_names_the_game() {
    assert_eq!(
        extract_steam_game_name("/home/u/.steam/steamapps/common/GameX/bin/game.exe"),
        Some("GameX".to_string())
    );
    assert_eq!(extract_steam_game_name("/games/other/place"), None);
    assert_eq!(extract_steam_game_name("/steamapps/common"), None);
    assert_eq!(extract_steam_game_name("common/Solitaire"), Some("Solitaire".to_string()));
}

#[test]
fn an_exe_argument_under_a_steam_library_wins() {
    let args = vec![
        "/usr/bin/proton".to_string(),
        "/steamapps/common/GameX/bin/game.exe".to_string(),
    ];
    let name = resolve_process_name(&args, None, None, None);
    assert_eq!(name, Some("GameX/game".to_string()));
}

#[test]
fn an_exe_argument_without_a_library_reports_its_directory_and_stem() {
    let args = vec!["wine".to_string(), "/opt/stuff/Games/launcher.exe".to_string()];
    assert_eq!(resolve_process_name(&args, None, None, None), Some("Games/launcher".to_string()));
    let bare = vec!["game.exe".to_string()];
    assert_eq!(resolve_process_name(&bare, None, None, None), Some("game".to_string()));
}

#[test]
fn a_wine_process_in_a_library_directory_is_named_after_the_game() {
    let args: Vec<String> = vec![];
    let name = resolve_process_name(
        &args,
        Some("/steamapps/common/GameY"),
        Some("/usr/bin/wine64"),
        None,
    );
    assert_eq!(name, Some("GameY/wine64".to_string()));
}

#[test]
fn a_library_directory_without_a_wine_binary_names_just_the_game() {
    let args: Vec<String> = vec![];
    let name = resolve_process_name(
        &args,
        Some("/steamapps/common/GameY"),
        Some("/usr/bin/vulkan-layer"),
        None,
    );
    assert_eq!(name, Some("GameY".to_string()));
}

#[test]
fn a_proton_binary_outside_a_library_is_named_after_its_directory() {
    let args: Vec<String> = vec![];
    let name = resolve_process_name(
        &args,
        Some("/home/u/Games/Rogue"),
        Some("/compat/tools/proton-experimental"),
        None,
    );
    assert_eq!(name, Some("Rogue/proton-experimental".to_string()));
}

#[test]
fn the_exe_link_loses_its_deleted_suffix() {
    let args: Vec<String> = vec![];
    let name = resolve_process_name(&args, None, Some("/usr/bin/app (deleted)"), None);
    assert_eq!(name, Some("/usr/bin/app".to_string()));
}

#[test]
fn the_comm_name_is_the_last_resort_and_is_trimmed() {
    let args: Vec<String> = vec![];
    assert_eq!(resolve_process_name(&args, None, None, Some("bash\n")), Some("bash".to_string()));
    assert_eq!(resolve_process_name(&args, None, None, None), None);
}
