use caseless_paths::launcher::find_ja2_executable;

#[test]
fn find_ja2_executable_should_determine_game_path_from_launcher_path() {
    assert_eq!(find_ja2_executable("/home/test/ja2-launcher"), "/home/test/ja2");
    assert_eq!(
        find_ja2_executable("C:\\\\home\\\\test\\\\ja2-launcher.exe"),
        "C:\\\\home\\\\test\\\\ja2.exe"
    );
    assert_eq!(find_ja2_executable("ja2-launcher"), "ja2");
    assert_eq!(find_ja2_executable("ja2-launcher.exe"), "ja2.exe");
    assert_eq!(find_ja2_executable("JA2-LAUNCHER.EXE"), "JA2.exe");
}

#[test]
fn exe_suffix_is_recognized_in_any_ascii_case() {
    assert_eq!(find_ja2_executable("game-launcher.EXE"), "game.exe");
    assert_eq!(find_ja2_executable("game-launcher.eXe"), "game.exe");
    assert_eq!(find_ja2_executable("game-launcher"), "game");
}
