//! Byte utilities and launcher path computations.
use tem_launcher::config::{config_path_for_profile, grid_engine_config_paths};
use tem_launcher::launcher::{
    game_exe_path, join_path, securom_mapping_name, trim_trailing_nuls, LauncherConfig,
    GAME_EXE, SECUROM_BUFFER_SIZE,
};
use tem_launcher::text::{i32_dec, is_decodable, trim};

#[test]
fn trim_removes_surrounding_ascii_whitespace() {
    assert_eq!(trim(&b"  a b \t\r\n".to_vec()), b"a b".to_vec());
    assert_eq!(trim(&b"\t \x0b\x0c".to_vec()), Vec::new());
    assert_eq!(trim(&b"x".to_vec()), b"x".to_vec());
}

#[test]
fn decimal_rendering_covers_the_full_range() {
    assert_eq!(i32_dec(0), b"0".to_vec());
    assert_eq!(i32_dec(7), b"7".to_vec());
    assert_eq!(i32_dec(1920), b"1920".to_vec());
    assert_eq!(i32_dec(-1), b"-1".to_vec());
    assert_eq!(i32_dec(i32::MAX), b"2147483647".to_vec());
    assert_eq!(i32_dec(i32::MIN), b"-2147483648".to_vec());
}

#[test]
fn utf8_validation_accepts_real_text() {
    assert!(is_decodable(&b"plain ascii".to_vec()));
    assert!(is_decodable(&"Tron \u{e9}volution \u{4e16}\u{754c} \u{1f3ae}".as_bytes().to_vec()));
    assert!(is_decodable(&"\u{10ffff}".as_bytes().to_vec()));
    assert!(is_decodable(&Vec::new()));
}

#[test]
fn utf8_validation_rejects_malformed_bytes() {
    assert!(!is_decodable(&vec![0xff]));
    assert!(!is_decodable(&vec![0xc3]));
    assert!(!is_decodable(&vec![0xc0, 0x80]));
    assert!(!is_decodable(&vec![0xed, 0xa0, 0x80]));
    assert!(!is_decodable(&vec![0xf4, 0x90, 0x80, 0x80]));
    assert!(!is_decodable(&vec![0x80]));
    assert!(!is_decodable(&vec![0xe2, 0x82]));
}

#[test]
fn game_paths_are_joined_with_backslashes() {
    assert_eq!(GAME_EXE, "GridGame.exe");
    assert_eq!(SECUROM_BUFFER_SIZE, 1723);
    assert_eq!(
        game_exe_path(&b"C:\\Games\\Tron".to_vec()),
        b"C:\\Games\\Tron\\GridGame.exe".to_vec()
    );
    assert_eq!(join_path(&b"a".to_vec(), &b"b.txt".to_vec()), b"a\\b.txt".to_vec());
}

#[test]
fn securom_mapping_name_is_nul_terminated() {
    assert_eq!(securom_mapping_name(), b"-=[SMS_GridGame.exe_SMS]=-\0".to_vec());
}

#[test]
fn registry_path_decoding_strips_trailing_nuls() {
    assert_eq!(trim_trailing_nuls(&b"C:\\Games\0\0\0".to_vec()), b"C:\\Games".to_vec());
    assert_eq!(trim_trailing_nuls(&b"\0\0".to_vec()), Vec::new());
    assert_eq!(trim_trailing_nuls(&b"C:\\G\0ames".to_vec()), b"C:\\G\0ames".to_vec());
}

#[test]
fn config_paths_follow_the_conventional_names() {
    let (live, backup) = grid_engine_config_paths(&b"C:\\cfg".to_vec());
    assert_eq!(live, b"C:\\cfg\\GridEngine.ini".to_vec());
    assert_eq!(backup, b"C:\\cfg\\GridEngine.backup.ini".to_vec());
    let profile = config_path_for_profile(&b"C:\\Users\\player".to_vec());
    assert_eq!(
        profile,
        b"C:\\Users\\player\\Documents\\Disney Interactive Studios\\Tron Evolution\\UnrealEngine3\\GridGame\\Config"
            .to_vec()
    );
}

#[test]
fn launcher_config_exposes_its_rewrite_settings() {
    let config = LauncherConfig {
        name: "default".to_string(),
        created_at: 1,
        modified_at: 2,
        window_width: 2560,
        window_height: 1440,
        is_fullscreen: true,
        disable_splash_screen: false,
        is_default: true,
        use_tem: true,
        use_xdead: false,
    };
    let s = config.settings();
    assert_eq!(s.window_width, 2560);
    assert_eq!(s.window_height, 1440);
    assert!(s.is_fullscreen);
    assert!(!s.disable_splash_screen);
}
