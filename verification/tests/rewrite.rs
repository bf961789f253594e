//! End-to-end behavior of the configuration rewrite engine.
use tem_launcher::config::{
    decode_error_count, rewrite_document, rewrite_grid_engine_config, split_lines,
};
use tem_launcher::ini::LogEvent;
use tem_launcher::launcher::SettingsInput;

fn settings(w: i32, h: i32, fullscreen: bool, disable_splash: bool) -> SettingsInput {
    SettingsInput {
        window_width: w,
        window_height: h,
        is_fullscreen: fullscreen,
        disable_splash_screen: disable_splash,
    }
}

#[test]
fn rewrites_system_settings_keys_in_order() {
    let src = b"[SystemSettings]\r\nResX=800\r\nResY=600\r\nFullscreen=False\r\n".to_vec();
    let out = rewrite_document(&src, &settings(1920, 1080, true, false));
    assert_eq!(
        out.content,
        b"[SystemSettings]\r\nResX=1920\r\nResY=1080\r\nFullscreen=True\r\n".to_vec()
    );
    assert_eq!(
        out.events,
        vec![
            LogEvent::SetResX(1920),
            LogEvent::SetResY(1080),
            LogEvent::SetFullscreen(true),
        ]
    );
}

#[test]
fn other_lines_pass_through_unchanged() {
    let src = b"; a comment\r\n[SystemSettings]\r\nOther=1\r\nResX=800\r\nTail=x\r\n".to_vec();
    let out = rewrite_document(&src, &settings(1024, 768, false, false));
    assert_eq!(
        out.content,
        b"; a comment\r\n[SystemSettings]\r\nOther=1\r\nResX=1024\r\nTail=x\r\n".to_vec()
    );
}

#[test]
fn startup_movies_commented_out_when_splash_disabled() {
    let src = b"[FullScreenMovie]\r\nStartupMovies=Intro.bik\r\n".to_vec();
    let out = rewrite_document(&src, &settings(800, 600, false, true));
    assert_eq!(out.content, b"[FullScreenMovie]\r\n;StartupMovies=Intro.bik\r\n".to_vec());
    assert_eq!(
        out.events,
        vec![LogEvent::ToggleStartupMovies { disabled: true, value: b"Intro.bik".to_vec() }]
    );
}

#[test]
fn startup_movies_uncommented_when_splash_enabled() {
    let src = b"[FullScreenMovie]\r\n;StartupMovies=Intro.bik\r\n".to_vec();
    let out = rewrite_document(&src, &settings(800, 600, false, false));
    assert_eq!(out.content, b"[FullScreenMovie]\r\nStartupMovies=Intro.bik\r\n".to_vec());
    assert_eq!(
        out.events,
        vec![LogEvent::ToggleStartupMovies { disabled: false, value: b"Intro.bik".to_vec() }]
    );
}

#[test]
fn blank_lines_become_bare_crlf_in_place() {
    let src = b"a=1\r\n   \t \r\n\r\nb=2\r\n".to_vec();
    let out = rewrite_document(&src, &settings(1, 2, false, false));
    assert_eq!(out.content, b"a=1\r\n\r\n\r\nb=2\r\n".to_vec());
}

#[test]
fn resx_outside_system_settings_is_untouched() {
    let src = b"[Audio]\r\nResX=800\r\n[SystemSettings]\r\nResX=800\r\n".to_vec();
    let out = rewrite_document(&src, &settings(2560, 1440, false, false));
    assert_eq!(out.content, b"[Audio]\r\nResX=800\r\n[SystemSettings]\r\nResX=2560\r\n".to_vec());
}

#[test]
fn unrecognized_section_clears_recognized_state() {
    let src = b"[SystemSettings]\r\n[Other]\r\nResX=800\r\n".to_vec();
    let out = rewrite_document(&src, &settings(640, 480, false, false));
    assert_eq!(out.content, b"[SystemSettings]\r\n[Other]\r\nResX=800\r\n".to_vec());
}

#[test]
fn line_endings_are_normalized_to_crlf() {
    let src = b"a=1\nb=2\r\nc=3".to_vec();
    let out = rewrite_document(&src, &settings(1, 2, false, false));
    assert_eq!(out.content, b"a=1\r\nb=2\r\nc=3\r\n".to_vec());
}

#[test]
fn empty_document_stays_empty() {
    let out = rewrite_document(&Vec::new(), &settings(1, 2, true, true));
    assert!(out.content.is_empty());
    assert!(out.events.is_empty());
}

#[test]
fn negative_and_zero_resolutions_render_in_decimal() {
    let src = b"[SystemSettings]\r\nResX=800\r\nResY=600\r\n".to_vec();
    let out = rewrite_document(&src, &settings(-2147483648, 0, false, false));
    assert_eq!(out.content, b"[SystemSettings]\r\nResX=-2147483648\r\nResY=0\r\n".to_vec());
}

#[test]
fn header_with_surrounding_whitespace_still_selects_section() {
    let src = b"  [SystemSettings]  \r\nResX=800\r\n".to_vec();
    let out = rewrite_document(&src, &settings(1600, 900, false, false));
    assert_eq!(out.content, b"  [SystemSettings]  \r\nResX=1600\r\n".to_vec());
}

#[test]
fn key_spacing_must_match_exactly() {
    // The key is taken from the trimmed line up to the first '='; a space
    // before the '=' makes it a different key.
    let src = b"[SystemSettings]\r\nResX =800\r\n".to_vec();
    let out = rewrite_document(&src, &settings(1920, 1080, false, false));
    assert_eq!(out.content, b"[SystemSettings]\r\nResX =800\r\n".to_vec());
}

#[test]
fn startup_movies_prefix_match_rewrites_the_whole_key() {
    // Any line in [FullScreenMovie] whose trimmed text starts with
    // "StartupMovies" is rewritten to the plain key, value kept.
    let src = b"[FullScreenMovie]\r\nStartupMoviesExtra=Two.bik\r\n".to_vec();
    let out = rewrite_document(&src, &settings(1, 1, false, false));
    assert_eq!(out.content, b"[FullScreenMovie]\r\nStartupMovies=Two.bik\r\n".to_vec());
}

#[test]
fn startup_movies_outside_full_screen_movie_is_untouched() {
    let src = b"[SystemSettings]\r\nStartupMovies=Intro.bik\r\n".to_vec();
    let out = rewrite_document(&src, &settings(1, 1, false, true));
    assert_eq!(out.content, b"[SystemSettings]\r\nStartupMovies=Intro.bik\r\n".to_vec());
}

#[test]
fn undecodable_line_is_dropped_with_a_warning() {
    let mut src = b"a=1\r\n".to_vec();
    src.extend_from_slice(&[0xff, 0xfe, 0x0d, 0x0a]);
    src.extend_from_slice(b"b=2\r\n");
    let out = rewrite_document(&src, &settings(1, 2, false, false));
    assert_eq!(out.content, b"a=1\r\nb=2\r\n".to_vec());
    assert_eq!(out.events, vec![LogEvent::DecodeError { line: 2 }]);
    assert_eq!(decode_error_count(&out.events), 1);
}

#[test]
fn multibyte_text_lines_are_kept() {
    let src = "name=Tron \u{e9}volution\r\n".as_bytes().to_vec();
    let out = rewrite_document(&src, &settings(1, 2, false, false));
    assert_eq!(out.content, src);
    assert_eq!(decode_error_count(&out.events), 0);
}

#[test]
fn first_run_snapshots_live_file_as_backup() {
    let live = b"[SystemSettings]\r\nResX=800\r\n".to_vec();
    let run = rewrite_grid_engine_config(&live, &None, &settings(1920, 1080, true, false));
    assert_eq!(run.backup, live);
    assert_eq!(run.live, b"[SystemSettings]\r\nResX=1920\r\n".to_vec());
}

#[test]
fn second_run_keeps_backup_and_is_idempotent() {
    let live0 = b"[SystemSettings]\r\nResX=800\r\nFullscreen=False\r\n".to_vec();
    let s = settings(1920, 1080, true, false);
    let first = rewrite_grid_engine_config(&live0, &None, &s);
    let second = rewrite_grid_engine_config(&first.live, &Some(first.backup.clone()), &s);
    assert_eq!(second.backup, first.backup);
    assert_eq!(second.backup, live0);
    assert_eq!(second.live, first.live);
}

#[test]
fn rewrites_source_from_backup_not_from_live() {
    // With a backup present, the live bytes are ignored as a source.
    let backup = b"[SystemSettings]\r\nResX=800\r\n".to_vec();
    let live = b"something else entirely\r\n".to_vec();
    let run = rewrite_grid_engine_config(&live, &Some(backup.clone()), &settings(640, 480, false, false));
    assert_eq!(run.backup, backup);
    assert_eq!(run.live, b"[SystemSettings]\r\nResX=640\r\n".to_vec());
}

#[test]
fn split_lines_matches_line_reader_behavior() {
    let lines = split_lines(&b"a\r\nb\nc\r".to_vec());
    assert_eq!(lines, vec![b"a".to_vec(), b"b".to_vec(), b"c\r".to_vec()]);
    let lines = split_lines(&b"a\n".to_vec());
    assert_eq!(lines, vec![b"a".to_vec()]);
    let lines = split_lines(&b"".to_vec());
    assert!(lines.is_empty());
}
