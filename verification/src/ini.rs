//! The line model of the engine configuration file: what counts as a blank
//! line, a section header, or a `key=value` pair, which section each header
//! selects, and how one line is rewritten under given settings.
use vstd::prelude::*;
use crate::launcher::SettingsInput;
use crate::text::{
    ascii, bytes_eq, copy_bytes, find_byte, i32_dec, lit_bytes, push_all, spec_find, spec_idec,
    spec_starts_with, spec_trim, starts_with, subvec, trim,
};

verus! {

/// Which recognized section the rewriter is currently inside.
#[derive(Clone, Copy, PartialEq, Eq, Structural, Debug)]
pub enum Section {
    Other,
    SystemSettings,
    FullScreenMovie,
}

/// What the rewriter decides to do with one line.
pub enum LineKind {
    Blank,
    Header,
    Verbatim,
    RewriteResX,
    RewriteResY,
    RewriteFullscreen,
    ToggleMovies { value: Seq<u8> },
}

/// The trimmed line is a section header: it opens with `[` and closes
/// with `]`.
pub open spec fn spec_is_header(t: Seq<u8>) -> bool {
    t.len() >= 1 && t[0] == 91 && t[t.len() - 1] == 93
}

/// The section selected by a header line.
pub open spec fn spec_header_section(t: Seq<u8>) -> Section {
    if t == ascii("[SystemSettings]"@) {
        Section::SystemSettings
    } else if t == ascii("[FullScreenMovie]"@) {
        Section::FullScreenMovie
    } else {
        Section::Other
    }
}

/// How one line is treated, given the section in force when it is read.
pub open spec fn spec_classify(line: Seq<u8>, sec: Section) -> LineKind {
    let t = spec_trim(line);
    if t.len() == 0 {
        LineKind::Blank
    } else if spec_is_header(t) {
        LineKind::Header
    } else {
        match spec_find(t, 61u8) {
            Option::None => LineKind::Verbatim,
            Option::Some(i) => {
                let key = t.take(i);
                if sec == Section::SystemSettings && key == ascii("ResX"@) {
                    LineKind::RewriteResX
                } else if sec == Section::SystemSettings && key == ascii("ResY"@) {
                    LineKind::RewriteResY
                } else if sec == Section::SystemSettings && key == ascii("Fullscreen"@) {
                    LineKind::RewriteFullscreen
                } else if sec == Section::FullScreenMovie && (spec_starts_with(
                    t,
                    ascii("StartupMovies"@),
                ) || spec_starts_with(t, ascii(";StartupMovies"@))) {
                    LineKind::ToggleMovies { value: t.skip(i + 1) }
                } else {
                    LineKind::Verbatim
                }
            },
        }
    }
}

/// The section in force after this line: headers select their section,
/// every other line leaves it unchanged.
pub open spec fn spec_next_section(line: Seq<u8>, sec: Section) -> Section {
    let t = spec_trim(line);
    if t.len() == 0 {
        sec
    } else if spec_is_header(t) {
        spec_header_section(t)
    } else {
        sec
    }
}

/// The output line (without its CRLF terminator) that the rewriter emits
/// for `line` under `sec` and settings `s`.
pub open spec fn spec_out_line(line: Seq<u8>, sec: Section, s: SettingsInput) -> Seq<u8> {
    match spec_classify(line, sec) {
        LineKind::Blank => Seq::<u8>::empty(),
        LineKind::Header => line,
        LineKind::Verbatim => line,
        LineKind::RewriteResX => ascii("ResX="@) + spec_idec(s.window_width as int),
        LineKind::RewriteResY => ascii("ResY="@) + spec_idec(s.window_height as int),
        LineKind::RewriteFullscreen => ascii("Fullscreen="@) + (if s.is_fullscreen {
            ascii("True"@)
        } else {
            ascii("False"@)
        }),
        LineKind::ToggleMovies { value } => (if s.disable_splash_screen {
            ascii(";StartupMovies="@)
        } else {
            ascii("StartupMovies="@)
        }) + value,
    }
}

/// One observer notice from the rewriter: a key it rewrote, the splash-screen
/// toggle it applied, or a line that failed to decode as text.
#[derive(Clone, PartialEq, Eq, Debug)]
pub enum LogEvent {
    SetResX(i32),
    SetResY(i32),
    SetFullscreen(bool),
    ToggleStartupMovies { disabled: bool, value: Vec<u8> },
    DecodeError { line: usize },
}

/// The mathematical form of a `LogEvent`.
pub enum SpecLogEvent {
    SetResX(int),
    SetResY(int),
    SetFullscreen(bool),
    ToggleStartupMovies { disabled: bool, value: Seq<u8> },
    DecodeError { line: int },
}

impl View for LogEvent {
    type V = SpecLogEvent;

    open spec fn view(&self) -> SpecLogEvent {
        match self {
            LogEvent::SetResX(w) => SpecLogEvent::SetResX(*w as int),
            LogEvent::SetResY(h) => SpecLogEvent::SetResY(*h as int),
            LogEvent::SetFullscreen(f) => SpecLogEvent::SetFullscreen(*f),
            LogEvent::ToggleStartupMovies { disabled, value } => (
            SpecLogEvent::ToggleStartupMovies { disabled: *disabled, value: value@ }),
            LogEvent::DecodeError { line } => SpecLogEvent::DecodeError { line: *line as int },
        }
    }
}

/// The observer events reported for one decodable line.
pub open spec fn spec_line_events(line: Seq<u8>, sec: Section, s: SettingsInput) -> Seq<
    SpecLogEvent,
> {
    match spec_classify(line, sec) {
        LineKind::Blank => Seq::<SpecLogEvent>::empty(),
        LineKind::Header => Seq::<SpecLogEvent>::empty(),
        LineKind::Verbatim => Seq::<SpecLogEvent>::empty(),
        LineKind::RewriteResX => seq![SpecLogEvent::SetResX(s.window_width as int)],
        LineKind::RewriteResY => seq![SpecLogEvent::SetResY(s.window_height as int)],
        LineKind::RewriteFullscreen => seq![SpecLogEvent::SetFullscreen(s.is_fullscreen)],
        LineKind::ToggleMovies { value } => seq![
            (SpecLogEvent::ToggleStartupMovies { disabled: s.disable_splash_screen, value }),
        ],
    }
}

/// Rewrite one decodable line: the emitted line (without CRLF), the observer
/// event if the line was rewritten, and the section in force afterwards.
pub fn process_line(line: &Vec<u8>, sec: Section, s: &SettingsInput) -> (r: (
    Vec<u8>,
    Option<LogEvent>,
    Section,
))
    ensures
        r.0@ == spec_out_line(line@, sec, *s),
        (match r.1 {
            Option::Some(e) => spec_line_events(line@, sec, *s) == seq![e@],
            Option::None => spec_line_events(line@, sec, *s) == Seq::<SpecLogEvent>::empty(),
        }),
        r.2 == spec_next_section(line@, sec),
{
    let t = trim(line);
    if t.len() == 0 {
        let out: Vec<u8> = Vec::new();
        proof {
            assert(out@ =~= Seq::<u8>::empty());
        }
        return (out, Option::None, sec);
    }
    let n = t.len();
    if t[0] == 91 && t[n - 1] == 93 {
        proof {
            reveal_strlit("[SystemSettings]");
            reveal_strlit("[FullScreenMovie]");
        }
        let sys = lit_bytes("[SystemSettings]");
        let fsm = lit_bytes("[FullScreenMovie]");
        let nsec = if bytes_eq(&t, &sys) {
            Section::SystemSettings
        } else if bytes_eq(&t, &fsm) {
            Section::FullScreenMovie
        } else {
            Section::Other
        };
        return (copy_bytes(line), Option::None, nsec);
    }
    match find_byte(&t, 61) {
        Option::None => (copy_bytes(line), Option::None, sec),
        Option::Some(i) => {
            if matches!(sec, Section::SystemSettings) {
                let key = subvec(&t, 0, i);
                proof {
                    reveal_strlit("ResX");
                    reveal_strlit("ResY");
                    reveal_strlit("Fullscreen");
                    reveal_strlit("ResX=");
                    reveal_strlit("ResY=");
                    reveal_strlit("Fullscreen=");
                    reveal_strlit("True");
                    reveal_strlit("False");
                }
                if bytes_eq(&key, &lit_bytes("ResX")) {
                    let mut out = lit_bytes("ResX=");
                    let digits = i32_dec(s.window_width);
                    push_all(&mut out, &digits);
                    return (out, Option::Some(LogEvent::SetResX(s.window_width)), sec);
                }
                if bytes_eq(&key, &lit_bytes("ResY")) {
                    let mut out = lit_bytes("ResY=");
                    let digits = i32_dec(s.window_height);
                    push_all(&mut out, &digits);
                    return (out, Option::Some(LogEvent::SetResY(s.window_height)), sec);
                }
                if bytes_eq(&key, &lit_bytes("Fullscreen")) {
                    let mut out = lit_bytes("Fullscreen=");
                    let flag = if s.is_fullscreen {
                        lit_bytes("True")
                    } else {
                        lit_bytes("False")
                    };
                    push_all(&mut out, &flag);
                    return (out, Option::Some(LogEvent::SetFullscreen(s.is_fullscreen)), sec);
                }
            }
            if matches!(sec, Section::FullScreenMovie) {
                proof {
                    reveal_strlit("StartupMovies");
                    reveal_strlit(";StartupMovies");
                    reveal_strlit("StartupMovies=");
                    reveal_strlit(";StartupMovies=");
                }
                let plain = lit_bytes("StartupMovies");
                let commented = lit_bytes(";StartupMovies");
                if starts_with(&t, &plain) || starts_with(&t, &commented) {
                    let value = subvec(&t, i + 1, t.len());
                    proof {
                        assert(t@.subrange(i + 1, t@.len() as int) =~= t@.skip(i + 1));
                    }
                    let mut out = if s.disable_splash_screen {
                        lit_bytes(";StartupMovies=")
                    } else {
                        lit_bytes("StartupMovies=")
                    };
                    push_all(&mut out, &value);
                    let evt = LogEvent::ToggleStartupMovies {
                        disabled: s.disable_splash_screen,
                        value,
                    };
                    return (out, Option::Some(evt), sec);
                }
            }
            (copy_bytes(line), Option::None, sec)
        },
    }
}

} // verus!
