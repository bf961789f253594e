//! The launcher's configuration records and the small path computations that
//! feed the game launch: the executable path, the SecuROM file-mapping name,
//! and the decoding of the registry install path.
use vstd::prelude::*;
use crate::text::{ascii, copy_bytes, lit_bytes, push_all, subvec};

verus! {

/// Paths resolved once at startup: where the game is installed and where its
/// engine configuration lives.
pub struct AppState {
    pub game_install_path: String,
    pub game_config_path: String,
}

#[derive(Debug)]
pub enum SortOptionDirection {
    Ascending,
    Descending,
}

#[derive(Debug)]
pub struct SortOption {
    pub key: String,
    pub direction: SortOptionDirection,
}

#[derive(Debug)]
pub enum SortOrderOption {
    CreatedAtAsc,
    CreatedAtDesc,
    NameAscending,
    NameDescending,
}

#[derive(Debug)]
pub enum CheckForUpdatesOption {
    Disabled,
    OnLauncherStart,
    OnLauncherExit,
}

#[derive(Debug)]
pub struct AppConfig {
    pub configs: Vec<LauncherConfig>,
    pub sort: SortOption,
    pub check_for_updates: CheckForUpdatesOption,
}

/// One saved launcher configuration.
#[derive(Debug)]
pub struct LauncherConfig {
    pub name: String,
    pub created_at: i64,
    pub modified_at: i64,
    pub window_width: i32,
    pub window_height: i32,
    pub is_fullscreen: bool,
    pub disable_splash_screen: bool,
    pub is_default: bool,
    pub use_tem: bool,
    pub use_xdead: bool,
}

/// The four fields of a launcher configuration that drive one rewrite of the
/// engine configuration file.
#[derive(Clone, Copy, PartialEq, Eq, Structural, Debug)]
pub struct SettingsInput {
    pub window_width: i32,
    pub window_height: i32,
    pub is_fullscreen: bool,
    pub disable_splash_screen: bool,
}

impl LauncherConfig {
    /// The rewrite settings carried by this configuration.
    pub fn settings(&self) -> (s: SettingsInput)
        ensures
            s.window_width == self.window_width,
            s.window_height == self.window_height,
            s.is_fullscreen == self.is_fullscreen,
            s.disable_splash_screen == self.disable_splash_screen,
    {
        SettingsInput {
            window_width: self.window_width,
            window_height: self.window_height,
            is_fullscreen: self.is_fullscreen,
            disable_splash_screen: self.disable_splash_screen,
        }
    }
}

pub const GAME_EXE: &'static str = "GridGame.exe";

pub const SECUROM_BUFFER_SIZE: usize = 1723;

/// `dir`, a backslash, then `file`: how the launcher joins Windows paths.
pub open spec fn spec_joined(dir: Seq<u8>, file: Seq<u8>) -> Seq<u8> {
    dir + seq![92u8] + file
}

pub fn join_path(dir: &Vec<u8>, file: &Vec<u8>) -> (r: Vec<u8>)
    ensures
        r@ == spec_joined(dir@, file@),
{
    let mut r = copy_bytes(dir);
    r.push(92);
    push_all(&mut r, file);
    proof {
        assert(dir@.push(92u8) + file@ =~= dir@ + seq![92u8] + file@);
    }
    r
}

/// The full path of the game executable under the install directory.
pub fn game_exe_path(install_dir: &Vec<u8>) -> (r: Vec<u8>)
    ensures
        r@ == spec_joined(install_dir@, ascii(GAME_EXE@)),
{
    proof {
        reveal_strlit("GridGame.exe");
    }
    let file = lit_bytes(GAME_EXE);
    join_path(install_dir, &file)
}

/// The name of the SecuROM file mapping held open around the game process,
/// NUL terminator included.
pub fn securom_mapping_name() -> (r: Vec<u8>)
    ensures
        r@ == ascii("-=[SMS_"@) + ascii(GAME_EXE@) + ascii("_SMS]=-\0"@),
{
    proof {
        reveal_strlit("-=[SMS_");
        reveal_strlit("GridGame.exe");
        reveal_strlit("_SMS]=-\0");
    }
    let mut r = lit_bytes("-=[SMS_");
    let exe = lit_bytes(GAME_EXE);
    let tail = lit_bytes("_SMS]=-\0");
    push_all(&mut r, &exe);
    push_all(&mut r, &tail);
    r
}

/// `s` without any trailing NUL bytes, as left behind by a fixed-size
/// registry read.
pub open spec fn spec_trim_nuls(s: Seq<u8>) -> Seq<u8>
    decreases s.len(),
{
    if s.len() > 0 && s.last() == 0 {
        spec_trim_nuls(s.drop_last())
    } else {
        s
    }
}

proof fn lemma_trim_nuls_take(s: Seq<u8>, k: int)
    requires
        0 <= k <= s.len(),
        forall|i: int| k <= i < s.len() ==> s[i] == 0,
        k > 0 ==> s[k - 1] != 0,
    ensures
        spec_trim_nuls(s) == s.take(k),
    decreases s.len() - k,
{
    if k == s.len() {
        assert(s.take(k) =~= s);
    } else {
        let t = s.drop_last();
        assert(forall|i: int| k <= i < t.len() ==> t[i] == 0);
        lemma_trim_nuls_take(t, k);
        assert(t.take(k) =~= s.take(k));
    }
}

/// Copy of `v` with trailing NUL bytes removed.
pub fn trim_trailing_nuls(v: &Vec<u8>) -> (r: Vec<u8>)
    ensures
        r@ == spec_trim_nuls(v@),
{
    let mut hi: usize = v.len();
    while hi > 0 && v[hi - 1] == 0
        invariant
            0 <= hi <= v@.len(),
            forall|i: int| hi <= i < v@.len() ==> v@[i] == 0,
        decreases hi,
    {
        hi = hi - 1;
    }
    proof {
        lemma_trim_nuls_take(v@, hi as int);
    }
    let r = subvec(v, 0, hi);
    proof {
        assert(v@.subrange(0, hi as int) =~= v@.take(hi as int));
    }
    r
}

} // verus!
