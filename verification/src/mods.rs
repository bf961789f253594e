//! Mod management: which files an install-or-remove pass touches for a
//! given configuration, what to do about a mod's published releases, and
//! the decompression of wanted files from a downloaded release archive.
use vstd::prelude::*;

verus! {

/// A release asset, as GitHub's release listing describes it.
#[derive(Debug)]
pub struct GitHubReleaseAsset {
    pub url: String,
    pub id: i64,
    pub node_id: String,
    pub name: String,
    pub label: String,
    pub content_type: String,
    pub state: String,
    pub size: i64,
    pub download_count: i64,
    pub created_at: String,
    pub updated_at: String,
    pub browser_download_url: String,
}

/// A release, as GitHub's release listing describes it.
#[derive(Debug)]
pub struct GitHubRelease {
    pub url: String,
    pub assets_url: String,
    pub upload_url: String,
    pub html_url: String,
    pub id: i64,
    pub node_id: String,
    pub tag_name: String,
    pub target_commitish: String,
    pub name: String,
    pub draft: bool,
    pub prerelease: bool,
    pub created_at: String,
    pub published_at: String,
    pub assets: Vec<GitHubReleaseAsset>,
}

/// The files a mod installation touches in the game install directory.
#[derive(Clone, Copy, PartialEq, Eq, Structural, Debug)]
pub enum ModFile {
    Dinput8,
    PatchDat,
    TemDll,
    XliveDll,
}

/// One file operation of an install-or-remove pass.
#[derive(Clone, Copy, PartialEq, Eq, Structural, Debug)]
pub enum FileOp {
    Install(ModFile),
    Remove(ModFile),
}

/// The file name of a mod file.
pub fn mod_file_name(f: ModFile) -> (r: &'static str)
    ensures
        (match f {
            ModFile::Dinput8 => r@ == "dinput8.dll"@,
            ModFile::PatchDat => r@ == "patch.dat"@,
            ModFile::TemDll => r@ == "tem.dll"@,
            ModFile::XliveDll => r@ == "xlive.dll"@,
        }),
{
    match f {
        ModFile::Dinput8 => "dinput8.dll",
        ModFile::PatchDat => "patch.dat",
        ModFile::TemDll => "tem.dll",
        ModFile::XliveDll => "xlive.dll",
    }
}

/// The operations an install-or-remove pass performs, in order. With the
/// main mod wanted, its three files are installed when missing and the
/// extra mod's file is installed or removed as asked; with the main mod not
/// wanted, everything present is removed.
pub open spec fn spec_mod_plan(
    use_tem: bool,
    use_xdead: bool,
    tem_installed: bool,
    xdead_installed: bool,
) -> Seq<FileOp> {
    if use_tem {
        (if !tem_installed {
            seq![
                FileOp::Install(ModFile::Dinput8),
                FileOp::Install(ModFile::PatchDat),
                FileOp::Install(ModFile::TemDll),
            ]
        } else {
            Seq::<FileOp>::empty()
        }) + (if use_xdead {
            if !xdead_installed {
                seq![FileOp::Install(ModFile::XliveDll)]
            } else {
                Seq::<FileOp>::empty()
            }
        } else {
            if xdead_installed {
                seq![FileOp::Remove(ModFile::XliveDll)]
            } else {
                Seq::<FileOp>::empty()
            }
        })
    } else {
        (if tem_installed {
            seq![
                FileOp::Remove(ModFile::Dinput8),
                FileOp::Remove(ModFile::PatchDat),
                FileOp::Remove(ModFile::TemDll),
            ]
        } else {
            Seq::<FileOp>::empty()
        }) + (if xdead_installed {
            seq![FileOp::Remove(ModFile::XliveDll)]
        } else {
            Seq::<FileOp>::empty()
        })
    }
}

/// Decide which file operations one pass performs, from the configuration
/// flags and which mod files are already present.
pub fn plan_mod_files(
    use_tem: bool,
    use_xdead: bool,
    tem_installed: bool,
    xdead_installed: bool,
) -> (r: Vec<FileOp>)
    ensures
        r@ == spec_mod_plan(use_tem, use_xdead, tem_installed, xdead_installed),
{
    let mut r: Vec<FileOp> = Vec::new();
    if use_tem {
        if !tem_installed {
            r.push(FileOp::Install(ModFile::Dinput8));
            r.push(FileOp::Install(ModFile::PatchDat));
            r.push(FileOp::Install(ModFile::TemDll));
        }
        if use_xdead {
            if !xdead_installed {
                r.push(FileOp::Install(ModFile::XliveDll));
            }
        } else {
            if xdead_installed {
                r.push(FileOp::Remove(ModFile::XliveDll));
            }
        }
    } else {
        if tem_installed {
            r.push(FileOp::Remove(ModFile::Dinput8));
            r.push(FileOp::Remove(ModFile::PatchDat));
            r.push(FileOp::Remove(ModFile::TemDll));
        }
        if xdead_installed {
            r.push(FileOp::Remove(ModFile::XliveDll));
        }
    }
    proof {
        assert(r@ =~= spec_mod_plan(use_tem, use_xdead, tem_installed, xdead_installed));
    }
    r
}

/// What to do about a mod, given GitHub's release listing and the release
/// asset name already installed.
#[derive(Clone, PartialEq, Eq, Debug)]
pub enum UpdatePlan {
    NoRelease,
    NoAsset,
    AlreadyCurrent,
    Download { url: String, asset_name: String },
}

/// The mathematical form of an update plan.
pub enum SpecUpdatePlan {
    NoRelease,
    NoAsset,
    AlreadyCurrent,
    Download { url: Seq<char>, asset_name: Seq<char> },
}

impl View for UpdatePlan {
    type V = SpecUpdatePlan;

    open spec fn view(&self) -> SpecUpdatePlan {
        match self {
            UpdatePlan::NoRelease => SpecUpdatePlan::NoRelease,
            UpdatePlan::NoAsset => SpecUpdatePlan::NoAsset,
            UpdatePlan::AlreadyCurrent => SpecUpdatePlan::AlreadyCurrent,
            UpdatePlan::Download { url, asset_name } => (
            SpecUpdatePlan::Download { url: url@, asset_name: asset_name@ }),
        }
    }
}

/// Index of the first acceptable release at or after `k`: any release when
/// unstable releases are allowed, else the first that is not a prerelease.
pub open spec fn spec_select_release(
    releases: Seq<GitHubRelease>,
    allow_unstable: bool,
    k: int,
) -> Option<int>
    decreases releases.len() - k,
{
    if k < 0 || k >= releases.len() {
        Option::None
    } else if allow_unstable || !releases[k].prerelease {
        Option::Some(k)
    } else {
        spec_select_release(releases, allow_unstable, k + 1)
    }
}

/// The decision taken from a release listing: no acceptable release, a
/// release without assets, the first asset already installed, or that
/// asset's download.
pub open spec fn spec_update_plan(
    releases: Seq<GitHubRelease>,
    allow_unstable: bool,
    current: Seq<char>,
) -> SpecUpdatePlan {
    match spec_select_release(releases, allow_unstable, 0) {
        Option::None => SpecUpdatePlan::NoRelease,
        Option::Some(k) => {
            let rel = releases[k];
            if rel.assets@.len() == 0 {
                SpecUpdatePlan::NoAsset
            } else {
                let a = rel.assets@[0];
                if a.name@ == current {
                    SpecUpdatePlan::AlreadyCurrent
                } else {
                    (SpecUpdatePlan::Download {
                        url: a.browser_download_url@,
                        asset_name: a.name@,
                    })
                }
            }
        },
    }
}

/// Decide what one update pass does, from the releases GitHub listed and
/// the asset name recorded by the last update.
pub fn plan_mod_update(
    releases: &Vec<GitHubRelease>,
    allow_unstable: bool,
    current_version: &String,
) -> (r: UpdatePlan)
    ensures
        r@ == spec_update_plan(releases@, allow_unstable, current_version@),
{
    let mut k: usize = 0;
    while k < releases.len()
        invariant
            0 <= k <= releases@.len(),
            spec_select_release(releases@, allow_unstable, 0) == spec_select_release(
                releases@,
                allow_unstable,
                k as int,
            ),
        decreases releases@.len() - k,
    {
        let rel = &releases[k];
        if allow_unstable || !rel.prerelease {
            if rel.assets.len() == 0 {
                return UpdatePlan::NoAsset;
            }
            let a = &rel.assets[0];
            if a.name == *current_version {
                return UpdatePlan::AlreadyCurrent;
            }
            return UpdatePlan::Download {
                url: a.browser_download_url.clone(),
                asset_name: a.name.clone(),
            };
        }
        k = k + 1;
    }
    UpdatePlan::NoRelease
}

/// The member named `name` inside the zip archive `archive`, decompressed;
/// nothing when the archive cannot be read or holds no such member. The
/// result depends on the archive bytes and the name alone.
pub uninterp spec fn zip_member_of(archive: Seq<u8>, name: Seq<char>) -> Option<Seq<u8>>;

/// Relies on zip::ZipArchive::new and ZipArchive::by_name over an in-memory
/// reader, and on std::io::Read::read_to_end: together they decompress the
/// named member of the archive, a pure function of the bytes and the name.
#[verifier::external_body]
fn zip_extract_member(archive: &Vec<u8>, name: &str) -> (r: Option<Vec<u8>>)
    ensures
        (match r {
            Option::Some(v) => zip_member_of(archive@, name@) == Option::Some(v@),
            Option::None => zip_member_of(archive@, name@) is None,
        }),
{
    let cursor = std::io::Cursor::new(archive.as_slice());
    let mut zip = match zip::ZipArchive::new(cursor) {
        Ok(z) => z,
        Err(_) => return Option::None,
    };
    let mut member = match zip.by_name(name) {
        Ok(m) => m,
        Err(_) => return Option::None,
    };
    let mut buf: Vec<u8> = Vec::new();
    match std::io::Read::read_to_end(&mut member, &mut buf) {
        Ok(_) => Option::Some(buf),
        Err(_) => Option::None,
    }
}

/// Entry `entry` holds exactly what the archive holds under `name`: the
/// decompressed member bytes, or nothing when there is no readable member
/// of that name.
pub open spec fn spec_member_match(entry: Option<Vec<u8>>, archive: Seq<u8>, name: Seq<char>) -> bool {
    match entry {
        Option::Some(v) => zip_member_of(archive, name) == Option::Some(v@),
        Option::None => zip_member_of(archive, name) is None,
    }
}

/// Decompress each wanted mod file from a downloaded release archive.
/// Entry `i` of the result holds the bytes of the member named `names[i]`,
/// or nothing when the archive has no readable member of that name.
pub fn extract_mod_files(archive: &Vec<u8>, names: &Vec<String>) -> (r: Vec<Option<Vec<u8>>>)
    ensures
        r@.len() == names@.len(),
        forall|i: int|
            0 <= i < names@.len() ==> #[trigger] spec_member_match(r@[i], archive@, names@[i]@),
{
    let mut r: Vec<Option<Vec<u8>>> = Vec::new();
    let mut i: usize = 0;
    while i < names.len()
        invariant
            0 <= i <= names@.len(),
            r@.len() == i,
            forall|j: int|
                0 <= j < i ==> #[trigger] spec_member_match(r@[j], archive@, names@[j]@),
        decreases names@.len() - i,
    {
        let got = zip_extract_member(archive, names[i].as_str());
        r.push(got);
        i = i + 1;
    }
    r
}

} // verus!
