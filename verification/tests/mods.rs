//! Mod file planning, release update decisions, and archive extraction.
use std::io::Write;
use tem_launcher::mods::{
    extract_mod_files, mod_file_name, plan_mod_files, plan_mod_update, FileOp, GitHubRelease,
    GitHubReleaseAsset, ModFile, UpdatePlan,
};

fn asset(name: &str, url: &str) -> GitHubReleaseAsset {
    GitHubReleaseAsset {
        url: String::new(),
        id: 0,
        node_id: String::new(),
        name: name.to_string(),
        label: String::new(),
        content_type: String::new(),
        state: String::new(),
        size: 0,
        download_count: 0,
        created_at: String::new(),
        updated_at: String::new(),
        browser_download_url: url.to_string(),
    }
}

fn release(prerelease: bool, assets: Vec<GitHubReleaseAsset>) -> GitHubRelease {
    GitHubRelease {
        url: String::new(),
        assets_url: String::new(),
        upload_url: String::new(),
        html_url: String::new(),
        id: 0,
        node_id: String::new(),
        tag_name: String::new(),
        target_commitish: String::new(),
        name: String::new(),
        draft: false,
        prerelease,
        created_at: String::new(),
        published_at: String::new(),
        assets,
    }
}

#[test]
fn mod_file_names_match_the_shipped_files() {
    assert_eq!(mod_file_name(ModFile::Dinput8), "dinput8.dll");
    assert_eq!(mod_file_name(ModFile::PatchDat), "patch.dat");
    assert_eq!(mod_file_name(ModFile::TemDll), "tem.dll");
    assert_eq!(mod_file_name(ModFile::XliveDll), "xlive.dll");
}

#[test]
fn fresh_install_copies_all_mod_files() {
    let plan = plan_mod_files(true, true, false, false);
    assert_eq!(
        plan,
        vec![
            FileOp::Install(ModFile::Dinput8),
            FileOp::Install(ModFile::PatchDat),
            FileOp::Install(ModFile::TemDll),
            FileOp::Install(ModFile::XliveDll),
        ]
    );
}

#[test]
fn installed_mod_is_left_alone() {
    assert_eq!(plan_mod_files(true, true, true, true), Vec::new());
    assert_eq!(plan_mod_files(true, false, true, false), Vec::new());
}

#[test]
fn unwanted_extra_mod_is_removed() {
    assert_eq!(plan_mod_files(true, false, true, true), vec![FileOp::Remove(ModFile::XliveDll)]);
}

#[test]
fn disabling_the_mod_removes_everything_present() {
    assert_eq!(
        plan_mod_files(false, false, true, true),
        vec![
            FileOp::Remove(ModFile::Dinput8),
            FileOp::Remove(ModFile::PatchDat),
            FileOp::Remove(ModFile::TemDll),
            FileOp::Remove(ModFile::XliveDll),
        ]
    );
    assert_eq!(plan_mod_files(false, false, false, false), Vec::new());
    // The extra mod flag alone does not keep its file around.
    assert_eq!(plan_mod_files(false, true, false, true), vec![FileOp::Remove(ModFile::XliveDll)]);
}

#[test]
fn update_plan_with_no_releases() {
    assert_eq!(plan_mod_update(&Vec::new(), true, &String::new()), UpdatePlan::NoRelease);
}

#[test]
fn update_plan_skips_prereleases_when_not_allowed() {
    let releases = vec![
        release(true, vec![asset("beta.zip", "https://example.invalid/beta")]),
        release(false, vec![asset("stable.zip", "https://example.invalid/stable")]),
    ];
    assert_eq!(
        plan_mod_update(&releases, false, &String::new()),
        UpdatePlan::Download {
            url: "https://example.invalid/stable".to_string(),
            asset_name: "stable.zip".to_string(),
        }
    );
    // With unstable releases allowed, the first release wins.
    assert_eq!(
        plan_mod_update(&releases, true, &String::new()),
        UpdatePlan::Download {
            url: "https://example.invalid/beta".to_string(),
            asset_name: "beta.zip".to_string(),
        }
    );
}

#[test]
fn update_plan_without_assets() {
    let releases = vec![release(false, Vec::new())];
    assert_eq!(plan_mod_update(&releases, true, &String::new()), UpdatePlan::NoAsset);
}

#[test]
fn update_plan_when_already_current() {
    let releases = vec![release(false, vec![asset("tem-1.0.zip", "https://example.invalid/a")])];
    assert_eq!(
        plan_mod_update(&releases, true, &"tem-1.0.zip".to_string()),
        UpdatePlan::AlreadyCurrent
    );
}

#[test]
fn extracts_wanted_members_from_a_real_archive() {
    let mut writer = zip::ZipWriter::new(std::io::Cursor::new(Vec::new()));
    let options = zip::write::SimpleFileOptions::default();
    writer.start_file("tem.dll", options).unwrap();
    writer.write_all(b"tem payload").unwrap();
    writer.start_file("patch.dat", options).unwrap();
    writer.write_all(b"patch payload").unwrap();
    let archive = writer.finish().unwrap().into_inner();

    let names = vec!["tem.dll".to_string(), "missing.bin".to_string(), "patch.dat".to_string()];
    let extracted = extract_mod_files(&archive, &names);
    assert_eq!(extracted.len(), 3);
    assert_eq!(extracted[0], Some(b"tem payload".to_vec()));
    assert_eq!(extracted[1], None);
    assert_eq!(extracted[2], Some(b"patch payload".to_vec()));
}

#[test]
fn extraction_fails_cleanly_on_garbage_bytes() {
    let not_an_archive = b"definitely not a zip file".to_vec();
    let extracted = extract_mod_files(&not_an_archive, &vec!["tem.dll".to_string()]);
    assert_eq!(extracted, vec![None]);
}
