use std::collections::HashMap;

use zeron::install::{
    asset_arch, attach_image, copy_bundle, copy_directory, detach_image, find_bundle, find_file,
    helper_failed, queue_relaunch, staged_bundle, ImageStage,
    run_pending_relaunch, unpack_tarball, unpacked_binary, DirEntry, Error, InstallTarget,
    PendingRelaunch, StepOutcome, Swap, SwapStage,
};
use zeron::updater::{
    check_status, confirm_update, download_total, feed_token, feed_url, running_version,
    select_update, Asset, Available, Release, DEFAULT_FEED_URL,
};

fn arch() -> &'static str {
    asset_arch("linux", "x86_64")
}

fn binary() -> InstallTarget {
    InstallTarget::LinuxBinary {
        path: "/home/ada/.local/bin/zeron".to_string(),
    }
}

fn file(path: &str, name: &str) -> DirEntry {
    DirEntry {
        path: path.to_string(),
        name: name.to_string(),
        is_dir: false,
        children: Vec::new(),
    }
}

#[test]
fn appimage_wins_over_the_extracted_binary_path() {
    // Inside an AppImage, current_exe() points at the mount, which
    // disappears on exit — $APPIMAGE is the file to replace.
    let target = InstallTarget::classify(
        "/tmp/.mount_zeronAbc/usr/bin/zeron",
        Some("/home/ada/Apps/Keiki.AppImage"),
    )
    .expect("appimage target");
    assert_eq!(
        target,
        InstallTarget::AppImage {
            path: "/home/ada/Apps/Keiki.AppImage".to_string()
        }
    );
    assert_eq!(
        target.asset_name("0.4.0", arch()),
        format!("zeron-0.4.0-linux-{}.AppImage", arch())
    );
}

#[test]
fn installed_binary_maps_to_the_tarball() {
    let target = InstallTarget::classify("/home/ada/.local/bin/zeron", None).expect("binary");
    assert_eq!(
        target,
        InstallTarget::LinuxBinary {
            path: "/home/ada/.local/bin/zeron".to_string()
        }
    );
    assert_eq!(
        target.asset_name("0.4.0", arch()),
        format!("zeron-0.4.0-linux-{}.tar.gz", arch())
    );
}

#[test]
fn mac_bundle_maps_to_the_dmg() {
    let target =
        InstallTarget::classify("/Applications/Keiki.app/Contents/MacOS/zeron", None)
            .expect("bundle");
    assert_eq!(
        target,
        InstallTarget::MacBundle {
            bundle: "/Applications/Keiki.app".to_string(),
            binary: "/Applications/Keiki.app/Contents/MacOS/zeron".to_string(),
        }
    );
    assert_eq!(
        target.asset_name("0.4.0", arch()),
        format!("zeron-0.4.0-macos-{}.dmg", arch())
    );
}

#[test]
fn cargo_builds_are_never_self_updated() {
    for path in [
        "/home/ada/repos/comet/target/debug/zeron",
        "/home/ada/repos/comet/target/release/zeron",
    ] {
        assert!(matches!(
            InstallTarget::classify(path, None),
            Err(Error::Unsupported(_))
        ));
    }
    // A tarball install one directory deep is not a build tree.
    assert!(InstallTarget::classify("/opt/zeron/zeron", None).is_ok());
}

#[test]
fn builds_for_a_named_platform_are_never_self_updated() {
    for path in [
        "/w/comet/target/x86_64-unknown-linux-gnu/release/zeron",
        "/w/comet/target/aarch64-apple-darwin/debug/zeron",
    ] {
        assert!(matches!(
            InstallTarget::classify(path, None),
            Err(Error::Unsupported(_))
        ));
    }
    for path in [
        "/w/target/a/b/release/zeron",
        "/opt/release/zeron",
        "/w/target/x86_64-unknown-linux-gnu/zeron",
    ] {
        assert!(matches!(
            InstallTarget::classify(path, None),
            Ok(InstallTarget::LinuxBinary { .. })
        ));
    }
}

#[test]
fn an_attached_image_is_taken_away() {
    let broken = || Err(Error::Install("broken".into()));
    let stage = ImageStage::Attaching.advance(Ok(()));
    assert!(matches!(stage, ImageStage::Installing));
    let stage = stage.advance(broken());
    assert!(matches!(stage, ImageStage::Detaching { .. }));
    let stage = stage.advance(Ok(()));
    assert!(matches!(
        stage,
        ImageStage::Done {
            installed: Err(Error::Install(_))
        }
    ));
    // An image that stays attached does not undo the installation.
    let stage = ImageStage::Detaching { installed: Ok(()) }.advance(broken());
    assert!(matches!(stage, ImageStage::Done { installed: Ok(()) }));
    // What was not attached is not taken away.
    let stage = ImageStage::Attaching.advance(broken());
    assert!(matches!(
        stage,
        ImageStage::Done { installed: Err(_) }
    ));
    assert!(matches!(stage.advance(Ok(())), ImageStage::Done { .. }));
}

#[test]
fn updates_are_unpacked_beside_what_they_replace() {
    let bundle = |bundle: &str| InstallTarget::MacBundle {
        bundle: bundle.into(),
        binary: String::new(),
    };
    assert_eq!(
        bundle("/Applications/Keiki.app").staging_folder().unwrap(),
        Some("/Applications".to_string())
    );
    assert_eq!(
        bundle("/").staging_folder().unwrap_err().message(),
        Error::Install("bundle has no parent".into()).message()
    );
    let binary = InstallTarget::LinuxBinary { path: "/".into() };
    assert_eq!(
        binary.staging_folder().unwrap_err().message(),
        Error::Install("binary has no parent".into()).message()
    );
    let image = InstallTarget::AppImage {
        path: "/opt/zeron.AppImage".into(),
    };
    assert_eq!(image.staging_folder().unwrap(), None);
    assert_eq!(
        staged_bundle("/Volumes/x/Keiki.app", "/Applications/.tmp").unwrap(),
        "/Applications/.tmp/Keiki.app"
    );
    assert!(staged_bundle("/", "/tmp").is_err());
}

#[test]
fn read_only_install_dirs_fail_before_the_download() {
    let target = InstallTarget::LinuxBinary {
        path: "/proc/1/zeron".to_string(),
    };
    assert_eq!(
        target.write_probe(7).unwrap(),
        "/proc/1/.zeron-update-probe-7"
    );
    assert!(matches!(
        target.probed(Some("Permission denied (os error 13)".to_string())),
        Err(Error::Unsupported(_))
    ));
    assert!(target.probed(None).is_ok());
}

#[test]
fn tarball_binary_is_found_one_directory_deep() {
    let nested = "/staging/zeron-0.4.0-linux-x86_64";
    let entries = vec![DirEntry {
        path: nested.to_string(),
        name: "zeron-0.4.0-linux-x86_64".to_string(),
        is_dir: true,
        children: vec![
            file(&format!("{nested}/zeron.desktop"), "zeron.desktop"),
            file(&format!("{nested}/zeron"), "zeron"),
        ],
    }];
    assert_eq!(
        find_file(&entries, "zeron", 2),
        Some(format!("{nested}/zeron"))
    );
    assert_eq!(find_file(&entries, "missing", 2), None);
    assert!(unpacked_binary(&entries, "/staging/zeron.tar.gz").is_ok());
    assert!(matches!(
        unpacked_binary(&vec![], "/staging/zeron.tar.gz"),
        Err(Error::Install(_))
    ));
}

#[test]
fn release_json_parses_the_fields_the_updater_uses() {
    let value: serde_json::Value = serde_json::from_str(
        r#"{
            "tag_name": "v0.4.0",
            "name": "0.4.0",
            "assets": [{
                "name": "zeron-0.4.0-linux-x86_64.tar.gz",
                "url": "https://api.github.com/repos/Mail-0/comet/releases/assets/1",
                "browser_download_url": "https://example.invalid/dl",
                "size": 42
            }]
        }"#,
    )
    .expect("release json");
    let release = Release {
        tag_name: value["tag_name"].as_str().unwrap().to_string(),
        assets: value["assets"]
            .as_array()
            .unwrap()
            .iter()
            .map(|asset| Asset {
                name: asset["name"].as_str().unwrap().to_string(),
                url: asset["url"].as_str().unwrap().to_string(),
                size: asset["size"].as_u64().unwrap(),
            })
            .collect(),
    };
    assert_eq!(release.tag_name, "v0.4.0");
    assert_eq!(release.assets.len(), 1);
    assert_eq!(release.assets[0].size, 42);
    let update = select_update("0.3.1", release, binary(), "x86_64")
        .unwrap()
        .expect("an update");
    assert_eq!(update.version, "0.4.0");
    assert_eq!(update.asset.size, 42);
}

/// Files by their paths, for a swap to work on.
struct Disk {
    files: HashMap<String, &'static str>,
    broken: Option<&'static str>,
}

impl Disk {
    fn moved(&mut self, from: &str, to: &str) -> Option<String> {
        if self.broken == Some("rename") && from.contains(".new-") {
            return Some("no room".to_string());
        }
        let contents = self.files.remove(from).expect("nothing to move");
        self.files.insert(to.to_string(), contents);
        None
    }

    fn run(&mut self, mut swap: Swap) -> Result<(), String> {
        loop {
            let (target, incoming, outgoing) = (
                swap.target.clone(),
                swap.incoming.clone(),
                swap.outgoing.clone(),
            );
            let mut found = false;
            let failure = match &swap.stage {
                SwapStage::Clearing => {
                    self.files.remove(&incoming);
                    None
                }
                SwapStage::Copying => {
                    self.files.insert(incoming, "new");
                    None
                }
                SwapStage::Marking => None,
                SwapStage::Looking => {
                    found = self.files.contains_key(&target);
                    None
                }
                SwapStage::MovingAside => self.moved(&target, &outgoing),
                SwapStage::MovingIn { .. } => self.moved(&incoming, &target),
                SwapStage::Restoring { .. } => self.moved(&outgoing, &target),
                SwapStage::Cleaning => {
                    self.files.remove(&outgoing);
                    None
                }
                SwapStage::Installed => return Ok(()),
                SwapStage::Failed { error } => return Err(error.clone()),
            };
            swap = swap.advance(StepOutcome { failure, found });
        }
    }
}

#[test]
fn a_swap_replaces_the_build_and_leaves_nothing_behind() {
    let mut disk = Disk {
        files: HashMap::new(),
        broken: None,
    };
    disk.files.insert("/opt/zeron/zeron".to_string(), "old");
    let swap = Swap::begin("/opt/zeron/zeron", 7, true).unwrap();
    assert_eq!(disk.run(swap), Ok(()));
    assert_eq!(disk.files.len(), 1);
    assert_eq!(disk.files["/opt/zeron/zeron"], "new");
}

#[test]
fn a_swap_that_fails_puts_the_old_build_back() {
    let mut disk = Disk {
        files: HashMap::new(),
        broken: Some("rename"),
    };
    disk.files.insert("/opt/zeron/zeron".to_string(), "old");
    let swap = Swap::begin("/opt/zeron/zeron", 7, true).unwrap();
    assert_eq!(disk.run(swap), Err("no room".to_string()));
    assert_eq!(disk.files["/opt/zeron/zeron"], "old");
}

#[test]
fn a_swap_installs_where_nothing_was() {
    let mut disk = Disk {
        files: HashMap::new(),
        broken: None,
    };
    let swap = Swap::begin("/opt/zeron/zeron", 7, false).unwrap();
    assert_eq!(disk.run(swap), Ok(()));
    assert_eq!(disk.files["/opt/zeron/zeron"], "new");
    assert!(matches!(
        Swap::begin("/", 7, false),
        Err(Error::Install(_))
    ));
}

#[test]
fn updates_are_chosen_by_version_and_artifact() {
    let release = |tag: &str, asset: &str| Release {
        tag_name: tag.to_string(),
        assets: vec![Asset {
            name: asset.to_string(),
            url: "https://example.invalid/1".to_string(),
            size: 1,
        }],
    };
    assert!(matches!(
        select_update("0.4.0", release("v0.4.0", "x"), binary(), "x86_64"),
        Ok(None)
    ));
    let missing = select_update("0.3.0", release("v0.4.0", "x"), binary(), "x86_64");
    let error = missing.unwrap_err();
    assert_eq!(
        error.message(),
        "release v0.4.0 has no zeron-0.4.0-linux-x86_64.tar.gz artifact"
    );
    let found = select_update(
        "0.3.0",
        release("v0.4.0", "zeron-0.4.0-linux-x86_64.tar.gz"),
        binary(),
        "x86_64",
    );
    let update: Available = found.unwrap().unwrap();
    assert_eq!(update.tag, "v0.4.0");
    assert!(matches!(
        confirm_update(update, Err(Error::Unsupported("read-only".to_string()))),
        Err(Error::Unsupported(_))
    ));
}

#[test]
fn the_feed_is_asked_as_configured() {
    assert_eq!(feed_url(&None), DEFAULT_FEED_URL);
    assert_eq!(
        feed_url(&Some("https://example.invalid".to_string())),
        "https://example.invalid"
    );
    assert_eq!(
        feed_token(&None, &Some("general".to_string())).as_deref(),
        Some("general")
    );
    assert_eq!(
        feed_token(&Some("own".to_string()), &Some("general".to_string())).as_deref(),
        Some("own")
    );
    assert!(check_status(200).is_ok());
    assert_eq!(
        check_status(404).unwrap_err().message(),
        "update feed returned 404 Not Found"
    );
    assert_eq!(
        Error::Status { status: 999 }.message(),
        "update feed returned 999 <unknown status code>"
    );
    assert_eq!(
        Error::Http("timeout".to_string()).message(),
        "update feed request failed: timeout"
    );
    assert_eq!(Error::Io("disk".to_string()).message(), "disk");
    assert_eq!(download_total(Some(5)), Some(5));
    assert_eq!(download_total(Some(0)), Some(0));
    assert_eq!(download_total(None), None);
    assert_eq!(running_version(), "0.1.0");
}

#[test]
fn helpers_are_called_with_their_arguments() {
    let unpack = unpack_tarball("/tmp/a.tar.gz", "/tmp/staging");
    assert_eq!(unpack.program, "tar");
    assert_eq!(unpack.args, ["-xzf", "/tmp/a.tar.gz", "-C", "/tmp/staging"]);
    let attach = attach_image("/tmp/a.dmg", "/tmp/mount");
    assert_eq!(attach.program, "hdiutil");
    assert_eq!(
        attach.args,
        [
            "attach",
            "/tmp/a.dmg",
            "-nobrowse",
            "-readonly",
            "-mountpoint",
            "/tmp/mount"
        ]
    );
    assert_eq!(detach_image("/tmp/mount").program, "hdiutil");
    assert_eq!(copy_bundle("/m/K.app", "/s/K.app").program, "ditto");
    assert_eq!(
        copy_directory("/s/K.app", "/a/.K.app.new-7").args,
        ["-R", "/s/K.app", "/a/.K.app.new-7"]
    );
    assert_eq!(
        helper_failed("tar", None, " broken \n").message(),
        "tar failed: broken"
    );
    assert_eq!(
        helper_failed("tar", Some("not found".to_string()), "").message(),
        "tar failed to start: not found"
    );
    let paths = vec!["/m/Applications".to_string(), "/m/Keiki.app".to_string()];
    assert_eq!(find_bundle(&paths).unwrap(), "/m/Keiki.app");
    assert!(find_bundle(&vec![]).is_err());
}

#[test]
fn the_new_build_is_started_once() {
    let mut pending = PendingRelaunch { target: None };
    assert!(run_pending_relaunch(&mut pending).is_none());
    queue_relaunch(&mut pending, binary());
    let launch = run_pending_relaunch(&mut pending).unwrap();
    assert_eq!(launch.program, "/home/ada/.local/bin/zeron");
    assert!(run_pending_relaunch(&mut pending).is_none());
    queue_relaunch(
        &mut pending,
        InstallTarget::MacBundle {
            bundle: "/Applications/Keiki.app".to_string(),
            binary: "/Applications/Keiki.app/Contents/MacOS/zeron".to_string(),
        },
    );
    let launch = run_pending_relaunch(&mut pending).unwrap();
    assert_eq!(launch.program, "open");
    assert_eq!(launch.args, ["-n", "/Applications/Keiki.app"]);
}
