//! Where a build is installed, how a downloaded one takes its place, and how
//! the application comes back afterwards.

use vstd::prelude::*;

use crate::paths::extension_is;
use crate::paths::file_name;
use crate::paths::has_extension;
use crate::paths::join_path;
use crate::paths::joined_path;
use crate::paths::law_an_extension_stands_behind_the_last_dot;
use crate::paths::law_joined_paths_come_apart;
use crate::paths::name_of;
use crate::paths::parent;
use crate::paths::parent_of;
use crate::paths::tidy;
use crate::text::concat;
use crate::text::concat3;
use crate::text::decimal;
use crate::text::decimal_string;
use crate::text::lemma_after_last;
use crate::text::optional;
use crate::text::same;
use crate::text::texts;
use crate::text::trim;
use crate::text::trimmed;

verus! {

/// What a status of an HTTP reply is called, if it has a name.
pub uninterp spec fn canonical(status: u16) -> Option<Seq<char>>;

/// `http::StatusCode::canonical_reason`, of the `http::StatusCode` that
/// `reqwest` hands on. Claimed: the number alone decides whether it has a name,
/// and which; a number that is no status has none.
#[verifier::external_body]
fn canonical_reason(status: u16) -> (reason: Option<String>)
    ensures
        optional(reason) == canonical(status),
{
    let code = reqwest::StatusCode::from_u16(status).ok()?;
    code.canonical_reason().map(|reason| reason.to_string())
}

/// Why an update did not come about.
#[derive(Debug)]
pub enum Error {
    Http(String),
    Status { status: u16 },
    Unsupported(String),
    MissingAsset { tag: String, asset: String },
    Io(String),
    Install(String),
}

impl Error {
    /// The error in words.
    pub open spec fn words(self) -> Seq<char> {
        match self {
            Error::Http(text) => "update feed request failed: "@ + text@,
            Error::Status { status } => "update feed returned "@ + decimal(status as nat) + " "@ + match canonical(
                status,
            ) {
                Some(reason) => reason,
                None => "<unknown status code>"@,
            },
            Error::Unsupported(text) => text@,
            Error::MissingAsset { tag, asset } => "release "@ + tag@ + " has no "@ + asset@
                + " artifact"@,
            Error::Io(text) => text@,
            Error::Install(text) => text@,
        }
    }

    /// The error in words.
    pub fn message(&self) -> (text: String)
        ensures
            text@ == self.words(),
    {
        match self {
            Error::Http(text) => concat("update feed request failed: ", text.as_str()),
            Error::Status { status } => {
                let number = decimal_string(*status as u64);
                let head = concat3("update feed returned ", number.as_str(), " ");
                match canonical_reason(*status) {
                    Some(reason) => concat(head.as_str(), reason.as_str()),
                    None => concat(head.as_str(), "<unknown status code>"),
                }
            },
            Error::Unsupported(text) => text.clone(),
            Error::MissingAsset { tag, asset } => {
                let head = concat3("release ", tag.as_str(), " has no ");
                concat3(head.as_str(), asset.as_str(), " artifact")
            },
            Error::Io(text) => text.clone(),
            Error::Install(text) => text.clone(),
        }
    }
}

/// What an installation is made of, by its paths.
#[derive(Debug, Clone, PartialEq, Eq)]
pub enum InstallTarget {
    AppImage { path: String },
    LinuxBinary { path: String },
    MacBundle { bundle: String, binary: String },
}

/// The bundle that an executable lies in: the directory with the extension
/// `app` whose `Contents/MacOS` holds it.
pub open spec fn bundle_of(exe: Seq<char>) -> Option<Seq<char>> {
    match parent_of(exe) {
        Some(macos) => if name_of(macos) == Some("MacOS"@) {
            match parent_of(macos) {
                Some(contents) => if name_of(contents) == Some("Contents"@) {
                    match parent_of(contents) {
                        Some(bundle) => if name_of(bundle) is Some && has_extension(
                            name_of(bundle)->0,
                            "app"@,
                        ) {
                            Some(bundle)
                        } else {
                            None
                        },
                        None => None,
                    }
                } else {
                    None
                },
                None => None,
            }
        } else {
            None
        },
        None => None,
    }
}

/// Whether a directory is the one that builds are put into.
pub open spec fn is_target_dir(dir: Option<Seq<char>>) -> bool {
    dir is Some && name_of(dir->0) == Some("target"@)
}

/// Whether an executable lies where a build puts it: in `debug` or `release`,
/// under `target` itself or, for a build for a platform that was named, under
/// that platform's directory in `target`.
pub open spec fn in_build_tree(exe: Seq<char>) -> bool {
    match parent_of(exe) {
        Some(profile) => {
            &&& name_of(profile) == Some("debug"@) || name_of(profile) == Some("release"@)
            &&& match parent_of(profile) {
                Some(above) => is_target_dir(Some(above)) || is_target_dir(parent_of(above)),
                None => false,
            }
        },
        None => false,
    }
}

fn name_is(path: &str, name: &str) -> (is: bool)
    ensures
        is == (name_of(path@) == Some(name@)),
{
    match file_name(path) {
        Some(found) => same(found, name),
        None => false,
    }
}

/// The bundle that an executable lies in.
fn mac_bundle(exe: &str) -> (bundle: Option<String>)
    ensures
        optional(bundle) == bundle_of(exe@),
{
    let macos = match parent(exe) {
        Some(dir) => dir,
        None => {
            return None;
        },
    };
    if !name_is(macos.as_str(), "MacOS") {
        return None;
    }
    let contents = match parent(macos.as_str()) {
        Some(dir) => dir,
        None => {
            return None;
        },
    };
    if !name_is(contents.as_str(), "Contents") {
        return None;
    }
    let bundle = match parent(contents.as_str()) {
        Some(dir) => dir,
        None => {
            return None;
        },
    };
    let is_app = match file_name(bundle.as_str()) {
        Some(name) => extension_is(name, "app"),
        None => false,
    };
    if is_app {
        Some(bundle)
    } else {
        None
    }
}

/// Whether an executable lies where a build puts it.
fn is_build_tree(exe: &str) -> (built: bool)
    ensures
        built == in_build_tree(exe@),
{
    match parent(exe) {
        Some(profile) => {
            if name_is(profile.as_str(), "debug") || name_is(profile.as_str(), "release") {
                match parent(profile.as_str()) {
                    Some(above) => name_is(above.as_str(), "target") || match parent(
                        above.as_str(),
                    ) {
                        Some(top) => name_is(top.as_str(), "target"),
                        None => false,
                    },
                    None => false,
                }
            } else {
                false
            }
        },
        None => false,
    }
}

/// What the packaging calls an architecture.
pub fn asset_arch<'a>(os: &str, arch: &'a str) -> (slug: &'a str)
    ensures
        slug@ == if os@ == "macos"@ && arch@ == "aarch64"@ {
            "arm64"@
        } else {
            arch@
        },
{
    if same(os, "macos") && same(arch, "aarch64") {
        "arm64"
    } else {
        arch
    }
}

/// A command and its arguments.
#[derive(Debug, Clone, PartialEq, Eq)]
pub struct Launch {
    pub program: String,
    pub args: Vec<String>,
}

impl InstallTarget {
    /// The path that an update replaces.
    pub open spec fn replaced(self) -> Seq<char> {
        match self {
            InstallTarget::AppImage { path } => path@,
            InstallTarget::LinuxBinary { path } => path@,
            InstallTarget::MacBundle { bundle, .. } => bundle@,
        }
    }

    /// What the release calls the build of `version` for this installation.
    pub open spec fn artifact(self, version: Seq<char>, arch: Seq<char>) -> Seq<char> {
        match self {
            InstallTarget::AppImage { .. } => "zeron-"@ + version + "-linux-"@ + arch
                + ".AppImage"@,
            InstallTarget::LinuxBinary { .. } => "zeron-"@ + version + "-linux-"@ + arch
                + ".tar.gz"@,
            InstallTarget::MacBundle { .. } => "zeron-"@ + version + "-macos-"@ + arch + ".dmg"@,
        }
    }

    /// What the executable at `exe` is installed as. An AppImage is itself
    /// what is replaced, wherever it was unpacked; a build of a source tree is
    /// never replaced.
    pub fn classify(exe: &str, appimage: Option<&str>) -> (target: Result<Self, Error>)
        ensures
            match appimage {
                Some(image) => target is Ok && target->Ok_0 is AppImage
                    && target->Ok_0->AppImage_path@ == image@,
                None => match bundle_of(exe@) {
                    Some(bundle) => target is Ok && target->Ok_0 is MacBundle
                        && target->Ok_0->bundle@ == bundle && target->Ok_0->binary@ == exe@,
                    None => if in_build_tree(exe@) {
                        target is Err && target->Err_0 is Unsupported
                            && target->Err_0->Unsupported_0@ == exe@ + " is a development build"@
                    } else {
                        target is Ok && target->Ok_0 is LinuxBinary
                            && target->Ok_0->LinuxBinary_path@ == exe@
                    },
                },
            },
    {
        if let Some(image) = appimage {
            return Ok(InstallTarget::AppImage { path: image.to_owned() });
        }
        if let Some(bundle) = mac_bundle(exe) {
            return Ok(InstallTarget::MacBundle { bundle, binary: exe.to_owned() });
        }
        if is_build_tree(exe) {
            return Err(Error::Unsupported(concat(exe, " is a development build")));
        }
        Ok(InstallTarget::LinuxBinary { path: exe.to_owned() })
    }

    /// What the release calls the build of `version` for this installation on
    /// the architecture `arch`.
    pub fn asset_name(&self, version: &str, arch: &str) -> (name: String)
        ensures
            name@ == self.artifact(version@, arch@),
    {
        let linux = match self {
            InstallTarget::MacBundle { .. } => false,
            _ => true,
        };
        let head = concat3(
            "zeron-",
            version,
            if linux {
                "-linux-"
            } else {
                "-macos-"
            },
        );
        concat3(
            head.as_str(),
            arch,
            match self {
                InstallTarget::AppImage { .. } => ".AppImage",
                InstallTarget::LinuxBinary { .. } => ".tar.gz",
                InstallTarget::MacBundle { .. } => ".dmg",
            },
        )
    }

    /// The path that an update replaces.
    pub fn swap_path(&self) -> (path: &str)
        ensures
            path@ == self.replaced(),
    {
        match self {
            InstallTarget::AppImage { path } => path.as_str(),
            InstallTarget::LinuxBinary { path } => path.as_str(),
            InstallTarget::MacBundle { bundle, .. } => bundle.as_str(),
        }
    }

    /// The file whose creation shows that an update could be put in place: a
    /// new one beside what it replaces.
    pub fn write_probe(&self, process: u32) -> (probe: Result<String, Error>)
        ensures
            match parent_of(self.replaced()) {
                Some(dir) => probe is Ok && probe->Ok_0@ == joined_path(
                    dir,
                    ".zeron-update-probe-"@ + decimal(process as nat),
                ),
                None => probe is Err && probe->Err_0 is Unsupported && probe->Err_0->Unsupported_0@
                    == self.replaced() + " has no parent"@,
            },
    {
        let path = self.swap_path();
        match parent(path) {
            Some(dir) => {
                let number = decimal_string(process as u64);
                let name = concat(".zeron-update-probe-", number.as_str());
                Ok(join_path(dir.as_str(), name.as_str()))
            },
            None => Err(Error::Unsupported(concat(path, " has no parent"))),
        }
    }

    /// Whether an update could be put in place, after the probe was tried:
    /// `refused` says why it could not be created.
    pub fn probed(&self, refused: Option<String>) -> (writable: Result<(), Error>)
        ensures
            refused is None && parent_of(self.replaced()) is Some ==> writable is Ok,
            parent_of(self.replaced()) is None ==> writable is Err && writable->Err_0 is Unsupported
                && writable->Err_0->Unsupported_0@ == self.replaced() + " has no parent"@,
            refused is Some && parent_of(self.replaced()) is Some ==> writable is Err
                && writable->Err_0 is Unsupported && writable->Err_0->Unsupported_0@ == parent_of(
                self.replaced(),
            )->0 + " is not writable ("@ + refused->0@
                + ") — update through the package manager that installed it"@,
    {
        let path = self.swap_path();
        match parent(path) {
            Some(dir) => match refused {
                Some(why) => {
                    let head = concat3(dir.as_str(), " is not writable (", why.as_str());
                    Err(
                        Error::Unsupported(
                            concat(
                                head.as_str(),
                                ") — update through the package manager that installed it",
                            ),
                        ),
                    )
                },
                None => Ok(()),
            },
            None => Err(Error::Unsupported(concat(path, " has no parent"))),
        }
    }

    /// The directory that an update is unpacked in, beside what it replaces; an
    /// AppImage is not unpacked.
    pub fn staging_folder(&self) -> (folder: Result<Option<String>, Error>)
        ensures
            match self {
                InstallTarget::AppImage { .. } => folder is Ok && folder->Ok_0 is None,
                InstallTarget::LinuxBinary { path } => match parent_of(path@) {
                    Some(dir) => folder is Ok && optional(folder->Ok_0) == Some(dir),
                    None => folder is Err && folder->Err_0 is Install && folder->Err_0->Install_0@
                        == "binary has no parent"@,
                },
                InstallTarget::MacBundle { bundle, .. } => match parent_of(bundle@) {
                    Some(dir) => folder is Ok && optional(folder->Ok_0) == Some(dir),
                    None => folder is Err && folder->Err_0 is Install && folder->Err_0->Install_0@
                        == "bundle has no parent"@,
                },
            },
    {
        match self {
            InstallTarget::AppImage { .. } => Ok(None),
            InstallTarget::LinuxBinary { path } => match parent(path.as_str()) {
                Some(dir) => Ok(Some(dir)),
                None => Err(Error::Install("binary has no parent".to_owned())),
            },
            InstallTarget::MacBundle { bundle, .. } => match parent(bundle.as_str()) {
                Some(dir) => Ok(Some(dir)),
                None => Err(Error::Install("bundle has no parent".to_owned())),
            },
        }
    }

    /// The command that starts the build that was installed.
    pub fn relaunch(&self) -> (launch: Launch)
        ensures
            match *self {
                InstallTarget::MacBundle { bundle, .. } => {
                    &&& launch.program@ == "open"@
                    &&& launch.args@.len() == 2
                    &&& launch.args@[0]@ == "-n"@
                    &&& launch.args@[1]@ == bundle@
                },
                _ => launch.program@ == self.replaced() && launch.args@.len() == 0,
            },
    {
        match self {
            InstallTarget::AppImage { path } => Launch { program: path.clone(), args: Vec::new() },
            InstallTarget::LinuxBinary { path } => Launch {
                program: path.clone(),
                args: Vec::new(),
            },
            InstallTarget::MacBundle { bundle, .. } => {
                let mut args: Vec<String> = Vec::new();
                args.push("-n".to_owned());
                args.push(bundle.clone());
                Launch { program: "open".to_owned(), args }
            },
        }
    }
}

/// The arguments of a command, as text.
pub open spec fn arguments(launch: Launch) -> Seq<Seq<char>> {
    texts(launch.args@)
}

/// The command that unpacks a downloaded tarball into `staging`.
pub fn unpack_tarball(downloaded: &str, staging: &str) -> (launch: Launch)
    ensures
        launch.program@ == "tar"@,
        arguments(launch) == seq!["-xzf"@, downloaded@, "-C"@, staging@],
{
    let mut args: Vec<String> = Vec::new();
    args.push("-xzf".to_owned());
    args.push(downloaded.to_owned());
    args.push("-C".to_owned());
    args.push(staging.to_owned());
    let launch = Launch { program: "tar".to_owned(), args };
    assert(arguments(launch) =~= seq!["-xzf"@, downloaded@, "-C"@, staging@]);
    launch
}

/// The command that mounts a downloaded disk image at `mount`, for reading and
/// out of sight.
pub fn attach_image(downloaded: &str, mount: &str) -> (launch: Launch)
    ensures
        launch.program@ == "hdiutil"@,
        arguments(launch) == seq![
            "attach"@,
            downloaded@,
            "-nobrowse"@,
            "-readonly"@,
            "-mountpoint"@,
            mount@,
        ],
{
    let mut args: Vec<String> = Vec::new();
    args.push("attach".to_owned());
    args.push(downloaded.to_owned());
    args.push("-nobrowse".to_owned());
    args.push("-readonly".to_owned());
    args.push("-mountpoint".to_owned());
    args.push(mount.to_owned());
    let launch = Launch { program: "hdiutil".to_owned(), args };
    assert(arguments(launch) =~= seq![
        "attach"@,
        downloaded@,
        "-nobrowse"@,
        "-readonly"@,
        "-mountpoint"@,
        mount@,
    ]);
    launch
}

/// The command that takes the disk image at `mount` away again.
pub fn detach_image(mount: &str) -> (launch: Launch)
    ensures
        launch.program@ == "hdiutil"@,
        arguments(launch) == seq!["detach"@, mount@, "-quiet"@],
{
    let mut args: Vec<String> = Vec::new();
    args.push("detach".to_owned());
    args.push(mount.to_owned());
    args.push("-quiet".to_owned());
    let launch = Launch { program: "hdiutil".to_owned(), args };
    assert(arguments(launch) =~= seq!["detach"@, mount@, "-quiet"@]);
    launch
}

/// Whether the file at `path` is an application bundle.
pub open spec fn is_bundle(path: Seq<char>) -> bool {
    name_of(path) is Some && has_extension(name_of(path)->0, "app"@)
}

/// Where the first application bundle stands, or the number of paths.
pub open spec fn bundle_at(paths: Seq<Seq<char>>) -> int
    decreases paths.len(),
{
    if paths.len() == 0 || is_bundle(paths[0]) {
        0
    } else {
        1 + bundle_at(paths.skip(1))
    }
}

/// Copies a bundle with its links and its signature.
pub fn copy_bundle(source: &str, staged: &str) -> (launch: Launch)
    ensures
        launch.program@ == "ditto"@,
        arguments(launch) == seq![source@, staged@],
{
    let mut args: Vec<String> = Vec::new();
    args.push(source.to_owned());
    args.push(staged.to_owned());
    let launch = Launch { program: "ditto".to_owned(), args };
    assert(arguments(launch) =~= seq![source@, staged@]);
    launch
}

/// Copies a directory with all that is in it.
pub fn copy_directory(source: &str, copy: &str) -> (launch: Launch)
    ensures
        launch.program@ == "cp"@,
        arguments(launch) == seq!["-R"@, source@, copy@],
{
    let mut args: Vec<String> = Vec::new();
    args.push("-R".to_owned());
    args.push(source.to_owned());
    args.push(copy.to_owned());
    let launch = Launch { program: "cp".to_owned(), args };
    assert(arguments(launch) =~= seq!["-R"@, source@, copy@]);
    launch
}

/// The first application bundle among the files of a disk image.
pub fn find_bundle(paths: &Vec<String>) -> (bundle: Result<String, Error>)
    ensures
        ({
            let at = bundle_at(texts(paths@));
            if at < paths@.len() {
                bundle is Ok && bundle->Ok_0@ == paths@[at]@
            } else {
                bundle is Err && bundle->Err_0 is Install && bundle->Err_0->Install_0@
                    == "dmg contains no .app bundle"@
            }
        }),
{
    let ghost views = texts(paths@);
    let mut i: usize = 0;
    assert(views.skip(0) =~= views);
    while i < paths.len()
        invariant
            i <= paths@.len(),
            views == texts(paths@),
            bundle_at(views) == i + bundle_at(views.skip(i as int)),
        decreases paths.len() - i,
    {
        assert(views.skip(i as int).skip(1) =~= views.skip(i + 1));
        assert(views.skip(i as int)[0] == paths@[i as int]@);
        let found = match file_name(paths[i].as_str()) {
            Some(name) => extension_is(name, "app"),
            None => false,
        };
        if found {
            return Ok(paths[i].clone());
        }
        i += 1;
    }
    Err(Error::Install("dmg contains no .app bundle".to_owned()))
}

/// Where the bundle at `source` is copied to inside the directory `staging`.
pub fn staged_bundle(source: &str, staging: &str) -> (staged: Result<String, Error>)
    ensures
        match name_of(source@) {
            Some(name) => staged is Ok && staged->Ok_0@ == joined_path(staging@, name),
            None => staged is Err && staged->Err_0 is Install && staged->Err_0->Install_0@
                == "bundle has no name"@,
        },
{
    match file_name(source) {
        Some(name) => Ok(join_path(staging, name)),
        None => Err(Error::Install("bundle has no name".to_owned())),
    }
}

/// The new binary out of an unpacked tarball.
pub fn unpacked_binary(entries: &Vec<DirEntry>, downloaded: &str) -> (binary: Result<String, Error>)
    ensures
        match found_file(entries@, "zeron"@, 2) {
            Some(path) => binary is Ok && binary->Ok_0@ == path,
            None => binary is Err && binary->Err_0 is Install && binary->Err_0->Install_0@
                == "no zeron binary in "@ + downloaded@,
        },
{
    match find_file(entries, "zeron", 2) {
        Some(path) => Ok(path),
        None => Err(Error::Install(concat("no zeron binary in ", downloaded))),
    }
}

/// What the shell says of a helper program that did not do its work: that it
/// could not be started, or what it complained of.
pub fn helper_failed(program: &str, unstarted: Option<String>, complaint: &str) -> (error: Error)
    ensures
        error is Install,
        error->Install_0@ == match unstarted {
            Some(why) => program@ + " failed to start: "@ + why@,
            None => program@ + " failed: "@ + trimmed(complaint@),
        },
{
    match unstarted {
        Some(why) => Error::Install(concat3(program, " failed to start: ", why.as_str())),
        None => Error::Install(concat3(program, " failed: ", trim(complaint))),
    }
}

/// A directory entry, with what is inside it.
#[derive(Debug)]
pub struct DirEntry {
    pub path: String,
    pub name: String,
    pub is_dir: bool,
    pub children: Vec<DirEntry>,
}

/// The path of the first file called `name` among the first `n` entries.
pub open spec fn file_among(entries: Seq<DirEntry>, name: Seq<char>, n: int) -> Option<Seq<char>>
    decreases n,
{
    if n <= 0 {
        None
    } else {
        match file_among(entries, name, n - 1) {
            Some(path) => Some(path),
            None => if !entries[n - 1].is_dir && entries[n - 1].name@ == name {
                Some(entries[n - 1].path@)
            } else {
                None
            },
        }
    }
}

/// The path of the first file called `name` inside the directories among the
/// first `n` entries, at most `depth` levels below them.
pub open spec fn file_inside(entries: Seq<DirEntry>, name: Seq<char>, depth: nat, n: int) -> Option<
    Seq<char>,
>
    decreases depth, 1int, n,
{
    if n <= 0 {
        None
    } else {
        match file_inside(entries, name, depth, n - 1) {
            Some(path) => Some(path),
            None => if entries[n - 1].is_dir {
                found_file(entries[n - 1].children@, name, depth)
            } else {
                None
            },
        }
    }
}

/// The path of the file called `name` that is nearest the top: among the
/// entries themselves, else at most `depth` levels below them.
pub open spec fn found_file(entries: Seq<DirEntry>, name: Seq<char>, depth: nat) -> Option<Seq<char>>
    decreases depth, 0int, 0int,
{
    match file_among(entries, name, entries.len() as int) {
        Some(path) => Some(path),
        None => if depth == 0 {
            None
        } else {
            file_inside(entries, name, (depth - 1) as nat, entries.len() as int)
        },
    }
}

/// The path of the file called `name` that is nearest the top: among the
/// entries themselves, else at most `depth` levels below them.
pub fn find_file(entries: &Vec<DirEntry>, name: &str, depth: u32) -> (path: Option<String>)
    ensures
        optional(path) == found_file(entries@, name@, depth as nat),
    decreases depth,
{
    let mut i: usize = 0;
    while i < entries.len()
        invariant
            i <= entries@.len(),
            file_among(entries@, name@, i as int) is None,
            forall|j: int|
                i <= j <= entries@.len() && file_among(entries@, name@, i as int) is Some
                    ==> #[trigger] file_among(entries@, name@, j) == file_among(
                    entries@,
                    name@,
                    i as int,
                ),
        decreases entries.len() - i,
    {
        if !entries[i].is_dir && same(entries[i].name.as_str(), name) {
            proof {
                lemma_file_among_keeps(entries@, name@, i + 1, entries@.len() as int);
            }
            return Some(entries[i].path.clone());
        }
        i += 1;
    }
    if depth == 0 {
        return None;
    }
    let mut k: usize = 0;
    while k < entries.len()
        invariant
            k <= entries@.len(),
            depth > 0,
            file_among(entries@, name@, entries@.len() as int) is None,
            file_inside(entries@, name@, (depth - 1) as nat, k as int) is None,
        decreases entries.len() - k,
    {
        if entries[k].is_dir {
            let inner = find_file(&entries[k].children, name, depth - 1);
            if inner.is_some() {
                proof {
                    lemma_file_inside_keeps(
                        entries@,
                        name@,
                        (depth - 1) as nat,
                        k + 1,
                        entries@.len() as int,
                    );
                }
                return inner;
            }
        }
        k += 1;
    }
    None
}

proof fn lemma_file_among_keeps(entries: Seq<DirEntry>, name: Seq<char>, n: int, m: int)
    requires
        0 <= n <= m,
        file_among(entries, name, n) is Some,
    ensures
        file_among(entries, name, m) == file_among(entries, name, n),
    decreases m - n,
{
    if n < m {
        lemma_file_among_keeps(entries, name, n, m - 1);
    }
}

proof fn lemma_file_inside_keeps(entries: Seq<DirEntry>, name: Seq<char>, depth: nat, n: int, m: int)
    requires
        0 <= n <= m,
        file_inside(entries, name, depth, n) is Some,
    ensures
        file_inside(entries, name, depth, m) == file_inside(entries, name, depth, n),
    decreases m - n,
{
    if n < m {
        lemma_file_inside_keeps(entries, name, depth, n, m - 1);
    }
}

/// How far a swap has come. Each stage names the step that is to be done.
#[derive(Debug)]
pub enum SwapStage {
    /// Remove what an earlier swap left under the incoming name.
    Clearing,
    /// Copy the new build to the incoming name.
    Copying,
    /// Make the copy executable.
    Marking,
    /// See whether there is anything to replace.
    Looking,
    /// Rename what is there to the outgoing name.
    MovingAside,
    /// Rename the copy to the target's name.
    MovingIn { had_target: bool },
    /// Rename what was there back to the target's name.
    Restoring { error: String },
    /// Remove what was there.
    Cleaning,
    /// Nothing: the new build is in place.
    Installed,
    /// Nothing: the swap failed.
    Failed { error: String },
}

/// What came of a step.
#[derive(Debug)]
pub struct StepOutcome {
    pub failure: Option<String>,
    /// In the stage that looks for it: whether there is anything to replace.
    pub found: bool,
}

/// The replacement of one path by a build, through names beside it.
#[derive(Debug)]
pub struct Swap {
    pub target: String,
    pub incoming: String,
    pub outgoing: String,
    pub executable: bool,
    pub stage: SwapStage,
}

/// Where a swap goes from `stage` on `outcome`.
pub open spec fn swap_next(stage: SwapStage, executable: bool, outcome: StepOutcome) -> SwapStage {
    match stage {
        SwapStage::Clearing => SwapStage::Copying,
        SwapStage::Copying => match outcome.failure {
            Some(error) => SwapStage::Failed { error },
            None => if executable {
                SwapStage::Marking
            } else {
                SwapStage::Looking
            },
        },
        SwapStage::Marking => match outcome.failure {
            Some(error) => SwapStage::Failed { error },
            None => SwapStage::Looking,
        },
        SwapStage::Looking => if outcome.found {
            SwapStage::MovingAside
        } else {
            SwapStage::MovingIn { had_target: false }
        },
        SwapStage::MovingAside => match outcome.failure {
            Some(error) => SwapStage::Failed { error },
            None => SwapStage::MovingIn { had_target: true },
        },
        SwapStage::MovingIn { had_target } => match outcome.failure {
            Some(error) => if had_target {
                SwapStage::Restoring { error }
            } else {
                SwapStage::Failed { error }
            },
            None => SwapStage::Cleaning,
        },
        SwapStage::Restoring { error } => SwapStage::Failed { error },
        SwapStage::Cleaning => SwapStage::Installed,
        SwapStage::Installed => SwapStage::Installed,
        SwapStage::Failed { error } => SwapStage::Failed { error },
    }
}

/// The name of the file at `path`, or the application's own.
pub open spec fn name_or_own(path: Seq<char>) -> Seq<char> {
    match name_of(path) {
        Some(name) => name,
        None => "zeron"@,
    }
}

/// A hidden name beside a file: its own, what it stands for, and the process.
pub open spec fn beside(path: Seq<char>, dir: Seq<char>, kind: Seq<char>, process: nat) -> Seq<char> {
    joined_path(dir, "."@ + name_or_own(path) + kind + decimal(process))
}

fn name_beside(path: &str, dir: &str, kind: &str, process: u32) -> (name: String)
    ensures
        name@ == beside(path@, dir@, kind@, process as nat),
{
    let own = match file_name(path) {
        Some(found) => found,
        None => "zeron",
    };
    let number = decimal_string(process as u64);
    let head = concat3(".", own, kind);
    let whole = concat(head.as_str(), number.as_str());
    join_path(dir, whole.as_str())
}

impl Swap {
    /// Begins the replacement of `target`.
    pub fn begin(target: &str, process: u32, executable: bool) -> (swap: Result<Swap, Error>)
        ensures
            match parent_of(target@) {
                Some(dir) => {
                    &&& swap is Ok
                    &&& swap->Ok_0.target@ == target@
                    &&& swap->Ok_0.incoming@ == beside(target@, dir, ".new-"@, process as nat)
                    &&& swap->Ok_0.outgoing@ == beside(target@, dir, ".old-"@, process as nat)
                    &&& swap->Ok_0.executable == executable
                    &&& swap->Ok_0.stage is Clearing
                },
                None => swap is Err && swap->Err_0 is Install && swap->Err_0->Install_0@ == target@
                    + " has no parent"@,
            },
    {
        match parent(target) {
            Some(dir) => Ok(
                Swap {
                    target: target.to_owned(),
                    incoming: name_beside(target, dir.as_str(), ".new-", process),
                    outgoing: name_beside(target, dir.as_str(), ".old-", process),
                    executable,
                    stage: SwapStage::Clearing,
                },
            ),
            None => Err(Error::Install(concat(target, " has no parent"))),
        }
    }

    /// Takes the swap on by the outcome of its step.
    pub fn advance(self, outcome: StepOutcome) -> (next: Swap)
        ensures
            next == (Swap {
                stage: swap_next(self.stage, self.executable, outcome),
                ..self
            }),
    {
        let stage = match self.stage {
            SwapStage::Clearing => SwapStage::Copying,
            SwapStage::Copying => match outcome.failure {
                Some(error) => SwapStage::Failed { error },
                None => {
                    if self.executable {
                        SwapStage::Marking
                    } else {
                        SwapStage::Looking
                    }
                },
            },
            SwapStage::Marking => match outcome.failure {
                Some(error) => SwapStage::Failed { error },
                None => SwapStage::Looking,
            },
            SwapStage::Looking => {
                if outcome.found {
                    SwapStage::MovingAside
                } else {
                    SwapStage::MovingIn { had_target: false }
                }
            },
            SwapStage::MovingAside => match outcome.failure {
                Some(error) => SwapStage::Failed { error },
                None => SwapStage::MovingIn { had_target: true },
            },
            SwapStage::MovingIn { had_target } => match outcome.failure {
                Some(error) => {
                    if had_target {
                        SwapStage::Restoring { error }
                    } else {
                        SwapStage::Failed { error }
                    }
                },
                None => SwapStage::Cleaning,
            },
            SwapStage::Restoring { error } => SwapStage::Failed { error },
            SwapStage::Cleaning => SwapStage::Installed,
            SwapStage::Installed => SwapStage::Installed,
            SwapStage::Failed { error } => SwapStage::Failed { error },
        };
        Swap {
            target: self.target,
            incoming: self.incoming,
            outgoing: self.outgoing,
            executable: self.executable,
            stage,
        }
    }
}

/// What a path holds: a whole build, the old or the new one, or part of one.
pub enum Build {
    Old,
    New,
    Part,
}

/// What the three paths of a swap hold.
pub struct Disk {
    pub target: Option<Build>,
    pub incoming: Option<Build>,
    pub outgoing: Option<Build>,
}

/// Whether doing the step of `stage` may take the paths from `before` to
/// `after`: a rename is done or not done, a copy may stop half way, and what is
/// removed may stay.
pub open spec fn may_do(stage: SwapStage, before: Disk, after: Disk, outcome: StepOutcome) -> bool {
    let failed = outcome.failure is Some;
    match stage {
        SwapStage::Clearing => after.target == before.target && after.outgoing == before.outgoing,
        SwapStage::Copying => {
            &&& after.target == before.target
            &&& after.outgoing == before.outgoing
            &&& !failed ==> after.incoming == Some(Build::New)
        },
        SwapStage::Marking => after == before,
        SwapStage::Looking => after == before && outcome.found == (before.target is Some),
        SwapStage::MovingAside => if failed {
            after == before
        } else {
            after == (Disk { target: None, outgoing: before.target, ..before })
        },
        SwapStage::MovingIn { .. } => if failed {
            after == before
        } else {
            after == (Disk { target: before.incoming, incoming: None, ..before })
        },
        SwapStage::Restoring { .. } => if failed {
            after == before
        } else {
            after == (Disk { target: before.outgoing, outgoing: None, ..before })
        },
        SwapStage::Cleaning => after.target == before.target && after.incoming == before.incoming,
        SwapStage::Installed => after == before,
        SwapStage::Failed { .. } => after == before,
    }
}

/// What a swap that began over `start` keeps true in each stage.
pub open spec fn on_track(stage: SwapStage, start: Option<Build>, disk: Disk) -> bool {
    match stage {
        SwapStage::Clearing => disk.target == start,
        SwapStage::Copying => disk.target == start,
        SwapStage::Marking => disk.target == start && disk.incoming == Some(Build::New),
        SwapStage::Looking => disk.target == start && disk.incoming == Some(Build::New),
        SwapStage::MovingAside => disk.target == start && start is Some && disk.incoming == Some(
            Build::New,
        ),
        SwapStage::MovingIn { had_target } => {
            &&& disk.incoming == Some(Build::New)
            &&& disk.target is None
            &&& had_target == (start is Some)
            &&& had_target ==> disk.outgoing == start
        },
        SwapStage::Restoring { .. } => disk.target is None && start is Some && disk.outgoing
            == start,
        SwapStage::Cleaning => disk.target == Some(Build::New),
        SwapStage::Installed => disk.target == Some(Build::New),
        SwapStage::Failed { .. } => disk.target == start || (disk.target is None && disk.outgoing
            == start),
    }
}

proof fn lemma_a_step_stays_on_track(
    stage: SwapStage,
    executable: bool,
    start: Option<Build>,
    before: Disk,
    after: Disk,
    outcome: StepOutcome,
)
    requires
        start != Some(Build::Part),
        on_track(stage, start, before),
        may_do(stage, before, after, outcome),
    ensures
        on_track(swap_next(stage, executable, outcome), start, after),
{
}

/// The stage of a swap after these outcomes of its steps.
pub open spec fn stage_after(executable: bool, outcomes: Seq<StepOutcome>) -> SwapStage
    decreases outcomes.len(),
{
    if outcomes.len() == 0 {
        SwapStage::Clearing
    } else {
        swap_next(stage_after(executable, outcomes.drop_last()), executable, outcomes.last())
    }
}

/// Whether a swap whose steps came out so may have left the paths like this,
/// before the first step and after each.
pub open spec fn may_leave(executable: bool, outcomes: Seq<StepOutcome>, disks: Seq<Disk>) -> bool {
    &&& disks.len() == outcomes.len() + 1
    &&& forall|i: int|
        0 <= i < outcomes.len() ==> may_do(
            stage_after(executable, outcomes.take(i)),
            disks[i],
            disks[i + 1],
            #[trigger] outcomes[i],
        )
}

/// The old build is kept until the new one is in place. Whatever step fails or
/// is the last one done, the target holds what it held before, or the whole
/// new build, or nothing while what it held lies beside it; it never holds part
/// of a build. A swap is done only with the new build in place, and one that
/// failed has not lost the old one.
pub proof fn law_a_swap_never_loses_the_build(
    executable: bool,
    outcomes: Seq<StepOutcome>,
    disks: Seq<Disk>,
)
    requires
        may_leave(executable, outcomes, disks),
        disks[0].target != Some(Build::Part),
    ensures
        ({
            let start = disks[0].target;
            let now = disks.last();
            let kept = now.target == start || (now.target is None && now.outgoing == start);
            &&& on_track(stage_after(executable, outcomes), start, now)
            &&& now.target != Some(Build::Part)
            &&& kept || now.target == Some(Build::New)
            &&& stage_after(executable, outcomes) is Installed ==> now.target == Some(Build::New)
            &&& stage_after(executable, outcomes) is Failed ==> kept
        }),
    decreases outcomes.len(),
{
    if outcomes.len() > 0 {
        let earlier = outcomes.drop_last();
        let before = disks.drop_last();
        assert forall|i: int| 0 <= i < earlier.len() implies may_do(
            stage_after(executable, earlier.take(i)),
            before[i],
            before[i + 1],
            #[trigger] earlier[i],
        ) by {
            assert(earlier.take(i) == outcomes.take(i));
            assert(earlier[i] == outcomes[i]);
        }
        law_a_swap_never_loses_the_build(executable, earlier, before);
        let last = outcomes.len() - 1;
        assert(outcomes.take(last) == earlier);
        assert(outcomes[last] == outcomes.last());
        lemma_a_step_stays_on_track(
            stage_after(executable, earlier),
            executable,
            disks[0].target,
            before.last(),
            disks.last(),
            outcomes.last(),
        );
    }
}

/// How close a swap is to its end.
pub open spec fn steps_left(stage: SwapStage) -> nat {
    match stage {
        SwapStage::Clearing => 7,
        SwapStage::Copying => 6,
        SwapStage::Marking => 5,
        SwapStage::Looking => 4,
        SwapStage::MovingAside => 3,
        SwapStage::MovingIn { .. } => 2,
        SwapStage::Restoring { .. } => 1,
        SwapStage::Cleaning => 1,
        SwapStage::Installed => 0,
        SwapStage::Failed { .. } => 0,
    }
}

/// Every swap ends: each step brings it closer to its end.
pub proof fn law_a_swap_ends(stage: SwapStage, executable: bool, outcome: StepOutcome)
    requires
        steps_left(stage) > 0,
    ensures
        steps_left(swap_next(stage, executable, outcome)) < steps_left(stage),
{
}

/// How far an installation from a disk image has come.
#[derive(Debug)]
pub enum ImageStage {
    /// The image is being attached.
    Attaching,
    /// The bundle is being copied out of the image and swapped in.
    Installing,
    /// The image is being taken away again.
    Detaching { installed: Result<(), Error> },
    /// Nothing is left to do.
    Done { installed: Result<(), Error> },
}

impl ImageStage {
    /// The stage after this one, whose work came out so. An image that was
    /// attached is taken away whatever came of the installation: one that stays
    /// would be in the way of the next. Whether that works does not count.
    pub open spec fn following(self, outcome: Result<(), Error>) -> ImageStage {
        match self {
            ImageStage::Attaching => match outcome {
                Ok(_) => ImageStage::Installing,
                Err(_) => ImageStage::Done { installed: outcome },
            },
            ImageStage::Installing => ImageStage::Detaching { installed: outcome },
            ImageStage::Detaching { installed } => ImageStage::Done { installed },
            ImageStage::Done { installed } => ImageStage::Done { installed },
        }
    }

    /// The stage after this one, whose work came out so.
    pub fn advance(self, outcome: Result<(), Error>) -> (next: ImageStage)
        ensures
            next == self.following(outcome),
    {
        match self {
            ImageStage::Attaching => match outcome {
                Ok(()) => ImageStage::Installing,
                Err(error) => ImageStage::Done { installed: Err(error) },
            },
            ImageStage::Installing => ImageStage::Detaching { installed: outcome },
            ImageStage::Detaching { installed } => ImageStage::Done { installed },
            ImageStage::Done { installed } => ImageStage::Done { installed },
        }
    }
}

/// The stage of an installation from a disk image after these outcomes.
pub open spec fn image_stage(outcomes: Seq<Result<(), Error>>) -> ImageStage
    decreases outcomes.len(),
{
    if outcomes.len() == 0 {
        ImageStage::Attaching
    } else {
        image_stage(outcomes.drop_last()).following(outcomes.last())
    }
}

/// An image that was attached is taken away before the installation is done,
/// and what the installation came to is what is reported; one that could not be
/// attached is reported as that.
pub proof fn law_an_attached_image_is_taken_away(outcomes: Seq<Result<(), Error>>)
    ensures
        image_stage(outcomes) is Done <==> {
            outcomes.len() > 0 && (outcomes[0] is Err || outcomes.len() >= 3)
        },
        image_stage(outcomes) is Detaching <==> outcomes.len() == 2 && outcomes[0] is Ok,
        image_stage(outcomes) is Done ==> image_stage(outcomes)->Done_installed == (
        if outcomes[0] is Err {
            outcomes[0]
        } else {
            outcomes[1]
        }),
        image_stage(outcomes) is Detaching ==> image_stage(outcomes)->Detaching_installed
            == outcomes[1],
        outcomes.len() == 0 ==> image_stage(outcomes) is Attaching,
        outcomes.len() == 1 && outcomes[0] is Ok ==> image_stage(outcomes) is Installing,
    decreases outcomes.len(),
{
    if outcomes.len() > 0 {
        law_an_attached_image_is_taken_away(outcomes.drop_last());
    }
}

/// The restart that waits for the window to close.
#[derive(Debug)]
pub struct PendingRelaunch {
    pub target: Option<InstallTarget>,
}

/// Asks for a restart into `target` once the window has closed. The last one
/// that was asked for counts.
pub fn queue_relaunch(pending: &mut PendingRelaunch, target: InstallTarget)
    ensures
        final(pending).target == Some(target),
{
    pending.target = Some(target);
}

/// The command of the restart that was asked for, if any. It is handed out
/// once.
pub fn run_pending_relaunch(pending: &mut PendingRelaunch) -> (launch: Option<Launch>)
    ensures
        final(pending).target is None,
        launch is Some == old(pending).target is Some,
        launch is Some ==> match old(pending).target->0 {
            InstallTarget::MacBundle { bundle, .. } => {
                &&& launch->0.program@ == "open"@
                &&& launch->0.args@.len() == 2
                &&& launch->0.args@[0]@ == "-n"@
                &&& launch->0.args@[1]@ == bundle@
            },
            target => launch->0.program@ == target.replaced() && launch->0.args@.len() == 0,
        },
{
    let queued = pending.target.take();
    match queued {
        Some(target) => Some(target.relaunch()),
        None => None,
    }
}

/// Without a failure a swap goes on to its end: it copies the new build, marks
/// it where it must be, looks for an old one, moves that aside, moves the new
/// one in and clears up.
pub proof fn law_a_swap_without_failures_installs(executable: bool, found: bool)
    ensures
        ({
            let fine = StepOutcome { failure: None, found };
            let copied = swap_next(SwapStage::Copying, executable, fine);
            &&& swap_next(SwapStage::Clearing, executable, fine) is Copying
            &&& executable ==> copied is Marking
            &&& !executable ==> copied is Looking
            &&& swap_next(SwapStage::Marking, executable, fine) is Looking
            &&& found ==> swap_next(SwapStage::Looking, executable, fine) is MovingAside
            &&& !found ==> swap_next(SwapStage::Looking, executable, fine) == (
            SwapStage::MovingIn { had_target: false })
            &&& swap_next(SwapStage::MovingAside, executable, fine) == (SwapStage::MovingIn {
                had_target: true,
            })
            &&& swap_next(SwapStage::MovingIn { had_target: found }, executable, fine) is Cleaning
            &&& swap_next(SwapStage::Cleaning, executable, fine) is Installed
        }),
{
}

/// A step that matters and fails ends the swap with its own error: at once
/// while nothing was moved aside, and after the old build is put back where it
/// was. What is only tidied up may fail.
pub proof fn law_a_failed_step_ends_the_swap(
    stage: SwapStage,
    executable: bool,
    error: String,
    found: bool,
    second: StepOutcome,
)
    ensures
        ({
            let next = swap_next(stage, executable, StepOutcome { failure: Some(error), found });
            &&& stage is Copying || stage is Marking || stage is MovingAside ==> next == (
            SwapStage::Failed { error })
            &&& stage == (SwapStage::MovingIn { had_target: false }) ==> next == (
            SwapStage::Failed { error })
            &&& stage == (SwapStage::MovingIn { had_target: true }) ==> next is Restoring
                && swap_next(next, executable, second) == (SwapStage::Failed { error })
            &&& stage is Clearing ==> next is Copying
            &&& stage is Cleaning ==> next is Installed
        }),
{
}

/// The file that is found is the first one of the name in the folder itself,
/// whatever lies deeper.
pub proof fn law_the_nearest_file_is_found(
    entries: Seq<DirEntry>,
    name: Seq<char>,
    depth: nat,
    i: int,
)
    requires
        0 <= i < entries.len(),
        !entries[i].is_dir,
        entries[i].name@ == name,
        forall|j: int| 0 <= j < i ==> (#[trigger] entries[j]).is_dir || entries[j].name@ != name,
    ensures
        found_file(entries, name, depth) == Some(entries[i].path@),
{
    lemma_none_among(entries, name, i);
    assert(file_among(entries, name, i + 1) == Some(entries[i].path@));
    lemma_file_among_keeps(entries, name, i + 1, entries.len() as int);
}

proof fn lemma_none_among(entries: Seq<DirEntry>, name: Seq<char>, n: int)
    requires
        0 <= n <= entries.len(),
        forall|j: int| 0 <= j < n ==> (#[trigger] entries[j]).is_dir || entries[j].name@ != name,
    ensures
        file_among(entries, name, n) is None,
    decreases n,
{
    if n > 0 {
        lemma_none_among(entries, name, n - 1);
        assert(entries[n - 1].is_dir || entries[n - 1].name@ != name);
    }
}

proof fn lemma_none_inside(entries: Seq<DirEntry>, name: Seq<char>, depth: nat, n: int)
    requires
        0 <= n <= entries.len(),
        forall|j: int|
            0 <= j < n ==> (#[trigger] entries[j]).is_dir ==> found_file(
                entries[j].children@,
                name,
                depth,
            ) is None,
    ensures
        file_inside(entries, name, depth, n) is None,
    decreases n,
{
    if n > 0 {
        lemma_none_inside(entries, name, depth, n - 1);
        assert(entries[n - 1].is_dir ==> found_file(entries[n - 1].children@, name, depth) is None);
    }
}

/// Where the folder itself has no file of the name, the first of its folders
/// that has one gives it, as deep as one may look; a folder of the name is no
/// such file, and at the bottom nothing is found.
pub proof fn law_a_deeper_file_is_found_in_order(
    entries: Seq<DirEntry>,
    name: Seq<char>,
    depth: nat,
    i: int,
)
    requires
        0 <= i < entries.len(),
        forall|j: int|
            0 <= j < entries.len() ==> (#[trigger] entries[j]).is_dir || entries[j].name@ != name,
        entries[i].is_dir,
        found_file(entries[i].children@, name, depth) is Some,
        forall|j: int|
            0 <= j < i ==> (#[trigger] entries[j]).is_dir ==> found_file(
                entries[j].children@,
                name,
                depth,
            ) is None,
    ensures
        found_file(entries, name, depth + 1) == found_file(entries[i].children@, name, depth),
        found_file(entries, name, 0) is None,
{
    lemma_none_among(entries, name, entries.len() as int);
    lemma_none_inside(entries, name, depth, i);
    assert(file_inside(entries, name, depth, i + 1) == found_file(
        entries[i].children@,
        name,
        depth,
    ));
    lemma_file_inside_keeps(entries, name, depth, i + 1, entries.len() as int);
}

/// The bundle that is installed is the first one that the image holds.
pub proof fn law_the_first_bundle_is_taken(paths: Seq<Seq<char>>, i: int)
    requires
        0 <= i < paths.len(),
        is_bundle(paths[i]),
    ensures
        0 <= bundle_at(paths) <= i,
        is_bundle(paths[bundle_at(paths)]),
    decreases paths.len(),
{
    if !is_bundle(paths[0]) {
        law_the_first_bundle_is_taken(paths.skip(1), i - 1);
    }
}

/// A program in the folder `Contents/MacOS` of a bundle belongs to that
/// bundle, and to none where what holds the folders is not called one.
pub proof fn law_a_program_belongs_to_its_bundle(bundle: Seq<char>, program: Seq<char>)
    requires
        bundle.len() > 0,
        tidy(bundle) == bundle,
        program.len() > 0,
        !program.contains('/'),
        program != "."@,
        program != ".."@,
    ensures
        ({
            let exe = joined_path(
                joined_path(joined_path(bundle, "Contents"@), "MacOS"@),
                program,
            );
            bundle_of(exe) == if is_bundle(bundle) {
                Some(bundle)
            } else {
                None
            }
        }),
{
    reveal_strlit("Contents");
    reveal_strlit("MacOS");
    reveal_strlit(".");
    reveal_strlit("..");
    assert("Contents"@.len() == 8 && "MacOS"@.len() == 5);
    assert("."@.len() == 1 && ".."@.len() == 2);
    lemma_no_slash_in_folder_names();
    let contents = joined_path(bundle, "Contents"@);
    law_joined_paths_come_apart(bundle, "Contents"@);
    lemma_joined_is_tidy(bundle, "Contents"@);
    let macos = joined_path(contents, "MacOS"@);
    law_joined_paths_come_apart(contents, "MacOS"@);
    lemma_joined_is_tidy(contents, "MacOS"@);
    law_joined_paths_come_apart(macos, program);
}

proof fn lemma_no_slash_in_folder_names()
    ensures
        !"Contents"@.contains('/'),
        !"MacOS"@.contains('/'),
        "Contents"@.last() != '.',
        "MacOS"@.last() != '.',
{
    reveal_strlit("Contents");
    reveal_strlit("MacOS");
    assert forall|i: int| 0 <= i < "Contents"@.len() implies "Contents"@[i] != '/' by {}
    assert forall|i: int| 0 <= i < "MacOS"@.len() implies "MacOS"@[i] != '/' by {}
}

proof fn lemma_joined_is_tidy(dir: Seq<char>, name: Seq<char>)
    requires
        dir.len() > 0,
        name.len() > 0,
        !name.contains('/'),
        name.last() != '.',
    ensures
        joined_path(dir, name).len() > 0,
        tidy(joined_path(dir, name)) == joined_path(dir, name),
{
    reveal_strlit("/");
    let path = joined_path(dir, name);
    assert(name.contains(name.last()));
    assert(name.contains(name[0]));
    assert(path.last() == name.last());
}

/// What is replaced is the file or the bundle itself, and its artifact is that
/// of its platform: names differ by version, architecture and kind.
pub proof fn law_the_artifact_fits_the_installation(
    target: InstallTarget,
    version: Seq<char>,
    arch: Seq<char>,
)
    ensures
        target is MacBundle ==> target.replaced() == target->bundle@ && target.artifact(
            version,
            arch,
        ) == "zeron-"@ + version + "-macos-"@ + arch + ".dmg"@,
        target is AppImage ==> target.replaced() == target->AppImage_path@ && target.artifact(
            version,
            arch,
        ) == "zeron-"@ + version + "-linux-"@ + arch + ".AppImage"@,
        target is LinuxBinary ==> target.replaced() == target->LinuxBinary_path@ && target.artifact(
            version,
            arch,
        ) == "zeron-"@ + version + "-linux-"@ + arch + ".tar.gz"@,
{
}

/// A program counts as built here where it lies in the `debug` or `release`
/// folder of a `target` folder, be it right there or one level further down.
pub proof fn law_build_trees_are_known_by_their_folders(exe: Seq<char>)
    ensures
        in_build_tree(exe) ==> parent_of(exe) is Some && ({
            let profile = parent_of(exe)->0;
            &&& name_of(profile) == Some("debug"@) || name_of(profile) == Some("release"@)
            &&& parent_of(profile) is Some
            &&& name_of(parent_of(profile)->0) == Some("target"@) || (parent_of(
                parent_of(profile)->0,
            ) is Some && name_of(parent_of(parent_of(profile)->0)->0) == Some("target"@))
        }),
        parent_of(exe) is Some && (name_of(parent_of(exe)->0) == Some("debug"@) || name_of(
            parent_of(exe)->0,
        ) == Some("release"@)) && parent_of(parent_of(exe)->0) is Some && name_of(
            parent_of(parent_of(exe)->0)->0,
        ) == Some("target"@) ==> in_build_tree(exe),
{
}

/// What is put beside a file lies in the folder given, is hidden, and is named
/// after the file, its kind and the process.
pub proof fn law_what_lies_beside_is_named_after_it(
    path: Seq<char>,
    dir: Seq<char>,
    kind: Seq<char>,
    process: nat,
)
    ensures
        name_of(path) is Some ==> beside(path, dir, kind, process) == joined_path(
            dir,
            "."@ + name_of(path)->0 + kind + decimal(process),
        ),
        name_of(path) is None ==> beside(path, dir, kind, process) == joined_path(
            dir,
            "."@ + "zeron"@ + kind + decimal(process),
        ),
{
}

/// An error of the feed says what was asked and what came back; every other one
/// speaks for itself.
pub proof fn law_errors_speak_for_themselves(error: Error)
    ensures
        error is Io ==> error.words() == error->Io_0@,
        error is Install ==> error.words() == error->Install_0@,
        error is Unsupported ==> error.words() == error->Unsupported_0@,
        error is Http ==> error.words() == "update feed request failed: "@ + error->Http_0@,
        error is MissingAsset ==> error.words() == "release "@ + error->tag@ + " has no "@
            + error->asset@ + " artifact"@,
        error is Status && canonical(error->status) is Some ==> error.words()
            == "update feed returned "@ + decimal(error->status as nat) + " "@ + canonical(
            error->status,
        )->0,
{
}

/// An image is installed from once it is attached, and let go of whatever came
/// of that; what is told in the end is what came of the installation, or why
/// the image could not be attached.
pub proof fn law_an_image_tells_how_its_installation_went(
    attached: Result<(), Error>,
    installed: Result<(), Error>,
    detached: Result<(), Error>,
)
    ensures
        attached is Ok ==> ImageStage::Attaching.following(attached) is Installing,
        attached is Err ==> ImageStage::Attaching.following(attached) == (ImageStage::Done {
            installed: attached,
        }),
        ImageStage::Installing.following(installed).following(detached) == (ImageStage::Done {
            installed,
        }),
{
}

/// A bundle is known by its name: one with something before the extension
/// `app`.
pub proof fn law_a_bundle_is_known_by_its_name(dir: Seq<char>, stem: Seq<char>)
    requires
        dir.len() > 0,
        tidy(dir) == dir,
        stem.len() > 0,
        !stem.contains('/'),
    ensures
        is_bundle(joined_path(dir, stem.push('.') + "app"@)),
        !is_bundle(joined_path(dir, stem.push('.') + "dmg"@)),
{
    reveal_strlit("app");
    reveal_strlit("dmg");
    reveal_strlit(".");
    reveal_strlit("..");
    assert("."@.len() == 1 && ".."@.len() == 2);
    assert("app"@[0] == 'a' && "app"@[1] == 'p' && "app"@[2] == 'p' && "app"@.len() == 3);
    assert("dmg"@[0] == 'd' && "dmg"@[1] == 'm' && "dmg"@[2] == 'g' && "dmg"@.len() == 3);
    let name = stem.push('.') + "app"@;
    let other = stem.push('.') + "dmg"@;
    assert forall|i: int| 0 <= i < name.len() implies name[i] != '/' && other[i] != '/' by {
        if i < stem.len() {
            assert(stem.contains(stem[i]));
            assert(name[i] == stem[i] && other[i] == stem[i]);
        } else if i > stem.len() {
            assert(name[i] == "app"@[i - stem.len() - 1]);
            assert(other[i] == "dmg"@[i - stem.len() - 1]);
        }
    }
    law_joined_paths_come_apart(dir, name);
    law_joined_paths_come_apart(dir, other);
    law_an_extension_stands_behind_the_last_dot(stem, "app"@);
    law_an_extension_stands_behind_the_last_dot(stem, "dmg"@);
    let at = stem.len() + 1;
    assert forall|j: int| at <= j < other.len() implies other[j] != '.' by {
        assert(other[j] == "dmg"@[j - at]);
    }
    lemma_after_last(other, '.', at as int);
    assert(other.skip(at as int) =~= "dmg"@);
    assert(other.skip(at as int)[0] == 'd');
}

} // verus!
