//! Which release is an update for this installation.

use vstd::prelude::*;

use crate::install::Error;
use crate::install::InstallTarget;
use crate::text::optional;
use crate::text::same;
use crate::text::trim;
use crate::text::trimmed;
use crate::version::is_newer;
use crate::version::newer;
use crate::version::strip_tag;
use crate::version::tag_version;

verus! {

/// Where releases are looked for when nothing else is configured.
pub const DEFAULT_FEED_URL: &'static str =
    "https://api.github.com/repos/Mail-0/comet/releases/latest";

/// The version of this build.
pub const VERSION: &'static str = "0.1.0";

/// The version of this build.
pub fn running_version() -> (version: &'static str)
    ensures
        version@ == VERSION@,
{
    VERSION
}

/// One file of a release.
#[derive(Debug, Clone)]
pub struct Asset {
    pub name: String,
    pub url: String,
    pub size: u64,
}

/// A release.
#[derive(Debug, Clone)]
pub struct Release {
    pub tag_name: String,
    pub assets: Vec<Asset>,
}

/// A newer release that can be installed here.
#[derive(Debug, Clone)]
pub struct Available {
    pub version: String,
    pub tag: String,
    pub asset: Asset,
    pub target: InstallTarget,
}

/// A configured text without the white space around it, unless nothing is left.
pub open spec fn configured(value: Option<Seq<char>>) -> Option<Seq<char>> {
    match value {
        Some(text) => if trimmed(text).len() > 0 {
            Some(trimmed(text))
        } else {
            None
        },
        None => None,
    }
}

fn read_configured(value: &Option<String>) -> (text: Option<String>)
    ensures
        optional(text) == configured(optional(*value)),
{
    match value {
        Some(held) => {
            let core = trim(held.as_str());
            if core.is_empty() {
                None
            } else {
                Some(core.to_owned())
            }
        },
        None => None,
    }
}

/// Where releases are looked for: the configured address, unless it is blank.
pub fn feed_url(value: &Option<String>) -> (url: String)
    ensures
        url@ == match configured(optional(*value)) {
            Some(text) => text,
            None => DEFAULT_FEED_URL@,
        },
{
    match read_configured(value) {
        Some(text) => text,
        None => DEFAULT_FEED_URL.to_owned(),
    }
}

/// The token for the feed: the first of the two that is not blank.
pub fn feed_token(own: &Option<String>, general: &Option<String>) -> (token: Option<String>)
    ensures
        optional(token) == match configured(optional(*own)) {
            Some(text) => Some(text),
            None => configured(optional(*general)),
        },
{
    match read_configured(own) {
        Some(text) => Some(text),
        None => read_configured(general),
    }
}

/// What a reply of the feed comes to before its body is read: an error unless
/// its status says success.
pub fn check_status(status: u16) -> (checked: Result<(), Error>)
    ensures
        checked is Ok == (200 <= status < 300),
        checked is Err ==> checked->Err_0 == (Error::Status { status }),
{
    if 200 <= status && status < 300 {
        Ok(())
    } else {
        Err(Error::Status { status })
    }
}

/// Where the first file called `name` stands, or the number of files.
pub open spec fn asset_at(assets: Seq<Asset>, name: Seq<char>) -> int
    decreases assets.len(),
{
    if assets.len() == 0 || assets[0].name@ == name {
        0
    } else {
        1 + asset_at(assets.skip(1), name)
    }
}

fn copy_asset(asset: &Asset) -> (copy: Asset)
    ensures
        copy == *asset,
{
    Asset { name: asset.name.clone(), url: asset.url.clone(), size: asset.size }
}

/// What a release means for an installation of `current`: nothing unless it is
/// newer, and an error when it lacks the file that this installation needs.
pub fn select_update(current: &str, release: Release, target: InstallTarget, arch: &str) -> (update:
    Result<Option<Available>, Error>)
    ensures
        ({
            let version = tag_version(release.tag_name@);
            let wanted = target.artifact(version, arch@);
            let at = asset_at(release.assets@, wanted);
            if !newer(current@, version) {
                update matches Ok(None)
            } else if at < release.assets@.len() {
                &&& update is Ok
                &&& update->Ok_0 is Some
                &&& update->Ok_0->0.version@ == version
                &&& update->Ok_0->0.tag == release.tag_name
                &&& update->Ok_0->0.asset == release.assets@[at]
                &&& update->Ok_0->0.target == target
            } else {
                &&& update is Err
                &&& update->Err_0 is MissingAsset
                &&& update->Err_0->tag == release.tag_name
                &&& update->Err_0->asset@ == wanted
            }
        }),
{
    let version = strip_tag(release.tag_name.as_str()).to_owned();
    if !is_newer(current, version.as_str()) {
        return Ok(None);
    }
    let wanted = target.asset_name(version.as_str(), arch);
    let mut i: usize = 0;
    assert(release.assets@.skip(0) =~= release.assets@);
    while i < release.assets.len()
        invariant
            i <= release.assets@.len(),
            asset_at(release.assets@, wanted@) == i + asset_at(
                release.assets@.skip(i as int),
                wanted@,
            ),
            version@ == tag_version(release.tag_name@),
            wanted@ == target.artifact(version@, arch@),
            newer(current@, version@),
        decreases release.assets.len() - i,
    {
        assert(release.assets@.skip(i as int).skip(1) =~= release.assets@.skip(i + 1));
        if same(release.assets[i].name.as_str(), wanted.as_str()) {
            let asset = copy_asset(&release.assets[i]);
            return Ok(Some(Available { version, tag: release.tag_name, asset, target }));
        }
        i += 1;
    }
    Err(Error::MissingAsset { tag: release.tag_name, asset: wanted })
}

/// An update is offered only where it can be put in place.
pub fn confirm_update(update: Available, writable: Result<(), Error>) -> (offer: Result<
    Option<Available>,
    Error,
>)
    ensures
        match writable {
            Ok(()) => offer matches Ok(Some(offered)) && offered == update,
            Err(error) => offer == Err::<Option<Available>, Error>(error),
        },
{
    match writable {
        Ok(()) => Ok(Some(update)),
        Err(error) => Err(error),
    }
}

/// The release that is running is never an update of itself, and the file that
/// an update offers is the one that is wanted.
pub proof fn law_the_running_release_is_no_update(
    current: Seq<char>,
    tag: Seq<char>,
    assets: Seq<Asset>,
    wanted: Seq<char>,
)
    ensures
        tag_version(tag) == current ==> !newer(current, tag_version(tag)),
        asset_at(assets, wanted) < assets.len() ==> assets[asset_at(assets, wanted)].name@ == wanted,
        0 <= asset_at(assets, wanted) <= assets.len(),
{
    lemma_asset_at(assets, wanted);
}

proof fn lemma_asset_at(assets: Seq<Asset>, wanted: Seq<char>)
    ensures
        0 <= asset_at(assets, wanted) <= assets.len(),
        asset_at(assets, wanted) < assets.len() ==> assets[asset_at(assets, wanted)].name@ == wanted,
    decreases assets.len(),
{
    if assets.len() > 0 && assets[0].name@ != wanted {
        lemma_asset_at(assets.skip(1), wanted);
    }
}

/// The file that is offered is the first one that has the name, and none is
/// offered just where none has it.
pub proof fn law_the_first_file_of_the_name_is_taken(assets: Seq<Asset>, wanted: Seq<char>, i: int)
    requires
        0 <= i < assets.len(),
        assets[i].name@ == wanted,
    ensures
        0 <= asset_at(assets, wanted) <= i,
        assets[asset_at(assets, wanted)].name@ == wanted,
    decreases assets.len(),
{
    lemma_asset_at(assets, wanted);
    if assets[0].name@ != wanted {
        law_the_first_file_of_the_name_is_taken(assets.skip(1), wanted, i - 1);
    }
}

/// A configured text counts without the white space around it, and not at all
/// where it is blank.
pub proof fn law_blank_settings_do_not_count(text: Seq<char>)
    ensures
        configured(None) is None,
        configured(Some(text)) is Some == (trimmed(text).len() > 0),
        configured(Some(text)) is Some ==> configured(Some(text))->0 == trimmed(text),
{
}

/// How many bytes a download will bring, where that is known: as the reply says,
/// whatever size the release gives. Nothing is known where the reply has no
/// length.
pub fn download_total(content_length: Option<u64>) -> (total: Option<u64>)
    ensures
        total == content_length,
{
    content_length
}

} // verus!
