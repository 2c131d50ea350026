//! The remote service: where its documents are found and which answers
//! count.
//!
//! The service publishes, for each release channel, the version that is
//! current there, and for each version a manifest and the files it lists.
//! The channel `LIVE` is the default; its addresses leave the channel out.

use crate::text::{joined, same_text};
use vstd::prelude::*;

verus! {

/// What the version service says of a channel's current version.
#[derive(Clone, Debug, PartialEq, Eq)]
pub struct ClientSettingsResponse {
    /// The version as it is shown.
    pub version: String,
    /// The token under which the version's manifest and files are stored.
    pub client_version_upload: String,
    pub bootstrapper_version: String,
}

/// What a `ClientSettingsResponse` holds.
pub struct ClientSettingsView {
    pub version: Seq<char>,
    pub client_version_upload: Seq<char>,
    pub bootstrapper_version: Seq<char>,
}

impl View for ClientSettingsResponse {
    type V = ClientSettingsView;

    open spec fn view(&self) -> ClientSettingsView {
        ClientSettingsView {
            version: self.version@,
            client_version_upload: self.client_version_upload@,
            bootstrapper_version: self.bootstrapper_version@,
        }
    }
}

/// Why a document could not be had from the service.
#[derive(Clone, Copy, Debug, PartialEq, Eq, Structural)]
pub enum FetchError {
    /// The service could not be reached, or its answer broke off.
    Network,
    /// The service answered with a status that is no success.
    Remote { status: u16 },
    /// The answer is not the document that was expected.
    Decode,
}

/// Whether a status is a success: one of 200 to 299.
pub open spec fn is_success(status: u16) -> bool {
    200 <= status <= 299
}

/// Accepts an answer by its status: every status outside 200 to 299 is an
/// error that carries it.
pub fn check_status(status: u16) -> (result: Result<(), FetchError>)
    ensures
        is_success(status) ==> result == Ok::<(), FetchError>(()),
        !is_success(status) ==> result == Err::<(), FetchError>(FetchError::Remote { status }),
{
    if 200 <= status && status <= 299 {
        Ok(())
    } else {
        Err(FetchError::Remote { status })
    }
}

/// The name of the default channel.
pub open spec fn default_channel() -> Seq<char> {
    "LIVE"@
}

/// Whether `channel` is the default channel.
pub fn is_default_channel(channel: &str) -> (default: bool)
    ensures
        default == (channel@ == default_channel()),
{
    same_text(channel, "LIVE")
}

/// Where the current version of `channel` is asked for, at a version service
/// found at `base`.
pub open spec fn version_url_spec(base: Seq<char>, channel: Seq<char>) -> Seq<char> {
    if channel == default_channel() {
        base
    } else {
        base + "/channel/"@ + channel
    }
}

/// Where the manifest of the version stored under `token` is found, at a
/// store found at `base`. Every channel but the default shares one place.
pub open spec fn manifest_url_spec(
    base: Seq<char>,
    channel: Seq<char>,
    token: Seq<char>,
) -> Seq<char> {
    if channel == default_channel() {
        base + "/"@ + token + "-rbxPkgManifest.txt"@
    } else {
        base + "/channel/common/"@ + token + "-rbxPkgManifest.txt"@
    }
}

/// Where the file `filename` of the version stored under `token` is found,
/// at a store found at `base`.
pub open spec fn file_url_spec(base: Seq<char>, token: Seq<char>, filename: Seq<char>) -> Seq<
    char,
> {
    base + "/"@ + token + "-"@ + filename
}

/// The places of the remote service.
#[derive(Clone, Debug, PartialEq, Eq)]
pub struct Endpoints {
    /// Where the version service answers for the default channel, without a
    /// slash at the end.
    pub version_service: String,
    /// Where manifests and files are stored, without a slash at the end.
    pub package_store: String,
}

impl Endpoints {
    /// The address at which the current version of `channel` is asked for.
    pub fn version_url(&self, channel: &str) -> (url: String)
        ensures
            url@ == version_url_spec(self.version_service@, channel@),
    {
        if is_default_channel(channel) {
            self.version_service.clone()
        } else {
            joined(self.version_service.as_str(), "/channel/").concat(channel)
        }
    }

    /// The address of the manifest of the version stored under `token`.
    pub fn manifest_url(&self, channel: &str, token: &str) -> (url: String)
        ensures
            url@ == manifest_url_spec(self.package_store@, channel@, token@),
    {
        let place = if is_default_channel(channel) {
            "/"
        } else {
            "/channel/common/"
        };
        joined(self.package_store.as_str(), place).concat(token).concat("-rbxPkgManifest.txt")
    }

    /// The address of the file `filename` of the version stored under
    /// `token`.
    pub fn file_url(&self, token: &str, filename: &str) -> (url: String)
        ensures
            url@ == file_url_spec(self.package_store@, token@, filename@),
    {
        joined(self.package_store.as_str(), "/").concat(token).concat("-").concat(filename)
    }
}

} // verus!
