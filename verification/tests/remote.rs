use leeklaunch::remote::{check_status, is_default_channel, Endpoints, FetchError};

fn endpoints() -> Endpoints {
    Endpoints {
        version_service: "https://versions.example/v2/client-version/WindowsPlayer".to_string(),
        package_store: "https://store.example".to_string(),
    }
}

#[test]
fn default_channel_is_left_out_of_the_version_url() {
    assert_eq!(
        endpoints().version_url("LIVE"),
        "https://versions.example/v2/client-version/WindowsPlayer"
    );
}

#[test]
fn named_channel_is_a_path_segment_of_the_version_url() {
    assert_eq!(
        endpoints().version_url("zbeta"),
        "https://versions.example/v2/client-version/WindowsPlayer/channel/zbeta"
    );
}

#[test]
fn channel_names_are_compared_exactly() {
    assert!(is_default_channel("LIVE"));
    assert!(!is_default_channel("live"));
    assert!(!is_default_channel("LIVE "));
    assert!(!is_default_channel(""));
    assert_eq!(
        endpoints().version_url("live"),
        "https://versions.example/v2/client-version/WindowsPlayer/channel/live"
    );
    assert_eq!(
        endpoints().version_url(""),
        "https://versions.example/v2/client-version/WindowsPlayer/channel/"
    );
}

#[test]
fn manifest_url_of_the_default_channel() {
    assert_eq!(
        endpoints().manifest_url("LIVE", "version-abc123"),
        "https://store.example/version-abc123-rbxPkgManifest.txt"
    );
}

#[test]
fn manifest_url_of_a_named_channel() {
    assert_eq!(
        endpoints().manifest_url("zbeta", "version-abc123"),
        "https://store.example/channel/common/version-abc123-rbxPkgManifest.txt"
    );
}

#[test]
fn file_url_joins_token_and_name() {
    assert_eq!(
        endpoints().file_url("version-abc123", "fileA.zip"),
        "https://store.example/version-abc123-fileA.zip"
    );
    assert_eq!(endpoints().file_url("", ""), "https://store.example/-");
}

#[test]
fn only_statuses_from_200_to_299_are_accepted() {
    assert_eq!(check_status(200), Ok(()));
    assert_eq!(check_status(204), Ok(()));
    assert_eq!(check_status(299), Ok(()));
    assert_eq!(check_status(199), Err(FetchError::Remote { status: 199 }));
    assert_eq!(check_status(300), Err(FetchError::Remote { status: 300 }));
    assert_eq!(check_status(304), Err(FetchError::Remote { status: 304 }));
    assert_eq!(check_status(404), Err(FetchError::Remote { status: 404 }));
    assert_eq!(check_status(500), Err(FetchError::Remote { status: 500 }));
    assert_eq!(check_status(0), Err(FetchError::Remote { status: 0 }));
    assert_eq!(check_status(u16::MAX), Err(FetchError::Remote { status: u16::MAX }));
}
