use openworker_shell::platform::Platform;
use openworker_shell::update::{
    begin_check_for_update, begin_download_update, begin_install_update, check_for_update,
    finish_install, self_update_supported, CheckStep, DownloadStep, InstallStep, PendingUpdate,
    UpdateCheck, NO_SELF_UPDATE,
};

fn offered(version: &str) -> UpdateCheck {
    UpdateCheck::Offered { version: version.to_string(), notes: None }
}

fn failed() -> UpdateCheck {
    UpdateCheck::Failed("offline".to_string())
}

fn fetched(version: &str, bytes: &[u8]) -> PendingUpdate {
    let mut pending = PendingUpdate::new();
    assert_eq!(pending.finish_download(version.to_string(), Ok(bytes.to_vec())), Ok(()));
    pending
}

#[test]
fn on_linux_only_an_appimage_replaces_itself() {
    assert!(self_update_supported(Platform::Linux, true));
    assert!(!self_update_supported(Platform::Linux, false));
    for platform in [Platform::MacOs, Platform::Windows, Platform::OtherUnix] {
        assert!(self_update_supported(platform, false));
        assert!(self_update_supported(platform, true));
    }
}

#[test]
fn a_package_never_sees_an_update() {
    assert!(matches!(begin_check_for_update(false), CheckStep::Answer(Ok(None))));
    assert!(matches!(begin_check_for_update(true), CheckStep::Ask));
    let message = "This build updates through your package manager, not from inside the app.";
    assert_eq!(NO_SELF_UPDATE, message);
    match begin_download_update(false) {
        DownloadStep::Answer(answer) => assert_eq!(answer, Err(message.to_string())),
        _ => panic!("nothing may be fetched"),
    }
    assert!(matches!(begin_download_update(true), DownloadStep::Ask));
    match begin_install_update(false) {
        InstallStep::Refused(answer) => assert_eq!(answer, message),
        _ => panic!("nothing may be installed"),
    }
    assert!(matches!(begin_install_update(true), InstallStep::Ask));
}

#[test]
fn a_check_answers_with_the_release() {
    assert_eq!(check_for_update(failed()).err(), Some("offline".to_string()));
    assert!(matches!(check_for_update(UpdateCheck::UpToDate), Ok(None)));
    let info = check_for_update(offered("1.2.0")).ok().flatten().unwrap();
    assert_eq!((info.version.as_str(), info.notes.as_str()), ("1.2.0", ""));
    let check = UpdateCheck::Offered {
        version: "1.3.0".to_string(),
        notes: Some("Fixes".to_string()),
    };
    let info = check_for_update(check).ok().flatten().unwrap();
    assert_eq!((info.version.as_str(), info.notes.as_str()), ("1.3.0", "Fixes"));
}

#[test]
fn a_release_is_fetched_once() {
    let mut pending = PendingUpdate::new();
    assert!(!pending.holds("2.0"));
    match pending.download_update(offered("2.0")) {
        DownloadStep::Fetch { version } => {
            assert_eq!(version, "2.0");
            assert_eq!(pending.finish_download(version, Ok(vec![1, 2])), Ok(()));
        }
        _ => panic!("the release is not there yet"),
    }
    assert!(pending.holds("2.0"));
    assert!(matches!(pending.download_update(offered("2.0")), DownloadStep::Answer(Ok(()))));
    assert!(matches!(pending.download_update(offered("2.1")), DownloadStep::Fetch { .. }));
    assert_eq!(
        pending.finish_download("2.1".to_string(), Err("cut".to_string())),
        Err("cut".to_string())
    );
    assert!(pending.holds("2.0"), "a failed fetch leaves what is there");
    match pending.download_update(failed()) {
        DownloadStep::Answer(answer) => assert_eq!(answer, Err("offline".to_string())),
        _ => panic!("the check failed"),
    }
    match pending.download_update(UpdateCheck::UpToDate) {
        DownloadStep::Answer(answer) => {
            assert_eq!(answer, Err("no update available".to_string()))
        }
        _ => panic!("there is nothing to fetch"),
    }
}

#[test]
fn only_the_offered_release_is_installed() {
    let mut pending = fetched("2.0", &[9, 8, 7]);
    match pending.install_update(offered("2.0")) {
        InstallStep::Install { bytes } => assert_eq!(bytes, vec![9, 8, 7]),
        _ => panic!("the fetched bytes are to be installed"),
    }
    assert!(!pending.holds("2.0"), "what was fetched is used up");
    assert!(matches!(pending.install_update(offered("2.0")), InstallStep::FetchAndInstall));

    let mut pending = fetched("2.0", &[9]);
    assert!(matches!(pending.install_update(offered("2.1")), InstallStep::FetchAndInstall));
    assert!(!pending.holds("2.0"));
}

#[test]
fn a_refused_install_keeps_what_was_fetched() {
    let mut pending = fetched("2.0", &[9]);
    match pending.install_update(failed()) {
        InstallStep::Refused(message) => assert_eq!(message, "offline"),
        _ => panic!("the check failed"),
    }
    match pending.install_update(UpdateCheck::UpToDate) {
        InstallStep::Refused(message) => assert_eq!(message, "no update available"),
        _ => panic!("there is nothing to install"),
    }
    assert!(pending.holds("2.0"));
}

#[test]
fn a_dismissed_release_is_dropped() {
    let mut pending = fetched("2.0", &[9]);
    pending.clear_pending_update();
    assert!(!pending.holds("2.0"));
    assert!(matches!(pending.install_update(offered("2.0")), InstallStep::FetchAndInstall));
}

#[test]
fn a_later_fetch_takes_the_place_of_an_earlier() {
    let mut pending = fetched("2.0", &[1]);
    assert_eq!(pending.finish_download("2.1".to_string(), Ok(vec![2])), Ok(()));
    assert!(!pending.holds("2.0"));
    match pending.install_update(offered("2.1")) {
        InstallStep::Install { bytes } => assert_eq!(bytes, vec![2]),
        _ => panic!("the fetched bytes are to be installed"),
    }
}

#[test]
fn an_installed_update_restarts_the_app() {
    assert!(matches!(finish_install(Ok(())), InstallStep::Restart));
    match finish_install(Err("bad signature".to_string())) {
        InstallStep::Refused(message) => assert_eq!(message, "bad signature"),
        _ => panic!("the install failed"),
    }
}
