//! Updating the app from inside: checking for a release, fetching it early, installing it.
//!
//! A command runs in steps: a step says what to ask of the updater, and what it answered
//! decides the next step.
use vstd::prelude::*;

use crate::platform::Platform;
use crate::text::{opt_text, same_text};

verus! {

/// The answer of a build that cannot replace itself.
pub const NO_SELF_UPDATE: &'static str =
    "This build updates through your package manager, not from inside the app.";

/// The answer where there is nothing to fetch or install.
pub const NO_UPDATE: &'static str = "no update available";

/// Whether an install can replace itself: on Linux only an AppImage can, elsewhere each.
pub open spec fn replaces_itself(platform: Platform, appimage: bool) -> bool {
    platform != Platform::Linux || appimage
}

/// Whether this install can replace itself. `appimage` says whether `APPIMAGE` is set.
pub fn self_update_supported(platform: Platform, appimage: bool) -> (r: bool)
    ensures
        r == replaces_itself(platform, appimage),
{
    if platform == Platform::Linux {
        appimage
    } else {
        true
    }
}

/// What a check for an update found.
pub enum UpdateCheck {
    /// The check failed, with this message.
    Failed(String),
    /// There is no newer release.
    UpToDate,
    /// There is one.
    Offered { version: String, notes: Option<String> },
}

/// A release that is offered to the user.
pub struct UpdateInfo {
    pub version: String,
    pub notes: String,
}

/// Where a command to check for an update stands.
pub enum CheckStep {
    /// Ask the updater for a newer release.
    Ask,
    /// Nothing: this is the answer.
    Answer(Result<Option<UpdateInfo>, String>),
}

/// Whether a check begins with this step: an install that cannot replace itself is offered
/// nothing, and the updater is not asked.
pub open spec fn check_begins(supported: bool, step: CheckStep) -> bool {
    if supported {
        step is Ask
    } else {
        step == CheckStep::Answer(Ok(None))
    }
}

/// The first step of a check. `supported` says whether the install can replace itself.
pub fn begin_check_for_update(supported: bool) -> (r: CheckStep)
    ensures
        check_begins(supported, r),
{
    if supported {
        CheckStep::Ask
    } else {
        CheckStep::Answer(Ok(None))
    }
}

/// The answer to a check: the release that is offered, with empty notes where it has none.
pub fn check_for_update(check: UpdateCheck) -> (r: Result<Option<UpdateInfo>, String>)
    ensures
        match check {
            UpdateCheck::Failed(message) => r is Err && r->Err_0@ == message@,
            UpdateCheck::UpToDate => r == Ok::<Option<UpdateInfo>, String>(None),
            UpdateCheck::Offered { version, notes } => {
                &&& r is Ok
                &&& r->Ok_0 is Some
                &&& r->Ok_0->0.version@ == version@
                &&& r->Ok_0->0.notes@ == match opt_text(notes) {
                    Some(text) => text,
                    None => seq![],
                }
            },
        },
{
    match check {
        UpdateCheck::Failed(message) => Err(message),
        UpdateCheck::UpToDate => Ok(None),
        UpdateCheck::Offered { version, notes } => {
            let notes = match notes {
                Some(text) => text,
                None => String::new(),
            };
            Ok(Some(UpdateInfo { version, notes }))
        },
    }
}

/// A release that was fetched before the user asked to install it: its version and its bytes.
pub struct PendingUpdate {
    slot: Option<(String, Vec<u8>)>,
}

impl View for PendingUpdate {
    type V = Option<(Seq<char>, Seq<u8>)>;

    closed spec fn view(&self) -> Option<(Seq<char>, Seq<u8>)> {
        match self.slot {
            Some((version, bytes)) => Some((version@, bytes@)),
            None => None,
        }
    }
}

/// What can happen to what is fetched.
pub enum PendingOp {
    /// A release was fetched.
    Fetched { version: Seq<char>, bytes: Seq<u8> },
    /// A fetch failed.
    FetchFailed,
    /// The user dismissed the release.
    Cleared,
    /// An install was asked for, and a release was offered.
    InstallOffered,
    /// An install was asked for, and none was.
    InstallNotOffered,
}

/// What is fetched after something happened to it.
pub open spec fn pending_next(
    pending: Option<(Seq<char>, Seq<u8>)>,
    op: PendingOp,
) -> Option<(Seq<char>, Seq<u8>)> {
    match op {
        PendingOp::Fetched { version, bytes } => Some((version, bytes)),
        PendingOp::Cleared | PendingOp::InstallOffered => None,
        PendingOp::FetchFailed | PendingOp::InstallNotOffered => pending,
    }
}

/// What is fetched after all that happened since the app was launched.
pub open spec fn pending_run(ops: Seq<PendingOp>) -> Option<(Seq<char>, Seq<u8>)>
    decreases ops.len(),
{
    if ops.len() == 0 {
        None
    } else {
        pending_next(pending_run(ops.drop_last()), ops.last())
    }
}

/// The bytes kept for a version are those of its latest fetch, and nothing has dropped them
/// since.
pub proof fn law_pending_was_fetched(ops: Seq<PendingOp>, version: Seq<char>, bytes: Seq<u8>)
    requires
        pending_run(ops) == Some((version, bytes)),
    ensures
        exists|i: int|
            0 <= i < ops.len() && (#[trigger] ops[i]) == (PendingOp::Fetched { version, bytes })
                && forall|j: int|
                i < j < ops.len() ==> (#[trigger] ops[j]) is FetchFailed
                    || ops[j] is InstallNotOffered,
    decreases ops.len(),
{
    let init = ops.drop_last();
    if ops.last() is FetchFailed || ops.last() is InstallNotOffered {
        law_pending_was_fetched(init, version, bytes);
        let i = choose|i: int|
            0 <= i < init.len() && (#[trigger] init[i]) == (PendingOp::Fetched { version, bytes })
                && forall|j: int|
                i < j < init.len() ==> (#[trigger] init[j]) is FetchFailed
                    || init[j] is InstallNotOffered;
        assert(ops[i] == init[i]);
        assert forall|j: int| i < j < ops.len() implies (#[trigger] ops[j]) is FetchFailed
            || ops[j] is InstallNotOffered by {
            if j < init.len() {
                assert(ops[j] == init[j]);
            }
        }
    } else {
        assert(ops[ops.len() - 1] == (PendingOp::Fetched { version, bytes }));
    }
}

/// Once dismissed, a release is not installed from what was fetched: nothing is kept.
pub proof fn law_dismissed_is_dropped(ops: Seq<PendingOp>)
    ensures
        pending_run(ops.push(PendingOp::Cleared)) is None,
{
    assert(ops.push(PendingOp::Cleared).drop_last() == ops);
}

/// Where a command to fetch an update stands.
pub enum DownloadStep {
    /// Ask the updater for a newer release.
    Ask,
    /// Fetch the release of this version.
    Fetch { version: String },
    /// Nothing: this is the answer.
    Answer(Result<(), String>),
}

/// Whether fetching an update begins with this step: an install that cannot replace itself
/// says so, and the updater is not asked.
pub open spec fn download_begins(supported: bool, step: DownloadStep) -> bool {
    if supported {
        step is Ask
    } else {
        step matches DownloadStep::Answer(Err(message)) && message@ == NO_SELF_UPDATE@
    }
}

/// The first step of fetching an update. `supported` says whether the install can replace
/// itself.
pub fn begin_download_update(supported: bool) -> (r: DownloadStep)
    ensures
        download_begins(supported, r),
{
    if supported {
        DownloadStep::Ask
    } else {
        DownloadStep::Answer(Err(NO_SELF_UPDATE.to_owned()))
    }
}

/// Where a command to install an update stands.
pub enum InstallStep {
    /// Ask the updater for a newer release.
    Ask,
    /// Install these bytes.
    Install { bytes: Vec<u8> },
    /// Fetch the release, and install it.
    FetchAndInstall,
    /// Restart the app.
    Restart,
    /// Nothing: the command failed, with this message.
    Refused(String),
}

/// Whether installing an update begins with this step: an install that cannot replace itself
/// says so, and the updater is not asked.
pub open spec fn install_begins(supported: bool, step: InstallStep) -> bool {
    if supported {
        step is Ask
    } else {
        step matches InstallStep::Refused(message) && message@ == NO_SELF_UPDATE@
    }
}

/// The first step of installing an update. `supported` says whether the install can replace
/// itself.
pub fn begin_install_update(supported: bool) -> (r: InstallStep)
    ensures
        install_begins(supported, r),
{
    if supported {
        InstallStep::Ask
    } else {
        InstallStep::Refused(NO_SELF_UPDATE.to_owned())
    }
}

impl PendingUpdate {
    /// Nothing fetched.
    pub fn new() -> (r: PendingUpdate)
        ensures
            r@ is None,
    {
        PendingUpdate { slot: None }
    }

    /// Whether the release of a version is fetched.
    pub open spec fn has(self, version: Seq<char>) -> bool {
        self@ matches Some((fetched, _)) && fetched == version
    }

    /// Whether the release of a version is fetched.
    pub fn holds(&self, version: &str) -> (r: bool)
        ensures
            r == self.has(version@),
            r == (self@ is Some && (self@->0).0 == version@),
    {
        match &self.slot {
            Some((fetched, _bytes)) => same_text(fetched.as_str(), version),
            None => false,
        }
    }

    /// The step of fetching an update after the check. A release that is fetched already is
    /// not fetched again.
    pub fn download_update(&self, check: UpdateCheck) -> (r: DownloadStep)
        ensures
            match check {
                UpdateCheck::Failed(message) => r is Answer && r->Answer_0 is Err
                    && r->Answer_0->Err_0@ == message@,
                UpdateCheck::UpToDate => r is Answer && r->Answer_0 is Err && r->Answer_0->Err_0@
                    == NO_UPDATE@,
                UpdateCheck::Offered { version, .. } => if self.has(version@) {
                    r == DownloadStep::Answer(Ok(()))
                } else {
                    r is Fetch && r->version@ == version@
                },
            },
    {
        match check {
            UpdateCheck::Failed(message) => DownloadStep::Answer(Err(message)),
            UpdateCheck::UpToDate => DownloadStep::Answer(Err(NO_UPDATE.to_owned())),
            UpdateCheck::Offered { version, .. } => if self.holds(version.as_str()) {
                DownloadStep::Answer(Ok(()))
            } else {
                DownloadStep::Fetch { version }
            },
        }
    }

    /// Keeps what was fetched, in place of what was there; a failure leaves it as it is. The
    /// result is the answer to the command.
    pub fn finish_download(&mut self, version: String, fetched: Result<Vec<u8>, String>) -> (r:
        Result<(), String>)
        ensures
            match fetched {
                Ok(bytes) => r is Ok && final(self)@ == pending_next(
                    old(self)@,
                    PendingOp::Fetched { version: version@, bytes: bytes@ },
                ),
                Err(message) => r is Err && r->Err_0@ == message@ && final(self)@ == pending_next(
                    old(self)@,
                    PendingOp::FetchFailed,
                ),
            },
    {
        match fetched {
            Ok(bytes) => {
                self.slot = Some((version, bytes));
                Ok(())
            },
            Err(message) => Err(message),
        }
    }

    /// Drops what was fetched.
    pub fn clear_pending_update(&mut self)
        ensures
            final(self)@ == pending_next(old(self)@, PendingOp::Cleared),
    {
        self.slot = None;
    }

    /// The step of installing an update after the check. What was fetched is used up where a
    /// release is offered: installed if it is that very release, else dropped.
    pub fn install_update(&mut self, check: UpdateCheck) -> (r: InstallStep)
        ensures
            match check {
                UpdateCheck::Failed(message) => r is Refused && r->Refused_0@ == message@
                    && final(self)@ == pending_next(old(self)@, PendingOp::InstallNotOffered),
                UpdateCheck::UpToDate => r is Refused && r->Refused_0@ == NO_UPDATE@
                    && final(self)@ == pending_next(old(self)@, PendingOp::InstallNotOffered),
                UpdateCheck::Offered { version, .. } => {
                    &&& final(self)@ == pending_next(old(self)@, PendingOp::InstallOffered)
                    &&& if old(self).has(version@) {
                        r is Install && old(self)@ == Some((version@, r->bytes@))
                    } else {
                        r is FetchAndInstall
                    }
                },
            },
    {
        match check {
            UpdateCheck::Failed(message) => InstallStep::Refused(message),
            UpdateCheck::UpToDate => InstallStep::Refused(NO_UPDATE.to_owned()),
            UpdateCheck::Offered { version, .. } => {
                let fetched = self.slot.take();
                match fetched {
                    Some((v, bytes)) => if same_text(v.as_str(), version.as_str()) {
                        InstallStep::Install { bytes }
                    } else {
                        InstallStep::FetchAndInstall
                    },
                    None => InstallStep::FetchAndInstall,
                }
            },
        }
    }
}

/// A Linux package is left to its package manager: it sees no update, fetches none and
/// installs none. The updater is asked in every other install, and only there.
pub proof fn law_packages_are_left_alone(
    platform: Platform,
    appimage: bool,
    check: CheckStep,
    download: DownloadStep,
    install: InstallStep,
)
    requires
        check_begins(replaces_itself(platform, appimage), check),
        download_begins(replaces_itself(platform, appimage), download),
        install_begins(replaces_itself(platform, appimage), install),
    ensures
        platform == Platform::Linux && !appimage ==> {
            &&& check == CheckStep::Answer(Ok(None))
            &&& download matches DownloadStep::Answer(Err(message)) && message@
                == "This build updates through your package manager, not from inside the app."@
            &&& install matches InstallStep::Refused(message) && message@
                == "This build updates through your package manager, not from inside the app."@
        },
        !(platform == Platform::Linux && !appimage) ==> {
            &&& check is Ask
            &&& download is Ask
            &&& install is Ask
        },
{
}

/// The last step of installing an update: the app restarts into it, unless it failed.
pub fn finish_install(installed: Result<(), String>) -> (r: InstallStep)
    ensures
        match installed {
            Ok(_) => r is Restart,
            Err(message) => r is Refused && r->Refused_0@ == message@,
        },
{
    match installed {
        Ok(_) => InstallStep::Restart,
        Err(message) => InstallStep::Refused(message),
    }
}

/// What was fetched is kept, and for its own version, until something drops it: another fetch,
/// a dismissal, or an install of a release that is offered. A fetch that fails and an install
/// that is refused leave it as it is.
pub proof fn law_fetched_is_kept(ops: Seq<PendingOp>, i: int, version: Seq<char>, bytes: Seq<u8>)
    requires
        0 <= i < ops.len(),
        ops[i] == (PendingOp::Fetched { version, bytes }),
        forall|j: int|
            i < j < ops.len() ==> (#[trigger] ops[j]) is FetchFailed || ops[j] is InstallNotOffered,
    ensures
        pending_run(ops) == Some((version, bytes)),
    decreases ops.len(),
{
    let init = ops.drop_last();
    assert(ops.last() == ops[ops.len() - 1]);
    if i < init.len() {
        assert(init[i] == ops[i]);
        assert forall|j: int| i < j < init.len() implies (#[trigger] init[j]) is FetchFailed
            || init[j] is InstallNotOffered by {
            assert(init[j] == ops[j]);
        }
        law_fetched_is_kept(init, i, version, bytes);
    }
}

/// What was fetched is used up by an install of a release that is offered, and nothing is kept
/// where nothing was fetched.
pub proof fn law_install_uses_up(ops: Seq<PendingOp>)
    ensures
        pending_run(ops.push(PendingOp::InstallOffered)) is None,
        (forall|i: int| 0 <= i < ops.len() ==> !((#[trigger] ops[i]) is Fetched)) ==> pending_run(
            ops,
        ) is None,
    decreases ops.len(),
{
    assert(ops.push(PendingOp::InstallOffered).drop_last() == ops);
    if pending_run(ops) is Some {
        let (version, bytes) = pending_run(ops)->0;
        law_pending_was_fetched(ops, version, bytes);
    }
}

/// A release is there exactly if it was fetched under that very version.
pub proof fn law_has_by_version(pending: PendingUpdate, version: Seq<char>)
    ensures
        pending.has(version) <==> exists|bytes: Seq<u8>| pending@ == Some((version, bytes)),
{
    if pending.has(version) {
        let bytes = (pending@->0).1;
        assert(pending@ == Some((version, bytes)));
    }
}

/// The answers where nothing can be done.
pub proof fn law_update_refusals()
    ensures
        NO_SELF_UPDATE@
            == "This build updates through your package manager, not from inside the app."@,
        NO_UPDATE@ == "no update available"@,
{
}

} // verus!
