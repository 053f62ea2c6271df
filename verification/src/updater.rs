//! Updates: where they are looked for, what the page is told of one, and the report of the
//! version that is installed.
use vstd::prelude::*;
use vstd::string::*;

use crate::autostart::show_window_after_restart;
use crate::config::{filled, AppConfig};
use crate::json::{field, get_text, json_printed, print, put, text, text_field, Json, JsonView, Member};
use crate::link::{parse_url, parsed_view, url_parsed, UrlParts, UrlView};
use crate::text::{option_str, option_text, same_text};
use crate::window::MAIN_LABEL;

verus! {

pub const DEFAULT_MANIFEST_URL: &'static str = "https://github.com/flamingo-stack/openframe-saas-desktop/releases/latest/download/updater.json";

/// Seconds a look for an update may take, and a download.
pub const CHECK_TIMEOUT: u64 = 15;

pub const DOWNLOAD_TIMEOUT: u64 = 300;

/// Seconds between two looks while the application runs.
pub const RUNTIME_POLL_INTERVAL: u64 = 2700;

pub const AGENT_TYPE: &'static str = "openframe-desktop";

pub const REPORT_RETRIES: u32 = 5;

pub const EVENT_AVAILABLE: &'static str = "update:available";

pub const EVENT_PROGRESS: &'static str = "update:progress";

pub const EVENT_INSTALLING: &'static str = "update:installing";

pub const EVENT_ERROR: &'static str = "update:error";

/// Key of the update manifest that names the page with a version's release notes.
pub const RELEASE_NOTES_URL_KEY: &'static str = "releaseNotesUrl";

/// Milliseconds between two reports of a download's progress.
pub const PROGRESS_EMIT_INTERVAL: u64 = 200;

/// Whether the application updates itself under a setting.
pub open spec fn updates_itself(setting: Option<bool>) -> bool {
    setting != Some(false)
}

/// Only a setting that says no keeps the application from updating itself.
pub proof fn only_a_no_stops_updates()
    ensures
        updates_itself(None),
        updates_itself(Some(true)),
        !updates_itself(Some(false)),
{
}

/// Whether the application updates itself: unless it is told not to.
pub fn self_update_enabled(cfg: &AppConfig) -> (r: bool)
    ensures
        r == updates_itself(cfg.self_update_enabled),
        r == (cfg.self_update_enabled != Some(false)),
{
    match cfg.self_update_enabled {
        Some(enabled) => enabled,
        None => true,
    }
}

/// Where the manifest is: the configuration's place, else the build's, else the default. An
/// empty one counts as none.
pub open spec fn manifest_url(configured: Option<Seq<char>>, built_in: Option<Seq<char>>) -> Seq<char> {
    match (filled(configured), filled(built_in)) {
        (Some(url), _) => url,
        (None, Some(url)) => url,
        (None, None) => DEFAULT_MANIFEST_URL@,
    }
}

pub fn resolve_manifest_url(cfg: &AppConfig, built_in: Option<&str>) -> (r: String)
    ensures
        r@ == manifest_url(option_text(cfg.update_manifest_url), option_str(built_in)),
{
    if let Some(url) = &cfg.update_manifest_url {
        if !url.as_str().is_empty() {
            return url.clone();
        }
    }
    if let Some(url) = built_in {
        if !url.is_empty() {
            return url.to_string();
        }
    }
    DEFAULT_MANIFEST_URL.to_string()
}

// ---------------------------------------------------------------------------------------
// What the page is told.

#[derive(Debug, PartialEq)]
pub struct UpdateAvailability {
    pub available: bool,
    pub version: Option<String>,
    pub notes: Option<String>,
    pub release_notes_url: Option<String>,
}

pub struct AvailabilityView {
    pub available: bool,
    pub version: Option<Seq<char>>,
    pub notes: Option<Seq<char>>,
    pub release_notes_url: Option<Seq<char>>,
}

impl View for UpdateAvailability {
    type V = AvailabilityView;

    open spec fn view(&self) -> AvailabilityView {
        AvailabilityView {
            available: self.available,
            version: option_text(self.version),
            notes: option_text(self.notes),
            release_notes_url: option_text(self.release_notes_url),
        }
    }
}

/// No update.
pub open spec fn no_update() -> AvailabilityView {
    AvailabilityView { available: false, version: None, notes: None, release_notes_url: None }
}

impl UpdateAvailability {
    pub fn none() -> (r: Self)
        ensures
            r@ == no_update(),
    {
        UpdateAvailability { available: false, version: None, notes: None, release_notes_url: None }
    }

    /// An update with its version and notes. The page with its release notes is the
    /// manifest's to name; where it names none, there is none.
    pub fn from_update(version: &str, notes: Option<&str>, manifest: &Json) -> (r: Self)
        ensures
            r@ == (AvailabilityView {
                available: true,
                version: Some(version@),
                notes: option_str(notes),
                release_notes_url: filled(text_field(manifest@, RELEASE_NOTES_URL_KEY@)),
            }),
    {
        let release_notes_url = match get_text(manifest, RELEASE_NOTES_URL_KEY) {
            Some(url) => if url.as_str().is_empty() {
                None
            } else {
                Some(url)
            },
            None => None,
        };
        let notes = match notes {
            Some(notes) => Some(notes.to_string()),
            None => None,
        };
        UpdateAvailability {
            available: true,
            version: Some(version.to_string()),
            notes,
            release_notes_url,
        }
    }
}

/// What went wrong: a kind that the page turns into words and an action, and the message for
/// the log.
#[derive(Debug, PartialEq)]
pub struct UpdateError {
    pub kind: &'static str,
    pub message: String,
}

pub struct UpdateErrorView {
    pub kind: Seq<char>,
    pub message: Seq<char>,
}

impl View for UpdateError {
    type V = UpdateErrorView;

    open spec fn view(&self) -> UpdateErrorView {
        UpdateErrorView { kind: self.kind@, message: self.message@ }
    }
}

/// The ways in which the updater fails.
#[derive(Clone, Copy, Debug, PartialEq, Eq, Structural)]
pub enum Fault {
    Reqwest,
    Network,
    ReleaseNotFound,
    Minisign,
    Base64,
    SignatureUtf8,
    Io,
    TempDirNotFound,
    FailedToDetermineExtractPath,
    UnsupportedArch,
    UnsupportedOs,
    TargetNotFound,
    TargetsNotFound,
    EmptyEndpoints,
    UrlParse,
    InsecureTransportProtocol,
    InvalidUpdaterFormat,
    Semver,
    Serialization,
    Other,
}

/// What the user can do about a fault: try again, free up disk, or nothing; a bad signature
/// is a kind of its own.
pub open spec fn kind_of(fault: Fault) -> Seq<char> {
    match fault {
        Fault::Reqwest | Fault::Network | Fault::ReleaseNotFound => "network"@,
        Fault::Minisign | Fault::Base64 | Fault::SignatureUtf8 => "signature"@,
        Fault::Io | Fault::TempDirNotFound | Fault::FailedToDetermineExtractPath => "io"@,
        Fault::Other => "unknown"@,
        _ => "unavailable"@,
    }
}

pub fn classify(fault: Fault) -> (r: &'static str)
    ensures
        r@ == kind_of(fault),
{
    match fault {
        Fault::Reqwest | Fault::Network | Fault::ReleaseNotFound => "network",
        Fault::Minisign | Fault::Base64 | Fault::SignatureUtf8 => "signature",
        Fault::Io | Fault::TempDirNotFound | Fault::FailedToDetermineExtractPath => "io",
        Fault::UnsupportedArch
        | Fault::UnsupportedOs
        | Fault::TargetNotFound
        | Fault::TargetsNotFound
        | Fault::EmptyEndpoints
        | Fault::UrlParse
        | Fault::InsecureTransportProtocol
        | Fault::InvalidUpdaterFormat
        | Fault::Semver
        | Fault::Serialization => "unavailable",
        Fault::Other => "unknown",
    }
}

impl UpdateError {
    /// Another update is being applied, and that one owns the restart.
    pub fn busy() -> (r: Self)
        ensures
            r@.kind == "busy"@,
            r@.message == "an update is already being applied"@,
    {
        UpdateError { kind: "busy", message: "an update is already being applied".to_string() }
    }

    /// The update went away between being offered and being accepted.
    pub fn gone() -> (r: Self)
        ensures
            r@.kind == "gone"@,
            r@.message == "no update is available anymore"@,
    {
        UpdateError { kind: "gone", message: "no update is available anymore".to_string() }
    }

    /// What was needed is not there: nothing the user can try again.
    pub fn unavailable(message: String) -> (r: Self)
        ensures
            r@.kind == "unavailable"@,
            r@.message == message@,
    {
        UpdateError { kind: "unavailable", message }
    }

    /// The updater failed.
    pub fn from_fault(fault: Fault, message: String) -> (r: Self)
        ensures
            r@.kind == kind_of(fault),
            r@.message == message@,
    {
        UpdateError { kind: classify(fault), message }
    }
}

// ---------------------------------------------------------------------------------------
// Looking for an update.

/// A text, or an error, by their characters.
pub open spec fn endpoint_result(r: Result<String, UpdateError>) -> Result<
    Seq<char>,
    UpdateErrorView,
> {
    match r {
        Ok(url) => Ok(url@),
        Err(error) => Err(error@),
    }
}

/// The endpoint to ask, given what parsing the manifest's URL came to.
pub open spec fn endpoint_of(url: Seq<char>, parsed: Result<UrlView, Seq<char>>) -> Result<
    Seq<char>,
    UpdateErrorView,
> {
    match parsed {
        Ok(parts) => Ok(parts.href),
        Err(why) => Err(
            UpdateErrorView {
                kind: "unavailable"@,
                message: "invalid manifest URL '"@ + url + "': "@ + why,
            },
        ),
    }
}

/// The endpoint to ask once the manifest's URL has been parsed.
pub fn endpoint_from(url: &str, parsed: Result<UrlParts, String>) -> (r: Result<String, UpdateError>)
    ensures
        endpoint_result(r) == endpoint_of(url@, parsed_view(parsed)),
{
    match parsed {
        Ok(parts) => Ok(parts.href),
        Err(why) => {
            let mut message = "invalid manifest URL '".to_string();
            message.append(url);
            message.append("': ");
            message.append(why.as_str());
            Err(UpdateError::unavailable(message))
        },
    }
}

/// The endpoint to ask for an update.
pub fn update_endpoint(cfg: &AppConfig, built_in: Option<&str>) -> (r: Result<String, UpdateError>)
    ensures
        ({
            let url = manifest_url(option_text(cfg.update_manifest_url), option_str(built_in));
            endpoint_result(r) == endpoint_of(url, url_parsed(url))
        }),
{
    let url = resolve_manifest_url(cfg, built_in);
    let parsed = parse_url(url.as_str());
    endpoint_from(url.as_str(), parsed)
}

/// Whether a page may look for an update and be told of one: only the main window's.
pub fn may_check(label: &str) -> (r: bool)
    ensures
        r == (label@ == MAIN_LABEL@),
{
    same_text(label, MAIN_LABEL)
}

/// Nothing, or an error, by its characters.
pub open spec fn permission_result(r: Result<(), UpdateError>) -> Result<(), UpdateErrorView> {
    match r {
        Ok(_) => Ok(()),
        Err(error) => Err(error@),
    }
}

/// Whether a page may have an update applied: only the main window's.
pub fn may_apply(label: &str) -> (r: Result<(), UpdateError>)
    ensures
        permission_result(r) == if label@ == MAIN_LABEL@ {
            Ok::<(), UpdateErrorView>(())
        } else {
            Err(
                UpdateErrorView {
                    kind: "unavailable"@,
                    message: "updates can only be applied from the main window"@,
                },
            )
        },
{
    if same_text(label, MAIN_LABEL) {
        Ok(())
    } else {
        Err(
            UpdateError::unavailable(
                "updates can only be applied from the main window".to_string(),
            ),
        )
    }
}

/// Whether an update is applied, given whether it was found again and whether no other is.
pub open spec fn apply_result(found: bool, free: bool) -> Result<(), UpdateErrorView> {
    if !found {
        Err(UpdateErrorView { kind: "gone"@, message: "no update is available anymore"@ })
    } else if !free {
        Err(UpdateErrorView { kind: "busy"@, message: "an update is already being applied"@ })
    } else {
        Ok(())
    }
}

/// An update that is still there is applied where no other is being applied; one that is gone is
/// told as gone, whatever else is under way.
pub proof fn one_update_is_applied_at_a_time(found: bool, free: bool)
    ensures
        apply_result(found, free) is Ok <==> found && free,
        !found ==> apply_result(found, free)->Err_0.kind == "gone"@ && apply_result(
            found,
            free,
        )->Err_0.message == "no update is available anymore"@,
        found && !free ==> apply_result(found, free)->Err_0.kind == "busy"@ && apply_result(
            found,
            free,
        )->Err_0.message == "an update is already being applied"@,
{
}

/// Whether an update is applied: not while another is, which owns the restart then, and not
/// where a second look found none.
pub fn begin_apply(found: bool, free: bool) -> (r: Result<(), UpdateError>)
    ensures
        permission_result(r) == apply_result(found, free),
        permission_result(r) == if !found {
            Err(
                UpdateErrorView { kind: "gone"@, message: "no update is available anymore"@ },
            )
        } else if !free {
            Err(
                UpdateErrorView { kind: "busy"@, message: "an update is already being applied"@ },
            )
        } else {
            Ok::<(), UpdateErrorView>(())
        },
{
    if !found {
        Err(UpdateError::gone())
    } else if !free {
        Err(UpdateError::busy())
    } else {
        Ok(())
    }
}

/// The request that a finished download leaves for the process that comes back: to show a
/// window, where some window is on screen now.
pub open spec fn window_request(visible: Seq<bool>) -> Option<bool> {
    if visible.contains(true) {
        Some(true)
    } else {
        None
    }
}

/// A download has finished, with these windows on screen or not. Asks the process that comes
/// back for a window where one is. Says whether the configuration is to be stored. Asked now
/// rather than before, since a download takes minutes and a window may be opened during it;
/// and before the install, which may end this process.
pub fn after_download(cfg: &mut AppConfig, visible: &Vec<bool>) -> (r: bool)
    ensures
        *final(cfg) == (AppConfig {
            autostart_show_window_next_start: window_request(visible@),
            ..*old(cfg)
        }),
        r == (window_request(visible@) != old(cfg).autostart_show_window_next_start),
{
    let mut i: usize = 0;
    while i < visible.len() && !visible[i]
        invariant
            i <= visible@.len(),
            forall|j: int| 0 <= j < i ==> !#[trigger] visible@[j],
        decreases visible@.len() - i,
    {
        i += 1;
    }
    let wanted = i < visible.len();
    proof {
        if wanted {
            assert(visible@[i as int]);
        }
    }
    show_window_after_restart(cfg, wanted)
}

/// What came of an install: nothing, or how the updater failed and in which words.
pub type Installed = Result<(), (Fault, String)>;

/// What the page is told of an install.
pub open spec fn install_result(installed: Installed) -> Result<(), UpdateErrorView> {
    match installed {
        Ok(_) => Ok(()),
        Err((fault, message)) => Err(
            UpdateErrorView { kind: kind_of(fault), message: message@ },
        ),
    }
}

/// The configuration after an install: a request for a window does not outlive the restart it
/// was made for.
pub open spec fn config_after_install(cfg: AppConfig, installed: bool) -> AppConfig {
    if installed {
        cfg
    } else {
        AppConfig { autostart_show_window_next_start: None, ..cfg }
    }
}

/// An install has come to its end. One that failed takes the request for a window back and is
/// reported; after any other the process restarts. The first answer says whether the
/// configuration is to be stored.
pub fn after_install(cfg: &mut AppConfig, installed: Installed) -> (r: (bool, Result<
    (),
    UpdateError,
>))
    ensures
        *final(cfg) == config_after_install(*old(cfg), installed is Ok),
        r.0 == (final(cfg).autostart_show_window_next_start
            != old(cfg).autostart_show_window_next_start),
        permission_result(r.1) == install_result(installed),
{
    match installed {
        Ok(_) => (false, Ok(())),
        Err((fault, message)) => {
            let store = show_window_after_restart(cfg, false);
            (store, Err(UpdateError::from_fault(fault, message)))
        },
    }
}

/// The next launch is asked for a window exactly where the update landed and a window was on
/// screen when its download finished; a failed install leaves no request behind.
pub proof fn window_comes_back_only_after_an_update(
    cfg: AppConfig,
    visible: Seq<bool>,
    installed: bool,
)
    ensures
        ({
            let downloaded = AppConfig {
                autostart_show_window_next_start: window_request(visible),
                ..cfg
            };
            let after = config_after_install(downloaded, installed);
            after.autostart_show_window_next_start == Some(true) <==> installed && visible.contains(
                true,
            )
        }),
{
}

// ---------------------------------------------------------------------------------------
// A download's progress.

/// How far a download is.
#[derive(Clone, Copy, Debug, PartialEq, Eq, Structural)]
pub struct Progress {
    /// Bytes downloaded so far.
    pub downloaded: usize,
    /// Bytes in all, where the server says.
    pub total: Option<u64>,
}

/// A download under way.
#[derive(Clone, Copy, Debug, PartialEq, Eq, Structural)]
pub struct Download {
    pub downloaded: usize,
    /// When its progress was last reported, in milliseconds.
    pub last_emit: Option<u64>,
}

impl Default for Download {
    fn default() -> (r: Self)
        ensures
            r == (Download { downloaded: 0, last_emit: None }),
    {
        Download { downloaded: 0, last_emit: None }
    }
}

/// Whether progress is reported at `now`: the first time, and then once per interval.
pub open spec fn reports(download: Download, now: u64) -> bool {
    match download.last_emit {
        Some(last) => now - last >= PROGRESS_EMIT_INTERVAL,
        None => true,
    }
}

pub open spec fn after_chunk(download: Download, chunk: usize, now: u64) -> Download {
    Download {
        downloaded: (download.downloaded + chunk) as usize,
        last_emit: if reports(download, now) {
            Some(now)
        } else {
            download.last_emit
        },
    }
}

impl Download {
    /// A chunk has arrived. Every one is counted; only the reporting is rationed.
    pub fn on_chunk(&mut self, chunk: usize, total: Option<u64>, now: u64) -> (r: Option<Progress>)
        requires
            old(self).downloaded + chunk <= usize::MAX,
        ensures
            *final(self) == after_chunk(*old(self), chunk, now),
            r == if reports(*old(self), now) {
                Some(Progress { downloaded: final(self).downloaded, total })
            } else {
                None
            },
    {
        self.downloaded = self.downloaded + chunk;
        let due = match self.last_emit {
            Some(last) => now >= last && now - last >= PROGRESS_EMIT_INTERVAL,
            None => true,
        };
        if !due {
            return None;
        }
        self.last_emit = Some(now);
        Some(Progress { downloaded: self.downloaded, total })
    }
}

/// A download once chunks have arrived one after the other, each with its time.
pub open spec fn after_chunks(chunks: Seq<(usize, u64)>) -> Download
    decreases chunks.len(),
{
    if chunks.len() == 0 {
        Download { downloaded: 0, last_emit: None }
    } else {
        after_chunk(after_chunks(chunks.drop_last()), chunks.last().0, chunks.last().1)
    }
}

/// The bytes of some chunks together.
pub open spec fn bytes_of(chunks: Seq<(usize, u64)>) -> nat
    decreases chunks.len(),
{
    if chunks.len() == 0 {
        0
    } else {
        bytes_of(chunks.drop_last()) + chunks.last().0 as nat
    }
}

/// What is reported of a download is all that has arrived, whatever was not reported before.
pub proof fn every_chunk_is_counted(chunks: Seq<(usize, u64)>)
    requires
        bytes_of(chunks) <= usize::MAX,
    ensures
        after_chunks(chunks).downloaded == bytes_of(chunks),
    decreases chunks.len(),
{
    if chunks.len() > 0 {
        every_chunk_is_counted(chunks.drop_last());
    }
}

/// Two reports are at least the interval apart.
pub proof fn reports_keep_their_distance(download: Download, chunk: usize, then: u64, now: u64)
    requires
        reports(download, then),
        reports(after_chunk(download, chunk, then), now),
    ensures
        now - then >= PROGRESS_EMIT_INTERVAL,
{
}

// ---------------------------------------------------------------------------------------
// The report of the installed version.

/// The subject on which a user's installed version is reported.
pub open spec fn report_subject(user_id: Seq<char>) -> Seq<char> {
    "user."@ + user_id + ".installed-agent"@
}

/// What is reported.
pub open spec fn report_body(version: Seq<char>) -> JsonView {
    JsonView::Object(
        map![
            "agentType"@ => JsonView::Text(AGENT_TYPE@),
            "version"@ => JsonView::Text(version),
        ],
    )
}

/// The subject and the text of the version's report.
pub fn version_report(user_id: &str, version: &str) -> (r: (String, String))
    ensures
        r.0@ == report_subject(user_id@),
        r.1@ == json_printed(report_body(version@)),
{
    let mut subject = "user.".to_string();
    subject.append(user_id);
    subject.append(".installed-agent");
    proof {
        reveal_strlit("agentType");
        reveal_strlit("version");
        assert("agentType"@.len() == 9 && "version"@.len() == 7);
    }
    let mut members: Vec<Member> = Vec::new();
    put(&mut members, "agentType", text(AGENT_TYPE));
    put(&mut members, "version", text(version));
    let body = Json::Object(members);
    assert(body@ == report_body(version@));
    (subject, print(&body))
}

/// What follows an attempt to report.
#[derive(Clone, Copy, Debug, PartialEq, Eq, Structural)]
pub enum ReportStep {
    Done,
    /// Try again after this many seconds.
    RetryAfter(u64),
    GiveUp,
}

pub open spec fn after_report(attempt: u32, sent: bool) -> ReportStep {
    if sent {
        ReportStep::Done
    } else if attempt < REPORT_RETRIES {
        ReportStep::RetryAfter(1)
    } else {
        ReportStep::GiveUp
    }
}

/// What follows the attempt number `attempt`, counted from one.
pub fn report_step(attempt: u32, sent: bool) -> (r: ReportStep)
    ensures
        r == after_report(attempt, sent),
{
    if sent {
        ReportStep::Done
    } else if attempt < REPORT_RETRIES {
        ReportStep::RetryAfter(1)
    } else {
        ReportStep::GiveUp
    }
}

/// Where updates are looked for: where the configuration says, else where the build says, else at
/// the project's own releases. An empty place is none.
pub proof fn configured_manifest_comes_first(
    configured: Option<Seq<char>>,
    built_in: Option<Seq<char>>,
)
    ensures
        ({
            let told = configured is Some && configured->0.len() > 0;
            let built = built_in is Some && built_in->0.len() > 0;
            let url = manifest_url(configured, built_in);
            &&& told ==> url == configured->0
            &&& !told && built ==> url == built_in->0
            &&& !told && !built ==> url
                == "https://github.com/flamingo-stack/openframe-saas-desktop/releases/latest/download/updater.json"@
        }),
{
}

/// What a place that can be parsed is asked under is its parsed form; one that cannot be is
/// reported with what is wrong with it.
pub proof fn only_a_url_is_asked(url: Seq<char>, parsed: Result<UrlView, Seq<char>>)
    ensures
        parsed is Ok ==> endpoint_of(url, parsed) == Ok::<Seq<char>, UpdateErrorView>(
            parsed->Ok_0.href,
        ),
        parsed is Err ==> endpoint_of(url, parsed) is Err && endpoint_of(url, parsed)->Err_0.kind
            == "unavailable"@ && endpoint_of(url, parsed)->Err_0.message
            == "invalid manifest URL '"@ + url + "': "@ + parsed->Err_0,
{
}

/// What the user can do about a fault: one of the connection can be tried again, one of the
/// signature is told as such, one of the disk is theirs to mend, and the rest are nobody's at
/// this machine; only what is not known is told as unknown.
pub proof fn faults_are_told_by_what_helps(fault: Fault)
    ensures
        kind_of(fault) == "network"@ <==> fault == Fault::Reqwest || fault == Fault::Network
            || fault == Fault::ReleaseNotFound,
        kind_of(fault) == "signature"@ <==> fault == Fault::Minisign || fault == Fault::Base64
            || fault == Fault::SignatureUtf8,
        kind_of(fault) == "io"@ <==> fault == Fault::Io || fault == Fault::TempDirNotFound || fault
            == Fault::FailedToDetermineExtractPath,
        kind_of(fault) == "unknown"@ <==> fault == Fault::Other,
        kind_of(fault) == "network"@ || kind_of(fault) == "signature"@ || kind_of(fault) == "io"@
            || kind_of(fault) == "unknown"@ || kind_of(fault) == "unavailable"@,
{
    reveal_strlit("network");
    reveal_strlit("signature");
    reveal_strlit("io");
    reveal_strlit("unknown");
    reveal_strlit("unavailable");
    assert("network"@.len() == 7 && "signature"@.len() == 9 && "io"@.len() == 2);
    assert("unknown"@.len() == 7 && "unavailable"@.len() == 11);
    assert("unknown"@[0] == 'u' && "network"@[0] == 'n');
}

/// A window is asked for exactly where one is on screen, and the page is told of an install what
/// came of it: the fault's kind and the words it came with. An install that succeeded leaves the
/// configuration alone, and one that failed takes back the request for a window and nothing else.
pub proof fn install_is_told_as_it_went(cfg: AppConfig, visible: Seq<bool>, fault: Fault, why: String)
    ensures
        window_request(visible) == Some(true) <==> exists|i: int|
            0 <= i < visible.len() && #[trigger] visible[i],
        window_request(visible) != Some(true) ==> window_request(visible) is None,
        install_result(Ok(())) == Ok::<(), UpdateErrorView>(()),
        install_result(Err((fault, why))) == Err::<(), UpdateErrorView>(
            UpdateErrorView { kind: kind_of(fault), message: why@ },
        ),
        config_after_install(cfg, true) == cfg,
        config_after_install(cfg, false) == (AppConfig {
            autostart_show_window_next_start: None,
            ..cfg
        }),
{
    if visible.contains(true) {
        let k = choose|k: int| 0 <= k < visible.len() && visible[k] == true;
        assert(visible[k]);
    }
    if exists|i: int| 0 <= i < visible.len() && #[trigger] visible[i] {
        let k = choose|k: int| 0 <= k < visible.len() && #[trigger] visible[k];
        assert(visible[k] == true);
    }
}

/// When progress is reported: at the first chunk, and then at every chunk that comes a fifth of a
/// second or more after the last report. A chunk that is not reported leaves the time of the last
/// report as it was, so that reports are never put off.
pub proof fn progress_is_reported_in_time(download: Download, chunk: usize, now: u64)
    ensures
        download.last_emit is None ==> reports(download, now),
        download.last_emit is Some ==> (reports(download, now) <==> now >= download.last_emit->0
            + 200),
        reports(download, now) ==> after_chunk(download, chunk, now).last_emit == Some(now),
        !reports(download, now) ==> after_chunk(download, chunk, now).last_emit
            == download.last_emit,
{
}

/// What is reported of the installed version: which application and which version, on the user's
/// own subject.
pub proof fn report_names_the_version(user_id: Seq<char>, version: Seq<char>, key: Seq<char>)
    ensures
        report_subject(user_id) == "user."@ + user_id + ".installed-agent"@,
        field(report_body(version), "agentType"@) == Some(JsonView::Text("openframe-desktop"@)),
        field(report_body(version), "version"@) == Some(JsonView::Text(version)),
        field(report_body(version), key) is Some ==> key == "agentType"@ || key == "version"@,
{
    reveal_strlit("agentType");
    reveal_strlit("version");
    assert("agentType"@.len() == 9 && "version"@.len() == 7);
}

/// A report is sent up to five times, a second apart, and not again once it is through.
pub proof fn report_is_tried_five_times(attempt: u32)
    ensures
        after_report(attempt, true) == ReportStep::Done,
        attempt < 5 ==> after_report(attempt, false) == ReportStep::RetryAfter(1),
        attempt >= 5 ==> after_report(attempt, false) == ReportStep::GiveUp,
{
}

/// Where there is no update, the page is told so and nothing else.
pub proof fn no_update_says_nothing_else()
    ensures
        !no_update().available,
        no_update().version is None,
        no_update().notes is None,
        no_update().release_notes_url is None,
{
}

} // verus!
