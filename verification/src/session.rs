//! One run of the organizer as a state machine. The session decides what is to
//! be done next and what the user is to be told; the caller does it (looks at
//! the disk, asks the user, renames a file) and reports back with an event.

use vstd::prelude::*;
use vstd::string::*;
use crate::notification::{NotificationRequest, NotificationView};
use crate::scan::{
    discover,
    entry_views,
    match_set,
    normalize_extension,
    normalized_extension,
    Entry,
    EntryView,
};
use crate::text::{decimal, decimal_text, lowercase_of, same_text, texts, trim, trimmed};

verus! {

/// How deep a listing goes: the entries directly inside the source, and no
/// further.
pub const LISTING_DEPTH: usize = 1;

/// Why a run was given up.
#[derive(Clone, Copy, Debug, PartialEq, Eq, Structural)]
pub enum RunError {
    /// Fewer than two arguments were given.
    Usage,
    /// The source is missing or is no directory.
    InvalidSource,
    /// The destination directory could not be created.
    DestinationCreate,
}

/// How a run ended.
#[derive(Clone, Copy, Debug, PartialEq, Eq, Structural)]
pub enum Completion {
    /// No entry matched the extension.
    NothingFound,
    /// The user did not confirm.
    Declined,
    /// Every match was tried; `moved` of them were relocated.
    Relocated { moved: usize },
    /// The run was given up.
    Failed(RunError),
}

/// What a session is waiting to hear about.
#[derive(Clone, Copy, Debug, PartialEq, Eq, Structural)]
pub enum Phase {
    CheckingSource,
    Listing,
    Confirming,
    ProbingDestination,
    CreatingDestination,
    Moving,
    Finished(Completion),
}

/// The directory that receives the files: `name` inside `parent`.
#[derive(Debug, PartialEq, Eq)]
pub struct Destination {
    pub parent: String,
    pub name: String,
}

/// A destination as plain text.
pub struct DestinationView {
    pub parent: Seq<char>,
    pub name: Seq<char>,
}

impl View for Destination {
    type V = DestinationView;

    open spec fn view(&self) -> DestinationView {
        DestinationView { parent: self.parent@, name: self.name@ }
    }
}

/// What a run works on: a directory and the extension to look for in it.
#[derive(Debug, PartialEq, Eq)]
pub struct ScanRequest {
    /// The directory to scan.
    pub directory: String,
    /// The extension, normalized.
    pub extension: String,
}

/// A scan request as plain text.
pub struct ScanRequestView {
    pub directory: Seq<char>,
    pub extension: Seq<char>,
}

impl View for ScanRequest {
    type V = ScanRequestView;

    open spec fn view(&self) -> ScanRequestView {
        ScanRequestView { directory: self.directory@, extension: self.extension@ }
    }
}

/// What a command line asks for. It holds the program's name, the directory
/// and the extension; what follows them is not looked at, and with less the
/// command line is refused.
pub open spec fn parsed(arguments: Seq<Seq<char>>) -> Result<ScanRequestView, RunError> {
    if arguments.len() < 3 {
        Err(RunError::Usage)
    } else {
        Ok(
            ScanRequestView {
                directory: arguments[1],
                extension: normalized_extension(arguments[2]),
            },
        )
    }
}

impl ScanRequest {
    /// Reads a command line: the program's name, the directory and the
    /// extension. Fewer than two arguments after the name are a usage error.
    pub fn from_arguments(arguments: &Vec<String>) -> (request: Result<ScanRequest, RunError>)
        ensures
            match request {
                Ok(found) => parsed(texts(arguments@)) == Ok::<ScanRequestView, RunError>(found@),
                Err(error) => parsed(texts(arguments@)) == Err::<ScanRequestView, RunError>(error),
            },
    {
        if arguments.len() < 3 {
            Err(RunError::Usage)
        } else {
            let request = ScanRequest {
                directory: arguments[1].clone(),
                extension: normalize_extension(arguments[2].as_str()),
            };
            proof {
                assert(texts(arguments@)[1] == arguments@[1]@);
                assert(texts(arguments@)[2] == arguments@[2]@);
            }
            Ok(request)
        }
    }
}

/// How the move of one file went.
#[derive(Debug, PartialEq, Eq)]
pub enum MoveOutcome {
    /// The file is in the destination now.
    Moved,
    /// The file stayed where it was, for the reason given.
    Failed(String),
}

/// A move outcome as plain text.
pub enum MoveOutcomeView {
    Moved,
    Failed(Seq<char>),
}

impl View for MoveOutcome {
    type V = MoveOutcomeView;

    open spec fn view(&self) -> MoveOutcomeView {
        match self {
            MoveOutcome::Moved => MoveOutcomeView::Moved,
            MoveOutcome::Failed(reason) => MoveOutcomeView::Failed(reason@),
        }
    }
}

/// Something the user is to be told.
#[derive(Debug, PartialEq, Eq)]
pub enum Notice {
    /// The command line was too short; `program` is the name it began with.
    Usage { program: String },
    /// The source is missing or is no directory.
    InvalidSource { directory: String },
    /// No file has the extension.
    NoMatches { extension: String },
    /// The user did not confirm.
    Cancelled,
    /// The destination directory was created.
    DestinationCreated { destination: Destination },
    /// The destination directory could not be created.
    DestinationFailed { destination: Destination, reason: String },
    /// A file was relocated.
    Moved { name: String },
    /// A file could not be relocated.
    MoveFailed { name: String, reason: String },
    /// Every match was tried; `moved` of them were relocated.
    Summary { moved: usize, extension: String },
}

/// A notice as plain values.
pub enum NoticeView {
    Usage { program: Seq<char> },
    InvalidSource { directory: Seq<char> },
    NoMatches { extension: Seq<char> },
    Cancelled,
    DestinationCreated { destination: DestinationView },
    DestinationFailed { destination: DestinationView, reason: Seq<char> },
    Moved { name: Seq<char> },
    MoveFailed { name: Seq<char>, reason: Seq<char> },
    Summary { moved: usize, extension: Seq<char> },
}

impl View for Notice {
    type V = NoticeView;

    open spec fn view(&self) -> NoticeView {
        match self {
            Notice::Usage { program } => NoticeView::Usage { program: program@ },
            Notice::InvalidSource { directory } => NoticeView::InvalidSource {
                directory: directory@,
            },
            Notice::NoMatches { extension } => NoticeView::NoMatches { extension: extension@ },
            Notice::Cancelled => NoticeView::Cancelled,
            Notice::DestinationCreated { destination } => NoticeView::DestinationCreated {
                destination: destination@,
            },
            Notice::DestinationFailed { destination, reason } => NoticeView::DestinationFailed {
                destination: destination@,
                reason: reason@,
            },
            Notice::Moved { name } => NoticeView::Moved { name: name@ },
            Notice::MoveFailed { name, reason } => NoticeView::MoveFailed {
                name: name@,
                reason: reason@,
            },
            Notice::Summary { moved, extension } => NoticeView::Summary {
                moved: *moved,
                extension: extension@,
            },
        }
    }
}

/// What a list of notices holds, notice by notice.
pub open spec fn notice_views(notices: Seq<Notice>) -> Seq<NoticeView> {
    notices.map_values(|notice: Notice| notice@)
}

/// What the caller is asked to do next.
#[derive(Debug, PartialEq, Eq)]
pub enum Request {
    /// Tell whether the source exists and is a directory.
    CheckSource { directory: String },
    /// List the entries of the source down to the given depth, the source
    /// itself being at depth 0.
    List { directory: String, depth: usize },
    /// Show how many files were found and read one line of answer.
    Confirm { count: usize, extension: String, directory: String },
    /// Tell whether the destination exists.
    ProbeDestination { destination: Destination },
    /// Create the destination directory, and no directory above it.
    CreateDestination { destination: Destination },
    /// Rename `source` to `name` inside the destination.
    Move { source: String, destination: Destination, name: String },
    /// Nothing more; dispatch the notification, if there is one.
    Stop { completion: Completion, notification: Option<NotificationRequest> },
}

/// A request as plain values.
pub enum RequestView {
    CheckSource { directory: Seq<char> },
    List { directory: Seq<char>, depth: usize },
    Confirm { count: usize, extension: Seq<char>, directory: Seq<char> },
    ProbeDestination { destination: DestinationView },
    CreateDestination { destination: DestinationView },
    Move { source: Seq<char>, destination: DestinationView, name: Seq<char> },
    Stop { completion: Completion, notification: Option<NotificationView> },
}

impl View for Request {
    type V = RequestView;

    open spec fn view(&self) -> RequestView {
        match self {
            Request::CheckSource { directory } => RequestView::CheckSource {
                directory: directory@,
            },
            Request::List { directory, depth } => RequestView::List {
                directory: directory@,
                depth: *depth,
            },
            Request::Confirm { count, extension, directory } => RequestView::Confirm {
                count: *count,
                extension: extension@,
                directory: directory@,
            },
            Request::ProbeDestination { destination } => RequestView::ProbeDestination {
                destination: destination@,
            },
            Request::CreateDestination { destination } => RequestView::CreateDestination {
                destination: destination@,
            },
            Request::Move { source, destination, name } => RequestView::Move {
                source: source@,
                destination: destination@,
                name: name@,
            },
            Request::Stop { completion, notification } => RequestView::Stop {
                completion: *completion,
                notification: match notification {
                    Some(request) => Some(request@),
                    None => None,
                },
            },
        }
    }
}

/// What a session answers an event with.
#[derive(Debug, PartialEq, Eq)]
pub struct Reaction {
    /// What the user is to be told, in order.
    pub notices: Vec<Notice>,
    /// What is to be done next.
    pub request: Request,
}

/// A reaction as plain values.
pub struct ReactionView {
    pub notices: Seq<NoticeView>,
    pub request: RequestView,
}

impl View for Reaction {
    type V = ReactionView;

    open spec fn view(&self) -> ReactionView {
        ReactionView { notices: notice_views(self.notices@), request: self.request@ }
    }
}

/// What the caller reports back.
#[derive(Debug, PartialEq, Eq)]
pub enum Event {
    /// Whether the source exists and is a directory.
    SourceChecked { is_directory: bool },
    /// The entries directly inside the source.
    Listed { entries: Vec<Entry> },
    /// The line that the user answered with.
    Answered { response: String },
    /// Whether the destination exists.
    DestinationProbed { exists: bool },
    /// The destination was created, or why it was not.
    DestinationCreated { failure: Option<String> },
    /// How the move that was asked for went.
    MoveFinished { outcome: MoveOutcome },
}

/// An event as plain values.
pub enum EventView {
    SourceChecked { is_directory: bool },
    Listed { entries: Seq<EntryView> },
    Answered { response: Seq<char> },
    DestinationProbed { exists: bool },
    DestinationCreated { failure: Option<Seq<char>> },
    MoveFinished { outcome: MoveOutcomeView },
}

/// What an optional text holds.
pub open spec fn optional_text(text: Option<String>) -> Option<Seq<char>> {
    match text {
        Some(found) => Some(found@),
        None => None,
    }
}

impl View for Event {
    type V = EventView;

    open spec fn view(&self) -> EventView {
        match self {
            Event::SourceChecked { is_directory } => EventView::SourceChecked {
                is_directory: *is_directory,
            },
            Event::Listed { entries } => EventView::Listed { entries: entry_views(entries@) },
            Event::Answered { response } => EventView::Answered { response: response@ },
            Event::DestinationProbed { exists } => EventView::DestinationProbed { exists: *exists },
            Event::DestinationCreated { failure } => EventView::DestinationCreated {
                failure: optional_text(*failure),
            },
            Event::MoveFinished { outcome } => EventView::MoveFinished { outcome: outcome@ },
        }
    }
}

/// The one answer that confirms, once trimmed and put in lowercase.
pub open spec fn affirmative_token() -> Seq<char> {
    seq!['s']
}

/// Whether an answer confirms: trimmed and in lowercase it is exactly `s`.
pub open spec fn affirmative(response: Seq<char>) -> bool {
    lowercase_of(trimmed(response)) == affirmative_token()
}

/// Whether a trimmed answer in lowercase is the confirming one.
pub fn is_affirmative_token(folded: &str) -> (yes: bool)
    ensures
        yes == (folded@ == affirmative_token()),
{
    proof {
        reveal_strlit("s");
        assert("s"@ =~= affirmative_token());
    }
    same_text(folded, "s")
}

/// Whether an answer confirms. Anything but `s`, in either case and with
/// white space around it or not, declines.
pub fn confirm(response: &str) -> (yes: bool)
    ensures
        yes == affirmative(response@),
{
    let folded: String = trim(response).to_lowercase();
    is_affirmative_token(folded.as_str())
}

/// The title of every notification of the organizer.
pub open spec fn notification_title() -> Seq<char> {
    "Organizador de Archivos"@
}

/// The body that reports a number of relocated files.
pub open spec fn success_body(moved: nat, extension: Seq<char>) -> Seq<char> {
    "¡Éxito! Se movieron "@ + decimal(moved) + " archivos a la carpeta '"@ + extension + "'."@
}

/// The body that reports that nothing was relocated.
pub open spec fn idle_body() -> Seq<char> {
    "No se realizó ningún movimiento."@
}

/// The notification that sums a run up: a success where any file was
/// relocated, a plain remark where none was.
pub open spec fn summary_notification(moved: nat, extension: Seq<char>) -> NotificationView {
    if moved > 0 {
        NotificationView {
            title: notification_title(),
            body: success_body(moved, extension),
            icon: "folder-download"@,
        }
    } else {
        NotificationView { title: notification_title(), body: idle_body(), icon: "info"@ }
    }
}

/// Builds the notification that sums a run up.
pub fn summarize(moved: usize, extension: &str) -> (request: NotificationRequest)
    ensures
        request@ == summary_notification(moved as nat, extension@),
{
    if moved > 0 {
        let mut body: String = String::from_str("¡Éxito! Se movieron ");
        let count: String = decimal_text(moved);
        body.append(count.as_str());
        body.append(" archivos a la carpeta '");
        body.append(extension);
        body.append("'.");
        NotificationRequest {
            title: String::from_str("Organizador de Archivos"),
            body,
            icon: String::from_str("folder-download"),
        }
    } else {
        NotificationRequest {
            title: String::from_str("Organizador de Archivos"),
            body: String::from_str("No se realizó ningún movimiento."),
            icon: String::from_str("info"),
        }
    }
}

/// A session as plain values.
pub struct SessionView {
    /// The directory to scan.
    pub directory: Seq<char>,
    /// The normalized extension.
    pub extension: Seq<char>,
    pub phase: Phase,
    /// The entries to relocate, once listed.
    pub matches: Seq<EntryView>,
    /// How many of them have been tried.
    pub cursor: nat,
    /// How many of them have been relocated.
    pub moved: nat,
}

impl SessionView {
    /// What holds of every session that `start` and `advance` can give.
    pub open spec fn wf(self) -> bool {
        &&& self.moved <= self.cursor <= self.matches.len() <= usize::MAX
        &&& self.phase is Moving ==> self.cursor < self.matches.len()
        &&& self.phase is CheckingSource || self.phase is Listing ==> self.matches.len() == 0
        &&& self.phase is Confirming || self.phase is ProbingDestination
            || self.phase is CreatingDestination ==> self.cursor == 0 && self.matches.len() > 0
        &&& self.phase matches Phase::Finished(Completion::Relocated { moved }) ==> moved
            == self.moved
        &&& self.phase matches Phase::Finished(completion) ==> (completion is Relocated
            || self.cursor == 0)
    }

    /// Whether the user has confirmed the relocation.
    pub open spec fn confirmed(self) -> bool {
        ||| self.phase is ProbingDestination
        ||| self.phase is CreatingDestination
        ||| self.phase is Moving
        ||| self.phase matches Phase::Finished(Completion::Relocated { .. })
    }

    /// The directory that receives the files: the one named after the
    /// extension, inside the source.
    pub open spec fn destination(self) -> DestinationView {
        DestinationView { parent: self.directory, name: self.extension }
    }

    /// The request to relocate the match that the cursor is at.
    pub open spec fn move_request(self) -> RequestView {
        RequestView::Move {
            source: self.matches[self.cursor as int].path,
            destination: self.destination(),
            name: self.matches[self.cursor as int].name,
        }
    }

    /// What the session is waiting to have done.
    pub open spec fn pending(self) -> RequestView {
        match self.phase {
            Phase::CheckingSource => RequestView::CheckSource { directory: self.directory },
            Phase::Listing => RequestView::List {
                directory: self.directory,
                depth: LISTING_DEPTH,
            },
            Phase::Confirming => RequestView::Confirm {
                count: self.matches.len() as usize,
                extension: self.extension,
                directory: self.directory,
            },
            Phase::ProbingDestination => RequestView::ProbeDestination {
                destination: self.destination(),
            },
            Phase::CreatingDestination => RequestView::CreateDestination {
                destination: self.destination(),
            },
            Phase::Moving => self.move_request(),
            Phase::Finished(completion) => RequestView::Stop { completion, notification: None },
        }
    }

    /// The session ended, with what is said and asked at its end.
    pub open spec fn finished(
        self,
        completion: Completion,
        notices: Seq<NoticeView>,
        notification: Option<NotificationView>,
    ) -> (SessionView, ReactionView) {
        (
            SessionView { phase: Phase::Finished(completion), ..self },
            ReactionView { notices, request: RequestView::Stop { completion, notification } },
        )
    }

    /// The session goes on to the match at the cursor, or ends with the
    /// summary where no match is left.
    pub open spec fn proceed(self, notices: Seq<NoticeView>) -> (SessionView, ReactionView) {
        if self.cursor < self.matches.len() {
            (
                SessionView { phase: Phase::Moving, ..self },
                ReactionView { notices, request: self.move_request() },
            )
        } else {
            self.finished(
                Completion::Relocated { moved: self.moved as usize },
                notices.push(
                    NoticeView::Summary { moved: self.moved as usize, extension: self.extension },
                ),
                Some(summary_notification(self.moved, self.extension)),
            )
        }
    }

    /// An event that the session is not waiting for changes nothing: the
    /// pending request is repeated.
    pub open spec fn ignore(self) -> (SessionView, ReactionView) {
        (self, ReactionView { notices: Seq::empty(), request: self.pending() })
    }

    /// What is said of the match at the cursor once its move was tried.
    pub open spec fn move_notice(self, outcome: MoveOutcomeView) -> NoticeView {
        let name = self.matches[self.cursor as int].name;
        match outcome {
            MoveOutcomeView::Moved => NoticeView::Moved { name },
            MoveOutcomeView::Failed(reason) => NoticeView::MoveFailed { name, reason },
        }
    }

    /// The session after an event, and its reaction to it.
    pub open spec fn react(self, event: EventView) -> (SessionView, ReactionView) {
        match event {
            EventView::SourceChecked { is_directory } => if !(self.phase is CheckingSource) {
                self.ignore()
            } else if is_directory {
                (
                    SessionView { phase: Phase::Listing, ..self },
                    ReactionView {
                        notices: Seq::empty(),
                        request: RequestView::List {
                            directory: self.directory,
                            depth: LISTING_DEPTH,
                        },
                    },
                )
            } else {
                self.finished(
                    Completion::Failed(RunError::InvalidSource),
                    seq![NoticeView::InvalidSource { directory: self.directory }],
                    None,
                )
            },
            EventView::Listed { entries } => if !(self.phase is Listing) {
                self.ignore()
            } else {
                let found = match_set(entries, self.extension);
                if found.len() == 0 {
                    self.finished(
                        Completion::NothingFound,
                        seq![NoticeView::NoMatches { extension: self.extension }],
                        Some(summary_notification(0, self.extension)),
                    )
                } else {
                    let next = SessionView {
                        phase: Phase::Confirming,
                        matches: found,
                        cursor: 0,
                        moved: 0,
                        ..self
                    };
                    (next, ReactionView { notices: Seq::empty(), request: next.pending() })
                }
            },
            EventView::Answered { response } => if !(self.phase is Confirming) {
                self.ignore()
            } else if affirmative(response) {
                let next = SessionView { phase: Phase::ProbingDestination, ..self };
                (next, ReactionView { notices: Seq::empty(), request: next.pending() })
            } else {
                self.finished(Completion::Declined, seq![NoticeView::Cancelled], None)
            },
            EventView::DestinationProbed { exists } => if !(self.phase is ProbingDestination) {
                self.ignore()
            } else if exists {
                self.proceed(Seq::empty())
            } else {
                let next = SessionView { phase: Phase::CreatingDestination, ..self };
                (next, ReactionView { notices: Seq::empty(), request: next.pending() })
            },
            EventView::DestinationCreated { failure } => if !(self.phase is CreatingDestination) {
                self.ignore()
            } else {
                match failure {
                    None => self.proceed(
                        seq![NoticeView::DestinationCreated { destination: self.destination() }],
                    ),
                    Some(reason) => self.finished(
                        Completion::Failed(RunError::DestinationCreate),
                        seq![
                            NoticeView::DestinationFailed {
                                destination: self.destination(),
                                reason,
                            },
                        ],
                        None,
                    ),
                }
            },
            EventView::MoveFinished { outcome } => if !(self.phase is Moving) {
                self.ignore()
            } else {
                let next = SessionView {
                    cursor: self.cursor + 1,
                    moved: if outcome is Moved {
                        self.moved + 1
                    } else {
                        self.moved
                    },
                    ..self
                };
                next.proceed(seq![self.move_notice(outcome)])
            },
        }
    }
}

/// The session that a command line starts, and what it asks first. The
/// command line holds the program's name, the directory and the extension;
/// what follows them is not looked at.
pub open spec fn initial(arguments: Seq<Seq<char>>) -> (SessionView, ReactionView) {
    if parsed(arguments) is Err {
        let idle = SessionView {
            directory: Seq::empty(),
            extension: Seq::empty(),
            phase: Phase::CheckingSource,
            matches: Seq::empty(),
            cursor: 0,
            moved: 0,
        };
        idle.finished(
            Completion::Failed(parsed(arguments)->Err_0),
            seq![
                NoticeView::Usage {
                    program: if arguments.len() > 0 {
                        arguments[0]
                    } else {
                        Seq::empty()
                    },
                },
            ],
            None,
        )
    } else {
        let first = SessionView {
            directory: parsed(arguments)->Ok_0.directory,
            extension: parsed(arguments)->Ok_0.extension,
            phase: Phase::CheckingSource,
            matches: Seq::empty(),
            cursor: 0,
            moved: 0,
        };
        (first, ReactionView { notices: Seq::empty(), request: first.pending() })
    }
}

fn no_notices() -> (notices: Vec<Notice>)
    ensures
        notice_views(notices@) == Seq::<NoticeView>::empty(),
{
    let notices: Vec<Notice> = Vec::new();
    assert(notice_views(notices@) =~= Seq::<NoticeView>::empty());
    notices
}

fn one_notice(notice: Notice) -> (notices: Vec<Notice>)
    ensures
        notice_views(notices@) == seq![notice@],
{
    let mut notices: Vec<Notice> = Vec::new();
    notices.push(notice);
    assert(notice_views(notices@) =~= seq![notice@]);
    notices
}

fn with_notice(notices: Vec<Notice>, notice: Notice) -> (longer: Vec<Notice>)
    ensures
        notice_views(longer@) == notice_views(notices@).push(notice@),
{
    let mut longer: Vec<Notice> = notices;
    longer.push(notice);
    assert(notice_views(longer@) =~= notice_views(notices@).push(notice@));
    longer
}

/// One run of the organizer.
#[derive(Debug)]
pub struct Session {
    directory: String,
    extension: String,
    phase: Phase,
    matches: Vec<Entry>,
    cursor: usize,
    moved: usize,
}

impl View for Session {
    type V = SessionView;

    closed spec fn view(&self) -> SessionView {
        SessionView {
            directory: self.directory@,
            extension: self.extension@,
            phase: self.phase,
            matches: entry_views(self.matches@),
            cursor: self.cursor as nat,
            moved: self.moved as nat,
        }
    }
}

impl Session {
    #[verifier::type_invariant]
    spec fn sound(self) -> bool {
        self@.wf()
    }

    /// Starts a run from a command line: the program's name, the directory
    /// and the extension. With fewer arguments the run is over at once.
    pub fn start(arguments: &Vec<String>) -> (started: (Session, Reaction))
        ensures
            (started.0@, started.1@) == initial(texts(arguments@)),
            started.0@.wf(),
    {
        let ghost given = texts(arguments@);
        match ScanRequest::from_arguments(arguments) {
            Err(error) => {
                let program: String = if arguments.len() > 0 {
                    arguments[0].clone()
                } else {
                    String::new()
                };
                let completion = Completion::Failed(error);
                let session = Session {
                    directory: String::new(),
                    extension: String::new(),
                    phase: Phase::Finished(completion),
                    matches: Vec::new(),
                    cursor: 0,
                    moved: 0,
                };
                let reaction = Reaction {
                    notices: one_notice(Notice::Usage { program }),
                    request: Request::Stop { completion, notification: None },
                };
                proof {
                    assert(entry_views(session.matches@) =~= Seq::<EntryView>::empty());
                    assert(arguments@.len() > 0 ==> given[0] == arguments@[0]@);
                }
                (session, reaction)
            },
            Ok(request) => {
                let session = Session {
                    directory: request.directory,
                    extension: request.extension,
                    phase: Phase::CheckingSource,
                    matches: Vec::new(),
                    cursor: 0,
                    moved: 0,
                };
                proof {
                    assert(entry_views(session.matches@) =~= Seq::<EntryView>::empty());
                }
                let request = Request::CheckSource { directory: session.directory.clone() };
                (session, Reaction { notices: no_notices(), request })
            },
        }
    }

    /// What the session is waiting to hear about.
    pub fn phase(&self) -> (phase: Phase)
        ensures
            phase == self@.phase,
    {
        self.phase
    }

    /// How many files have been relocated so far.
    pub fn moved(&self) -> (moved: usize)
        ensures
            moved == self@.moved,
    {
        self.moved
    }

    /// The normalized extension of the run.
    pub fn extension(&self) -> (extension: &str)
        ensures
            extension@ == self@.extension,
    {
        self.extension.as_str()
    }

    /// The entries that the run relocates, once they are listed.
    pub fn matches(&self) -> (matches: &Vec<Entry>)
        ensures
            entry_views(matches@) == self@.matches,
    {
        &self.matches
    }

    /// Whether the run is over.
    pub fn is_finished(&self) -> (finished: bool)
        ensures
            finished == (self@.phase is Finished),
    {
        match self.phase {
            Phase::Finished(_) => true,
            _ => false,
        }
    }

    fn destination(&self) -> (destination: Destination)
        ensures
            destination@ == self@.destination(),
    {
        Destination { parent: self.directory.clone(), name: self.extension.clone() }
    }

    fn move_request(&self) -> (request: Request)
        requires
            self@.cursor < self@.matches.len(),
        ensures
            request@ == self@.move_request(),
    {
        let entry: &Entry = &self.matches[self.cursor];
        assert(entry@ == self@.matches[self@.cursor as int]);
        Request::Move {
            source: entry.path.clone(),
            destination: self.destination(),
            name: entry.name.clone(),
        }
    }

    /// What the session is waiting to have done.
    pub fn pending(&self) -> (request: Request)
        ensures
            request@ == self@.pending(),
    {
        proof {
            use_type_invariant(self);
        }
        match self.phase {
            Phase::CheckingSource => Request::CheckSource { directory: self.directory.clone() },
            Phase::Listing => Request::List {
                directory: self.directory.clone(),
                depth: LISTING_DEPTH,
            },
            Phase::Confirming => Request::Confirm {
                count: self.matches.len(),
                extension: self.extension.clone(),
                directory: self.directory.clone(),
            },
            Phase::ProbingDestination => Request::ProbeDestination {
                destination: self.destination(),
            },
            Phase::CreatingDestination => Request::CreateDestination {
                destination: self.destination(),
            },
            Phase::Moving => self.move_request(),
            Phase::Finished(completion) => Request::Stop { completion, notification: None },
        }
    }

    fn ignore(self) -> (after: (Session, Reaction))
        ensures
            (after.0@, after.1@) == self@.ignore(),
            after.0@.wf(),
    {
        proof {
            use_type_invariant(&self);
        }
        let request = self.pending();
        (self, Reaction { notices: no_notices(), request })
    }

    fn finished(
        self,
        completion: Completion,
        notices: Vec<Notice>,
        notification: Option<NotificationRequest>,
    ) -> (after: (Session, Reaction))
        requires
            !(completion is Relocated) ==> self@.cursor == 0,
            completion matches Completion::Relocated { moved } ==> moved == self@.moved,
        ensures
            (after.0@, after.1@) == self@.finished(
                completion,
                notice_views(notices@),
                match notification {
                    Some(request) => Some(request@),
                    None => None,
                },
            ),
            after.0@.wf(),
    {
        proof {
            use_type_invariant(&self);
        }
        let session = Session {
            directory: self.directory,
            extension: self.extension,
            phase: Phase::Finished(completion),
            matches: self.matches,
            cursor: self.cursor,
            moved: self.moved,
        };
        (session, Reaction { notices, request: Request::Stop { completion, notification } })
    }

    fn enter(self, phase: Phase) -> (after: (Session, Reaction))
        requires
            phase is ProbingDestination || phase is CreatingDestination,
            self@.phase is Confirming || self@.phase is ProbingDestination,
        ensures
            after.0@ == (SessionView { phase, ..self@ }),
            after.1@ == (ReactionView { notices: Seq::empty(), request: after.0@.pending() }),
            after.0@.wf(),
    {
        proof {
            use_type_invariant(&self);
        }
        let session = Session {
            directory: self.directory,
            extension: self.extension,
            phase,
            matches: self.matches,
            cursor: self.cursor,
            moved: self.moved,
        };
        let request = session.pending();
        (session, Reaction { notices: no_notices(), request })
    }

    fn proceed(
        directory: String,
        extension: String,
        matches: Vec<Entry>,
        cursor: usize,
        moved: usize,
        notices: Vec<Notice>,
    ) -> (after: (Session, Reaction))
        requires
            moved <= cursor <= matches@.len(),
        ensures
            (after.0@, after.1@) == (SessionView {
                directory: directory@,
                extension: extension@,
                phase: Phase::Moving,
                matches: entry_views(matches@),
                cursor: cursor as nat,
                moved: moved as nat,
            }).proceed(notice_views(notices@)),
            after.0@.wf(),
    {
        if cursor < matches.len() {
            let session = Session {
                directory,
                extension,
                phase: Phase::Moving,
                matches,
                cursor,
                moved,
            };
            let request = session.move_request();
            (session, Reaction { notices, request })
        } else {
            let completion = Completion::Relocated { moved };
            let notification = summarize(moved, extension.as_str());
            let summary = Notice::Summary { moved, extension: extension.clone() };
            let session = Session {
                directory,
                extension,
                phase: Phase::Finished(completion),
                matches,
                cursor,
                moved,
            };
            let reaction = Reaction {
                notices: with_notice(notices, summary),
                request: Request::Stop { completion, notification: Some(notification) },
            };
            (session, reaction)
        }
    }

    /// Takes an event in and says what follows: what the user is to be told
    /// and what is to be done next. An event that the session is not waiting
    /// for changes nothing.
    pub fn advance(self, event: Event) -> (after: (Session, Reaction))
        ensures
            (after.0@, after.1@) == self@.react(event@),
            after.0@.wf(),
    {
        proof {
            use_type_invariant(&self);
        }
        match event {
            Event::SourceChecked { is_directory } => {
                match self.phase {
                    Phase::CheckingSource => {
                        if is_directory {
                            let session = Session {
                                directory: self.directory,
                                extension: self.extension,
                                phase: Phase::Listing,
                                matches: self.matches,
                                cursor: self.cursor,
                                moved: self.moved,
                            };
                            let request = session.pending();
                            (session, Reaction { notices: no_notices(), request })
                        } else {
                            let notice = Notice::InvalidSource {
                                directory: self.directory.clone(),
                            };
                            self.finished(
                                Completion::Failed(RunError::InvalidSource),
                                one_notice(notice),
                                None,
                            )
                        }
                    },
                    _ => self.ignore(),
                }
            },
            Event::Listed { entries } => {
                match self.phase {
                    Phase::Listing => {
                        let found: Vec<Entry> = discover(&entries, self.extension.as_str());
                        if found.len() == 0 {
                            let notice = Notice::NoMatches { extension: self.extension.clone() };
                            let notification = summarize(0, self.extension.as_str());
                            self.finished(
                                Completion::NothingFound,
                                one_notice(notice),
                                Some(notification),
                            )
                        } else {
                            let session = Session {
                                directory: self.directory,
                                extension: self.extension,
                                phase: Phase::Confirming,
                                matches: found,
                                cursor: 0,
                                moved: 0,
                            };
                            let request = session.pending();
                            (session, Reaction { notices: no_notices(), request })
                        }
                    },
                    _ => self.ignore(),
                }
            },
            Event::Answered { response } => {
                match self.phase {
                    Phase::Confirming => {
                        if confirm(response.as_str()) {
                            self.enter(Phase::ProbingDestination)
                        } else {
                            self.finished(
                                Completion::Declined,
                                one_notice(Notice::Cancelled),
                                None,
                            )
                        }
                    },
                    _ => self.ignore(),
                }
            },
            Event::DestinationProbed { exists } => {
                match self.phase {
                    Phase::ProbingDestination => {
                        if exists {
                            Session::proceed(
                                self.directory,
                                self.extension,
                                self.matches,
                                self.cursor,
                                self.moved,
                                no_notices(),
                            )
                        } else {
                            self.enter(Phase::CreatingDestination)
                        }
                    },
                    _ => self.ignore(),
                }
            },
            Event::DestinationCreated { failure } => {
                match self.phase {
                    Phase::CreatingDestination => {
                        let destination = self.destination();
                        match failure {
                            None => {
                                let notice = Notice::DestinationCreated { destination };
                                Session::proceed(
                                    self.directory,
                                    self.extension,
                                    self.matches,
                                    self.cursor,
                                    self.moved,
                                    one_notice(notice),
                                )
                            },
                            Some(reason) => {
                                let notice = Notice::DestinationFailed { destination, reason };
                                self.finished(
                                    Completion::Failed(RunError::DestinationCreate),
                                    one_notice(notice),
                                    None,
                                )
                            },
                        }
                    },
                    _ => self.ignore(),
                }
            },
            Event::MoveFinished { outcome } => {
                match self.phase {
                    Phase::Moving => {
                        let name: String = self.matches[self.cursor].name.clone();
                        assert(name@ == self@.matches[self@.cursor as int].name);
                        let (notice, moved) = match outcome {
                            MoveOutcome::Moved => (Notice::Moved { name }, self.moved + 1),
                            MoveOutcome::Failed(reason) => (
                                Notice::MoveFailed { name, reason },
                                self.moved,
                            ),
                        };
                        Session::proceed(
                            self.directory,
                            self.extension,
                            self.matches,
                            self.cursor + 1,
                            moved,
                            one_notice(notice),
                        )
                    },
                    _ => self.ignore(),
                }
            },
        }
    }
}

/// The reactions of a session to a sequence of events, in order.
pub open spec fn reactions(session: SessionView, events: Seq<EventView>) -> Seq<ReactionView>
    decreases events.len(),
{
    if events.len() == 0 {
        Seq::empty()
    } else {
        seq![session.react(events[0]).1] + reactions(
            session.react(events[0]).0,
            events.drop_first(),
        )
    }
}

/// The session after a sequence of events.
pub open spec fn state_after(session: SessionView, events: Seq<EventView>) -> SessionView
    decreases events.len(),
{
    if events.len() == 0 {
        session
    } else {
        state_after(session.react(events[0]).0, events.drop_first())
    }
}

/// Whether an event can come from a caller: its listing is no longer than a
/// vector can be.
pub open spec fn fits(event: EventView) -> bool {
    event matches EventView::Listed { entries } ==> entries.len() <= usize::MAX
}

/// Whether an event gives no consent: it is no answer, or an answer that does
/// not confirm.
pub open spec fn gives_no_consent(event: EventView) -> bool {
    event matches EventView::Answered { response } ==> !affirmative(response)
}

/// Whether a request has the caller touch the destination or a file.
pub open spec fn touches_disk(request: RequestView) -> bool {
    request is ProbeDestination || request is CreateDestination || request is Move
}

/// Whether a request has to do with creating the destination: it asks for it
/// or gives the run up for it.
pub open spec fn concerns_creation(request: RequestView) -> bool {
    ||| request is CreateDestination
    ||| request matches RequestView::Stop {
        completion: Completion::Failed(RunError::DestinationCreate),
        ..
    }
}

/// The events that report the outcome of one move after the other.
pub open spec fn move_events(outcomes: Seq<MoveOutcomeView>) -> Seq<EventView> {
    outcomes.map_values(|outcome: MoveOutcomeView| EventView::MoveFinished { outcome })
}

/// How many of the outcomes are successes.
pub open spec fn successes(outcomes: Seq<MoveOutcomeView>) -> nat
    decreases outcomes.len(),
{
    if outcomes.len() == 0 {
        0
    } else if outcomes[0] is Moved {
        1 + successes(outcomes.drop_first())
    } else {
        successes(outcomes.drop_first())
    }
}

proof fn lemma_unfold(session: SessionView, events: Seq<EventView>)
    requires
        events.len() > 0,
    ensures
        ({
            let run = reactions(session, events);
            let rest = reactions(session.react(events[0]).0, events.drop_first());
            &&& run.len() == rest.len() + 1
            &&& run[0] == session.react(events[0]).1
            &&& forall|j: int| 1 <= j < run.len() ==> #[trigger] run[j] == rest[j - 1]
        }),
        reactions(session, events).len() == events.len(),
    decreases events.len(),
{
    let rest = events.drop_first();
    if rest.len() > 0 {
        lemma_unfold(session.react(events[0]).0, rest);
    }
}

/// A session that `start` gives is well formed, and nothing has been
/// confirmed or moved in it.
pub proof fn law_initial_is_sound(arguments: Seq<Seq<char>>)
    ensures
        initial(arguments).0.wf(),
        !initial(arguments).0.confirmed(),
        initial(arguments).0.moved == 0,
        parsed(arguments) is Err <==> arguments.len() < 3,
        arguments.len() < 3 <==> initial(arguments).1.request == (RequestView::Stop {
            completion: Completion::Failed(RunError::Usage),
            notification: None,
        }),
{
}

/// Whatever event comes in, a well-formed session stays well formed.
pub proof fn law_react_keeps_sound(session: SessionView, event: EventView)
    requires
        session.wf(),
        fits(event),
    ensures
        session.react(event).0.wf(),
{
    if let EventView::Listed { entries } = event {
        entries.lemma_filter_len(crate::scan::matching(session.extension));
    }
}

/// Once a run is over it stays over: every later event is answered with the
/// same stop, without a notice and without a notification, so that a
/// notification is dispatched at most once in a run.
pub proof fn law_finished_is_final(session: SessionView, events: Seq<EventView>)
    requires
        session.phase is Finished,
    ensures
        state_after(session, events) == session,
        reactions(session, events).len() == events.len(),
        forall|j: int|
            0 <= j < events.len() ==> #[trigger] reactions(session, events)[j] == (ReactionView {
                notices: Seq::empty(),
                request: RequestView::Stop {
                    completion: session.phase->Finished_0,
                    notification: None,
                },
            }),
    decreases events.len(),
{
    if events.len() > 0 {
        lemma_unfold(session, events);
        law_finished_is_final(session, events.drop_first());
    }
}

/// Without consent nothing is moved. In a session in which the user has not
/// confirmed, as long as no event is an answer that confirms, no request
/// touches the destination or a file, no run ends as a relocation, and the
/// only notification that can be asked for is the one that says that nothing
/// was moved.
pub proof fn law_no_consent_no_move(session: SessionView, events: Seq<EventView>)
    requires
        !session.confirmed(),
        session.moved == 0,
        forall|k: int| 0 <= k < events.len() ==> gives_no_consent(#[trigger] events[k]),
    ensures
        !state_after(session, events).confirmed(),
        state_after(session, events).moved == 0,
        reactions(session, events).len() == events.len(),
        forall|j: int|
            0 <= j < events.len() ==> {
                let request = (#[trigger] reactions(session, events)[j]).request;
                &&& !touches_disk(request)
                &&& request matches RequestView::Stop { completion, notification } ==> {
                    &&& !(completion is Relocated)
                    &&& notification is None || notification == Some(
                        summary_notification(0, session.extension),
                    )
                }
            },
    decreases events.len(),
{
    if events.len() > 0 {
        lemma_unfold(session, events);
        let next = session.react(events[0]).0;
        let rest = events.drop_first();
        assert(gives_no_consent(events[0]));
        assert forall|k: int| 0 <= k < rest.len() implies gives_no_consent(#[trigger] rest[k]) by {
            assert(rest[k] == events[k + 1]);
        }
        assert(next.extension == session.extension);
        law_no_consent_no_move(next, rest);
    }
}

/// An answer that does not confirm ends the run on the spot: the user is told
/// that the run was cancelled, and no notification is asked for.
pub proof fn law_decline_ends_the_run(session: SessionView, response: Seq<char>)
    requires
        session.phase is Confirming,
        !affirmative(response),
    ensures
        session.react(EventView::Answered { response }) == session.finished(
            Completion::Declined,
            seq![NoticeView::Cancelled],
            None,
        ),
{
}

/// A failed move does not stop the run. From the first move on, whatever the
/// outcomes are, every match is asked for in the order of the match set, each
/// outcome is reported for its own file, and the run ends counting exactly the
/// moves that succeeded.
pub proof fn law_moves_tolerate_failure(session: SessionView, outcomes: Seq<MoveOutcomeView>)
    requires
        session.wf(),
        session.phase is Moving,
        outcomes.len() == session.matches.len() - session.cursor,
    ensures
        reactions(session, move_events(outcomes)).len() == outcomes.len(),
        session.moved + successes(outcomes) <= session.matches.len(),
        forall|k: int|
            0 <= k < outcomes.len() ==> {
                let reaction = #[trigger] reactions(session, move_events(outcomes))[k];
                let at = SessionView { cursor: (session.cursor + k) as nat, ..session };
                &&& reaction.notices.len() > 0
                &&& reaction.notices[0] == at.move_notice(outcomes[k])
            },
        forall|k: int|
            0 <= k < outcomes.len() - 1 ==> {
                let reaction = #[trigger] reactions(session, move_events(outcomes))[k];
                let next = SessionView { cursor: (session.cursor + k + 1) as nat, ..session };
                reaction.request == next.move_request()
            },
        reactions(session, move_events(outcomes)).last().request == (RequestView::Stop {
            completion: Completion::Relocated {
                moved: (session.moved + successes(outcomes)) as usize,
            },
            notification: Some(
                summary_notification(session.moved + successes(outcomes), session.extension),
            ),
        }),
        state_after(session, move_events(outcomes)).moved == session.moved + successes(outcomes),
    decreases outcomes.len(),
{
    let events = move_events(outcomes);
    let n = outcomes.len() as int;
    let run = reactions(session, events);
    let first = session.react(events[0]);
    let rest = outcomes.drop_first();
    assert(events[0] == EventView::MoveFinished { outcome: outcomes[0] });
    assert(events.drop_first() =~= move_events(rest));
    lemma_unfold(session, events);
    assert(run[0] == first.1);
    assert(first.1.notices[0] == session.move_notice(outcomes[0]));
    assert((SessionView { cursor: (session.cursor + 0) as nat, ..session }) == session);
    assert(state_after(session, events) == state_after(first.0, move_events(rest)));
    assert(first.0.moved + successes(rest) == session.moved + successes(outcomes));
    if n == 1 {
        assert(rest.len() == 0);
        assert(successes(rest) == 0);
        assert(run.last() == first.1);
        assert(state_after(first.0, move_events(rest)) == first.0);
    } else {
        let next = first.0;
        law_moves_tolerate_failure(next, rest);
        let later = reactions(next, move_events(rest));
        assert(run.last() == later.last());
        assert(first.1.request == (SessionView {
            cursor: (session.cursor + 1) as nat,
            ..session
        }).move_request());
        assert forall|k: int| 0 <= k < n implies {
            let reaction = #[trigger] run[k];
            let at = SessionView { cursor: (session.cursor + k) as nat, ..session };
            &&& reaction.notices.len() > 0
            &&& reaction.notices[0] == at.move_notice(outcomes[k])
        } by {
            if k > 0 {
                assert(run[k] == later[k - 1]);
                assert(rest[k - 1] == outcomes[k]);
                let at = SessionView { cursor: (session.cursor + k) as nat, ..session };
                let seen = SessionView { cursor: (next.cursor + (k - 1)) as nat, ..next };
                assert(seen.move_notice(rest[k - 1]) == at.move_notice(outcomes[k]));
            }
        }
        assert forall|k: int| 0 <= k < n - 1 implies {
            let reaction = #[trigger] run[k];
            let ahead = SessionView { cursor: (session.cursor + k + 1) as nat, ..session };
            reaction.request == ahead.move_request()
        } by {
            if k > 0 {
                assert(run[k] == later[k - 1]);
                let ahead = SessionView { cursor: (session.cursor + k + 1) as nat, ..session };
                let seen = SessionView { cursor: (next.cursor + (k - 1) + 1) as nat, ..next };
                assert(seen.move_request() == ahead.move_request());
            }
        }
    }
}

/// A destination that is already there is left as it is. When the probe finds
/// it, the run goes straight on to the first move: it never asks to create
/// the directory, and so never fails for it.
pub proof fn law_existing_destination_is_kept(session: SessionView, events: Seq<EventView>)
    requires
        session.wf(),
        session.phase is ProbingDestination,
        events.len() > 0,
        events[0] == (EventView::DestinationProbed { exists: true }),
    ensures
        reactions(session, events).len() == events.len(),
        reactions(session, events)[0] == (ReactionView {
            notices: Seq::empty(),
            request: session.move_request(),
        }),
        forall|j: int|
            0 <= j < events.len() ==> !concerns_creation(
                (#[trigger] reactions(session, events)[j]).request,
            ),
{
    lemma_unfold(session, events);
    let next = session.react(events[0]).0;
    lemma_past_creation(next, events.drop_first());
}

proof fn lemma_past_creation(session: SessionView, events: Seq<EventView>)
    requires
        session.phase is Moving || (session.phase matches Phase::Finished(completion)
            && completion != Completion::Failed(RunError::DestinationCreate)),
    ensures
        reactions(session, events).len() == events.len(),
        forall|j: int|
            0 <= j < events.len() ==> !concerns_creation(
                (#[trigger] reactions(session, events)[j]).request,
            ),
    decreases events.len(),
{
    if events.len() > 0 {
        lemma_unfold(session, events);
        lemma_past_creation(session.react(events[0]).0, events.drop_first());
    }
}

} // verus!
