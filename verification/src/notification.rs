//! The notification dispatcher: a summary is offered to several delivery
//! mechanisms in a fixed order of priority, and the first that delivers ends
//! the dispatch. The dispatcher decides what to try next; trying it is the
//! caller's part, who reports back whether it worked.

use vstd::prelude::*;
use vstd::string::*;
use crate::text::{decimal, decimal_text, texts};

verus! {

/// How long a notification stays on screen, in milliseconds.
pub const EXPIRY_MILLISECONDS: u32 = 5000;

/// The same time in seconds, for the tools that count in seconds.
pub const EXPIRY_SECONDS: u32 = 5;

/// What the user is to be told.
#[derive(Debug, PartialEq, Eq)]
pub struct NotificationRequest {
    pub title: String,
    pub body: String,
    pub icon: String,
}

/// A notification request as plain text.
pub struct NotificationView {
    pub title: Seq<char>,
    pub body: Seq<char>,
    pub icon: Seq<char>,
}

impl View for NotificationRequest {
    type V = NotificationView;

    open spec fn view(&self) -> NotificationView {
        NotificationView { title: self.title@, body: self.body@, icon: self.icon@ }
    }
}

impl NotificationRequest {
    /// A request with the given title, body and icon hint.
    pub fn new(title: &str, body: &str, icon: &str) -> (request: NotificationRequest)
        ensures
            request@ == (NotificationView { title: title@, body: body@, icon: icon@ }),
    {
        NotificationRequest {
            title: String::from_str(title),
            body: String::from_str(body),
            icon: String::from_str(icon),
        }
    }

    /// A copy of the request.
    pub fn duplicate(&self) -> (copy: NotificationRequest)
        ensures
            copy@ == self@,
    {
        NotificationRequest {
            title: self.title.clone(),
            body: self.body.clone(),
            icon: self.icon.clone(),
        }
    }
}

/// An external program that can show a notification.
#[derive(Clone, Copy, Debug, PartialEq, Eq, Structural)]
pub enum Tool {
    NotifySend,
    Kdialog,
    Zenity,
}

/// A delivery mechanism.
#[derive(Clone, Copy, Debug, PartialEq, Eq, Structural)]
pub enum Backend {
    Native,
    External(Tool),
    Console,
}

/// What the dispatcher is waiting to hear about.
#[derive(Clone, Copy, Debug, PartialEq, Eq, Structural)]
pub enum Stage {
    /// The native notification call.
    Showing,
    /// The check that a tool is installed.
    Probing(Tool),
    /// The run of a tool that is installed.
    Running(Tool),
    /// The line on the console.
    Printing,
    /// Nothing: the dispatch is over.
    Done,
}

/// What the caller is asked to do.
#[derive(Debug, PartialEq, Eq)]
pub enum Command {
    /// Show the notification through the native API.
    Show { summary: String, body: String, icon: String, expiry_ms: u32 },
    /// Find out whether a program is installed.
    Probe { program: String },
    /// Run a program with arguments; it succeeds when it exits with success.
    Run { program: String, arguments: Vec<String> },
    /// Print the notification on the console, the label highlighted.
    Print { label: String, title: String, body: String },
    /// Nothing is left to do.
    Stop,
}

/// A command as plain text.
pub enum CommandView {
    Show { summary: Seq<char>, body: Seq<char>, icon: Seq<char>, expiry_ms: u32 },
    Probe { program: Seq<char> },
    Run { program: Seq<char>, arguments: Seq<Seq<char>> },
    Print { label: Seq<char>, title: Seq<char>, body: Seq<char> },
    Stop,
}

impl View for Command {
    type V = CommandView;

    open spec fn view(&self) -> CommandView {
        match self {
            Command::Show { summary, body, icon, expiry_ms } => CommandView::Show {
                summary: summary@,
                body: body@,
                icon: icon@,
                expiry_ms: *expiry_ms,
            },
            Command::Probe { program } => CommandView::Probe { program: program@ },
            Command::Run { program, arguments } => CommandView::Run {
                program: program@,
                arguments: texts(arguments@),
            },
            Command::Print { label, title, body } => CommandView::Print {
                label: label@,
                title: title@,
                body: body@,
            },
            Command::Stop => CommandView::Stop,
        }
    }
}

/// The name under which a tool is installed.
pub open spec fn program_of(tool: Tool) -> Seq<char> {
    match tool {
        Tool::NotifySend => "notify-send"@,
        Tool::Kdialog => "kdialog"@,
        Tool::Zenity => "zenity"@,
    }
}

/// The arguments with which a tool shows a notification.
pub open spec fn arguments_of(tool: Tool, request: NotificationView) -> Seq<Seq<char>> {
    match tool {
        Tool::NotifySend => seq![
            request.title,
            request.body,
            "--icon"@,
            request.icon,
            "--expire-time"@,
            decimal(EXPIRY_MILLISECONDS as nat),
        ],
        Tool::Kdialog => seq![
            "--title"@,
            request.title,
            "--passivepopup"@,
            request.body,
            decimal(EXPIRY_SECONDS as nat),
        ],
        Tool::Zenity => seq![
            "--info"@,
            "--title"@,
            request.title,
            "--text"@,
            request.body,
            "--timeout"@,
            decimal(EXPIRY_SECONDS as nat),
        ],
    }
}

/// The label that opens the line on the console.
pub open spec fn console_label() -> Seq<char> {
    "NOTIFICATION:"@
}

/// The command that belongs to a stage.
pub open spec fn command_of(stage: Stage, request: NotificationView) -> CommandView {
    match stage {
        Stage::Showing => CommandView::Show {
            summary: request.title,
            body: request.body,
            icon: request.icon,
            expiry_ms: EXPIRY_MILLISECONDS,
        },
        Stage::Probing(tool) => CommandView::Probe { program: program_of(tool) },
        Stage::Running(tool) => CommandView::Run {
            program: program_of(tool),
            arguments: arguments_of(tool, request),
        },
        Stage::Printing => CommandView::Print {
            label: console_label(),
            title: request.title,
            body: request.body,
        },
        Stage::Done => CommandView::Stop,
    }
}

/// The stage that follows when a tool is given up.
pub open spec fn stage_after(tool: Tool) -> Stage {
    match tool {
        Tool::NotifySend => Stage::Probing(Tool::Kdialog),
        Tool::Kdialog => Stage::Probing(Tool::Zenity),
        Tool::Zenity => Stage::Printing,
    }
}

/// The stage that follows a stage, given whether its command succeeded.
pub open spec fn next_stage(stage: Stage, succeeded: bool) -> Stage {
    match stage {
        Stage::Showing => if succeeded {
            Stage::Done
        } else {
            Stage::Probing(Tool::NotifySend)
        },
        Stage::Probing(tool) => if succeeded {
            Stage::Running(tool)
        } else {
            stage_after(tool)
        },
        Stage::Running(tool) => if succeeded {
            Stage::Done
        } else {
            stage_after(tool)
        },
        Stage::Printing => Stage::Done,
        Stage::Done => Stage::Done,
    }
}

fn program(tool: Tool) -> (name: String)
    ensures
        name@ == program_of(tool),
{
    match tool {
        Tool::NotifySend => String::from_str("notify-send"),
        Tool::Kdialog => String::from_str("kdialog"),
        Tool::Zenity => String::from_str("zenity"),
    }
}

fn arguments(tool: Tool, request: &NotificationRequest) -> (list: Vec<String>)
    ensures
        texts(list@) == arguments_of(tool, request@),
{
    let mut list: Vec<String> = Vec::new();
    match tool {
        Tool::NotifySend => {
            list.push(request.title.clone());
            list.push(request.body.clone());
            list.push(String::from_str("--icon"));
            list.push(request.icon.clone());
            list.push(String::from_str("--expire-time"));
            list.push(decimal_text(EXPIRY_MILLISECONDS as usize));
        },
        Tool::Kdialog => {
            list.push(String::from_str("--title"));
            list.push(request.title.clone());
            list.push(String::from_str("--passivepopup"));
            list.push(request.body.clone());
            list.push(decimal_text(EXPIRY_SECONDS as usize));
        },
        Tool::Zenity => {
            list.push(String::from_str("--info"));
            list.push(String::from_str("--title"));
            list.push(request.title.clone());
            list.push(String::from_str("--text"));
            list.push(request.body.clone());
            list.push(String::from_str("--timeout"));
            list.push(decimal_text(EXPIRY_SECONDS as usize));
        },
    }
    assert(texts(list@) =~= arguments_of(tool, request@));
    list
}

/// A dispatch under way: the request and the stage it has reached.
#[derive(Debug, PartialEq, Eq)]
pub struct Dispatcher {
    pub request: NotificationRequest,
    pub stage: Stage,
}

/// A dispatch as plain values.
pub struct DispatcherView {
    pub request: NotificationView,
    pub stage: Stage,
}

impl View for Dispatcher {
    type V = DispatcherView;

    open spec fn view(&self) -> DispatcherView {
        DispatcherView { request: self.request@, stage: self.stage }
    }
}

impl Dispatcher {
    /// Starts a dispatch at the mechanism of highest priority.
    pub fn new(request: NotificationRequest) -> (dispatcher: Dispatcher)
        ensures
            dispatcher@ == (DispatcherView { request: request@, stage: Stage::Showing }),
    {
        Dispatcher { request, stage: Stage::Showing }
    }

    /// The command that the dispatcher wants carried out now.
    pub fn pending(&self) -> (command: Command)
        ensures
            command@ == command_of(self.stage, self.request@),
    {
        match self.stage {
            Stage::Showing => Command::Show {
                summary: self.request.title.clone(),
                body: self.request.body.clone(),
                icon: self.request.icon.clone(),
                expiry_ms: EXPIRY_MILLISECONDS,
            },
            Stage::Probing(tool) => Command::Probe { program: program(tool) },
            Stage::Running(tool) => Command::Run {
                program: program(tool),
                arguments: arguments(tool, &self.request),
            },
            Stage::Printing => Command::Print {
                label: String::from_str("NOTIFICATION:"),
                title: self.request.title.clone(),
                body: self.request.body.clone(),
            },
            Stage::Done => Command::Stop,
        }
    }

    /// Takes note of how the pending command went and moves on.
    pub fn advance(self, succeeded: bool) -> (next: Dispatcher)
        ensures
            next@.request == self@.request,
            next.stage == next_stage(self.stage, succeeded),
    {
        let stage: Stage = match self.stage {
            Stage::Showing => if succeeded {
                Stage::Done
            } else {
                Stage::Probing(Tool::NotifySend)
            },
            Stage::Probing(tool) => if succeeded {
                Stage::Running(tool)
            } else {
                following(tool)
            },
            Stage::Running(tool) => if succeeded {
                Stage::Done
            } else {
                following(tool)
            },
            Stage::Printing => Stage::Done,
            Stage::Done => Stage::Done,
        };
        Dispatcher { request: self.request, stage }
    }

    /// Whether the dispatch is over.
    pub fn is_done(&self) -> (done: bool)
        ensures
            done == (self.stage == Stage::Done),
    {
        match self.stage {
            Stage::Done => true,
            _ => false,
        }
    }
}

fn following(tool: Tool) -> (stage: Stage)
    ensures
        stage == stage_after(tool),
{
    match tool {
        Tool::NotifySend => Stage::Probing(Tool::Kdialog),
        Tool::Kdialog => Stage::Probing(Tool::Zenity),
        Tool::Zenity => Stage::Printing,
    }
}

/// How many stages may still follow a stage.
pub open spec fn rank(stage: Stage) -> nat {
    match stage {
        Stage::Showing => 8,
        Stage::Probing(Tool::NotifySend) => 7,
        Stage::Running(Tool::NotifySend) => 6,
        Stage::Probing(Tool::Kdialog) => 5,
        Stage::Running(Tool::Kdialog) => 4,
        Stage::Probing(Tool::Zenity) => 3,
        Stage::Running(Tool::Zenity) => 2,
        Stage::Printing => 1,
        Stage::Done => 0,
    }
}

/// The stages that a dispatch goes through from a stage on, when the command
/// of each stage is answered as `answers` says.
pub open spec fn stages_from(stage: Stage, answers: spec_fn(Stage) -> bool) -> Seq<Stage>
    decreases rank(stage),
{
    if stage == Stage::Done {
        Seq::empty()
    } else {
        seq![stage] + stages_from(next_stage(stage, answers(stage)), answers)
    }
}

/// The stages of a whole dispatch.
pub open spec fn stages(answers: spec_fn(Stage) -> bool) -> Seq<Stage> {
    stages_from(Stage::Showing, answers)
}

/// The mechanism that a stage belongs to. The end of a dispatch is counted
/// with the console, where every chain ends.
pub open spec fn backend_of(stage: Stage) -> Backend {
    match stage {
        Stage::Showing => Backend::Native,
        Stage::Probing(tool) => Backend::External(tool),
        Stage::Running(tool) => Backend::External(tool),
        Stage::Printing => Backend::Console,
        Stage::Done => Backend::Console,
    }
}

/// The place of a mechanism in the order of priority, the first being 0.
pub open spec fn priority(backend: Backend) -> nat {
    match backend {
        Backend::Native => 0,
        Backend::External(Tool::NotifySend) => 1,
        Backend::External(Tool::Kdialog) => 2,
        Backend::External(Tool::Zenity) => 3,
        Backend::Console => 4,
    }
}

/// The stage at which a mechanism is first asked for anything.
pub open spec fn first_stage(backend: Backend) -> Stage {
    match backend {
        Backend::Native => Stage::Showing,
        Backend::External(tool) => Stage::Probing(tool),
        Backend::Console => Stage::Printing,
    }
}

/// Whether a mechanism would deliver: the native call succeeds, a tool is
/// installed and its run succeeds, the console always prints.
pub open spec fn works(backend: Backend, answers: spec_fn(Stage) -> bool) -> bool {
    match backend {
        Backend::Native => answers(Stage::Showing),
        Backend::External(tool) => answers(Stage::Probing(tool)) && answers(Stage::Running(tool)),
        Backend::Console => true,
    }
}

/// The first mechanism, in the order of priority, that would deliver.
pub open spec fn first_working(answers: spec_fn(Stage) -> bool) -> Backend {
    if works(Backend::Native, answers) {
        Backend::Native
    } else if works(Backend::External(Tool::NotifySend), answers) {
        Backend::External(Tool::NotifySend)
    } else if works(Backend::External(Tool::Kdialog), answers) {
        Backend::External(Tool::Kdialog)
    } else if works(Backend::External(Tool::Zenity), answers) {
        Backend::External(Tool::Zenity)
    } else {
        Backend::Console
    }
}

/// Whether the notification is delivered at a stage.
pub open spec fn delivers(stage: Stage, answers: spec_fn(Stage) -> bool) -> bool {
    match stage {
        Stage::Showing => answers(stage),
        Stage::Running(_) => answers(stage),
        Stage::Printing => true,
        _ => false,
    }
}

proof fn lemma_unfold(stage: Stage, answers: spec_fn(Stage) -> bool)
    requires
        stage != Stage::Done,
    ensures
        ({
            let trace = stages_from(stage, answers);
            let rest = stages_from(next_stage(stage, answers(stage)), answers);
            &&& trace == seq![stage] + rest
            &&& trace.len() == rest.len() + 1
            &&& trace[0] == stage
            &&& forall|k: int| 1 <= k < trace.len() ==> #[trigger] trace[k] == rest[k - 1]
            &&& forall|x: Stage| #[trigger] trace.contains(x) <==> x == stage || rest.contains(x)
        }),
{
    let trace = stages_from(stage, answers);
    let rest = stages_from(next_stage(stage, answers(stage)), answers);
    assert(trace == seq![stage] + rest);
    assert forall|x: Stage| #[trigger] trace.contains(x) <==> x == stage || rest.contains(
        x,
    ) by {
        if x == stage {
            assert(trace[0] == x);
        }
        if rest.contains(x) {
            let k = choose|k: int| 0 <= k < rest.len() && rest[k] == x;
            assert(trace[k + 1] == x);
        }
        if trace.contains(x) && x != stage {
            let k = choose|k: int| 0 <= k < trace.len() && trace[k] == x;
            assert(rest[k - 1] == x);
        }
    }
}

proof fn lemma_order(stage: Stage, answers: spec_fn(Stage) -> bool)
    ensures
        ({
            let trace = stages_from(stage, answers);
            &&& trace.len() <= rank(stage)
            &&& stage != Stage::Done ==> trace.len() > 0
            &&& forall|k: int|
                0 <= k < trace.len() ==> rank(#[trigger] trace[k]) <= rank(stage) && priority(
                    backend_of(stage),
                ) <= priority(backend_of(trace[k]))
            &&& forall|i: int, j: int|
                0 <= i < j < trace.len() ==> rank(#[trigger] trace[i]) > rank(#[trigger] trace[j])
                    && priority(backend_of(trace[i])) <= priority(backend_of(trace[j]))
        }),
    decreases rank(stage),
{
    if stage != Stage::Done {
        let next = next_stage(stage, answers(stage));
        lemma_unfold(stage, answers);
        lemma_order(next, answers);
        let trace = stages_from(stage, answers);
        let rest = stages_from(next, answers);
        assert forall|k: int| 0 <= k < trace.len() implies rank(#[trigger] trace[k]) <= rank(
            stage,
        ) && priority(backend_of(stage)) <= priority(backend_of(trace[k])) by {
            if k > 0 {
                assert(trace[k] == rest[k - 1]);
            }
        }
        assert forall|i: int, j: int| 0 <= i < j < trace.len() implies rank(#[trigger] trace[i])
            > rank(#[trigger] trace[j]) && priority(backend_of(trace[i])) <= priority(
            backend_of(trace[j]),
        ) by {
            assert(trace[j] == rest[j - 1]);
            if i > 0 {
                assert(trace[i] == rest[i - 1]);
            }
        }
    }
}

proof fn lemma_delivery(stage: Stage, answers: spec_fn(Stage) -> bool)
    requires
        stage != Stage::Done,
        stage matches Stage::Running(tool) ==> answers(Stage::Probing(tool)),
    ensures
        ({
            let trace = stages_from(stage, answers);
            &&& trace.len() > 0
            &&& delivers(trace.last(), answers)
            &&& works(backend_of(trace.last()), answers)
            &&& forall|i: int| 0 <= i < trace.len() - 1 ==> !delivers(#[trigger] trace[i], answers)
            &&& forall|backend: Backend|
                priority(backend_of(stage)) < priority(backend) < priority(
                    backend_of(trace.last()),
                ) ==> !works(backend, answers)
            &&& priority(backend_of(stage)) < priority(backend_of(trace.last())) ==> !works(
                backend_of(stage),
                answers,
            )
        }),
    decreases rank(stage),
{
    let next = next_stage(stage, answers(stage));
    lemma_unfold(stage, answers);
    let trace = stages_from(stage, answers);
    let rest = stages_from(next, answers);
    if next == Stage::Done {
        assert(rest.len() == 0);
    } else {
        lemma_delivery(next, answers);
        assert(trace.last() == rest.last());
        assert forall|i: int| 0 <= i < trace.len() - 1 implies !delivers(
            #[trigger] trace[i],
            answers,
        ) by {
            if i > 0 {
                assert(trace[i] == rest[i - 1]);
            }
        }
        lemma_order(next, answers);
    }
}

proof fn lemma_first_stages(stage: Stage, answers: spec_fn(Stage) -> bool, backend: Backend)
    requires
        stage != Stage::Done,
    ensures
        ({
            let trace = stages_from(stage, answers);
            let from = if stage == first_stage(backend_of(stage)) {
                priority(backend_of(stage))
            } else {
                priority(backend_of(stage)) + 1
            };
            trace.contains(first_stage(backend)) <==> from <= priority(backend) <= priority(
                backend_of(trace.last()),
            )
        }),
    decreases rank(stage),
{
    let next = next_stage(stage, answers(stage));
    lemma_unfold(stage, answers);
    let trace = stages_from(stage, answers);
    let rest = stages_from(next, answers);
    if next == Stage::Done {
        assert(rest.len() == 0);
        assert(!rest.contains(first_stage(backend)));
    } else {
        lemma_first_stages(next, answers, backend);
        lemma_order(next, answers);
        assert(trace.last() == rest.last());
        assert(rest[0] == next) by {
            lemma_unfold(next, answers);
        }
    }
}

proof fn lemma_runs(stage: Stage, answers: spec_fn(Stage) -> bool, tool: Tool)
    ensures
        ({
            let trace = stages_from(stage, answers);
            trace.contains(Stage::Running(tool)) <==> stage == Stage::Running(tool) || (
            trace.contains(Stage::Probing(tool)) && answers(Stage::Probing(tool)))
        }),
    decreases rank(stage),
{
    let trace = stages_from(stage, answers);
    if stage == Stage::Done {
        assert(trace.len() == 0);
    } else {
        let next = next_stage(stage, answers(stage));
        lemma_unfold(stage, answers);
        lemma_runs(next, answers, tool);
        let rest = stages_from(next, answers);
        if next == Stage::Done {
            assert(rest.len() == 0);
        } else {
            lemma_unfold(next, answers);
            lemma_order(next, answers);
            if rest.contains(Stage::Probing(tool)) {
                let k = choose|k: int| 0 <= k < rest.len() && rest[k] == Stage::Probing(tool);
                assert(rank(rest[k]) <= rank(next));
            }
        }
    }
}

/// Every dispatch ends, and it ends with a delivery: the last stage delivers,
/// no stage before it does, and the mechanism that delivers is the first in
/// the order of priority that works.
pub proof fn law_first_success_wins(answers: spec_fn(Stage) -> bool)
    ensures
        0 < stages(answers).len() <= 8,
        delivers(stages(answers).last(), answers),
        backend_of(stages(answers).last()) == first_working(answers),
        forall|i: int|
            0 <= i < stages(answers).len() - 1 ==> !delivers(#[trigger] stages(answers)[i], answers),
{
    lemma_order(Stage::Showing, answers);
    lemma_delivery(Stage::Showing, answers);
}

/// The mechanisms are asked in their order of priority and nothing is asked
/// twice: each stage of a dispatch lies further down the chain than the one
/// before it.
pub proof fn law_priority_order(answers: spec_fn(Stage) -> bool, i: int, j: int)
    requires
        0 <= i < j < stages(answers).len(),
    ensures
        rank(stages(answers)[i]) > rank(stages(answers)[j]),
        priority(backend_of(stages(answers)[i])) <= priority(backend_of(stages(answers)[j])),
{
    lemma_order(Stage::Showing, answers);
}

/// No mechanism after the one that delivers is asked for anything, and every
/// mechanism before it is.
pub proof fn law_nothing_after_delivery(answers: spec_fn(Stage) -> bool, backend: Backend)
    ensures
        stages(answers).contains(first_stage(backend)) <==> priority(backend) <= priority(
            first_working(answers),
        ),
{
    law_first_success_wins(answers);
    lemma_first_stages(Stage::Showing, answers, backend);
}

/// A tool is run exactly when the dispatch came to ask for it and found it
/// installed.
pub proof fn law_run_follows_probe(answers: spec_fn(Stage) -> bool, tool: Tool)
    ensures
        stages(answers).contains(Stage::Running(tool)) <==> stages(answers).contains(
            Stage::Probing(tool),
        ) && answers(Stage::Probing(tool)),
{
    lemma_runs(Stage::Showing, answers, tool);
}

} // verus!
