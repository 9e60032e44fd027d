use organizador_archivos::notification::NotificationRequest;
use organizador_archivos::scan::Entry;
use organizador_archivos::session::{
    confirm, is_affirmative_token, summarize, Completion, Destination, Event, MoveOutcome, Notice,
    Phase, Reaction, Request, RunError, ScanRequest, Session,
};

fn arguments(items: &[&str]) -> Vec<String> {
    let mut owned = Vec::new();
    for item in items {
        owned.push(item.to_string());
    }
    owned
}

fn file(name: &str) -> Entry {
    Entry::new(&format!("/tmp/d/{}", name), name, true)
}

fn destination() -> Destination {
    Destination { parent: "/tmp/d".to_string(), name: "mov".to_string() }
}

fn move_of(name: &str) -> Request {
    Request::Move {
        source: format!("/tmp/d/{}", name),
        destination: destination(),
        name: name.to_string(),
    }
}

fn quiet(request: Request) -> Reaction {
    Reaction { notices: Vec::new(), request }
}

fn moved_ok() -> Event {
    Event::MoveFinished { outcome: MoveOutcome::Moved }
}

fn move_failed(reason: &str) -> Event {
    Event::MoveFinished { outcome: MoveOutcome::Failed(reason.to_string()) }
}

fn stop(completion: Completion) -> Request {
    Request::Stop { completion, notification: None }
}

/// A session for `/tmp/d` and `.mov` that has listed the given files.
fn listed(names: &[&str]) -> (Session, Reaction) {
    let (session, first) = Session::start(&arguments(&["organizador", "/tmp/d", ".mov"]));
    assert_eq!(first, quiet(Request::CheckSource { directory: "/tmp/d".to_string() }));
    let (session, second) = session.advance(Event::SourceChecked { is_directory: true });
    assert_eq!(second, quiet(Request::List { directory: "/tmp/d".to_string(), depth: 1 }));
    let mut entries = Vec::new();
    for name in names {
        entries.push(file(name));
    }
    session.advance(Event::Listed { entries })
}

/// The same session once the user has confirmed and the destination is there.
fn confirmed(names: &[&str]) -> (Session, Reaction) {
    let (session, _) = listed(names);
    let (session, asked) = session.advance(Event::Answered { response: "s\n".to_string() });
    assert_eq!(asked, quiet(Request::ProbeDestination { destination: destination() }));
    session.advance(Event::DestinationProbed { exists: true })
}

#[test]
fn confirm_takes_the_letter_s_alone() {
    assert!(confirm("s"));
    assert!(confirm("S"));
    assert!(confirm("s\n"));
    assert!(confirm("  S \r\n"));
    assert!(confirm("\ts"));
}

#[test]
fn confirm_declines_everything_else() {
    assert!(!confirm(""));
    assert!(!confirm("\n"));
    assert!(!confirm("n"));
    assert!(!confirm("N"));
    assert!(!confirm("si"));
    assert!(!confirm("sí"));
    assert!(!confirm("ss"));
    assert!(!confirm("s s"));
    assert!(!confirm("yes"));
    assert!(!confirm("y"));
    assert!(!confirm("."));
}

#[test]
fn affirmative_token_is_the_lowercase_s() {
    assert!(is_affirmative_token("s"));
    assert!(!is_affirmative_token("S"));
    assert!(!is_affirmative_token(" s"));
    assert!(!is_affirmative_token(""));
    assert!(!is_affirmative_token("n"));
}

#[test]
fn summarize_reports_the_count_and_the_folder() {
    assert_eq!(
        summarize(2, "mov"),
        NotificationRequest::new(
            "Organizador de Archivos",
            "¡Éxito! Se movieron 2 archivos a la carpeta 'mov'.",
            "folder-download"
        )
    );
    assert_eq!(
        summarize(137, "tar.gz").body,
        "¡Éxito! Se movieron 137 archivos a la carpeta 'tar.gz'."
    );
    assert_eq!(summarize(1, "").body, "¡Éxito! Se movieron 1 archivos a la carpeta ''.");
}

#[test]
fn summarize_of_no_move_is_a_plain_remark() {
    assert_eq!(
        summarize(0, "mov"),
        NotificationRequest::new(
            "Organizador de Archivos",
            "No se realizó ningún movimiento.",
            "info"
        )
    );
}

#[test]
fn scan_request_from_a_full_command_line() {
    assert_eq!(
        ScanRequest::from_arguments(&arguments(&["organizador", "/tmp/d", ".MOV"])),
        Ok(ScanRequest { directory: "/tmp/d".to_string(), extension: "mov".to_string() })
    );
    assert_eq!(
        ScanRequest::from_arguments(&arguments(&["organizador", "rel/dir", "Txt", "extra"])),
        Ok(ScanRequest { directory: "rel/dir".to_string(), extension: "txt".to_string() })
    );
}

#[test]
fn scan_request_from_a_short_command_line_is_a_usage_error() {
    assert_eq!(ScanRequest::from_arguments(&Vec::new()), Err(RunError::Usage));
    assert_eq!(ScanRequest::from_arguments(&arguments(&["organizador"])), Err(RunError::Usage));
    assert_eq!(
        ScanRequest::from_arguments(&arguments(&["organizador", "/tmp/d"])),
        Err(RunError::Usage)
    );
}

#[test]
fn start_without_arguments_is_a_usage_error() {
    let (session, reaction) = Session::start(&arguments(&["organizador"]));
    assert_eq!(session.phase(), Phase::Finished(Completion::Failed(RunError::Usage)));
    assert!(session.is_finished());
    assert_eq!(
        reaction,
        Reaction {
            notices: vec![Notice::Usage { program: "organizador".to_string() }],
            request: stop(Completion::Failed(RunError::Usage)),
        }
    );
}

#[test]
fn start_with_one_argument_is_a_usage_error() {
    let (session, reaction) = Session::start(&arguments(&["organizador", "/tmp/d"]));
    assert!(session.is_finished());
    assert_eq!(reaction.request, stop(Completion::Failed(RunError::Usage)));
    assert_eq!(reaction.notices, vec![Notice::Usage { program: "organizador".to_string() }]);
}

#[test]
fn start_with_an_empty_command_line_is_a_usage_error() {
    let (session, reaction) = Session::start(&Vec::new());
    assert!(session.is_finished());
    assert_eq!(reaction.request, stop(Completion::Failed(RunError::Usage)));
    assert_eq!(reaction.notices, vec![Notice::Usage { program: String::new() }]);
}

#[test]
fn start_normalizes_the_extension_and_asks_for_the_source() {
    let (session, reaction) = Session::start(&arguments(&["organizador", "/tmp/d", ".MOV"]));
    assert_eq!(session.phase(), Phase::CheckingSource);
    assert!(!session.is_finished());
    assert_eq!(session.extension(), "mov");
    assert_eq!(session.moved(), 0);
    assert_eq!(session.matches(), &Vec::<Entry>::new());
    assert_eq!(reaction, quiet(Request::CheckSource { directory: "/tmp/d".to_string() }));
    assert_eq!(session.pending(), Request::CheckSource { directory: "/tmp/d".to_string() });
}

#[test]
fn start_does_not_look_at_further_arguments() {
    let (session, reaction) =
        Session::start(&arguments(&["organizador", "/tmp/d", "mov", "more", "words"]));
    assert_eq!(session.phase(), Phase::CheckingSource);
    assert_eq!(session.extension(), "mov");
    assert_eq!(reaction, quiet(Request::CheckSource { directory: "/tmp/d".to_string() }));
}

#[test]
fn a_source_that_is_no_directory_ends_the_run() {
    let (session, _) = Session::start(&arguments(&["organizador", "/nowhere", "mov"]));
    let (session, reaction) = session.advance(Event::SourceChecked { is_directory: false });
    assert_eq!(session.phase(), Phase::Finished(Completion::Failed(RunError::InvalidSource)));
    assert_eq!(
        reaction,
        Reaction {
            notices: vec![Notice::InvalidSource { directory: "/nowhere".to_string() }],
            request: stop(Completion::Failed(RunError::InvalidSource)),
        }
    );
}

#[test]
fn no_match_ends_the_run_without_a_question() {
    let (session, reaction) = listed(&["c.txt", "notes", "d.mp4"]);
    assert_eq!(session.phase(), Phase::Finished(Completion::NothingFound));
    assert_eq!(session.moved(), 0);
    assert_eq!(
        reaction,
        Reaction {
            notices: vec![Notice::NoMatches { extension: "mov".to_string() }],
            request: Request::Stop {
                completion: Completion::NothingFound,
                notification: Some(summarize(0, "mov")),
            },
        }
    );
}

#[test]
fn an_empty_directory_ends_the_run() {
    let (session, reaction) = listed(&[]);
    assert_eq!(session.phase(), Phase::Finished(Completion::NothingFound));
    assert_eq!(reaction.notices, vec![Notice::NoMatches { extension: "mov".to_string() }]);
}

#[test]
fn matches_lead_to_the_question() {
    let (session, reaction) = listed(&["a.mov", "b.MOV", "c.txt"]);
    assert_eq!(session.phase(), Phase::Confirming);
    assert_eq!(session.matches(), &vec![file("a.mov"), file("b.MOV")]);
    assert_eq!(
        reaction,
        quiet(Request::Confirm {
            count: 2,
            extension: "mov".to_string(),
            directory: "/tmp/d".to_string(),
        })
    );
}

#[test]
fn declining_moves_nothing_and_notifies_nobody() {
    for answer in ["", "\n", "n", "N", "no", "si", "ss", "x", " y ", "S!"] {
        let (session, _) = listed(&["a.mov", "b.MOV"]);
        let (session, reaction) = session.advance(Event::Answered { response: answer.to_string() });
        assert_eq!(session.phase(), Phase::Finished(Completion::Declined), "for {:?}", answer);
        assert_eq!(session.moved(), 0);
        assert_eq!(
            reaction,
            Reaction { notices: vec![Notice::Cancelled], request: stop(Completion::Declined) },
            "for {:?}",
            answer
        );
    }
}

#[test]
fn no_event_moves_a_file_after_a_decline() {
    let (session, _) = listed(&["a.mov", "b.MOV"]);
    let (mut session, _) = session.advance(Event::Answered { response: "n".to_string() });
    let later = vec![
        Event::DestinationProbed { exists: true },
        Event::DestinationCreated { failure: None },
        moved_ok(),
        Event::Answered { response: "s".to_string() },
        Event::Listed { entries: vec![file("z.mov")] },
        Event::SourceChecked { is_directory: true },
        moved_ok(),
    ];
    for event in later {
        let (next, reaction) = session.advance(event);
        assert_eq!(reaction, quiet(stop(Completion::Declined)));
        assert_eq!(next.moved(), 0);
        session = next;
    }
}

#[test]
fn confirming_asks_for_the_destination() {
    for answer in ["s", "S", "s\n", " S \n"] {
        let (session, _) = listed(&["a.mov"]);
        let (session, reaction) = session.advance(Event::Answered { response: answer.to_string() });
        assert_eq!(session.phase(), Phase::ProbingDestination);
        assert_eq!(reaction, quiet(Request::ProbeDestination { destination: destination() }));
    }
}

#[test]
fn the_destination_is_named_after_the_normalized_extension() {
    let (session, _) = Session::start(&arguments(&["organizador", "/home/u/Downloads", ".JPG"]));
    let (session, _) = session.advance(Event::SourceChecked { is_directory: true });
    let entry = Entry::new("/home/u/Downloads/p.jpg", "p.jpg", true);
    let (session, _) = session.advance(Event::Listed { entries: vec![entry] });
    let (_, reaction) = session.advance(Event::Answered { response: "s".to_string() });
    assert_eq!(
        reaction.request,
        Request::ProbeDestination {
            destination: Destination {
                parent: "/home/u/Downloads".to_string(),
                name: "jpg".to_string(),
            },
        }
    );
}

#[test]
fn a_missing_destination_is_created_first() {
    let (session, _) = listed(&["a.mov"]);
    let (session, _) = session.advance(Event::Answered { response: "s".to_string() });
    let (session, reaction) = session.advance(Event::DestinationProbed { exists: false });
    assert_eq!(session.phase(), Phase::CreatingDestination);
    assert_eq!(reaction, quiet(Request::CreateDestination { destination: destination() }));
    let (session, reaction) = session.advance(Event::DestinationCreated { failure: None });
    assert_eq!(session.phase(), Phase::Moving);
    assert_eq!(
        reaction,
        Reaction {
            notices: vec![Notice::DestinationCreated { destination: destination() }],
            request: move_of("a.mov"),
        }
    );
}

#[test]
fn an_existing_destination_is_not_created_again() {
    let (session, reaction) = confirmed(&["a.mov", "b.mov"]);
    assert_eq!(session.phase(), Phase::Moving);
    assert_eq!(reaction, quiet(move_of("a.mov")));
    let (session, reaction) = session.advance(moved_ok());
    assert_eq!(reaction.request, move_of("b.mov"));
    let (session, reaction) = session.advance(moved_ok());
    assert_eq!(session.phase(), Phase::Finished(Completion::Relocated { moved: 2 }));
    assert!(matches!(reaction.request, Request::Stop { .. }));
}

#[test]
fn a_destination_that_cannot_be_created_ends_the_run_before_any_move() {
    let (session, _) = listed(&["a.mov", "b.mov"]);
    let (session, _) = session.advance(Event::Answered { response: "s".to_string() });
    let (session, _) = session.advance(Event::DestinationProbed { exists: false });
    let (session, reaction) =
        session.advance(Event::DestinationCreated { failure: Some("permission denied".to_string()) });
    assert_eq!(session.phase(), Phase::Finished(Completion::Failed(RunError::DestinationCreate)));
    assert_eq!(session.moved(), 0);
    assert_eq!(
        reaction,
        Reaction {
            notices: vec![Notice::DestinationFailed {
                destination: destination(),
                reason: "permission denied".to_string(),
            }],
            request: stop(Completion::Failed(RunError::DestinationCreate)),
        }
    );
    let (session, reaction) = session.advance(moved_ok());
    assert_eq!(reaction, quiet(stop(Completion::Failed(RunError::DestinationCreate))));
    assert_eq!(session.moved(), 0);
}

#[test]
fn end_to_end_two_of_three_files_are_moved() {
    let (session, first) = Session::start(&arguments(&["organizador", "/tmp/d", ".mov"]));
    assert_eq!(first, quiet(Request::CheckSource { directory: "/tmp/d".to_string() }));
    let (session, _) = session.advance(Event::SourceChecked { is_directory: true });
    let entries = vec![Entry::new("/tmp/d", "d", false), file("a.mov"), file("b.MOV"), file("c.txt")];
    let (session, reaction) = session.advance(Event::Listed { entries });
    assert_eq!(
        reaction,
        quiet(Request::Confirm {
            count: 2,
            extension: "mov".to_string(),
            directory: "/tmp/d".to_string(),
        })
    );
    let (session, reaction) = session.advance(Event::Answered { response: "s\n".to_string() });
    assert_eq!(reaction, quiet(Request::ProbeDestination { destination: destination() }));
    let (session, reaction) = session.advance(Event::DestinationProbed { exists: false });
    assert_eq!(reaction, quiet(Request::CreateDestination { destination: destination() }));
    let (session, reaction) = session.advance(Event::DestinationCreated { failure: None });
    assert_eq!(reaction.request, move_of("a.mov"));
    let (session, reaction) = session.advance(moved_ok());
    assert_eq!(
        reaction,
        Reaction {
            notices: vec![Notice::Moved { name: "a.mov".to_string() }],
            request: move_of("b.MOV"),
        }
    );
    assert_eq!(session.moved(), 1);
    let (session, reaction) = session.advance(moved_ok());
    assert_eq!(session.moved(), 2);
    assert_eq!(session.phase(), Phase::Finished(Completion::Relocated { moved: 2 }));
    assert_eq!(
        reaction.notices,
        vec![
            Notice::Moved { name: "b.MOV".to_string() },
            Notice::Summary { moved: 2, extension: "mov".to_string() },
        ]
    );
    match reaction.request {
        Request::Stop { completion, notification: Some(notification) } => {
            assert_eq!(completion, Completion::Relocated { moved: 2 });
            assert_eq!(notification.title, "Organizador de Archivos");
            assert!(notification.body.contains("2"));
            assert!(notification.body.contains("'mov'"));
            assert_eq!(notification.icon, "folder-download");
            assert_eq!(notification, summarize(2, "mov"));
        },
        other => panic!("the run did not end with a notification: {:?}", other),
    }
}

#[test]
fn a_file_with_another_extension_is_never_asked_for() {
    let (mut session, mut reaction) = confirmed(&["a.mov", "c.txt", "b.MOV"]);
    let mut sources = Vec::new();
    while let Request::Move { source, .. } = &reaction.request {
        sources.push(source.clone());
        let (next, following) = session.advance(moved_ok());
        session = next;
        reaction = following;
    }
    assert_eq!(sources, vec!["/tmp/d/a.mov", "/tmp/d/b.MOV"]);
    assert!(session.is_finished());
}

#[test]
fn a_failed_move_does_not_stop_the_others() {
    let (session, reaction) = confirmed(&["a.mov", "b.mov", "c.mov"]);
    assert_eq!(reaction.request, move_of("a.mov"));
    let (session, reaction) = session.advance(moved_ok());
    assert_eq!(reaction.request, move_of("b.mov"));
    let (session, reaction) =
        session.advance(move_failed("permission denied"));
    assert_eq!(
        reaction,
        Reaction {
            notices: vec![Notice::MoveFailed {
                name: "b.mov".to_string(),
                reason: "permission denied".to_string(),
            }],
            request: move_of("c.mov"),
        }
    );
    assert_eq!(session.moved(), 1);
    assert_eq!(session.phase(), Phase::Moving);
    let (session, reaction) = session.advance(moved_ok());
    assert_eq!(session.moved(), 2);
    assert_eq!(
        reaction,
        Reaction {
            notices: vec![
                Notice::Moved { name: "c.mov".to_string() },
                Notice::Summary { moved: 2, extension: "mov".to_string() },
            ],
            request: Request::Stop {
                completion: Completion::Relocated { moved: 2 },
                notification: Some(summarize(2, "mov")),
            },
        }
    );
}

#[test]
fn a_run_in_which_every_move_fails_reports_no_movement() {
    let (session, _) = confirmed(&["a.mov", "b.mov"]);
    let (session, _) = session.advance(move_failed("busy"));
    let (session, reaction) =
        session.advance(move_failed("gone"));
    assert_eq!(session.phase(), Phase::Finished(Completion::Relocated { moved: 0 }));
    assert_eq!(
        reaction,
        Reaction {
            notices: vec![
                Notice::MoveFailed { name: "b.mov".to_string(), reason: "gone".to_string() },
                Notice::Summary { moved: 0, extension: "mov".to_string() },
            ],
            request: Request::Stop {
                completion: Completion::Relocated { moved: 0 },
                notification: Some(NotificationRequest::new(
                    "Organizador de Archivos",
                    "No se realizó ningún movimiento.",
                    "info"
                )),
            },
        }
    );
}

#[test]
fn an_event_out_of_turn_changes_nothing() {
    let (session, _) = Session::start(&arguments(&["organizador", "/tmp/d", "mov"]));
    let (session, reaction) = session.advance(Event::Answered { response: "s".to_string() });
    assert_eq!(session.phase(), Phase::CheckingSource);
    assert_eq!(reaction, quiet(Request::CheckSource { directory: "/tmp/d".to_string() }));
    let (session, reaction) = session.advance(moved_ok());
    assert_eq!(session.phase(), Phase::CheckingSource);
    assert_eq!(reaction, quiet(Request::CheckSource { directory: "/tmp/d".to_string() }));
    let (session, _) = session.advance(Event::SourceChecked { is_directory: true });
    let (session, reaction) = session.advance(Event::DestinationProbed { exists: true });
    assert_eq!(session.phase(), Phase::Listing);
    assert_eq!(reaction, quiet(Request::List { directory: "/tmp/d".to_string(), depth: 1 }));
}

#[test]
fn an_event_out_of_turn_repeats_the_pending_move() {
    let (session, _) = confirmed(&["a.mov", "b.mov"]);
    assert_eq!(session.pending(), move_of("a.mov"));
    let (session, reaction) = session.advance(Event::Answered { response: "n".to_string() });
    assert_eq!(session.phase(), Phase::Moving);
    assert_eq!(reaction, quiet(move_of("a.mov")));
    let (session, reaction) = session.advance(Event::DestinationProbed { exists: false });
    assert_eq!(reaction, quiet(move_of("a.mov")));
    assert_eq!(session.moved(), 0);
}

#[test]
fn a_finished_run_asks_for_its_notification_once() {
    let (session, _) = confirmed(&["a.mov"]);
    let (session, reaction) = session.advance(moved_ok());
    assert!(matches!(reaction.request, Request::Stop { notification: Some(_), .. }));
    let (session, reaction) = session.advance(moved_ok());
    assert_eq!(reaction, quiet(stop(Completion::Relocated { moved: 1 })));
    assert_eq!(session.pending(), stop(Completion::Relocated { moved: 1 }));
    assert_eq!(session.moved(), 1);
}

#[test]
fn a_second_run_on_what_is_left_finds_nothing() {
    let (session, _) = confirmed(&["a.mov", "b.MOV"]);
    let (session, _) = session.advance(moved_ok());
    let (session, _) = session.advance(moved_ok());
    assert_eq!(session.phase(), Phase::Finished(Completion::Relocated { moved: 2 }));
    let (again, _) = Session::start(&arguments(&["organizador", "/tmp/d", ".mov"]));
    let (again, _) = again.advance(Event::SourceChecked { is_directory: true });
    let left = vec![file("c.txt"), Entry::new("/tmp/d/mov", "mov", false)];
    let (again, reaction) = again.advance(Event::Listed { entries: left });
    assert_eq!(again.phase(), Phase::Finished(Completion::NothingFound));
    assert_eq!(reaction.notices, vec![Notice::NoMatches { extension: "mov".to_string() }]);
}
