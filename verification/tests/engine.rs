use extfiles::walk::{Action, EntryKind, Event, Found, TransferError, Walker};
use extfiles::{run, Config};

/// A file system in memory: enough of one to carry out what the engine asks.
#[derive(Clone, Debug, PartialEq)]
enum Node {
    File(String),
    Other,
    Dir(Vec<(String, Node)>),
}

#[derive(Clone, Debug, PartialEq)]
struct Disk {
    source: Node,
    destination: Option<Node>,
}

fn file(name: &str, content: &str) -> (String, Node) {
    (name.to_string(), Node::File(content.to_string()))
}

fn dir(name: &str, entries: Vec<(String, Node)>) -> (String, Node) {
    (name.to_string(), Node::Dir(entries))
}

fn config(ext: &[&str], rec: bool) -> Config {
    Config::new(
        "/a".to_string(),
        "/out".to_string(),
        ext.iter().map(|s| s.to_string()).collect(),
        rec,
    )
}

fn strings(items: &[&str]) -> Vec<String> {
    items.iter().map(|s| s.to_string()).collect()
}

fn entries_at<'a>(root: &'a mut Node, path: &[String]) -> Option<&'a mut Vec<(String, Node)>> {
    let mut here = root;
    for step in path {
        let entries = match here {
            Node::Dir(entries) => entries,
            _ => return None,
        };
        here = &mut entries.iter_mut().find(|(name, _)| name == step)?.1;
    }
    match here {
        Node::Dir(entries) => Some(entries),
        _ => None,
    }
}

fn put(destination: &mut Option<Node>, name: &str, content: String) -> bool {
    match destination {
        Some(Node::Dir(entries)) => {
            entries.retain(|(held, _)| held != name);
            entries.push((name.to_string(), Node::File(content)));
            true
        }
        _ => false,
    }
}

fn perform(disk: &mut Disk, open: &mut Vec<Vec<(String, Node)>>, action: &Action) -> Event {
    let failed = |what: &str| Event::Failed { message: what.to_string() };
    match action {
        Action::Probe => Event::Found {
            what: match disk.destination {
                None => Found::Missing,
                Some(Node::Dir(_)) => Found::Directory,
                Some(_) => Found::Other,
            },
        },
        Action::CreateDestination => {
            disk.destination = Some(Node::Dir(Vec::new()));
            Event::Done
        }
        Action::Open { dir } => match entries_at(&mut disk.source, dir) {
            Some(entries) => {
                open.push(entries.clone());
                Event::Done
            }
            None => failed("no such directory"),
        },
        Action::Next => {
            let listing = open.last_mut().expect("a listing is open");
            if listing.is_empty() {
                open.pop();
                Event::End
            } else {
                let (name, node) = listing.remove(0);
                let kind = match node {
                    Node::File(_) => EntryKind::File,
                    Node::Dir(_) => EntryKind::Directory,
                    Node::Other => EntryKind::Other,
                };
                Event::Entry { name, kind }
            }
        }
        Action::Copy { dir, name } | Action::Move { dir, name } => {
            let entries = match entries_at(&mut disk.source, dir) {
                Some(entries) => entries,
                None => return failed("no such directory"),
            };
            let at = match entries.iter().position(|(held, _)| held == name) {
                Some(at) => at,
                None => return failed("no such file"),
            };
            let content = match &entries[at].1 {
                Node::File(content) => content.clone(),
                _ => return failed("not a file"),
            };
            if matches!(action, Action::Move { .. }) {
                entries.remove(at);
            }
            if put(&mut disk.destination, name, content) {
                Event::Done
            } else {
                failed("no destination directory")
            }
        }
        Action::Finish | Action::Abort { .. } => unreachable!(),
    }
}

/// Runs the engine against the disk, as a driver does.
fn drive(config: Config, cp: bool, disk: &mut Disk) -> (Vec<Action>, Result<(), TransferError>) {
    let (mut walker, mut action): (Walker, Action) = run(config, cp);
    let mut open = Vec::new();
    let mut asked = Vec::new();
    loop {
        asked.push(action.clone());
        match action {
            Action::Finish => {
                assert!(walker.finished());
                return (asked, Ok(()));
            }
            Action::Abort { error } => {
                assert!(walker.finished());
                return (asked, Err(error));
            }
            _ => {
                assert!(!walker.finished());
                let event = perform(disk, &mut open, &action);
                action = walker.step(event);
            }
        }
    }
}

fn sample() -> Disk {
    Disk {
        source: Node::Dir(vec![
            file("x.txt", "x"),
            file("y.log", "y"),
            dir("b", vec![file("z.txt", "z")]),
        ]),
        destination: Some(Node::Dir(Vec::new())),
    }
}

fn held(disk: &Disk) -> Vec<(String, Node)> {
    match &disk.destination {
        Some(Node::Dir(entries)) => {
            let mut entries = entries.clone();
            entries.sort_by(|a, b| a.0.cmp(&b.0));
            entries
        }
        other => panic!("destination is {:?}", other),
    }
}

#[test]
fn recursive_copy_of_one_extension() {
    let mut disk = sample();
    let (asked, outcome) = drive(config(&["txt"], true), true, &mut disk);
    assert_eq!(outcome, Ok(()));
    assert_eq!(held(&disk), vec![file("x.txt", "x"), file("z.txt", "z")]);
    assert_eq!(disk.source, sample().source);
    assert_eq!(
        asked,
        vec![
            Action::Probe,
            Action::Open { dir: vec![] },
            Action::Next,
            Action::Copy { dir: vec![], name: "x.txt".to_string() },
            Action::Next,
            Action::Next,
            Action::Open { dir: strings(&["b"]) },
            Action::Next,
            Action::Copy { dir: strings(&["b"]), name: "z.txt".to_string() },
            Action::Next,
            Action::Next,
            Action::Finish,
        ]
    );
}

#[test]
fn flat_move_of_everything() {
    let mut disk = sample();
    let (asked, outcome) = drive(config(&["*"], false), false, &mut disk);
    assert_eq!(outcome, Ok(()));
    assert_eq!(held(&disk), vec![file("x.txt", "x"), file("y.log", "y")]);
    assert_eq!(disk.source, Node::Dir(vec![dir("b", vec![file("z.txt", "z")])]));
    assert_eq!(
        asked,
        vec![
            Action::Probe,
            Action::Open { dir: vec![] },
            Action::Next,
            Action::Move { dir: vec![], name: "x.txt".to_string() },
            Action::Next,
            Action::Move { dir: vec![], name: "y.log".to_string() },
            Action::Next,
            Action::Next,
            Action::Finish,
        ]
    );
}

#[test]
fn flat_copy_keeps_the_source_and_fills_the_destination() {
    let source = Node::Dir(vec![file("a.txt", "1"), file("b.md", "2"), file("c.txt", "3")]);
    let mut disk = Disk { source: source.clone(), destination: Some(Node::Dir(Vec::new())) };
    let (_, outcome) = drive(config(&["txt"], false), true, &mut disk);
    assert_eq!(outcome, Ok(()));
    assert_eq!(held(&disk), vec![file("a.txt", "1"), file("c.txt", "3")]);
    assert_eq!(disk.source, source);
}

#[test]
fn flat_move_leaves_only_what_does_not_match() {
    let source = Node::Dir(vec![file("a.txt", "1"), file("b.md", "2"), file("c.txt", "3")]);
    let mut disk = Disk { source, destination: Some(Node::Dir(Vec::new())) };
    let (_, outcome) = drive(config(&["txt"], false), false, &mut disk);
    assert_eq!(outcome, Ok(()));
    assert_eq!(held(&disk), vec![file("a.txt", "1"), file("c.txt", "3")]);
    assert_eq!(disk.source, Node::Dir(vec![file("b.md", "2")]));
}

#[test]
fn files_outside_the_set_stay_where_they_are() {
    let mut disk = sample();
    let (asked, outcome) = drive(config(&["md", "rs"], true), false, &mut disk);
    assert_eq!(outcome, Ok(()));
    assert_eq!(held(&disk), vec![]);
    assert_eq!(disk.source, sample().source);
    assert!(asked.iter().all(|a| !matches!(a, Action::Copy { .. } | Action::Move { .. })));
}

#[test]
fn empty_set_transfers_nothing_and_succeeds() {
    let mut disk = sample();
    let (_, outcome) = drive(config(&[], true), true, &mut disk);
    assert_eq!(outcome, Ok(()));
    assert_eq!(held(&disk), vec![]);
    assert_eq!(disk.source, sample().source);
}

#[test]
fn wildcard_takes_files_without_extension_too() {
    let source = Node::Dir(vec![file("Makefile", "m"), file(".env", "e"), file("a.b.c", "c")]);
    let mut disk = Disk { source, destination: Some(Node::Dir(Vec::new())) };
    let (_, outcome) = drive(config(&["*"], false), true, &mut disk);
    assert_eq!(outcome, Ok(()));
    assert_eq!(held(&disk), vec![file(".env", "e"), file("Makefile", "m"), file("a.b.c", "c")]);
}

#[test]
fn flat_run_does_not_descend() {
    let mut disk = sample();
    let (asked, outcome) = drive(config(&["txt"], false), true, &mut disk);
    assert_eq!(outcome, Ok(()));
    assert_eq!(held(&disk), vec![file("x.txt", "x")]);
    assert_eq!(asked.iter().filter(|a| matches!(a, Action::Open { .. })).count(), 1);
}

#[test]
fn recursive_run_flattens_every_depth() {
    let source = Node::Dir(vec![
        dir("p", vec![dir("q", vec![dir("r", vec![file("deep.txt", "d")]), file("mid.txt", "m")])]),
        file("top.txt", "t"),
    ]);
    let mut disk = Disk { source, destination: Some(Node::Dir(Vec::new())) };
    let (asked, outcome) = drive(config(&["txt"], true), false, &mut disk);
    assert_eq!(outcome, Ok(()));
    assert_eq!(
        held(&disk),
        vec![file("deep.txt", "d"), file("mid.txt", "m"), file("top.txt", "t")]
    );
    assert_eq!(disk.source, Node::Dir(vec![dir("p", vec![dir("q", vec![dir("r", vec![])])])]));
    let moves: Vec<&Action> = asked.iter().filter(|a| matches!(a, Action::Move { .. })).collect();
    assert_eq!(
        moves,
        vec![
            &Action::Move { dir: strings(&["p", "q", "r"]), name: "deep.txt".to_string() },
            &Action::Move { dir: strings(&["p", "q"]), name: "mid.txt".to_string() },
            &Action::Move { dir: vec![], name: "top.txt".to_string() },
        ]
    );
}

#[test]
fn later_file_of_the_same_name_overwrites() {
    let source = Node::Dir(vec![file("n.txt", "first"), dir("sub", vec![file("n.txt", "second")])]);
    let mut disk = Disk { source, destination: Some(Node::Dir(Vec::new())) };
    let (_, outcome) = drive(config(&["txt"], true), true, &mut disk);
    assert_eq!(outcome, Ok(()));
    assert_eq!(held(&disk), vec![file("n.txt", "second")]);
}

#[test]
fn other_entries_are_ignored() {
    let source = Node::Dir(vec![("link.txt".to_string(), Node::Other), file("real.txt", "r")]);
    let mut disk = Disk { source: source.clone(), destination: Some(Node::Dir(Vec::new())) };
    let (_, outcome) = drive(config(&["*"], true), false, &mut disk);
    assert_eq!(outcome, Ok(()));
    assert_eq!(held(&disk), vec![file("real.txt", "r")]);
    assert_eq!(disk.source, Node::Dir(vec![("link.txt".to_string(), Node::Other)]));
}

#[test]
fn missing_destination_is_created_before_anything_else() {
    let mut disk = sample();
    disk.destination = None;
    let (asked, outcome) = drive(config(&["txt"], false), true, &mut disk);
    assert_eq!(outcome, Ok(()));
    assert_eq!(asked[0], Action::Probe);
    assert_eq!(asked[1], Action::CreateDestination);
    assert_eq!(asked[2], Action::Open { dir: vec![] });
    assert_eq!(held(&disk), vec![file("x.txt", "x")]);
}

#[test]
fn missing_destination_is_created_even_if_nothing_matches() {
    let mut disk = sample();
    disk.destination = None;
    let (_, outcome) = drive(config(&[], false), true, &mut disk);
    assert_eq!(outcome, Ok(()));
    assert_eq!(disk.destination, Some(Node::Dir(Vec::new())));
}

#[test]
fn destination_that_is_a_file_fails_and_changes_nothing() {
    let mut disk = sample();
    disk.destination = Some(Node::File("in the way".to_string()));
    let before = disk.clone();
    let (asked, outcome) = drive(config(&["*"], true), false, &mut disk);
    let error = outcome.unwrap_err();
    assert_eq!(error, TransferError::InvalidDestination { path: "/out".to_string() });
    assert_eq!(error.message(), "Destination /out already exists and is not a directory");
    assert_eq!(disk, before);
    assert_eq!(asked.len(), 2);
    assert_eq!(asked[0], Action::Probe);
}

#[test]
fn copy_run_twice_leaves_the_same_destination() {
    let mut disk = sample();
    disk.destination = None;
    let (first, outcome) = drive(config(&["txt"], true), true, &mut disk);
    assert_eq!(outcome, Ok(()));
    let after_first = disk.clone();
    let (second, outcome) = drive(config(&["txt"], true), true, &mut disk);
    assert_eq!(outcome, Ok(()));
    assert_eq!(held(&disk), held(&after_first));
    assert_eq!(disk.source, after_first.source);
    assert_eq!(first[2..], second[1..]);
}

#[test]
fn failure_to_create_the_destination_ends_the_run() {
    let (mut walker, first) = run(config(&["*"], true), true);
    assert_eq!(first, Action::Probe);
    assert_eq!(walker.step(Event::Found { what: Found::Missing }), Action::CreateDestination);
    let answer = walker.step(Event::Failed { message: "permission denied".to_string() });
    assert_eq!(
        answer,
        Action::Abort { error: TransferError::Io { message: "permission denied".to_string() } }
    );
    assert!(walker.finished());
}

#[test]
fn failure_to_list_the_source_ends_the_run() {
    let (mut walker, _) = run(config(&["*"], true), true);
    assert_eq!(walker.step(Event::Found { what: Found::Directory }), Action::Open { dir: vec![] });
    let answer = walker.step(Event::Failed { message: "not found".to_string() });
    assert_eq!(
        answer,
        Action::Abort { error: TransferError::Io { message: "not found".to_string() } }
    );
    assert!(walker.finished());
}

#[test]
fn failure_in_a_subdirectory_ends_the_whole_run() {
    let (mut walker, _) = run(config(&["txt"], true), false);
    walker.step(Event::Found { what: Found::Directory });
    assert_eq!(walker.step(Event::Done), Action::Next);
    let entry = Event::Entry { name: "sub".to_string(), kind: EntryKind::Directory };
    assert_eq!(walker.step(entry), Action::Open { dir: strings(&["sub"]) });
    assert_eq!(walker.step(Event::Done), Action::Next);
    let answer = walker.step(Event::Failed { message: "gone".to_string() });
    assert_eq!(answer, Action::Abort { error: TransferError::Io { message: "gone".to_string() } });
    assert!(walker.finished());
    assert_eq!(
        walker.step(Event::End),
        Action::Abort { error: TransferError::Unexpected }
    );
}

#[test]
fn failure_of_a_transfer_ends_the_run() {
    let (mut walker, _) = run(config(&["txt"], false), false);
    walker.step(Event::Found { what: Found::Directory });
    walker.step(Event::Done);
    let entry = Event::Entry { name: "f.txt".to_string(), kind: EntryKind::File };
    assert_eq!(walker.step(entry), Action::Move { dir: vec![], name: "f.txt".to_string() });
    let answer = walker.step(Event::Failed { message: "disk full".to_string() });
    let error = TransferError::Io { message: "disk full".to_string() };
    assert_eq!(error.message(), "disk full");
    assert_eq!(answer, Action::Abort { error });
}

#[test]
fn what_was_not_asked_for_ends_the_run() {
    let (mut walker, _) = run(config(&["txt"], false), true);
    assert_eq!(walker.step(Event::Done), Action::Abort { error: TransferError::Unexpected });
    assert!(walker.finished());

    let (mut walker, _) = run(config(&["txt"], false), true);
    walker.step(Event::Found { what: Found::Directory });
    assert_eq!(walker.step(Event::End), Action::Abort { error: TransferError::Unexpected });

    let (mut walker, _) = run(config(&["txt"], false), true);
    walker.step(Event::Found { what: Found::Directory });
    walker.step(Event::Done);
    assert_eq!(
        walker.step(Event::Found { what: Found::Directory }),
        Action::Abort { error: TransferError::Unexpected }
    );
    assert_eq!(
        TransferError::Unexpected.message(),
        "The driver reported what was not asked for"
    );
}

#[test]
fn nothing_is_asked_after_the_end() {
    let mut disk = Disk { source: Node::Dir(vec![]), destination: Some(Node::Dir(vec![])) };
    let (asked, outcome) = drive(config(&["*"], true), true, &mut disk);
    assert_eq!(outcome, Ok(()));
    assert_eq!(
        asked,
        vec![Action::Probe, Action::Open { dir: vec![] }, Action::Next, Action::Finish]
    );
    let (mut walker, _) = run(config(&["*"], true), true);
    walker.step(Event::Found { what: Found::Directory });
    walker.step(Event::Done);
    assert_eq!(walker.step(Event::End), Action::Finish);
    assert!(walker.finished());
    assert_eq!(walker.step(Event::Done), Action::Abort { error: TransferError::Unexpected });
    let entry = Event::Entry { name: "late.txt".to_string(), kind: EntryKind::File };
    assert_eq!(walker.step(entry), Action::Abort { error: TransferError::Unexpected });
}

#[test]
fn leaving_a_subdirectory_goes_on_with_the_one_above() {
    let (mut walker, _) = run(config(&["txt"], true), true);
    walker.step(Event::Found { what: Found::Directory });
    walker.step(Event::Done);
    let sub = Event::Entry { name: "s".to_string(), kind: EntryKind::Directory };
    assert_eq!(walker.step(sub), Action::Open { dir: strings(&["s"]) });
    assert_eq!(walker.step(Event::Done), Action::Next);
    assert_eq!(walker.step(Event::End), Action::Next);
    let entry = Event::Entry { name: "t.txt".to_string(), kind: EntryKind::File };
    assert_eq!(walker.step(entry), Action::Copy { dir: vec![], name: "t.txt".to_string() });
    assert_eq!(walker.step(Event::Done), Action::Next);
    assert_eq!(walker.step(Event::End), Action::Finish);
}
