//! A source tree as the engine's driver meets it, and what a faithful
//! driver reports of it: the model over which the engine's laws are stated.

use crate::config::ConfigView;
use crate::filter::admits;
use crate::walk::{advance, ActionView, EntryKind, EventView, Found, Phase, WalkerView};
use vstd::prelude::*;

verus! {

/// What a name in a directory stands for.
pub enum Node {
    /// A regular file.
    File,
    /// Neither a regular file nor a directory.
    Other,
    /// A directory with its entries, in the order in which it lists them.
    Directory { entries: Seq<(Seq<char>, Node)> },
}

/// What a driver that meets no failure reports while the engine lists
/// `entries` from position `from` on, up to and with the end of that
/// listing: each entry, the success of each transfer and of each opening
/// that the engine asks for, and what it reports of the directories that
/// the engine descends into.
pub open spec fn reports(entries: Seq<(Seq<char>, Node)>, from: int, c: ConfigView) -> Seq<
    EventView,
>
    decreases entries, entries.len() - from,
{
    if 0 <= from < entries.len() {
        let name = entries[from].0;
        let own = match entries[from].1 {
            Node::File => if admits(c.extensions, name) {
                seq![EventView::Entry { name, kind: EntryKind::File }, EventView::Done]
            } else {
                seq![EventView::Entry { name, kind: EntryKind::File }]
            },
            Node::Other => seq![EventView::Entry { name, kind: EntryKind::Other }],
            Node::Directory { entries: inner } => if c.recursive {
                seq![EventView::Entry { name, kind: EntryKind::Directory }, EventView::Done]
                    + reports(inner, 0, c)
            } else {
                seq![EventView::Entry { name, kind: EntryKind::Directory }]
            },
        };
        own + reports(entries, from + 1, c)
    } else {
        seq![EventView::End]
    }
}

/// The action that transfers the file `name` of the directory `dir`.
pub open spec fn transfer(dir: Seq<Seq<char>>, name: Seq<char>, copy: bool) -> ActionView {
    if copy {
        ActionView::Copy { dir, name }
    } else {
        ActionView::Move { dir, name }
    }
}

/// The transfers that are due for `entries` from position `from` on, in
/// their order, where `trail` leads to the directory that lists them: one
/// for each regular file that the allow-set admits, and, in a recursive
/// run, those of each subdirectory in the entry's place.
pub open spec fn transfers(
    entries: Seq<(Seq<char>, Node)>,
    from: int,
    trail: Seq<Seq<char>>,
    c: ConfigView,
    copy: bool,
) -> Seq<ActionView>
    decreases entries, entries.len() - from,
{
    if 0 <= from < entries.len() {
        let name = entries[from].0;
        let own = match entries[from].1 {
            Node::File => if admits(c.extensions, name) {
                seq![transfer(trail, name, copy)]
            } else {
                Seq::empty()
            },
            Node::Other => Seq::empty(),
            Node::Directory { entries: inner } => if c.recursive {
                transfers(inner, 0, trail.push(name), c, copy)
            } else {
                Seq::empty()
            },
        };
        own + transfers(entries, from + 1, trail, c, copy)
    } else {
        Seq::empty()
    }
}

/// The engine's state after it has taken in `events`, one after the other.
pub open spec fn state_after(s: WalkerView, events: Seq<EventView>) -> WalkerView
    decreases events.len(),
{
    if events.len() == 0 {
        s
    } else {
        state_after(advance(s, events[0]).0, events.drop_first())
    }
}

/// The actions with which the engine answers `events`, one for each.
pub open spec fn answers(s: WalkerView, events: Seq<EventView>) -> Seq<ActionView>
    decreases events.len(),
{
    if events.len() == 0 {
        Seq::empty()
    } else {
        seq![advance(s, events[0]).1] + answers(advance(s, events[0]).0, events.drop_first())
    }
}

/// Whether an action copies or moves a file.
pub open spec fn is_transfer(action: ActionView) -> bool {
    action is Copy || action is Move
}

/// The copies and moves among `actions`, in their order.
pub open spec fn transfers_in(actions: Seq<ActionView>) -> Seq<ActionView>
    decreases actions.len(),
{
    if actions.len() == 0 {
        Seq::empty()
    } else if is_transfer(actions[0]) {
        seq![actions[0]] + transfers_in(actions.drop_first())
    } else {
        transfers_in(actions.drop_first())
    }
}

/// Whether no action of `actions` gives the run up.
pub open spec fn unbroken(actions: Seq<ActionView>) -> bool {
    forall|i: int| 0 <= i < actions.len() ==> !(#[trigger] actions[i] is Abort)
}

/// The state in which the engine leaves the listing that is innermost in
/// `s`: back in the directory above it, or, from the source directory
/// itself, at the end of the run.
pub open spec fn left(s: WalkerView) -> WalkerView {
    if s.trail.len() == 0 {
        WalkerView { phase: Phase::Finished, ..s }
    } else {
        WalkerView { trail: s.trail.drop_last(), ..s }
    }
}

/// What a driver that meets no failure reports in a whole run over the
/// source directory `root`: what stands at the destination path, a missing
/// directory or a directory; that the directory was created, where it was
/// missing; that the source directory was opened; and then what it reports
/// of the listing.
pub open spec fn run_reports(missing: bool, root: Seq<(Seq<char>, Node)>, c: ConfigView) -> Seq<
    EventView,
> {
    if missing {
        seq![EventView::Found { what: Found::Missing }, EventView::Done, EventView::Done]
            + reports(root, 0, c)
    } else {
        seq![EventView::Found { what: Found::Directory }, EventView::Done] + reports(root, 0, c)
    }
}

/// Whether the regular file `name` stands in the directory that `dir`
/// leads to from a directory with the entries `entries`, of which only
/// those from position `from` on are looked at.
pub open spec fn holds_file(
    entries: Seq<(Seq<char>, Node)>,
    from: int,
    dir: Seq<Seq<char>>,
    name: Seq<char>,
) -> bool
    decreases dir.len(),
{
    if dir.len() == 0 {
        exists|i: int|
            from <= i < entries.len() && 0 <= i && #[trigger] entries[i] == (name, Node::File)
    } else {
        exists|i: int|
            from <= i < entries.len() && 0 <= i && (#[trigger] entries[i]).0 == dir[0]
                && entries[i].1 is Directory && holds_file(
                entries[i].1->entries,
                0,
                dir.drop_first(),
                name,
            )
    }
}

/// Whether a run over the source directory `root` is to transfer the file
/// `name` of the directory `dir`: it is a regular file there, the allow-set
/// admits its name, and it stands in the source directory itself unless the
/// run is recursive.
pub open spec fn due(
    root: Seq<(Seq<char>, Node)>,
    c: ConfigView,
    dir: Seq<Seq<char>>,
    name: Seq<char>,
) -> bool {
    holds_file(root, 0, dir, name) && admits(c.extensions, name) && (c.recursive || dir.len()
        == 0)
}

/// What the destination directory holds after the transfers among
/// `actions`, where it held `before`: under each bare name, the directory
/// and the name of the file that was written there last.
pub open spec fn landed(
    before: Map<Seq<char>, (Seq<Seq<char>>, Seq<char>)>,
    actions: Seq<ActionView>,
) -> Map<Seq<char>, (Seq<Seq<char>>, Seq<char>)>
    decreases actions.len(),
{
    if actions.len() == 0 {
        before
    } else {
        let earlier = landed(before, actions.drop_last());
        match actions.last() {
            ActionView::Copy { dir, name } => earlier.insert(name, (dir, name)),
            ActionView::Move { dir, name } => earlier.insert(name, (dir, name)),
            _ => earlier,
        }
    }
}

/// Whether one of the transfers among `actions` writes the bare name
/// `name` in the destination directory.
pub open spec fn writes(actions: Seq<ActionView>, name: Seq<char>) -> bool
    decreases actions.len(),
{
    actions.len() > 0 && (writes(actions.drop_last(), name) || match actions.last() {
        ActionView::Copy { dir, name: written } => written == name,
        ActionView::Move { dir, name: written } => written == name,
        _ => false,
    })
}

} // verus!
