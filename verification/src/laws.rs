//! What holds of every run of the engine.

use crate::config::ConfigView;
use crate::filter::{admits, wildcard};
use crate::tree::{
    answers, due, holds_file, is_transfer, landed, left, reports, run_reports, state_after,
    transfer, transfers, transfers_in, unbroken, writes, Node,
};
use crate::walk::{
    advance, initial, ActionView, EntryKind, EventView, Found, Phase, TransferErrorView,
    WalkerView,
};
use vstd::prelude::*;

verus! {

/// Taking in two runs of events one after the other is taking in the one
/// and then the other.
pub proof fn lemma_replay_concat(s: WalkerView, first: Seq<EventView>, second: Seq<EventView>)
    ensures
        state_after(s, first + second) == state_after(state_after(s, first), second),
        answers(s, first + second) == answers(s, first) + answers(
            state_after(s, first),
            second,
        ),
    decreases first.len(),
{
    if first.len() == 0 {
        assert(first + second =~= second);
        assert(answers(s, first) + answers(s, second) =~= answers(s, second));
    } else {
        let all = first + second;
        let next = advance(s, first[0]).0;
        assert(all[0] == first[0]);
        assert(all.drop_first() =~= first.drop_first() + second);
        lemma_replay_concat(next, first.drop_first(), second);
        assert(answers(s, all) =~= answers(s, first) + answers(state_after(s, first), second));
    }
}

/// The transfers among two runs of actions are those of the one and then
/// those of the other.
pub proof fn lemma_transfers_in_concat(first: Seq<ActionView>, second: Seq<ActionView>)
    ensures
        transfers_in(first + second) == transfers_in(first) + transfers_in(second),
    decreases first.len(),
{
    if first.len() == 0 {
        assert(first + second =~= second);
        assert(transfers_in(first) + transfers_in(second) =~= transfers_in(second));
    } else {
        let all = first + second;
        assert(all[0] == first[0]);
        assert(all.drop_first() =~= first.drop_first() + second);
        lemma_transfers_in_concat(first.drop_first(), second);
        assert(transfers_in(all) =~= transfers_in(first) + transfers_in(second));
    }
}

/// Two runs of actions of which none gives up make one such run.
pub proof fn lemma_unbroken_concat(first: Seq<ActionView>, second: Seq<ActionView>)
    requires
        unbroken(first),
        unbroken(second),
    ensures
        unbroken(first + second),
{
    let all = first + second;
    assert forall|i: int| 0 <= i < all.len() implies !(#[trigger] all[i] is Abort) by {
        if i < first.len() {
            assert(all[i] == first[i]);
        } else {
            assert(all[i] == second[i - first.len()]);
        }
    }
}

/// One event is answered by the engine's rule.
pub proof fn lemma_replay_one(s: WalkerView, e: EventView)
    ensures
        state_after(s, seq![e]) == advance(s, e).0,
        answers(s, seq![e]) == seq![advance(s, e).1],
{
    let one = seq![e];
    let next = advance(s, e).0;
    let tail = one.drop_first();
    assert(one[0] == e);
    assert(tail.len() == 0);
    assert(state_after(next, tail) == next);
    assert(answers(next, tail) =~= Seq::<ActionView>::empty());
    assert(answers(s, one) =~= seq![advance(s, e).1]);
}

/// Two events are answered by the engine's rule, applied twice.
pub proof fn lemma_replay_two(s: WalkerView, e1: EventView, e2: EventView)
    ensures
        state_after(s, seq![e1, e2]) == advance(advance(s, e1).0, e2).0,
        answers(s, seq![e1, e2]) == seq![advance(s, e1).1, advance(advance(s, e1).0, e2).1],
{
    assert(seq![e1, e2] =~= seq![e1] + seq![e2]);
    lemma_replay_one(s, e1);
    lemma_replay_one(advance(s, e1).0, e2);
    lemma_replay_concat(s, seq![e1], seq![e2]);
    assert(answers(s, seq![e1, e2]) =~= seq![
        advance(s, e1).1,
        advance(advance(s, e1).0, e2).1,
    ]);
}

/// The transfers among one action.
pub proof fn lemma_transfers_in_one(a: ActionView)
    ensures
        transfers_in(seq![a]) == if is_transfer(a) {
            seq![a]
        } else {
            Seq::empty()
        },
{
    let one = seq![a];
    assert(one.drop_first() =~= Seq::<ActionView>::empty());
    assert(transfers_in(one.drop_first()) =~= Seq::<ActionView>::empty());
    if is_transfer(a) {
        assert(transfers_in(one) =~= seq![a]);
    }
}

/// The transfers among two actions.
pub proof fn lemma_transfers_in_two(a: ActionView, b: ActionView)
    ensures
        transfers_in(seq![a, b]) == transfers_in(seq![a]) + transfers_in(seq![b]),
{
    assert(seq![a, b] =~= seq![a] + seq![b]);
    lemma_transfers_in_concat(seq![a], seq![b]);
}

/// A listing, walked to its end. While a driver that meets no failure
/// reports on `entries` from position `from` on, the engine asks for
/// exactly the transfers that are due, in their order, never gives up, and
/// leaves the listing when it ends.
pub proof fn lemma_listing(s: WalkerView, entries: Seq<(Seq<char>, Node)>, from: int)
    requires
        s.phase == Phase::Listing,
        0 <= from <= entries.len(),
    ensures
        state_after(s, reports(entries, from, s.config)) == left(s),
        transfers_in(answers(s, reports(entries, from, s.config))) == transfers(
            entries,
            from,
            s.trail,
            s.config,
            s.copy,
        ),
        unbroken(answers(s, reports(entries, from, s.config))),
    decreases entries, entries.len() - from,
{
    let c = s.config;
    if from == entries.len() {
        lemma_replay_one(s, EventView::End);
        lemma_transfers_in_one(advance(s, EventView::End).1);
        assert(transfers(entries, from, s.trail, c, s.copy) =~= Seq::<ActionView>::empty());
    } else {
        let name = entries[from].0;
        let rest = reports(entries, from + 1, c);
        let due_rest = transfers(entries, from + 1, s.trail, c, s.copy);
        lemma_listing(s, entries, from + 1);
        match entries[from].1 {
            Node::File => {
                let entry = EventView::Entry { name, kind: EntryKind::File };
                if admits(c.extensions, name) {
                    let own = seq![entry, EventView::Done];
                    lemma_replay_two(s, entry, EventView::Done);
                    let back = advance(advance(s, entry).0, EventView::Done).0;
                    assert(back == s);
                    lemma_replay_concat(s, own, rest);
                    lemma_transfers_in_two(transfer(s.trail, name, s.copy), ActionView::Next);
                    lemma_transfers_in_one(transfer(s.trail, name, s.copy));
                    lemma_transfers_in_one(ActionView::Next);
                    lemma_transfers_in_concat(answers(s, own), answers(s, rest));
                    lemma_unbroken_concat(answers(s, own), answers(s, rest));
                    assert(transfers_in(answers(s, own)) =~= seq![
                        transfer(s.trail, name, s.copy),
                    ]);
                } else {
                    let own = seq![entry];
                    lemma_replay_one(s, entry);
                    lemma_replay_concat(s, own, rest);
                    lemma_transfers_in_one(ActionView::Next);
                    lemma_transfers_in_concat(answers(s, own), answers(s, rest));
                    lemma_unbroken_concat(answers(s, own), answers(s, rest));
                    assert(Seq::<ActionView>::empty() + due_rest =~= due_rest);
                }
            },
            Node::Other => {
                let entry = EventView::Entry { name, kind: EntryKind::Other };
                let own = seq![entry];
                lemma_replay_one(s, entry);
                lemma_replay_concat(s, own, rest);
                lemma_transfers_in_one(ActionView::Next);
                lemma_transfers_in_concat(answers(s, own), answers(s, rest));
                lemma_unbroken_concat(answers(s, own), answers(s, rest));
                assert(Seq::<ActionView>::empty() + due_rest =~= due_rest);
            },
            Node::Directory { entries: inner } => {
                let entry = EventView::Entry { name, kind: EntryKind::Directory };
                if c.recursive {
                    let head = seq![entry, EventView::Done];
                    let below = reports(inner, 0, c);
                    lemma_replay_two(s, entry, EventView::Done);
                    let inside = advance(advance(s, entry).0, EventView::Done).0;
                    assert(inside == (WalkerView { trail: s.trail.push(name), ..s }));
                    lemma_listing(inside, inner, 0);
                    assert(inside.trail.drop_last() =~= s.trail);
                    assert(left(inside) == s);
                    lemma_replay_concat(s, head, below);
                    lemma_replay_concat(s, head + below, rest);
                    let opened = ActionView::Open { dir: s.trail.push(name) };
                    lemma_transfers_in_two(opened, ActionView::Next);
                    lemma_transfers_in_one(opened);
                    lemma_transfers_in_one(ActionView::Next);
                    lemma_transfers_in_concat(answers(s, head), answers(inside, below));
                    lemma_transfers_in_concat(answers(s, head + below), answers(s, rest));
                    lemma_unbroken_concat(answers(s, head), answers(inside, below));
                    lemma_unbroken_concat(answers(s, head + below), answers(s, rest));
                    assert(transfers_in(answers(s, head)) =~= Seq::<ActionView>::empty());
                    assert(transfers_in(answers(s, head + below)) =~= transfers(
                        inner,
                        0,
                        s.trail.push(name),
                        c,
                        s.copy,
                    ));
                } else {
                    let own = seq![entry];
                    lemma_replay_one(s, entry);
                    lemma_replay_concat(s, own, rest);
                    lemma_transfers_in_one(ActionView::Next);
                    lemma_transfers_in_concat(answers(s, own), answers(s, rest));
                    lemma_unbroken_concat(answers(s, own), answers(s, rest));
                    assert(Seq::<ActionView>::empty() + due_rest =~= due_rest);
                }
            },
        }
    }
}

/// A whole run without failure. Whether the destination directory is
/// missing or there, the engine asks for exactly the transfers that are due
/// for the source tree, in their order, never gives up, and ends the run
/// with `Finish`. Where the destination is missing, the first thing it asks
/// for is that the directory be created.
pub proof fn law_whole_run(c: ConfigView, copy: bool, root: Seq<(Seq<char>, Node)>, missing: bool)
    ensures
        state_after(initial(c, copy), run_reports(missing, root, c)) == (WalkerView {
            phase: Phase::Finished,
            ..initial(c, copy)
        }),
        transfers_in(answers(initial(c, copy), run_reports(missing, root, c))) == transfers(
            root,
            0,
            Seq::empty(),
            c,
            copy,
        ),
        unbroken(answers(initial(c, copy), run_reports(missing, root, c))),
        answers(initial(c, copy), run_reports(missing, root, c)).last() == ActionView::Finish,
        missing ==> answers(initial(c, copy), run_reports(missing, root, c))[0]
            == ActionView::CreateDestination,
{
    let start = initial(c, copy);
    let listing = WalkerView { phase: Phase::Listing, ..start };
    let below = reports(root, 0, c);
    lemma_listing(listing, root, 0);
    lemma_ends_with_finish(listing, root, 0);
    let opened = ActionView::Open { dir: Seq::<Seq<char>>::empty() };
    if missing {
        let found = EventView::Found { what: Found::Missing };
        let head = seq![found, EventView::Done, EventView::Done];
        assert(head =~= seq![found, EventView::Done] + seq![EventView::Done]);
        lemma_replay_two(start, found, EventView::Done);
        let opening = WalkerView { phase: Phase::Opening, ..start };
        lemma_replay_one(opening, EventView::Done);
        lemma_replay_concat(start, seq![found, EventView::Done], seq![EventView::Done]);
        let asked = answers(start, head);
        assert(asked =~= seq![ActionView::CreateDestination, opened, ActionView::Next]);
        assert(asked =~= seq![ActionView::CreateDestination, opened] + seq![ActionView::Next]);
        lemma_transfers_in_two(ActionView::CreateDestination, opened);
        lemma_transfers_in_one(ActionView::CreateDestination);
        lemma_transfers_in_one(opened);
        lemma_transfers_in_one(ActionView::Next);
        lemma_transfers_in_concat(
            seq![ActionView::CreateDestination, opened],
            seq![ActionView::Next],
        );
        assert(transfers_in(asked) =~= Seq::<ActionView>::empty());
        lemma_replay_concat(start, head, below);
        lemma_transfers_in_concat(asked, answers(listing, below));
        lemma_unbroken_concat(asked, answers(listing, below));
        assert(transfers_in(asked) + transfers_in(answers(listing, below)) =~= transfers_in(
            answers(listing, below),
        ));
    } else {
        let found = EventView::Found { what: Found::Directory };
        let head = seq![found, EventView::Done];
        lemma_replay_two(start, found, EventView::Done);
        let asked = answers(start, head);
        assert(asked =~= seq![opened, ActionView::Next]);
        lemma_transfers_in_two(opened, ActionView::Next);
        lemma_transfers_in_one(opened);
        lemma_transfers_in_one(ActionView::Next);
        assert(transfers_in(asked) =~= Seq::<ActionView>::empty());
        lemma_replay_concat(start, head, below);
        lemma_transfers_in_concat(asked, answers(listing, below));
        lemma_unbroken_concat(asked, answers(listing, below));
        assert(transfers_in(asked) + transfers_in(answers(listing, below)) =~= transfers_in(
            answers(listing, below),
        ));
    }
}

/// The last answer to the reports on the source directory's own listing is
/// `Finish`, and that of any other listing is `Next`.
pub proof fn lemma_ends_with_finish(s: WalkerView, entries: Seq<(Seq<char>, Node)>, from: int)
    requires
        s.phase == Phase::Listing,
        0 <= from <= entries.len(),
    ensures
        reports(entries, from, s.config).len() > 0,
        answers(s, reports(entries, from, s.config)).len() == reports(
            entries,
            from,
            s.config,
        ).len(),
        answers(s, reports(entries, from, s.config)).last() == if s.trail.len() == 0 {
            ActionView::Finish
        } else {
            ActionView::Next
        },
    decreases entries.len() - from,
{
    let c = s.config;
    let all = reports(entries, from, c);
    if from == entries.len() {
        lemma_replay_one(s, EventView::End);
    } else {
        let rest = reports(entries, from + 1, c);
        lemma_ends_with_finish(s, entries, from + 1);
        lemma_own_reports(s, entries, from);
        let own = all.take(all.len() - rest.len());
        assert(all =~= own + rest);
        lemma_replay_concat(s, own, rest);
        lemma_answers_len(s, own);
        lemma_answers_len(s, all);
    }
}

/// Every event gets one answer.
pub proof fn lemma_answers_len(s: WalkerView, events: Seq<EventView>)
    ensures
        answers(s, events).len() == events.len(),
    decreases events.len(),
{
    if events.len() > 0 {
        lemma_answers_len(advance(s, events[0]).0, events.drop_first());
    }
}

/// After the reports on one entry, and on what lies below it, the engine
/// is back where it was.
pub proof fn lemma_own_reports(s: WalkerView, entries: Seq<(Seq<char>, Node)>, from: int)
    requires
        s.phase == Phase::Listing,
        0 <= from < entries.len(),
    ensures
        ({
            let all = reports(entries, from, s.config);
            let rest = reports(entries, from + 1, s.config);
            &&& rest.len() <= all.len()
            &&& all.subrange(all.len() - rest.len(), all.len() as int) == rest
            &&& state_after(s, all.take(all.len() - rest.len())) == s
        }),
{
    let c = s.config;
    let name = entries[from].0;
    let all = reports(entries, from, c);
    let rest = reports(entries, from + 1, c);
    match entries[from].1 {
        Node::File => {
            let entry = EventView::Entry { name, kind: EntryKind::File };
            if admits(c.extensions, name) {
                let own = seq![entry, EventView::Done];
                lemma_replay_two(s, entry, EventView::Done);
                assert(all =~= own + rest);
                assert(all.take(all.len() - rest.len()) =~= own);
                assert(all.subrange(all.len() - rest.len(), all.len() as int) =~= rest);
            } else {
                let own = seq![entry];
                lemma_replay_one(s, entry);
                assert(all.take(all.len() - rest.len()) =~= own);
                assert(all.subrange(all.len() - rest.len(), all.len() as int) =~= rest);
            }
        },
        Node::Other => {
            let entry = EventView::Entry { name, kind: EntryKind::Other };
            let own = seq![entry];
            lemma_replay_one(s, entry);
            assert(all.take(all.len() - rest.len()) =~= own);
            assert(all.subrange(all.len() - rest.len(), all.len() as int) =~= rest);
        },
        Node::Directory { entries: inner } => {
            let entry = EventView::Entry { name, kind: EntryKind::Directory };
            if c.recursive {
                let head = seq![entry, EventView::Done];
                let below = reports(inner, 0, c);
                lemma_replay_two(s, entry, EventView::Done);
                let inside = WalkerView { trail: s.trail.push(name), ..s };
                lemma_listing(inside, inner, 0);
                assert(inside.trail.drop_last() =~= s.trail);
                lemma_replay_concat(s, head, below);
                assert(all.take(all.len() - rest.len()) =~= head + below);
                assert(all.subrange(all.len() - rest.len(), all.len() as int) =~= rest);
            } else {
                let own = seq![entry];
                lemma_replay_one(s, entry);
                assert(all.take(all.len() - rest.len()) =~= own);
                assert(all.subrange(all.len() - rest.len(), all.len() as int) =~= rest);
            }
        },
    }
}

/// An invalid destination ends the run at once. Where something that is no
/// directory stands at the destination path, the engine gives up with
/// `InvalidDestination`, and whatever it is told after that, it asks for
/// nothing any more: every further answer is `Abort`.
pub proof fn law_invalid_destination(c: ConfigView, copy: bool, later: Seq<EventView>)
    ensures
        ({
            let found = seq![EventView::Found { what: Found::Other }];
            let asked = answers(initial(c, copy), found + later);
            &&& asked.len() == 1 + later.len()
            &&& asked[0] == ActionView::Abort {
                error: TransferErrorView::InvalidDestination { path: c.destination },
            }
            &&& forall|i: int| 0 <= i < asked.len() ==> #[trigger] asked[i] is Abort
            &&& state_after(initial(c, copy), found + later).phase == Phase::Finished
        }),
{
    let start = initial(c, copy);
    let found = seq![EventView::Found { what: Found::Other }];
    let over = WalkerView { phase: Phase::Finished, ..start };
    lemma_replay_one(start, EventView::Found { what: Found::Other });
    lemma_replay_concat(start, found, later);
    law_finished_stays(over, later);
    let asked = answers(start, found + later);
    assert forall|i: int| 0 <= i < asked.len() implies #[trigger] asked[i] is Abort by {
        if i > 0 {
            assert(asked[i] == answers(over, later)[i - 1]);
        }
    }
}

/// A run that is over stays over: the engine answers every further event
/// with `Abort`, and its state does not change.
pub proof fn law_finished_stays(s: WalkerView, events: Seq<EventView>)
    requires
        s.phase == Phase::Finished,
    ensures
        state_after(s, events) == s,
        answers(s, events).len() == events.len(),
        forall|i: int|
            0 <= i < events.len() ==> #[trigger] answers(s, events)[i] == (ActionView::Abort {
                error: TransferErrorView::Unexpected,
            }),
    decreases events.len(),
{
    if events.len() > 0 {
        assert(advance(s, events[0]).0 == s);
        law_finished_stays(s, events.drop_first());
        let asked = answers(s, events);
        assert forall|i: int| 0 <= i < events.len() implies #[trigger] asked[i] == (
        ActionView::Abort { error: TransferErrorView::Unexpected }) by {
            if i > 0 {
                assert(asked[i] == answers(s, events.drop_first())[i - 1]);
            }
        }
    }
}

/// The wildcard admits every name, whatever its extension, and a name
/// without extension too.
pub proof fn law_wildcard_admits_all(allowed: Set<Seq<char>>, name: Seq<char>)
    requires
        allowed.contains(wildcard()),
    ensures
        admits(allowed, name),
{
}

/// The empty allow-set admits no name.
pub proof fn law_empty_set_admits_none(name: Seq<char>)
    ensures
        !admits(Set::empty(), name),
{
}

/// A run that is not recursive opens no directory but the source directory
/// itself and transfers no file but from there: from a state with an empty
/// trail, whatever the driver reports, every directory that the engine names
/// in an action is the source directory.
pub proof fn law_flat_run_stays_on_top(s: WalkerView, events: Seq<EventView>)
    requires
        !s.config.recursive,
        s.trail.len() == 0,
    ensures
        state_after(s, events).trail.len() == 0,
        forall|i: int|
            0 <= i < answers(s, events).len() ==> match #[trigger] answers(s, events)[i] {
                ActionView::Open { dir } => dir.len() == 0,
                ActionView::Copy { dir, name } => dir.len() == 0,
                ActionView::Move { dir, name } => dir.len() == 0,
                _ => true,
            },
    decreases events.len(),
{
    if events.len() > 0 {
        let next = advance(s, events[0]).0;
        assert(next.trail.len() == 0);
        law_flat_run_stays_on_top(next, events.drop_first());
        let asked = answers(s, events);
        assert forall|i: int| 0 <= i < asked.len() implies match #[trigger] asked[i] {
            ActionView::Open { dir } => dir.len() == 0,
            ActionView::Copy { dir, name } => dir.len() == 0,
            ActionView::Move { dir, name } => dir.len() == 0,
            _ => true,
        } by {
            if i > 0 {
                assert(asked[i] == answers(next, events.drop_first())[i - 1]);
            }
        }
    }
}

/// Every file that is due is asked for: a regular file that stands in
/// `entries` from `from` on, or below them in a recursive run, and whose
/// name the allow-set admits.
pub proof fn lemma_due_is_asked(
    entries: Seq<(Seq<char>, Node)>,
    from: int,
    trail: Seq<Seq<char>>,
    c: ConfigView,
    copy: bool,
    dir: Seq<Seq<char>>,
    name: Seq<char>,
)
    requires
        0 <= from,
        holds_file(entries, from, dir, name),
        admits(c.extensions, name),
        c.recursive || dir.len() == 0,
    ensures
        transfers(entries, from, trail, c, copy).contains(transfer(trail + dir, name, copy)),
    decreases entries, entries.len() - from,
{
    let all = transfers(entries, from, trail, c, copy);
    let rest = transfers(entries, from + 1, trail, c, copy);
    let wanted = transfer(trail + dir, name, copy);
    let here = if dir.len() == 0 {
        entries[from] == (name, Node::File)
    } else {
        entries[from].0 == dir[0] && entries[from].1 is Directory && holds_file(
            entries[from].1->entries,
            0,
            dir.drop_first(),
            name,
        )
    };
    if here {
        if dir.len() == 0 {
            assert(trail + dir =~= trail);
            assert(all[0] == wanted);
        } else {
            let inner = entries[from].1->entries;
            let below = transfers(inner, 0, trail.push(dir[0]), c, copy);
            lemma_due_is_asked(inner, 0, trail.push(dir[0]), c, copy, dir.drop_first(), name);
            assert(trail.push(dir[0]) + dir.drop_first() =~= trail + dir);
            let k = choose|k: int| 0 <= k < below.len() && below[k] == wanted;
            assert(all[k] == wanted);
        }
    } else {
        assert(holds_file(entries, from + 1, dir, name)) by {
            if dir.len() == 0 {
                let i = choose|i: int|
                    from <= i < entries.len() && 0 <= i && #[trigger] entries[i] == (
                        name,
                        Node::File,
                    );
                assert(from + 1 <= i);
            } else {
                let i = choose|i: int|
                    from <= i < entries.len() && 0 <= i && (#[trigger] entries[i]).0 == dir[0]
                        && entries[i].1 is Directory && holds_file(
                        entries[i].1->entries,
                        0,
                        dir.drop_first(),
                        name,
                    );
                assert(from + 1 <= i);
            }
        }
        lemma_due_is_asked(entries, from + 1, trail, c, copy, dir, name);
        let k = choose|k: int| 0 <= k < rest.len() && rest[k] == wanted;
        assert(all[all.len() - rest.len() + k] == wanted);
    }
}

/// Every transfer that is asked for is that of a file that is due: the
/// result names its directory below `trail`, and the file.
pub proof fn lemma_asked_is_due(
    entries: Seq<(Seq<char>, Node)>,
    from: int,
    trail: Seq<Seq<char>>,
    c: ConfigView,
    copy: bool,
    k: int,
) -> (found: (Seq<Seq<char>>, Seq<char>))
    requires
        0 <= from,
        0 <= k < transfers(entries, from, trail, c, copy).len(),
    ensures
        transfers(entries, from, trail, c, copy)[k] == transfer(trail + found.0, found.1, copy),
        holds_file(entries, from, found.0, found.1),
        admits(c.extensions, found.1),
        c.recursive || found.0.len() == 0,
    decreases entries, entries.len() - from,
{
    let all = transfers(entries, from, trail, c, copy);
    let rest = transfers(entries, from + 1, trail, c, copy);
    let own = all.len() - rest.len();
    let name = entries[from].0;
    if k < own {
        match entries[from].1 {
            Node::Directory { entries: inner } => {
                let below = lemma_asked_is_due(inner, 0, trail.push(name), c, copy, k);
                let dir = seq![name] + below.0;
                assert(trail.push(name) + below.0 =~= trail + dir);
                assert(dir.drop_first() =~= below.0);
                assert(entries[from].0 == dir[0]);
                (dir, below.1)
            },
            _ => {
                let dir = Seq::<Seq<char>>::empty();
                assert(trail + dir =~= trail);
                assert(entries[from] == (name, Node::File));
                (dir, name)
            },
        }
    } else {
        let found = lemma_asked_is_due(entries, from + 1, trail, c, copy, k - own);
        assert(holds_file(entries, from, found.0, found.1)) by {
            if found.0.len() == 0 {
                let i = choose|i: int|
                    from + 1 <= i < entries.len() && 0 <= i && #[trigger] entries[i] == (
                        found.1,
                        Node::File,
                    );
                assert(from <= i);
            } else {
                let i = choose|i: int|
                    from + 1 <= i < entries.len() && 0 <= i && (#[trigger] entries[i]).0
                        == found.0[0] && entries[i].1 is Directory && holds_file(
                        entries[i].1->entries,
                        0,
                        found.0.drop_first(),
                        found.1,
                    );
                assert(from <= i);
            }
        }
        found
    }
}

/// Which files a run transfers. The transfers that are due for the source
/// directory `root` are those of the files that are due, and no others: a
/// file is transferred if and only if it is a regular file of the tree, the
/// allow-set admits its name, and it stands in the source directory itself
/// or the run is recursive, at whatever depth. Every transfer is a copy in
/// a copying run and a move in a moving run, and all of them land in the
/// one destination directory, under the file's bare name.
pub proof fn law_transfers_are_the_due_files(root: Seq<(Seq<char>, Node)>, c: ConfigView, copy: bool)
    ensures
        forall|dir: Seq<Seq<char>>, name: Seq<char>|
            transfers(root, 0, Seq::empty(), c, copy).contains(
                #[trigger] transfer(dir, name, copy),
            ) <==> due(root, c, dir, name),
        forall|k: int|
            0 <= k < transfers(root, 0, Seq::empty(), c, copy).len() ==> {
                let asked = #[trigger] transfers(root, 0, Seq::empty(), c, copy)[k];
                if copy {
                    asked is Copy
                } else {
                    asked is Move
                }
            },
{
    let top = Seq::<Seq<char>>::empty();
    let all = transfers(root, 0, top, c, copy);
    assert forall|dir: Seq<Seq<char>>, name: Seq<char>|
        all.contains(#[trigger] transfer(dir, name, copy)) <==> due(root, c, dir, name) by {
        if due(root, c, dir, name) {
            lemma_due_is_asked(root, 0, top, c, copy, dir, name);
            assert(top + dir =~= dir);
        }
        if all.contains(transfer(dir, name, copy)) {
            let k = choose|k: int| 0 <= k < all.len() && all[k] == transfer(dir, name, copy);
            let found = lemma_asked_is_due(root, 0, top, c, copy, k);
            assert(top + found.0 =~= found.0);
            assert(found.0 == dir && found.1 == name);
        }
    }
    assert forall|k: int| 0 <= k < all.len() implies {
        let asked = #[trigger] all[k];
        if copy {
            asked is Copy
        } else {
            asked is Move
        }
    } by {
        let found = lemma_asked_is_due(root, 0, top, c, copy, k);
    }
}

/// What the transfers among `actions` leave under a name in the destination
/// directory: where one of them writes the name, what it leaves does not
/// depend on what the directory held before; where none does, the name is
/// as it was.
pub proof fn lemma_landed(
    first: Map<Seq<char>, (Seq<Seq<char>>, Seq<char>)>,
    second: Map<Seq<char>, (Seq<Seq<char>>, Seq<char>)>,
    actions: Seq<ActionView>,
    name: Seq<char>,
)
    ensures
        writes(actions, name) ==> landed(first, actions).contains_key(name) && landed(
            second,
            actions,
        ).contains_key(name) && landed(first, actions)[name] == landed(second, actions)[name],
        !writes(actions, name) ==> (landed(first, actions).contains_key(name)
            <==> first.contains_key(name)) && landed(first, actions)[name] == first[name],
    decreases actions.len(),
{
    if actions.len() > 0 {
        lemma_landed(first, second, actions.drop_last(), name);
    }
}

/// Copying twice is copying once. Carrying out the same transfers a second
/// time leaves the destination directory holding, under every name, what it
/// held after the first time.
pub proof fn law_transfers_twice(
    before: Map<Seq<char>, (Seq<Seq<char>>, Seq<char>)>,
    actions: Seq<ActionView>,
)
    ensures
        landed(landed(before, actions), actions) == landed(before, actions),
{
    let once = landed(before, actions);
    let twice = landed(once, actions);
    assert forall|name: Seq<char>| #[trigger]
        twice.dom().contains(name) <==> once.dom().contains(name) by {
        lemma_landed(once, before, actions, name);
    }
    assert forall|name: Seq<char>| twice.dom().contains(name) implies #[trigger] twice[name]
        == once[name] by {
        lemma_landed(once, before, actions, name);
    }
    assert(twice =~= once);
}

/// Where one of `actions` writes a name, what lands under it is the file of
/// one of the transfers among them, under its own bare name.
pub proof fn lemma_landed_origin(
    before: Map<Seq<char>, (Seq<Seq<char>>, Seq<char>)>,
    actions: Seq<ActionView>,
    name: Seq<char>,
    copy: bool,
)
    requires
        writes(actions, name),
        forall|k: int|
            0 <= k < actions.len() ==> if copy {
                #[trigger] actions[k] is Copy
            } else {
                actions[k] is Move
            },
    ensures
        landed(before, actions).contains_key(name),
        actions.contains(transfer(landed(before, actions)[name].0, name, copy)),
        landed(before, actions)[name].1 == name,
    decreases actions.len(),
{
    let front = actions.drop_last();
    let last = actions.last();
    let hit = match last {
        ActionView::Copy { dir, name: written } => written == name,
        ActionView::Move { dir, name: written } => written == name,
        _ => false,
    };
    assert(actions[actions.len() - 1] == last);
    if hit {
        assert(last == transfer(landed(before, actions)[name].0, name, copy));
    } else {
        assert forall|k: int| 0 <= k < front.len() implies if copy {
            #[trigger] front[k] is Copy
        } else {
            front[k] is Move
        } by {
            assert(front[k] == actions[k]);
        }
        lemma_landed_origin(before, front, name, copy);
        let wanted = transfer(landed(before, front)[name].0, name, copy);
        let k = choose|k: int| 0 <= k < front.len() && front[k] == wanted;
        assert(actions[k] == wanted);
        assert(landed(before, actions)[name] == landed(before, front)[name]);
    }
}

/// Whether one of `actions` writes a name is whether a transfer of a file
/// of that name is among them.
pub proof fn lemma_writes(actions: Seq<ActionView>, dir: Seq<Seq<char>>, name: Seq<char>, copy: bool)
    requires
        actions.contains(transfer(dir, name, copy)),
    ensures
        writes(actions, name),
    decreases actions.len(),
{
    let k = choose|k: int| 0 <= k < actions.len() && actions[k] == transfer(dir, name, copy);
    if k < actions.len() - 1 {
        let front = actions.drop_last();
        assert(front[k] == transfer(dir, name, copy));
        lemma_writes(front, dir, name, copy);
    }
}

/// What the destination directory holds after a run over the source
/// directory `root`, where it held `before`. Under the bare name of a file
/// that is due, in whatever directory of the tree, it holds a file of that
/// name that is due. Under a name of which no file is due, because there is
/// none in reach or because the allow-set does not admit it, it holds what
/// it held before, or nothing as before.
pub proof fn law_destination_after_run(
    root: Seq<(Seq<char>, Node)>,
    c: ConfigView,
    copy: bool,
    before: Map<Seq<char>, (Seq<Seq<char>>, Seq<char>)>,
    name: Seq<char>,
)
    ensures
        ({
            let after = landed(before, transfers(root, 0, Seq::empty(), c, copy));
            if exists|dir: Seq<Seq<char>>| due(root, c, dir, name) {
                &&& after.contains_key(name)
                &&& after[name].1 == name
                &&& due(root, c, after[name].0, name)
            } else {
                &&& after.contains_key(name) <==> before.contains_key(name)
                &&& after[name] == before[name]
            }
        }),
{
    let asked = transfers(root, 0, Seq::empty(), c, copy);
    let after = landed(before, asked);
    law_transfers_are_the_due_files(root, c, copy);
    if exists|dir: Seq<Seq<char>>| due(root, c, dir, name) {
        let dir = choose|dir: Seq<Seq<char>>| due(root, c, dir, name);
        assert(asked.contains(transfer(dir, name, copy)));
        lemma_writes(asked, dir, name, copy);
        lemma_landed_origin(before, asked, name, copy);
        assert(asked.contains(transfer(after[name].0, name, copy)));
    } else {
        if writes(asked, name) {
            lemma_landed_origin(before, asked, name, copy);
            assert(asked.contains(transfer(after[name].0, name, copy)));
            assert(due(root, c, after[name].0, name));
        }
        lemma_landed(before, before, asked, name);
    }
}

/// The first failure ends the run. Whatever the engine waits for, a failure
/// that the driver reports is answered with `Abort` and the driver's own
/// account of it, and nothing is asked for after that: no retry, no other
/// file, no other directory.
pub proof fn law_failure_ends_run(s: WalkerView, message: Seq<char>, later: Seq<EventView>)
    requires
        s.phase != Phase::Finished,
    ensures
        ({
            let failed = seq![EventView::Failed { message }];
            let asked = answers(s, failed + later);
            &&& asked.len() == 1 + later.len()
            &&& asked[0] == ActionView::Abort { error: TransferErrorView::Io { message } }
            &&& forall|i: int| 0 <= i < asked.len() ==> #[trigger] asked[i] is Abort
            &&& state_after(s, failed + later).phase == Phase::Finished
        }),
{
    let failed = seq![EventView::Failed { message }];
    let over = WalkerView { phase: Phase::Finished, ..s };
    lemma_replay_one(s, EventView::Failed { message });
    lemma_replay_concat(s, failed, later);
    law_finished_stays(over, later);
    let asked = answers(s, failed + later);
    assert forall|i: int| 0 <= i < asked.len() implies #[trigger] asked[i] is Abort by {
        if i > 0 {
            assert(asked[i] == answers(over, later)[i - 1]);
        }
    }
}

} // verus!
