//! The commands in progress, and how an event passes along them.
//!
//! An event is offered to one command after the other until one consumes it.
//! A command that is done leaves the list, and the last command takes its
//! place; the walk then goes on at the same place, so that no command is
//! passed over.

use vstd::prelude::*;
use vstd::seq_lib::*;

verus! {

/// The commands in progress.
pub struct ActiveCommands<C> {
    commands: Vec<C>,
}

impl<C> View for ActiveCommands<C> {
    type V = Seq<C>;

    closed spec fn view(&self) -> Seq<C> {
        self.commands@
    }
}

/// The list without the item at `at`, whose place the last item takes.
pub open spec fn swap_removed<C>(commands: Seq<C>, at: int) -> Seq<C> {
    commands.update(at, commands.last()).drop_last()
}

/// The list after the command at `at` answered whether it stays, and where the
/// walk goes on.
pub open spec fn settled<C>(commands: Seq<C>, at: int, keep: bool) -> (Seq<C>, int) {
    if keep {
        (commands, at + 1)
    } else {
        (swap_removed(commands, at), at)
    }
}

/// The commands whose flag is not set, in their order.
pub open spec fn unflagged<C>(commands: Seq<C>, flags: Seq<bool>) -> Seq<C>
    decreases commands.len(),
{
    if commands.len() == 0 {
        Seq::empty()
    } else {
        let rest = unflagged(commands.drop_last(), flags.drop_last());
        if flags.last() {
            rest
        } else {
            rest.push(commands.last())
        }
    }
}

impl<C> ActiveCommands<C> {
    /// No command is in progress.
    pub fn new() -> (active: Self)
        ensures
            active@ == Seq::<C>::empty(),
    {
        ActiveCommands { commands: Vec::new() }
    }

    /// Adds a command at the end.
    pub fn push(&mut self, command: C)
        ensures
            final(self)@ == old(self)@.push(command),
    {
        self.commands.push(command);
    }

    /// How many commands are in progress.
    pub fn len(&self) -> (len: usize)
        ensures
            len == self@.len(),
    {
        self.commands.len()
    }

    /// The command at `at`.
    pub fn get(&self, at: usize) -> (command: &C)
        requires
            at < self@.len(),
        ensures
            *command == self@[at as int],
    {
        &self.commands[at]
    }

    /// The command at `at`, to be changed.
    pub fn get_mut(&mut self, at: usize) -> (command: &mut C)
        requires
            at < old(self)@.len(),
        ensures
            *command == old(self)@[at as int],
            final(self)@ == old(self)@.update(at as int, *final(command)),
    {
        &mut self.commands[at]
    }

    /// Forgets the commands that their callers cancelled; `cancelled` says of
    /// each command whether it is one.
    pub fn retain_uncancelled(&mut self, cancelled: &Vec<bool>)
        requires
            cancelled@.len() == old(self)@.len(),
        ensures
            final(self)@ == unflagged(old(self)@, cancelled@),
    {
        let ghost before = self.commands@;
        let mut seen: usize = 0;
        let mut at: usize = 0;
        assert(before.skip(0) =~= before);
        assert(unflagged(before.take(0), cancelled@.take(0)) =~= Seq::<C>::empty());
        while seen < cancelled.len()
            invariant
                seen <= cancelled@.len(),
                cancelled@.len() == before.len(),
                at == unflagged(before.take(seen as int), cancelled@.take(seen as int)).len(),
                self.commands@ == unflagged(
                    before.take(seen as int),
                    cancelled@.take(seen as int),
                ) + before.skip(seen as int),
            decreases cancelled@.len() - seen,
        {
            let ghost kept = unflagged(before.take(seen as int), cancelled@.take(seen as int));
            proof {
                assert(before.take(seen + 1).drop_last() =~= before.take(seen as int));
                assert(cancelled@.take(seen + 1).drop_last() =~= cancelled@.take(seen as int));
                assert(before.skip(seen as int) =~= seq![before[seen as int]] + before.skip(
                    seen + 1,
                ));
            }
            if cancelled[seen] {
                let _ = self.commands.remove(at);
                assert(self.commands@ =~= kept + before.skip(seen + 1));
            } else {
                assert(at < self.commands.len());
                at = at + 1;
                assert(self.commands@ =~= kept.push(before[seen as int]) + before.skip(seen + 1));
            }
            seen = seen + 1;
        }
        assert(before.take(before.len() as int) =~= before);
        assert(cancelled@.take(before.len() as int) =~= cancelled@);
        assert(self.commands@ =~= unflagged(before, cancelled@));
    }

    /// Where an event is offered next: at `cursor`, unless the event is gone
    /// or the list is at its end.
    pub fn next_offer(&self, cursor: usize, event_left: bool) -> (at: Option<usize>)
        ensures
            at == if event_left && cursor < self@.len() {
                Some(cursor)
            } else {
                None::<usize>
            },
    {
        if event_left && cursor < self.commands.len() {
            Some(cursor)
        } else {
            None
        }
    }

    /// Takes note of the answer of the command at `at`: it stays, or it is
    /// done and leaves. Says where the walk goes on.
    pub fn settle_offer(&mut self, at: usize, keep: bool) -> (next: usize)
        requires
            at < old(self)@.len(),
        ensures
            (final(self)@, next as int) == settled(old(self)@, at as int, keep),
    {
        if keep {
            assert(at < self.commands.len());
            at + 1
        } else {
            let _ = self.commands.swap_remove(at);
            assert(self.commands@ =~= swap_removed(old(self)@, at as int));
            at
        }
    }
}

/// A cancelled command leaves: whatever is kept was not flagged.
pub proof fn flagged_commands_leave<C>(commands: Seq<C>, flags: Seq<bool>, i: int)
    requires
        flags.len() == commands.len(),
        0 <= i < unflagged(commands, flags).len(),
    ensures
        exists|j: int|
            0 <= j < commands.len() && !flags[j] && #[trigger] commands[j] == unflagged(
                commands,
                flags,
            )[i],
    decreases commands.len(),
{
    let rest = unflagged(commands.drop_last(), flags.drop_last());
    if i < rest.len() {
        flagged_commands_leave(commands.drop_last(), flags.drop_last(), i);
        let j = choose|j: int|
            0 <= j < commands.len() - 1 && !flags.drop_last()[j]
                && #[trigger] commands.drop_last()[j] == rest[i];
        assert(commands[j] == unflagged(commands, flags)[i]);
    } else {
        assert(commands[commands.len() - 1] == unflagged(commands, flags)[i]);
    }
}

/// A command that nobody cancelled stays.
pub proof fn unflagged_commands_stay<C>(commands: Seq<C>, flags: Seq<bool>, j: int)
    requires
        flags.len() == commands.len(),
        0 <= j < commands.len(),
        !flags[j],
    ensures
        unflagged(commands, flags).contains(commands[j]),
    decreases commands.len(),
{
    let rest = unflagged(commands.drop_last(), flags.drop_last());
    let all = unflagged(commands, flags);
    if j < commands.len() - 1 {
        unflagged_commands_stay(commands.drop_last(), flags.drop_last(), j);
        let i = choose|i: int| 0 <= i < rest.len() && rest[i] == commands.drop_last()[j];
        assert(all[i] == commands[j]);
    } else {
        assert(all[rest.len() as int] == commands[j]);
    }
}

/// How the commands answer an event.
#[verifier::reject_recursive_types(C)]
pub struct Answers<C> {
    /// Whether a command stays in the list.
    pub keeps: spec_fn(C) -> bool,
    /// Whether a command consumes the event.
    pub consumes: spec_fn(C) -> bool,
    /// What a command turns into as it handles the event.
    pub handled: spec_fn(C) -> C,
}

/// The walk of an event along `commands` from `cursor` on.
pub struct Walk<C> {
    /// The commands that were offered the event, in order.
    pub visited: Seq<C>,
    /// The commands in progress afterwards.
    pub left: Seq<C>,
    /// Whether a command consumed the event.
    pub consumed: bool,
}

/// The walk that offering, answering and settling spell out, one command at a time.
pub open spec fn walk<C>(commands: Seq<C>, cursor: int, answers: Answers<C>) -> Walk<C>
    decreases commands.len() - cursor,
{
    if cursor < 0 || cursor >= commands.len() {
        Walk { visited: Seq::empty(), left: commands, consumed: false }
    } else {
        let command = commands[cursor];
        let updated = commands.update(cursor, (answers.handled)(command));
        let (after, next) = settled(updated, cursor, (answers.keeps)(command));
        if (answers.consumes)(command) {
            Walk { visited: seq![command], left: after, consumed: true }
        } else {
            let rest = walk(after, next, answers);
            Walk { visited: seq![command] + rest.visited, ..rest }
        }
    }
}

/// The commands that stay, as they are after handling the event.
pub open spec fn staying<C>(commands: Seq<C>, answers: Answers<C>) -> Seq<C>
    decreases commands.len(),
{
    if commands.len() == 0 {
        Seq::empty()
    } else {
        let rest = staying(commands.drop_first(), answers);
        if (answers.keeps)(commands.first()) {
            seq![(answers.handled)(commands.first())] + rest
        } else {
            rest
        }
    }
}

/// An event that no command consumes is offered to every command exactly once.
pub proof fn unconsumed_event_reaches_all<C>(commands: Seq<C>, cursor: int, answers: Answers<C>)
    requires
        0 <= cursor <= commands.len(),
        forall|i: int| cursor <= i < commands.len() ==> !(answers.consumes)(#[trigger] commands[i]),
    ensures
        !walk(commands, cursor, answers).consumed,
        walk(commands, cursor, answers).visited.to_multiset() == commands.skip(
            cursor,
        ).to_multiset(),
    decreases commands.len() - cursor,
{
    broadcast use group_to_multiset_ensures;

    if cursor < commands.len() {
        let command = commands[cursor];
        let updated = commands.update(cursor, (answers.handled)(command));
        let tail = commands.skip(cursor + 1);
        assert(commands.skip(cursor) =~= seq![command] + tail);
        lemma_multiset_commutative(seq![command], tail);
        if (answers.keeps)(command) {
            unconsumed_event_reaches_all(updated, cursor + 1, answers);
            assert(updated.skip(cursor + 1) =~= tail);
            lemma_multiset_commutative(
                seq![command],
                walk(updated, cursor + 1, answers).visited,
            );
        } else {
            let after = swap_removed(updated, cursor);
            assert forall|i: int| cursor <= i < after.len() implies !(answers.consumes)(
                #[trigger] after[i],
            ) by {
                if i == cursor {
                    assert(after[i] == commands[commands.len() - 1]);
                } else {
                    assert(after[i] == commands[i]);
                }
            }
            unconsumed_event_reaches_all(after, cursor, answers);
            rotation_keeps_items(tail);
            assert(after.skip(cursor) =~= rotated(tail));
            lemma_multiset_commutative(seq![command], walk(after, cursor, answers).visited);
        }
    } else {
        assert(commands.skip(cursor) =~= Seq::empty());
    }
}

/// A consumed event stops at the command that consumed it: no command was
/// offered it twice, and none before the last one consumed it.
pub proof fn consumed_event_stops<C>(commands: Seq<C>, cursor: int, answers: Answers<C>)
    requires
        0 <= cursor <= commands.len(),
        walk(commands, cursor, answers).consumed,
    ensures
        walk(commands, cursor, answers).visited.len() > 0,
        (answers.consumes)(walk(commands, cursor, answers).visited.last()),
        forall|i: int|
            0 <= i < walk(commands, cursor, answers).visited.len() - 1 ==> !(answers.consumes)(
                #[trigger] walk(commands, cursor, answers).visited[i],
            ),
        walk(commands, cursor, answers).visited.to_multiset().subset_of(
            commands.skip(cursor).to_multiset(),
        ),
    decreases commands.len() - cursor,
{
    broadcast use group_to_multiset_ensures;

    let command = commands[cursor];
    let updated = commands.update(cursor, (answers.handled)(command));
    let tail = commands.skip(cursor + 1);
    let whole = walk(commands, cursor, answers);
    assert(commands.skip(cursor) =~= seq![command] + tail);
    lemma_multiset_commutative(seq![command], tail);
    if (answers.consumes)(command) {
        lemma_multiset_commutative(seq![command], Seq::<C>::empty());
        assert(whole.visited =~= seq![command] + Seq::<C>::empty());
    } else {
        let (after, next) = settled(updated, cursor, (answers.keeps)(command));
        let rest = walk(after, next, answers);
        consumed_event_stops(after, next, answers);
        if (answers.keeps)(command) {
            assert(after.skip(next) =~= tail);
        } else {
            rotation_keeps_items(tail);
            assert(after.skip(next) =~= rotated(tail));
        }
        lemma_multiset_commutative(seq![command], rest.visited);
        assert forall|i: int| 0 <= i < whole.visited.len() - 1 implies !(answers.consumes)(
            #[trigger] whole.visited[i],
        ) by {
            if i > 0 {
                assert(whole.visited[i] == rest.visited[i - 1]);
            }
        }
        assert(whole.visited.last() == rest.visited.last());
    }
}

/// After an event that no command consumed, the commands in progress are those
/// that chose to stay.
pub proof fn unconsumed_event_keeps_the_staying<C>(
    commands: Seq<C>,
    cursor: int,
    answers: Answers<C>,
)
    requires
        0 <= cursor <= commands.len(),
        forall|i: int| cursor <= i < commands.len() ==> !(answers.consumes)(#[trigger] commands[i]),
    ensures
        walk(commands, cursor, answers).left.to_multiset() == (commands.take(cursor) + staying(
            commands.skip(cursor),
            answers,
        )).to_multiset(),
    decreases commands.len() - cursor,
{
    broadcast use group_to_multiset_ensures;

    if cursor < commands.len() {
        let command = commands[cursor];
        let updated = commands.update(cursor, (answers.handled)(command));
        let tail = commands.skip(cursor + 1);
        assert(commands.skip(cursor) =~= seq![command] + tail);
        assert(commands.skip(cursor).drop_first() =~= tail);
        if (answers.keeps)(command) {
            unconsumed_event_keeps_the_staying(updated, cursor + 1, answers);
            assert(updated.skip(cursor + 1) =~= tail);
            assert(updated.take(cursor + 1) + staying(tail, answers) =~= commands.take(cursor) + (
            seq![(answers.handled)(command)] + staying(tail, answers)));
        } else {
            let after = swap_removed(updated, cursor);
            assert forall|i: int| cursor <= i < after.len() implies !(answers.consumes)(
                #[trigger] after[i],
            ) by {
                if i == cursor {
                    assert(after[i] == commands[commands.len() - 1]);
                } else {
                    assert(after[i] == commands[i]);
                }
            }
            unconsumed_event_keeps_the_staying(after, cursor, answers);
            assert(after.skip(cursor) =~= rotated(tail));
            assert(after.take(cursor) =~= commands.take(cursor));
            rotation_keeps_staying(tail, answers);
            lemma_multiset_commutative(commands.take(cursor), staying(tail, answers));
            lemma_multiset_commutative(commands.take(cursor), staying(rotated(tail), answers));
        }
    } else {
        assert(commands.take(cursor) + staying(commands.skip(cursor), answers) =~= commands);
    }
}

/// After an event, consumed or not, the commands in progress are those in front
/// of the walk, those it visited that chose to stay, and those it never came to.
pub proof fn event_keeps_the_staying_and_the_unvisited<C>(
    commands: Seq<C>,
    cursor: int,
    answers: Answers<C>,
)
    requires
        0 <= cursor <= commands.len(),
    ensures
        walk(commands, cursor, answers).visited.to_multiset().subset_of(
            commands.skip(cursor).to_multiset(),
        ),
        walk(commands, cursor, answers).left.to_multiset() == (commands.take(cursor) + staying(
            walk(commands, cursor, answers).visited,
            answers,
        )).to_multiset().add(
            commands.skip(cursor).to_multiset().sub(
                walk(commands, cursor, answers).visited.to_multiset(),
            ),
        ),
    decreases commands.len() - cursor,
{
    broadcast use group_to_multiset_ensures;

    let whole = walk(commands, cursor, answers);
    let front = commands.take(cursor);
    if cursor < commands.len() {
        let command = commands[cursor];
        let one = seq![command];
        let kept = if (answers.keeps)(command) {
            seq![(answers.handled)(command)]
        } else {
            Seq::empty()
        };
        let updated = commands.update(cursor, (answers.handled)(command));
        let tail = commands.skip(cursor + 1);
        let (after, next) = settled(updated, cursor, (answers.keeps)(command));
        assert(commands.skip(cursor) =~= one + tail);
        lemma_multiset_commutative(one, tail);
        assert(after.take(next) =~= front + kept);
        if (answers.keeps)(command) {
            assert(after.skip(next) =~= tail);
        } else {
            rotation_keeps_items(tail);
            assert(after.skip(next) =~= rotated(tail));
        }
        assert(after.skip(next).to_multiset() == tail.to_multiset());
        lemma_multiset_commutative(front, kept);
        if (answers.consumes)(command) {
            assert(one.drop_first() =~= Seq::empty());
            assert(staying(Seq::<C>::empty(), answers) =~= Seq::empty());
            assert(staying(one, answers) =~= kept);
            assert(after =~= after.take(next) + after.skip(next));
            lemma_multiset_commutative(after.take(next), after.skip(next));
            assert(commands.skip(cursor).to_multiset().sub(one.to_multiset())
                =~= tail.to_multiset());
        } else {
            let rest = walk(after, next, answers);
            event_keeps_the_staying_and_the_unvisited(after, next, answers);
            lemma_multiset_commutative(one, rest.visited);
            assert((one + rest.visited).drop_first() =~= rest.visited);
            assert(staying(whole.visited, answers) =~= kept + staying(rest.visited, answers));
            assert(after.take(next) + staying(rest.visited, answers) =~= front + staying(
                whole.visited,
                answers,
            ));
            assert(commands.skip(cursor).to_multiset().sub(whole.visited.to_multiset())
                =~= tail.to_multiset().sub(rest.visited.to_multiset()));
        }
    } else {
        assert(front + staying(whole.visited, answers) =~= commands);
        assert(commands.skip(cursor) =~= Seq::empty());
        assert(commands.to_multiset().add(
            commands.skip(cursor).to_multiset().sub(whole.visited.to_multiset()),
        ) =~= commands.to_multiset());
    }
}

/// The commands that stay of two lists, one after the other.
proof fn staying_of_both<C>(front: Seq<C>, back: Seq<C>, answers: Answers<C>)
    ensures
        staying(front + back, answers) == staying(front, answers) + staying(back, answers),
    decreases front.len(),
{
    if front.len() == 0 {
        assert(front + back =~= back);
        assert(staying(front, answers) + staying(back, answers) =~= staying(back, answers));
    } else {
        assert((front + back).drop_first() =~= front.drop_first() + back);
        staying_of_both(front.drop_first(), back, answers);
        assert(staying(front + back, answers) =~= staying(front, answers) + staying(back, answers));
    }
}

/// Rotating a list keeps which commands stay.
proof fn rotation_keeps_staying<C>(items: Seq<C>, answers: Answers<C>)
    ensures
        staying(rotated(items), answers).to_multiset() == staying(items, answers).to_multiset(),
{
    if items.len() > 0 {
        let last = seq![items.last()];
        assert(items =~= items.drop_last() + last);
        staying_of_both(items.drop_last(), last, answers);
        staying_of_both(last, items.drop_last(), answers);
        lemma_multiset_commutative(staying(items.drop_last(), answers), staying(last, answers));
        lemma_multiset_commutative(staying(last, answers), staying(items.drop_last(), answers));
    }
}

/// The last item in front of all others.
spec fn rotated<C>(items: Seq<C>) -> Seq<C> {
    if items.len() == 0 {
        items
    } else {
        seq![items.last()] + items.drop_last()
    }
}

/// Rotating a list keeps its items.
proof fn rotation_keeps_items<C>(items: Seq<C>)
    ensures
        rotated(items).to_multiset() == items.to_multiset(),
{
    broadcast use group_to_multiset_ensures;

    if items.len() > 0 {
        assert(items =~= items.drop_last() + seq![items.last()]);
        lemma_multiset_commutative(items.drop_last(), seq![items.last()]);
        lemma_multiset_commutative(seq![items.last()], items.drop_last());
    }
}

/// A command that stays is passed; one that leaves gives its place to the last
/// command, which comes next, and all others keep theirs.
pub proof fn settling_moves_one_command_at_most<C>(
    commands: Seq<C>,
    at: int,
    keep: bool,
    i: int,
)
    requires
        0 <= at < commands.len(),
    ensures
        keep ==> settled(commands, at, keep) == (commands, at + 1),
        !keep ==> settled(commands, at, keep).0.len() == commands.len() - 1,
        !keep ==> settled(commands, at, keep).1 == at,
        !keep && 0 <= i < commands.len() - 1 && i != at ==> settled(commands, at, keep).0[i]
            == commands[i],
        !keep && at < commands.len() - 1 ==> settled(commands, at, keep).0[at] == commands[
            commands.len() - 1],
{
}

/// Cancelled commands leave and all others stay, in their order and as often as
/// they were there.
pub proof fn the_uncancelled_stay_in_order<C>(
    commands: Seq<C>,
    flags: Seq<bool>,
    command: C,
    cancelled: bool,
)
    requires
        flags.len() == commands.len(),
    ensures
        unflagged(Seq::<C>::empty(), Seq::<bool>::empty()).len() == 0,
        unflagged(commands.push(command), flags.push(cancelled)) == if cancelled {
            unflagged(commands, flags)
        } else {
            unflagged(commands, flags).push(command)
        },
{
    assert(commands.push(command).drop_last() =~= commands);
    assert(flags.push(cancelled).drop_last() =~= flags);
}

} // verus!
