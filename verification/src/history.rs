//! The editor's undo history: an undo command manager over the editor's own commands.
//! Each command is kept once, in an arena, and the manager moves handles to it.
use crate::commands::{queued_view, queued_views, CommandView, EditorCommand};
use crate::undo::{
    backward_steps, forward_steps, run_command, ManagerState, QueuedCommand, Step,
    UndoCommandManager,
};
use vstd::prelude::*;

verus! {

/// The queued command that the handle command `q` stands for, in the arena `a`.
pub open spec fn queued_at(q: QueuedCommand<usize>, a: Seq<CommandView>) -> QueuedCommand<
    CommandView,
> {
    match q {
        QueuedCommand::Command(h) => QueuedCommand::Command(a[h as int]),
        QueuedCommand::Custom(h) => QueuedCommand::Custom(a[h as int]),
        QueuedCommand::Checkpoint => QueuedCommand::Checkpoint,
        QueuedCommand::Undo => QueuedCommand::Undo,
        QueuedCommand::Redo => QueuedCommand::Redo,
        QueuedCommand::Cancel => QueuedCommand::Cancel,
    }
}

/// The commands that a batch of handles stands for.
pub open spec fn batch_at(b: Seq<usize>, a: Seq<CommandView>) -> Seq<CommandView> {
    b.map_values(|h: usize| a[h as int])
}

/// The step that a handle step stands for.
pub open spec fn step_at(st: Step<usize>, a: Seq<CommandView>) -> Step<CommandView> {
    match st {
        Step::Forward(h) => Step::Forward(a[h as int]),
        Step::Backward(h) => Step::Backward(a[h as int]),
    }
}

/// The steps that handle steps stand for.
pub open spec fn steps_at(v: Seq<Step<usize>>, a: Seq<CommandView>) -> Seq<Step<CommandView>> {
    v.map_values(|st: Step<usize>| step_at(st, a))
}

/// The state that a manager of handles stands for.
pub open spec fn state_at(s: ManagerState<usize>, a: Seq<CommandView>) -> ManagerState<
    CommandView,
> {
    ManagerState {
        commands: s.commands.map_values(|q: QueuedCommand<usize>| queued_at(q, a)),
        undo_stack: s.undo_stack.map_values(|b: Seq<usize>| batch_at(b, a)),
        redo_stack: s.redo_stack.map_values(|b: Seq<usize>| batch_at(b, a)),
        command_batch: batch_at(s.command_batch, a),
    }
}

/// Whether the handle command `q` refers into an arena of `n` commands.
pub open spec fn queued_ok(q: QueuedCommand<usize>, n: nat) -> bool {
    match q {
        QueuedCommand::Command(h) => h < n,
        QueuedCommand::Custom(h) => h < n,
        _ => true,
    }
}

/// Whether every handle of `b` refers into an arena of `n` commands.
pub open spec fn batch_ok(b: Seq<usize>, n: nat) -> bool {
    forall|i: int| 0 <= i < b.len() ==> #[trigger] b[i] < n
}

/// Whether every handle of `s` refers into an arena of `n` commands.
pub open spec fn state_ok(s: ManagerState<usize>, n: nat) -> bool {
    &&& forall|i: int| 0 <= i < s.commands.len() ==> queued_ok(#[trigger] s.commands[i], n)
    &&& forall|i: int| 0 <= i < s.undo_stack.len() ==> batch_ok(#[trigger] s.undo_stack[i], n)
    &&& forall|i: int| 0 <= i < s.redo_stack.len() ==> batch_ok(#[trigger] s.redo_stack[i], n)
    &&& batch_ok(s.command_batch, n)
}

proof fn lemma_backward_at(b: Seq<usize>, a: Seq<CommandView>)
    ensures
        steps_at(backward_steps(b), a) == backward_steps(batch_at(b, a)),
{
    assert(steps_at(backward_steps(b), a) =~= backward_steps(batch_at(b, a)));
}

proof fn lemma_forward_at(b: Seq<usize>, a: Seq<CommandView>)
    ensures
        steps_at(forward_steps(b), a) == forward_steps(batch_at(b, a)),
{
    assert(steps_at(forward_steps(b), a) =~= forward_steps(batch_at(b, a)));
}

/// Applying a command to a manager of handles, and looking the handles up afterwards,
/// is applying the command that the handle stands for to the state that the manager
/// stands for.
proof fn lemma_run_command_at(s: ManagerState<usize>, q: QueuedCommand<usize>, a: Seq<CommandView>)
    ensures
        state_at(run_command(s, q).0, a) == run_command(state_at(s, a), queued_at(q, a)).0,
        steps_at(run_command(s, q).1, a) == run_command(state_at(s, a), queued_at(q, a)).1,
{
    let v = state_at(s, a);
    lemma_backward_at(s.command_batch, a);
    assert(batch_at(Seq::<usize>::empty(), a) =~= Seq::<CommandView>::empty());
    assert(s.redo_stack.len() == v.redo_stack.len());
    assert(s.undo_stack.len() == v.undo_stack.len());
    match q {
        QueuedCommand::Command(h) => {
            assert(batch_at(s.command_batch.push(h), a) =~= v.command_batch.push(a[h as int]));
            assert(Seq::<Seq<usize>>::empty().map_values(|b: Seq<usize>| batch_at(b, a))
                =~= Seq::<Seq<CommandView>>::empty());
            assert(state_at(run_command(s, q).0, a) =~= run_command(v, queued_at(q, a)).0);
            assert(steps_at(run_command(s, q).1, a) =~= run_command(v, queued_at(q, a)).1);
        },
        QueuedCommand::Custom(h) => {
            assert(steps_at(run_command(s, q).1, a) =~= run_command(v, queued_at(q, a)).1);
        },
        QueuedCommand::Checkpoint => {
            assert(s.undo_stack.push(s.command_batch).map_values(|b: Seq<usize>| batch_at(b, a))
                =~= v.undo_stack.push(v.command_batch));
            assert(state_at(run_command(s, q).0, a) =~= run_command(v, queued_at(q, a)).0);
            assert(steps_at(run_command(s, q).1, a) =~= run_command(v, queued_at(q, a)).1);
        },
        QueuedCommand::Cancel => {
            assert(state_at(run_command(s, q).0, a) =~= run_command(v, queued_at(q, a)).0);
        },
        QueuedCommand::Undo => {
            if s.undo_stack.len() == 0 {
                assert(state_at(run_command(s, q).0, a) =~= run_command(v, queued_at(q, a)).0);
            } else {
                let last = s.undo_stack.last();
                lemma_backward_at(last, a);
                assert(v.undo_stack.last() == batch_at(last, a));
                assert(s.undo_stack.drop_last().map_values(|b: Seq<usize>| batch_at(b, a))
                    =~= v.undo_stack.drop_last());
                assert(s.redo_stack.push(last).map_values(|b: Seq<usize>| batch_at(b, a))
                    =~= v.redo_stack.push(batch_at(last, a)));
                assert(state_at(run_command(s, q).0, a) =~= run_command(v, queued_at(q, a)).0);
                assert(steps_at(
                    backward_steps(s.command_batch) + backward_steps(last),
                    a,
                ) =~= steps_at(backward_steps(s.command_batch), a) + steps_at(
                    backward_steps(last),
                    a,
                ));
            }
        },
        QueuedCommand::Redo => {
            if s.redo_stack.len() == 0 {
                assert(state_at(run_command(s, q).0, a) =~= run_command(v, queued_at(q, a)).0);
            } else {
                let last = s.redo_stack.last();
                lemma_forward_at(last, a);
                assert(v.redo_stack.last() == batch_at(last, a));
                assert(s.redo_stack.drop_last().map_values(|b: Seq<usize>| batch_at(b, a))
                    =~= v.redo_stack.drop_last());
                assert(s.undo_stack.push(last).map_values(|b: Seq<usize>| batch_at(b, a))
                    =~= v.undo_stack.push(batch_at(last, a)));
                assert(state_at(run_command(s, q).0, a) =~= run_command(v, queued_at(q, a)).0);
                assert(steps_at(
                    backward_steps(s.command_batch) + forward_steps(last),
                    a,
                ) =~= steps_at(backward_steps(s.command_batch), a) + steps_at(
                    forward_steps(last),
                    a,
                ));
            }
        },
    }
}

/// Applying a command whose handles refer into the arena keeps every handle of the
/// state, and of the steps, inside the arena.
proof fn lemma_run_command_ok(s: ManagerState<usize>, q: QueuedCommand<usize>, n: nat)
    requires
        state_ok(s, n),
        queued_ok(q, n),
    ensures
        state_ok(run_command(s, q).0, n),
        forall|i: int|
            0 <= i < run_command(s, q).1.len() ==> match #[trigger] run_command(s, q).1[i] {
                Step::Forward(h) => h < n,
                Step::Backward(h) => h < n,
            },
{
    let r = run_command(s, q).0;
    match q {
        QueuedCommand::Command(h) => {
            assert forall|i: int| 0 <= i < r.command_batch.len() implies #[trigger] r.command_batch[i]
                < n by {
                if i < s.command_batch.len() {
                    assert(r.command_batch[i] == s.command_batch[i]);
                }
            }
        },
        QueuedCommand::Checkpoint => {
            assert forall|i: int| 0 <= i < r.undo_stack.len() implies batch_ok(
                #[trigger] r.undo_stack[i],
                n,
            ) by {
                if i < s.undo_stack.len() {
                    assert(r.undo_stack[i] == s.undo_stack[i]);
                }
            }
        },
        QueuedCommand::Undo => {
            if s.undo_stack.len() > 0 {
                assert(batch_ok(s.undo_stack[s.undo_stack.len() - 1], n));
                assert forall|i: int| 0 <= i < r.redo_stack.len() implies batch_ok(
                    #[trigger] r.redo_stack[i],
                    n,
                ) by {
                    if i < s.redo_stack.len() {
                        assert(r.redo_stack[i] == s.redo_stack[i]);
                    }
                }
                assert forall|i: int| 0 <= i < r.undo_stack.len() implies batch_ok(
                    #[trigger] r.undo_stack[i],
                    n,
                ) by {
                    assert(r.undo_stack[i] == s.undo_stack[i]);
                }
            }
        },
        QueuedCommand::Redo => {
            if s.redo_stack.len() > 0 {
                assert(batch_ok(s.redo_stack[s.redo_stack.len() - 1], n));
                assert forall|i: int| 0 <= i < r.undo_stack.len() implies batch_ok(
                    #[trigger] r.undo_stack[i],
                    n,
                ) by {
                    if i < s.undo_stack.len() {
                        assert(r.undo_stack[i] == s.undo_stack[i]);
                    }
                }
                assert forall|i: int| 0 <= i < r.redo_stack.len() implies batch_ok(
                    #[trigger] r.redo_stack[i],
                    n,
                ) by {
                    assert(r.redo_stack[i] == s.redo_stack[i]);
                }
            }
        },
        _ => {},
    }
    if s.undo_stack.len() > 0 {
        assert(batch_ok(s.undo_stack[s.undo_stack.len() - 1], n));
    }
    if s.redo_stack.len() > 0 {
        assert(batch_ok(s.redo_stack[s.redo_stack.len() - 1], n));
    }
}

/// Looking handles up in a longer arena changes nothing, as long as they refer into
/// the shorter one.
proof fn lemma_state_at_extend(s: ManagerState<usize>, a: Seq<CommandView>, b: Seq<CommandView>)
    requires
        state_ok(s, a.len()),
        a.len() <= b.len(),
        forall|i: int| 0 <= i < a.len() ==> a[i] == b[i],
    ensures
        state_at(s, a) == state_at(s, b),
{
    assert forall|k: int| 0 <= k < s.undo_stack.len() implies batch_at(
        #[trigger] s.undo_stack[k],
        a,
    ) == batch_at(s.undo_stack[k], b) by {
        assert(batch_ok(s.undo_stack[k], a.len()));
        assert(batch_at(s.undo_stack[k], a) =~= batch_at(s.undo_stack[k], b));
    }
    assert forall|k: int| 0 <= k < s.redo_stack.len() implies batch_at(
        #[trigger] s.redo_stack[k],
        a,
    ) == batch_at(s.redo_stack[k], b) by {
        assert(batch_ok(s.redo_stack[k], a.len()));
        assert(batch_at(s.redo_stack[k], a) =~= batch_at(s.redo_stack[k], b));
    }
    assert forall|k: int| 0 <= k < s.commands.len() implies queued_at(
        #[trigger] s.commands[k],
        a,
    ) == queued_at(s.commands[k], b) by {
        assert(queued_ok(s.commands[k], a.len()));
    }
    assert(state_at(s, a) =~= state_at(s, b));
}

/// The abstract value of a list of steps.
pub open spec fn steps_view(v: Seq<Step<EditorCommand>>) -> Seq<Step<CommandView>> {
    v.map_values(
        |st: Step<EditorCommand>|
            match st {
                Step::Forward(c) => Step::Forward(c@),
                Step::Backward(c) => Step::Backward(c@),
            },
    )
}

/// The undo history of the editor: commands waiting to be applied, the batch applied
/// since the last checkpoint, and the undo and redo stacks of checkpointed batches.
pub struct EditorHistory {
    arena: Vec<EditorCommand>,
    manager: UndoCommandManager<usize>,
}

impl EditorHistory {
    /// The commands kept so far, by handle.
    pub closed spec fn arena_view(self) -> Seq<CommandView> {
        self.arena@.map_values(|c: EditorCommand| c@)
    }

    /// Every handle that the manager holds refers to a kept command.
    pub closed spec fn wf(self) -> bool {
        state_ok(self.manager@, self.arena@.len())
    }
}

impl View for EditorHistory {
    type V = ManagerState<CommandView>;

    closed spec fn view(&self) -> ManagerState<CommandView> {
        state_at(self.manager@, self.arena_view())
    }
}

impl EditorHistory {
    /// An empty history.
    pub fn new() -> (h: EditorHistory)
        ensures
            h.wf(),
            h@.commands == Seq::<QueuedCommand<CommandView>>::empty(),
            h@.undo_stack == Seq::<Seq<CommandView>>::empty(),
            h@.redo_stack == Seq::<Seq<CommandView>>::empty(),
            h@.command_batch == Seq::<CommandView>::empty(),
    {
        let h = EditorHistory { arena: Vec::new(), manager: UndoCommandManager::new() };
        assert(h@.commands =~= Seq::<QueuedCommand<CommandView>>::empty());
        assert(h@.undo_stack =~= Seq::<Seq<CommandView>>::empty());
        assert(h@.redo_stack =~= Seq::<Seq<CommandView>>::empty());
        assert(h@.command_batch =~= Seq::<CommandView>::empty());
        h
    }

    /// Keeps the command of `q` in the arena, and returns the handle command for it.
    fn keep(&mut self, q: QueuedCommand<EditorCommand>) -> (r: QueuedCommand<usize>)
        requires
            old(self).wf(),
        ensures
            final(self).wf(),
            final(self).manager@ == old(self).manager@,
            final(self)@ == old(self)@,
            queued_ok(r, final(self).arena@.len()),
            queued_at(r, final(self).arena_view()) == queued_view(q),
            old(self).arena@.len() <= final(self).arena@.len(),
            forall|i: int|
                0 <= i < old(self).arena@.len() ==> final(self).arena_view()[i] == old(
                    self,
                ).arena_view()[i],
    {
        let ghost before = self.arena_view();
        let r = match q {
            QueuedCommand::Command(c) => {
                let h = self.arena.len();
                self.arena.push(c);
                QueuedCommand::Command(h)
            },
            QueuedCommand::Custom(c) => {
                let h = self.arena.len();
                self.arena.push(c);
                QueuedCommand::Custom(h)
            },
            QueuedCommand::Checkpoint => QueuedCommand::Checkpoint,
            QueuedCommand::Undo => QueuedCommand::Undo,
            QueuedCommand::Redo => QueuedCommand::Redo,
            QueuedCommand::Cancel => QueuedCommand::Cancel,
        };
        proof {
            lemma_state_at_extend(self.manager@, before, self.arena_view());
            let n = old(self).arena@.len();
            let m = self.arena@.len();
            assert forall|i: int| 0 <= i < self.manager@.commands.len() implies queued_ok(
                #[trigger] self.manager@.commands[i],
                m,
            ) by {
                assert(queued_ok(self.manager@.commands[i], n));
            }
            assert forall|i: int| 0 <= i < self.manager@.undo_stack.len() implies batch_ok(
                #[trigger] self.manager@.undo_stack[i],
                m,
            ) by {
                assert(batch_ok(self.manager@.undo_stack[i], n));
            }
            assert forall|i: int| 0 <= i < self.manager@.redo_stack.len() implies batch_ok(
                #[trigger] self.manager@.redo_stack[i],
                m,
            ) by {
                assert(batch_ok(self.manager@.redo_stack[i], n));
            }
        }
        r
    }

    /// Queues a command behind all queued commands.
    pub fn push(&mut self, q: QueuedCommand<EditorCommand>)
        requires
            old(self).wf(),
        ensures
            final(self).wf(),
            final(self)@ == (ManagerState {
                commands: old(self)@.commands.push(queued_view(q)),
                ..old(self)@
            }),
    {
        let h = self.keep(q);
        let ghost mid = self.manager@;
        self.manager.push(h);
        proof {
            let a = self.arena_view();
            assert(self.manager@.commands.map_values(|x: QueuedCommand<usize>| queued_at(x, a))
                =~= mid.commands.map_values(|x: QueuedCommand<usize>| queued_at(x, a)).push(
                queued_view(q),
            ));
            assert(self@ =~= (ManagerState {
                commands: old(self)@.commands.push(queued_view(q)),
                ..old(self)@
            }));
            assert forall|i: int| 0 <= i < self.manager@.commands.len() implies queued_ok(
                #[trigger] self.manager@.commands[i],
                self.arena@.len(),
            ) by {
                if i < mid.commands.len() {
                    assert(self.manager@.commands[i] == mid.commands[i]);
                }
            }
        }
    }

    /// Queues each of `qs` behind all queued commands, in order.
    pub fn push_all(&mut self, qs: Vec<QueuedCommand<EditorCommand>>)
        requires
            old(self).wf(),
        ensures
            final(self).wf(),
            final(self)@ == (ManagerState {
                commands: old(self)@.commands + queued_views(qs@),
                ..old(self)@
            }),
    {
        let mut qs = qs;
        let ghost all = qs@;
        let ghost start = self@;
        let n = qs.len();
        let mut k: usize = 0;
        while qs.len() > 0
            invariant
                self.wf(),
                n == all.len(),
                k + qs@.len() == n,
                qs@ == all.skip(k as int),
                self@ == (ManagerState {
                    commands: start.commands + queued_views(all.take(k as int)),
                    ..start
                }),
            decreases qs@.len(),
        {
            let q = qs.remove(0);
            proof {
                assert(all.take(k + 1) =~= all.take(k as int).push(q));
                assert(queued_views(all.take(k + 1)) =~= queued_views(all.take(k as int)).push(
                    queued_view(q),
                ));
                assert(qs@ =~= all.skip(k + 1));
            }
            self.push(q);
            k = k + 1;
        }
        assert(all.take(all.len() as int) =~= all);
    }

    /// Puts the commands of `qs` in front of all queued commands, keeping their order,
    /// so that they run next.
    pub fn push_front_vec(&mut self, qs: Vec<QueuedCommand<EditorCommand>>)
        requires
            old(self).wf(),
        ensures
            final(self).wf(),
            final(self)@ == (ManagerState {
                commands: queued_views(qs@) + old(self)@.commands,
                ..old(self)@
            }),
    {
        let ghost start = self@;
        let mut handles: Vec<QueuedCommand<usize>> = Vec::new();
        let mut qs = qs;
        let ghost all = qs@;
        while qs.len() > 0
            invariant
                self.wf(),
                self@ == start,
                qs@ == all.skip(handles@.len() as int),
                handles@.len() + qs@.len() == all.len(),
                forall|i: int|
                    0 <= i < handles@.len() ==> queued_ok(
                        #[trigger] handles@[i],
                        self.arena@.len(),
                    ) && queued_at(handles@[i], self.arena_view()) == queued_view(all[i]),
            decreases qs@.len(),
        {
            let ghost k = handles@.len() as int;
            let q = qs.remove(0);
            assert(qs@ =~= all.skip(k + 1));
            let ghost before_arena = self.arena_view();
            let ghost before_len = self.arena@.len();
            let h = self.keep(q);
            handles.push(h);
            proof {
                assert forall|i: int| 0 <= i < handles@.len() implies queued_ok(
                    #[trigger] handles@[i],
                    self.arena@.len(),
                ) && queued_at(handles@[i], self.arena_view()) == queued_view(all[i]) by {
                    if i < k {
                        let x = handles@[i];
                        assert(queued_ok(x, before_len));
                        assert(queued_at(x, before_arena) == queued_view(all[i]));
                    }
                }
            }
        }
        let ghost mid = self.manager@;
        self.manager.push_front_vec(handles);
        proof {
            let a = self.arena_view();
            assert(queued_views(all) =~= handles@.map_values(
                |x: QueuedCommand<usize>| queued_at(x, a),
            ));
            assert(self@ =~= (ManagerState {
                commands: queued_views(all) + start.commands,
                ..start
            }));
            assert forall|i: int| 0 <= i < self.manager@.commands.len() implies queued_ok(
                #[trigger] self.manager@.commands[i],
                self.arena@.len(),
            ) by {
                if i >= handles@.len() {
                    assert(self.manager@.commands[i] == mid.commands[i - handles@.len()]);
                }
            }
        }
    }

    /// Puts each of `qs` in front of all queued commands in turn, so that the last one
    /// runs first.
    pub fn push_front_each(&mut self, qs: Vec<QueuedCommand<EditorCommand>>)
        requires
            old(self).wf(),
        ensures
            final(self).wf(),
            final(self)@ == (ManagerState {
                commands: queued_views(qs@).reverse() + old(self)@.commands,
                ..old(self)@
            }),
    {
        let ghost all = qs@;
        let mut qs = qs;
        let mut reversed: Vec<QueuedCommand<EditorCommand>> = Vec::new();
        while qs.len() > 0
            invariant
                reversed@ == all.skip(qs@.len() as int).reverse(),
                qs@ == all.take(qs@.len() as int),
                qs@.len() <= all.len(),
            decreases qs@.len(),
        {
            let ghost k = qs@.len() as int;
            let q = qs.pop().unwrap();
            reversed.push(q);
            assert(all.take(k - 1) =~= qs@);
            assert(all.skip(k - 1).reverse() =~= all.skip(k).reverse().push(q));
        }
        assert(all.skip(0) =~= all);
        assert(queued_views(reversed@) =~= queued_views(all).reverse());
        self.push_front_vec(reversed);
    }

    /// Applies the next queued command to the history, and returns the steps that the
    /// world must take for it, in order; `None` when nothing is queued.
    pub fn apply_next(&mut self) -> (steps: Option<Vec<Step<EditorCommand>>>)
        requires
            old(self).wf(),
        ensures
            final(self).wf(),
            old(self)@.commands.len() == 0 ==> steps is None && final(self)@ == old(self)@,
            old(self)@.commands.len() > 0 ==> {
                let cmd = old(self)@.commands[0];
                let popped = ManagerState { commands: old(self)@.commands.drop_first(),
                    ..old(self)@ };
                &&& steps is Some
                &&& final(self)@ == run_command(popped, cmd).0
                &&& steps_view(steps.unwrap()@) == run_command(popped, cmd).1
            },
    {
        let ghost s = self.manager@;
        let ghost a = self.arena_view();
        let ghost n = self.arena@.len();
        let r = self.manager.apply_next();
        match r {
            None => {
                assert(self@ == old(self)@);
                None
            },
            Some(handle_steps) => {
                let ghost popped = ManagerState { commands: s.commands.drop_first(), ..s };
                let ghost cmd = s.commands[0];
                proof {
                    assert(state_ok(popped, n)) by {
                        assert forall|i: int| 0 <= i < popped.commands.len() implies queued_ok(
                            #[trigger] popped.commands[i],
                            n,
                        ) by {
                            assert(popped.commands[i] == s.commands[i + 1]);
                        }
                    }
                    assert(queued_ok(cmd, n));
                    lemma_run_command_ok(popped, cmd, n);
                    lemma_run_command_at(popped, cmd, a);
                    assert(state_at(popped, a) =~= (ManagerState {
                        commands: old(self)@.commands.drop_first(),
                        ..old(self)@
                    }));
                    assert(queued_at(cmd, a) == old(self)@.commands[0]);
                }
                let mut steps: Vec<Step<EditorCommand>> = Vec::new();
                let mut i: usize = 0;
                while i < handle_steps.len()
                    invariant
                        i <= handle_steps@.len(),
                        handle_steps@ == run_command(popped, cmd).1,
                        n == self.arena@.len(),
                        a == self.arena_view(),
                        forall|j: int|
                            0 <= j < handle_steps@.len() ==> match #[trigger] handle_steps@[j] {
                                Step::Forward(h) => h < n,
                                Step::Backward(h) => h < n,
                            },
                        steps_view(steps@) == steps_at(handle_steps@.take(i as int), a),
                    decreases handle_steps@.len() - i,
                {
                    let ghost before = steps@;
                    let st = match handle_steps[i] {
                        Step::Forward(h) => Step::Forward(self.arena[h].duplicate()),
                        Step::Backward(h) => Step::Backward(self.arena[h].duplicate()),
                    };
                    steps.push(st);
                    proof {
                        assert(steps_view(steps@) =~= steps_view(before).push(
                            step_at(handle_steps@[i as int], a),
                        ));
                        assert(handle_steps@.take(i as int + 1) =~= handle_steps@.take(
                            i as int,
                        ).push(handle_steps@[i as int]));
                        assert(steps_at(handle_steps@.take(i as int + 1), a) =~= steps_at(
                            handle_steps@.take(i as int),
                            a,
                        ).push(step_at(handle_steps@[i as int], a)));
                    }
                    i = i + 1;
                }
                assert(handle_steps@.take(handle_steps@.len() as int) =~= handle_steps@);
                Some(steps)
            },
        }
    }
}

} // verus!
