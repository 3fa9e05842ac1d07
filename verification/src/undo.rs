//! The undo command manager: a queue of commands waiting to be applied, a batch of
//! applied but not yet checkpointed commands, and the undo and redo stacks of
//! checkpointed batches.
use std::collections::VecDeque;
use vstd::prelude::*;

verus! {

/// How the manager treats a command once it has been applied.
#[derive(Clone, Copy, Debug, PartialEq, Eq, Structural)]
pub enum UndoCommandType {
    /// Recorded in the current batch, so that it can be undone.
    Command,
    /// Applied and then forgotten.
    Custom,
    /// Closes the current batch and puts it on the undo stack.
    Checkpoint,
}

/// A command waiting in the manager's queue.
#[derive(Clone, Copy, Debug, PartialEq, Eq)]
pub enum QueuedCommand<C> {
    /// A command that is recorded for undo once applied.
    Command(C),
    /// A command that is applied and not recorded.
    Custom(C),
    /// Saves the commands applied since the last checkpoint as one undo step.
    Checkpoint,
    /// Undoes the most recent undo step.
    Undo,
    /// Redoes the most recently undone step.
    Redo,
    /// Reverts the commands applied since the last checkpoint.
    Cancel,
}

/// Work on the world that applying a queued command calls for.
#[derive(Clone, Copy, Debug, PartialEq, Eq)]
pub enum Step<C> {
    /// Run the command forward.
    Forward(C),
    /// Run the command backward.
    Backward(C),
}

impl<C> QueuedCommand<C> {
    pub open spec fn spec_command_type(self) -> UndoCommandType {
        match self {
            QueuedCommand::Command(_) => UndoCommandType::Command,
            QueuedCommand::Checkpoint => UndoCommandType::Checkpoint,
            _ => UndoCommandType::Custom,
        }
    }

    /// The type of this command.
    pub fn command_type(&self) -> (t: UndoCommandType)
        ensures
            t == self.spec_command_type(),
    {
        match self {
            QueuedCommand::Command(_) => UndoCommandType::Command,
            QueuedCommand::Checkpoint => UndoCommandType::Checkpoint,
            _ => UndoCommandType::Custom,
        }
    }
}

/// The abstract state of an [`UndoCommandManager`].
#[verifier::ext_equal]
pub struct ManagerState<C> {
    pub commands: Seq<QueuedCommand<C>>,
    pub undo_stack: Seq<Seq<C>>,
    pub redo_stack: Seq<Seq<C>>,
    pub command_batch: Seq<C>,
}

/// Runs every command of `batch` backward, the last one first.
pub open spec fn backward_steps<C>(batch: Seq<C>) -> Seq<Step<C>> {
    Seq::new(batch.len(), |i: int| Step::Backward(batch[batch.len() - 1 - i]))
}

/// Runs every command of `batch` forward, the first one first.
pub open spec fn forward_steps<C>(batch: Seq<C>) -> Seq<Step<C>> {
    Seq::new(batch.len(), |i: int| Step::Forward(batch[i]))
}

/// The view of a stack of batches.
pub open spec fn batches_view<C>(v: Seq<Vec<C>>) -> Seq<Seq<C>> {
    v.map_values(|b: Vec<C>| b@)
}

/// The state that applying `cmd` leads to, and the steps it calls for; the queue is
/// left as it is.
pub open spec fn run_command<C>(s: ManagerState<C>, cmd: QueuedCommand<C>) -> (
    ManagerState<C>,
    Seq<Step<C>>,
) {
    match cmd {
        QueuedCommand::Command(c) => (
            ManagerState {
                command_batch: s.command_batch.push(c),
                redo_stack: Seq::empty(),
                ..s
            },
            seq![Step::Forward(c)],
        ),
        QueuedCommand::Custom(c) => (s, seq![Step::Forward(c)]),
        QueuedCommand::Checkpoint => (
            ManagerState {
                undo_stack: s.undo_stack.push(s.command_batch),
                command_batch: Seq::empty(),
                ..s
            },
            Seq::empty(),
        ),
        QueuedCommand::Cancel => (
            ManagerState { command_batch: Seq::empty(), ..s },
            backward_steps(s.command_batch),
        ),
        QueuedCommand::Undo => if s.undo_stack.len() == 0 {
            (ManagerState { command_batch: Seq::empty(), ..s }, backward_steps(s.command_batch))
        } else {
            (
                ManagerState {
                    command_batch: Seq::empty(),
                    undo_stack: s.undo_stack.drop_last(),
                    redo_stack: s.redo_stack.push(s.undo_stack.last()),
                    ..s
                },
                backward_steps(s.command_batch) + backward_steps(s.undo_stack.last()),
            )
        },
        QueuedCommand::Redo => if s.redo_stack.len() == 0 {
            (ManagerState { command_batch: Seq::empty(), ..s }, backward_steps(s.command_batch))
        } else {
            (
                ManagerState {
                    command_batch: Seq::empty(),
                    redo_stack: s.redo_stack.drop_last(),
                    undo_stack: s.undo_stack.push(s.redo_stack.last()),
                    ..s
                },
                backward_steps(s.command_batch) + forward_steps(s.redo_stack.last()),
            )
        },
    }
}

/// Queues commands and applies them, keeping what is needed to undo and redo them.
pub struct UndoCommandManager<C> {
    commands: VecDeque<QueuedCommand<C>>,
    undo_stack: Vec<Vec<C>>,
    redo_stack: Vec<Vec<C>>,
    command_batch: VecDeque<C>,
}

impl<C> View for UndoCommandManager<C> {
    type V = ManagerState<C>;

    closed spec fn view(&self) -> ManagerState<C> {
        ManagerState {
            commands: self.commands@,
            undo_stack: batches_view(self.undo_stack@),
            redo_stack: batches_view(self.redo_stack@),
            command_batch: self.command_batch@,
        }
    }
}

fn push_backward_steps<C: Copy>(steps: &mut Vec<Step<C>>, batch: &Vec<C>)
    ensures
        final(steps)@ == old(steps)@ + backward_steps(batch@),
{
    let n = batch.len();
    let mut k: usize = 0;
    while k < n
        invariant
            n == batch@.len(),
            k <= n,
            steps@ == old(steps)@ + backward_steps(batch@).take(k as int),
        decreases n - k,
    {
        let c = batch[n - 1 - k];
        steps.push(Step::Backward(c));
        proof {
            assert(backward_steps(batch@).take(k as int + 1) =~= backward_steps(batch@).take(
                k as int,
            ).push(Step::Backward(c)));
        }
        k = k + 1;
    }
    assert(backward_steps(batch@).take(n as int) =~= backward_steps(batch@));
}

fn push_forward_steps<C: Copy>(steps: &mut Vec<Step<C>>, batch: &Vec<C>)
    ensures
        final(steps)@ == old(steps)@ + forward_steps(batch@),
{
    let n = batch.len();
    let mut k: usize = 0;
    while k < n
        invariant
            n == batch@.len(),
            k <= n,
            steps@ == old(steps)@ + forward_steps(batch@).take(k as int),
        decreases n - k,
    {
        let c = batch[k];
        steps.push(Step::Forward(c));
        proof {
            assert(forward_steps(batch@).take(k as int + 1) =~= forward_steps(batch@).take(
                k as int,
            ).push(Step::Forward(c)));
        }
        k = k + 1;
    }
    assert(forward_steps(batch@).take(n as int) =~= forward_steps(batch@));
}

impl<C: Copy> UndoCommandManager<C> {
    /// An empty manager.
    pub fn new() -> (m: Self)
        ensures
            m@.commands == Seq::<QueuedCommand<C>>::empty(),
            m@.undo_stack == Seq::<Seq<C>>::empty(),
            m@.redo_stack == Seq::<Seq<C>>::empty(),
            m@.command_batch == Seq::<C>::empty(),
    {
        let m = UndoCommandManager {
            commands: VecDeque::new(),
            undo_stack: Vec::new(),
            redo_stack: Vec::new(),
            command_batch: VecDeque::new(),
        };
        assert(batches_view(m.undo_stack@) =~= Seq::<Seq<C>>::empty());
        assert(batches_view(m.redo_stack@) =~= Seq::<Seq<C>>::empty());
        m
    }

    /// Queues a command behind all queued commands.
    pub fn push(&mut self, undo_command: QueuedCommand<C>)
        ensures
            final(self)@ == (ManagerState {
                commands: old(self)@.commands.push(undo_command),
                ..old(self)@
            }),
    {
        self.commands.push_back(undo_command);
    }

    /// Queues a command in front of all queued commands.
    pub fn push_front(&mut self, undo_command: QueuedCommand<C>)
        ensures
            final(self)@ == (ManagerState {
                commands: seq![undo_command] + old(self)@.commands,
                ..old(self)@
            }),
    {
        self.commands.push_front(undo_command);
    }

    /// Queues commands in front of all queued commands, keeping their order.
    pub fn push_front_vec(&mut self, undo_commands: Vec<QueuedCommand<C>>)
        ensures
            final(self)@ == (ManagerState {
                commands: undo_commands@ + old(self)@.commands,
                ..old(self)@
            }),
    {
        let n = undo_commands.len();
        let mut k: usize = n;
        while k > 0
            invariant
                n == undo_commands@.len(),
                k <= n,
                self@ == (ManagerState {
                    commands: undo_commands@.subrange(k as int, n as int) + old(self)@.commands,
                    ..old(self)@
                }),
            decreases k,
        {
            k = k - 1;
            let c = undo_commands[k];
            self.commands.push_front(c);
            assert(undo_commands@.subrange(k as int, n as int) =~= seq![c]
                + undo_commands@.subrange(k as int + 1, n as int));
            assert(self@.commands =~= undo_commands@.subrange(k as int, n as int) + old(
                self,
            )@.commands);
        }
        assert(undo_commands@.subrange(0, n as int) =~= undo_commands@);
    }

    /// Queues commands in front of all queued commands one after the other, so that
    /// the last one given runs first.
    pub fn push_front_each(&mut self, undo_commands: Vec<QueuedCommand<C>>)
        ensures
            final(self)@ == (ManagerState {
                commands: undo_commands@.reverse() + old(self)@.commands,
                ..old(self)@
            }),
    {
        let n = undo_commands.len();
        let mut k: usize = 0;
        while k < n
            invariant
                n == undo_commands@.len(),
                k <= n,
                self@ == (ManagerState {
                    commands: undo_commands@.take(k as int).reverse() + old(self)@.commands,
                    ..old(self)@
                }),
            decreases n - k,
        {
            let c = undo_commands[k];
            self.commands.push_front(c);
            assert(undo_commands@.take(k as int + 1).reverse() =~= seq![c] + undo_commands@.take(
                k as int,
            ).reverse());
            assert(self@.commands =~= undo_commands@.take(k as int + 1).reverse() + old(
                self,
            )@.commands);
            k = k + 1;
        }
        assert(undo_commands@.take(n as int) =~= undo_commands@);
    }

    /// The checkpointed batches that can be undone, the most recent last.
    pub fn undo_stack(&self) -> (s: &Vec<Vec<C>>)
        ensures
            batches_view(s@) == self@.undo_stack,
    {
        &self.undo_stack
    }

    /// The undone batches that can be redone, the most recently undone last.
    pub fn redo_stack(&self) -> (s: &Vec<Vec<C>>)
        ensures
            batches_view(s@) == self@.redo_stack,
    {
        &self.redo_stack
    }
}


impl<C: Copy> UndoCommandManager<C> {
    /// Runs every batched command backward, the last one first, and empties the batch.
    fn revert_batch(&mut self, steps: &mut Vec<Step<C>>)
        ensures
            final(self)@ == (ManagerState { command_batch: Seq::empty(), ..old(self)@ }),
            final(steps)@ == old(steps)@ + backward_steps(old(self)@.command_batch),
    {
        let ghost batch = self.command_batch@;
        let ghost n = batch.len();
        while self.command_batch.len() > 0
            invariant
                batch == old(self)@.command_batch,
                n == batch.len(),
                self.command_batch@.len() <= n,
                self.command_batch@ == batch.take(self.command_batch@.len() as int),
                self@ == (ManagerState { command_batch: self.command_batch@, ..old(self)@ }),
                steps@ == old(steps)@ + backward_steps(
                    batch.subrange(self.command_batch@.len() as int, n as int),
                ),
            decreases self.command_batch@.len(),
        {
            let ghost m = (self.command_batch@.len() - 1) as nat;
            if let Some(c) = self.command_batch.pop_back() {
                steps.push(Step::Backward(c));
                proof {
                    assert(backward_steps(batch.subrange(m as int, n as int)) =~= backward_steps(
                        batch.subrange(m as int + 1, n as int),
                    ).push(Step::Backward(c)));
                    assert(self.command_batch@ =~= batch.take(m as int));
                    assert(self@ =~= (ManagerState { command_batch: self.command_batch@,
                        ..old(self)@ }));
                }
            }
        }
        proof {
            assert(batch.subrange(0, n as int) =~= batch);
            assert(self@ =~= (ManagerState { command_batch: Seq::empty(), ..old(self)@ }));
        }
    }

    /// Closes the current batch: the commands applied since the last checkpoint become
    /// one step on the undo stack.
    fn checkpoint(&mut self)
        ensures
            final(self)@ == run_command(old(self)@, QueuedCommand::Checkpoint).0,
    {
        let mut batch: Vec<C> = Vec::new();
        while self.command_batch.len() > 0
            invariant
                old(self)@.command_batch == batch@ + self.command_batch@,
                self@ == (ManagerState { command_batch: self.command_batch@, ..old(self)@ }),
            decreases self.command_batch@.len(),
        {
            if let Some(c) = self.command_batch.pop_front() {
                batch.push(c);
                proof {
                    assert(old(self)@.command_batch =~= batch@ + self.command_batch@);
                    assert(self@ =~= (ManagerState { command_batch: self.command_batch@,
                        ..old(self)@ }));
                }
            }
        }
        let ghost before = self.undo_stack@;
        self.undo_stack.push(batch);
        proof {
            assert(old(self)@.command_batch =~= batch@);
            assert(batches_view(self.undo_stack@) =~= batches_view(before).push(batch@));
            assert(self@ =~= run_command(old(self)@, QueuedCommand::Checkpoint).0);
        }
    }

    /// Applies the next queued command to the manager's own state, and returns the
    /// steps that the world must take for it, in order; `None` when nothing is queued.
    pub fn apply_next(&mut self) -> (steps: Option<Vec<Step<C>>>)
        ensures
            old(self)@.commands.len() == 0 ==> steps is None && final(self)@ == old(self)@,
            old(self)@.commands.len() > 0 ==> {
                let cmd = old(self)@.commands[0];
                let popped = ManagerState { commands: old(self)@.commands.drop_first(),
                    ..old(self)@ };
                &&& steps is Some
                &&& final(self)@ == run_command(popped, cmd).0
                &&& steps.unwrap()@ == run_command(popped, cmd).1
            },
    {
        let next = self.commands.pop_front();
        match next {
            None => {
                proof {
                    assert(self@ =~= old(self)@);
                }
                None
            },
            Some(cmd) => {
                let ghost popped = self@;
                assert(popped =~= ManagerState { commands: old(self)@.commands.drop_first(),
                    ..old(self)@ });
                let mut steps: Vec<Step<C>> = Vec::new();
                match cmd {
                    QueuedCommand::Command(c) => {
                        steps.push(Step::Forward(c));
                        self.command_batch.push_back(c);
                        self.redo_stack = Vec::new();
                        proof {
                            assert(batches_view(self.redo_stack@) =~= Seq::<Seq<C>>::empty());
                            assert(self@ =~= run_command(popped, cmd).0);
                            assert(steps@ =~= run_command(popped, cmd).1);
                        }
                    },
                    QueuedCommand::Custom(c) => {
                        steps.push(Step::Forward(c));
                        assert(steps@ =~= run_command(popped, cmd).1);
                    },
                    QueuedCommand::Checkpoint => {
                        self.checkpoint();
                        assert(steps@ =~= run_command(popped, cmd).1);
                    },
                    QueuedCommand::Cancel => {
                        self.revert_batch(&mut steps);
                        assert(steps@ =~= run_command(popped, cmd).1);
                    },
                    QueuedCommand::Undo => {
                        self.revert_batch(&mut steps);
                        let ghost mid = self@;
                        let ghost before_undo = self.undo_stack@;
                        let ghost before_redo = self.redo_stack@;
                        match self.undo_stack.pop() {
                            None => {
                                assert(steps@ =~= run_command(popped, cmd).1);
                            },
                            Some(batch) => {
                                push_backward_steps(&mut steps, &batch);
                                self.redo_stack.push(batch);
                                proof {
                                    assert(batches_view(self.undo_stack@) =~= batches_view(
                                        before_undo,
                                    ).drop_last());
                                    assert(batches_view(self.redo_stack@) =~= batches_view(
                                        before_redo,
                                    ).push(batch@));
                                    assert(batch@ == batches_view(before_undo).last());
                                    assert(self@ =~= run_command(popped, cmd).0);
                                    assert(steps@ =~= run_command(popped, cmd).1);
                                }
                            },
                        }
                    },
                    QueuedCommand::Redo => {
                        self.revert_batch(&mut steps);
                        let ghost before_undo = self.undo_stack@;
                        let ghost before_redo = self.redo_stack@;
                        match self.redo_stack.pop() {
                            None => {
                                assert(steps@ =~= run_command(popped, cmd).1);
                            },
                            Some(batch) => {
                                push_forward_steps(&mut steps, &batch);
                                self.undo_stack.push(batch);
                                proof {
                                    assert(batches_view(self.redo_stack@) =~= batches_view(
                                        before_redo,
                                    ).drop_last());
                                    assert(batches_view(self.undo_stack@) =~= batches_view(
                                        before_undo,
                                    ).push(batch@));
                                    assert(batch@ == batches_view(before_redo).last());
                                    assert(self@ =~= run_command(popped, cmd).0);
                                    assert(steps@ =~= run_command(popped, cmd).1);
                                }
                            },
                        }
                    },
                }
                Some(steps)
            },
        }
    }
}

/// Undoing a step and then redoing it, with no open batch, gives back the stacks
/// and queue as they were; the undo runs the step's commands backward, the last one
/// first, and the redo runs them forward again, the first one first.
pub proof fn lemma_undo_then_redo<C>(s: ManagerState<C>)
    requires
        s.command_batch.len() == 0,
        s.undo_stack.len() > 0,
    ensures
        ({
            let (u, undo_steps) = run_command(s, QueuedCommand::Undo);
            let (r, redo_steps) = run_command(u, QueuedCommand::Redo);
            &&& r == s
            &&& undo_steps == backward_steps(s.undo_stack.last())
            &&& redo_steps == forward_steps(s.undo_stack.last())
        }),
{
    let (u, undo_steps) = run_command(s, QueuedCommand::Undo);
    let (r, redo_steps) = run_command(u, QueuedCommand::Redo);
    assert(backward_steps(s.command_batch) =~= Seq::<Step<C>>::empty());
    assert(backward_steps(u.command_batch) =~= Seq::<Step<C>>::empty());
    assert(undo_steps =~= backward_steps(s.undo_stack.last()));
    assert(redo_steps =~= forward_steps(s.undo_stack.last()));
    assert(r.undo_stack =~= s.undo_stack);
    assert(r.redo_stack =~= s.redo_stack);
    assert(r.command_batch =~= s.command_batch);
    assert(r =~= s);
}

/// Redoing a step and then undoing it, with no open batch, gives back the stacks and
/// queue as they were.
pub proof fn lemma_redo_then_undo<C>(s: ManagerState<C>)
    requires
        s.command_batch.len() == 0,
        s.redo_stack.len() > 0,
    ensures
        ({
            let (r, redo_steps) = run_command(s, QueuedCommand::Redo);
            let (u, undo_steps) = run_command(r, QueuedCommand::Undo);
            &&& u == s
            &&& redo_steps == forward_steps(s.redo_stack.last())
            &&& undo_steps == backward_steps(s.redo_stack.last())
        }),
{
    let (r, redo_steps) = run_command(s, QueuedCommand::Redo);
    let (u, undo_steps) = run_command(r, QueuedCommand::Undo);
    assert(backward_steps(s.command_batch) =~= Seq::<Step<C>>::empty());
    assert(backward_steps(r.command_batch) =~= Seq::<Step<C>>::empty());
    assert(undo_steps =~= backward_steps(s.redo_stack.last()));
    assert(redo_steps =~= forward_steps(s.redo_stack.last()));
    assert(u.undo_stack =~= s.undo_stack);
    assert(u.redo_stack =~= s.redo_stack);
    assert(u.command_batch =~= s.command_batch);
    assert(u =~= s);
}

/// The backward steps of a batch are its forward steps in reverse order, each run
/// the other way.
pub proof fn lemma_backward_mirrors_forward<C>(batch: Seq<C>, i: int)
    requires
        0 <= i < batch.len(),
    ensures
        forward_steps(batch)[batch.len() - 1 - i] matches Step::Forward(c)
            && backward_steps(batch)[i] == Step::Backward(c),
{
}

/// Checkpointing the recorded commands and then undoing reverts exactly those
/// commands, the last one first, and leaves the undo stack as it was before the
/// checkpoint.
pub proof fn lemma_checkpoint_then_undo<C>(s: ManagerState<C>)
    ensures
        ({
            let (k, checkpoint_steps) = run_command(s, QueuedCommand::Checkpoint);
            let (u, undo_steps) = run_command(k, QueuedCommand::Undo);
            &&& checkpoint_steps.len() == 0
            &&& undo_steps == backward_steps(s.command_batch)
            &&& u.undo_stack == s.undo_stack
            &&& u.redo_stack == s.redo_stack.push(s.command_batch)
            &&& u.command_batch.len() == 0
            &&& u.commands == s.commands
        }),
{
    let (k, checkpoint_steps) = run_command(s, QueuedCommand::Checkpoint);
    let (u, undo_steps) = run_command(k, QueuedCommand::Undo);
    assert(backward_steps(k.command_batch) =~= Seq::<Step<C>>::empty());
    assert(undo_steps =~= backward_steps(s.command_batch));
    assert(u.undo_stack =~= s.undo_stack);
}

/// Applying a new command that is recorded for undo leaves nothing to redo: a redo
/// right after it only reverts that command.
pub proof fn lemma_command_clears_redo<C>(s: ManagerState<C>, c: C)
    requires
        s.command_batch.len() == 0,
    ensures
        ({
            let (a, steps) = run_command(s, QueuedCommand::Command(c));
            let (r, redo_steps) = run_command(a, QueuedCommand::Redo);
            &&& steps == seq![Step::Forward(c)]
            &&& a.redo_stack.len() == 0
            &&& redo_steps == seq![Step::Backward(c)]
            &&& r.undo_stack == s.undo_stack
            &&& r.redo_stack.len() == 0
            &&& r.command_batch.len() == 0
        }),
{
    let (a, steps) = run_command(s, QueuedCommand::Command(c));
    assert(a.command_batch =~= seq![c]);
    let (r, redo_steps) = run_command(a, QueuedCommand::Redo);
    assert(redo_steps =~= seq![Step::Backward(c)]);
}

/// No command changes the queue of waiting commands, and undo and redo only move
/// steps between the two stacks: the number of saved steps stays the same.
pub proof fn lemma_run_command_keeps_queue<C>(s: ManagerState<C>, cmd: QueuedCommand<C>)
    ensures
        run_command(s, cmd).0.commands == s.commands,
        cmd is Undo || cmd is Redo ==> run_command(s, cmd).0.undo_stack.len() + run_command(
            s,
            cmd,
        ).0.redo_stack.len() == s.undo_stack.len() + s.redo_stack.len(),
{
}

/// A command of type custom is applied and forgotten: it runs forward once and leaves
/// the batch and both stacks as they were.
pub proof fn lemma_custom_not_recorded<C>(s: ManagerState<C>, c: C)
    ensures
        run_command(s, QueuedCommand::Custom(c)).0 == s,
        run_command(s, QueuedCommand::Custom(c)).1 == seq![Step::Forward(c)],
{
}

/// The world after taking `steps`, in order, where running a command forward and
/// backward changes the world by `forward` and `backward`.
pub open spec fn run_steps<W, C>(
    w: W,
    steps: Seq<Step<C>>,
    forward: spec_fn(W, C) -> W,
    backward: spec_fn(W, C) -> W,
) -> W
    decreases steps.len(),
{
    if steps.len() == 0 {
        w
    } else {
        let next = match steps[0] {
            Step::Forward(c) => forward(w, c),
            Step::Backward(c) => backward(w, c),
        };
        run_steps(next, steps.drop_first(), forward, backward)
    }
}

proof fn lemma_run_steps_concat<W, C>(
    w: W,
    a: Seq<Step<C>>,
    b: Seq<Step<C>>,
    forward: spec_fn(W, C) -> W,
    backward: spec_fn(W, C) -> W,
)
    ensures
        run_steps(w, a + b, forward, backward) == run_steps(
            run_steps(w, a, forward, backward),
            b,
            forward,
            backward,
        ),
    decreases a.len(),
{
    if a.len() == 0 {
        assert(a + b =~= b);
    } else {
        assert((a + b)[0] == a[0]);
        assert((a + b).drop_first() =~= a.drop_first() + b);
        let next = match a[0] {
            Step::Forward(c) => forward(w, c),
            Step::Backward(c) => backward(w, c),
        };
        lemma_run_steps_concat(next, a.drop_first(), b, forward, backward);
    }
}

/// Running a batch forward and then backward gives back the world it started from,
/// when running each command backward undoes running it forward: the backward steps
/// take the commands in reverse order.
pub proof fn lemma_forward_then_backward_restores<W, C>(
    w: W,
    batch: Seq<C>,
    forward: spec_fn(W, C) -> W,
    backward: spec_fn(W, C) -> W,
)
    requires
        forall|x: W, c: C| #[trigger] backward(forward(x, c), c) == x,
    ensures
        run_steps(
            run_steps(w, forward_steps(batch), forward, backward),
            backward_steps(batch),
            forward,
            backward,
        ) == w,
    decreases batch.len(),
{
    if batch.len() > 0 {
        let init = batch.drop_last();
        let c = batch.last();
        assert(forward_steps(batch) =~= forward_steps(init) + seq![Step::Forward(c)]);
        assert(backward_steps(batch) =~= seq![Step::Backward(c)] + backward_steps(init));
        let mid = run_steps(w, forward_steps(init), forward, backward);
        lemma_run_steps_concat(w, forward_steps(init), seq![Step::Forward(c)], forward, backward);
        assert(run_steps(mid, seq![Step::Forward(c)], forward, backward) == forward(mid, c)) by {
            reveal_with_fuel(run_steps, 2);
        }
        lemma_run_steps_concat(
            forward(mid, c),
            seq![Step::Backward(c)],
            backward_steps(init),
            forward,
            backward,
        );
        assert(run_steps(forward(mid, c), seq![Step::<C>::Backward(c)], forward, backward)
            == backward(forward(mid, c), c)) by {
            reveal_with_fuel(run_steps, 2);
        }
        lemma_forward_then_backward_restores(w, init, forward, backward);
    } else {
        assert(forward_steps(batch) =~= Seq::<Step<C>>::empty());
        assert(backward_steps(batch) =~= Seq::<Step<C>>::empty());
    }
}

} // verus!
