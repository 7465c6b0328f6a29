use vstd::prelude::*;

use crate::batch::reverse_vec;
use crate::identifiers::InvocationId;

verus! {

/// Truncation of the outbox up to an index, as the shuffle reports it.
#[derive(Debug, Copy, Clone, PartialEq, Eq, Structural)]
pub struct OutboxTruncation {
    pub index: u64,
}

impl OutboxTruncation {
    pub fn index(&self) -> (r: u64)
        ensures
            r == self.index,
    {
        self.index
    }
}

/// Output of a built-in invoker: the invocation and the effects it produced.
pub struct BuiltInInvokerOutput<E> {
    pub full_invocation_id: InvocationId,
    pub effects: Vec<E>,
}

impl<E> BuiltInInvokerOutput<E> {
    pub fn into_inner(self) -> (r: (InvocationId, Vec<E>))
        ensures
            r.0 == self.full_invocation_id,
            r.1 == self.effects,
    {
        (self.full_invocation_id, self.effects)
    }
}

/// Effects of a built-in service, as a command carries them.
pub struct BuiltInEffects<E> {
    pub full_invocation_id: InvocationId,
    pub effects: Vec<E>,
}

impl<E> BuiltInEffects<E> {
    pub fn new(full_invocation_id: InvocationId, effects: Vec<E>) -> (r: Self)
        ensures
            r.full_invocation_id == full_invocation_id,
            r.effects == effects,
    {
        BuiltInEffects { full_invocation_id, effects }
    }
}

/// What an actuator of the leader reports: invoker output `I`, a truncation
/// of the outbox, a fired timer `T`, or the output of a built-in invoker
/// with effects `E`.
pub enum ActionEffect<I, T, E> {
    Invoker(I),
    Shuffle(OutboxTruncation),
    Timer(T),
    BuiltInInvoker(BuiltInInvokerOutput<E>),
}

/// A command of the partition processor's state machine.
pub enum Command<I, T, E> {
    Invoker(I),
    OutboxTruncation(u64),
    Timer(T),
    BuiltInInvoker(BuiltInEffects<E>),
}

/// A proposal that asks for no acknowledgement: one command, or a batch.
pub enum AckCommand<I, T, E> {
    Single(Command<I, T, E>),
    Batch(Vec<Command<I, T, E>>),
}

/// The command that proposes an action effect.
pub open spec fn command_of<I, T, E>(action: ActionEffect<I, T, E>) -> Command<I, T, E> {
    match action {
        ActionEffect::Invoker(o) => Command::Invoker(o),
        ActionEffect::Shuffle(t) => Command::OutboxTruncation(t.index),
        ActionEffect::Timer(t) => Command::Timer(t),
        ActionEffect::BuiltInInvoker(o) => Command::BuiltInInvoker(
            BuiltInEffects { full_invocation_id: o.full_invocation_id, effects: o.effects },
        ),
    }
}

/// Proposes the effects of the leader's actuators through `proposal_tx`.
pub struct ActionEffectHandler<S> {
    pub proposal_tx: S,
}

impl<S> ActionEffectHandler<S> {
    pub fn new(proposal_tx: S) -> (h: Self)
        ensures
            h.proposal_tx == proposal_tx,
    {
        ActionEffectHandler { proposal_tx }
    }

    /// Empties the buffer into the proposal of its action effects.
    pub fn handle<I, T, E>(&self, actuator_output_buffer: &mut Vec<ActionEffect<I, T, E>>) -> (r: AckCommand<I, T, E>)
        ensures
            final(actuator_output_buffer)@.len() == 0,
            old(actuator_output_buffer)@.len() == 1 ==> r == AckCommand::Single(command_of(old(actuator_output_buffer)@[0])),
            old(actuator_output_buffer)@.len() != 1 ==> (r matches AckCommand::Batch(cmds)
                && cmds@ == old(actuator_output_buffer)@.map_values(|a| command_of(a))),
    {
        let ghost actions = actuator_output_buffer@;
        let mut taken: Vec<ActionEffect<I, T, E>> = Vec::new();
        std::mem::swap(&mut taken, actuator_output_buffer);
        if taken.len() == 1 {
            let action = taken.pop().unwrap();
            return AckCommand::Single(Self::map_action_to_command(action));
        }
        // Reverse the actions, then pop them back in their order.
        let mut reversed = reverse_vec(taken);
        let mut commands: Vec<Command<I, T, E>> = Vec::new();
        while reversed.len() > 0
            invariant
                reversed@.len() + commands@.len() == actions.len(),
                forall|i: int| 0 <= i < reversed@.len() ==> #[trigger] reversed@[i] == actions[actions.len() - 1 - i],
                forall|i: int| 0 <= i < commands@.len() ==> #[trigger] commands@[i] == command_of(actions[i]),
            decreases reversed@.len(),
        {
            let a = reversed.pop().unwrap();
            commands.push(Self::map_action_to_command(a));
        }
        assert(commands@ =~= actions.map_values(|a| command_of(a)));
        AckCommand::Batch(commands)
    }

    /// The command that proposes an action effect.
    pub fn map_action_to_command<I, T, E>(action: ActionEffect<I, T, E>) -> (c: Command<I, T, E>)
        ensures
            c == command_of(action),
    {
        match action {
            ActionEffect::Invoker(invoker_output) => Command::Invoker(invoker_output),
            ActionEffect::Shuffle(outbox_truncation) => Command::OutboxTruncation(outbox_truncation.index()),
            ActionEffect::Timer(timer) => Command::Timer(timer),
            ActionEffect::BuiltInInvoker(invoker_output) => {
                let (fid, effects) = invoker_output.into_inner();
                Command::BuiltInInvoker(BuiltInEffects::new(fid, effects))
            },
        }
    }
}

} // verus!
