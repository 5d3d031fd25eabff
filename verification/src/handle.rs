//! The decisions of the per-connection pipeline: what each frame of a
//! connection makes the executor do.

use crate::cmd::parse::{CommandError, CommandErrorView, ParseError, ParseErrorView};
use crate::cmd::{command_of, routing_hash, runs_at, Command, CommandExecution, CommandView};
use crate::context::Context;
use crate::dialer::{route_of, Dialer, Route};
use crate::frame::grammar::FrameView;
use crate::frame::{frames_view, Frame};
use crate::storage::StorageSegment;
use crate::supervisor::{MetadataConnection, Supervisor};
use crate::text::text_bytes;
use vstd::prelude::*;
use vstd::string::*;

verus! {

/// A connection on its way to the executor that owns the slot of its
/// current command.
#[derive(Debug)]
pub struct ConnectionMsg {
    /// File descriptor of the socket.
    pub fd: i32,
    /// The command that made the connection move; it has not run yet.
    pub current_command: Command,
    /// The frames that had been received after it.
    pub rest_frame: Vec<Frame>,
}

/// What the executor has to do after a frame.
#[derive(Debug)]
pub enum Action {
    /// Write the frame to the client and go on.
    Reply(Frame),
    /// Write the frame to the client and close the connection.
    Close(Frame),
    /// Hand the connection over to the executor of the part `target`,
    /// with the command that has to run there.
    Migrate { target: usize, command: Command },
}

/// The mathematical value of an [`Action`].
pub enum ActionView {
    Reply(FrameView),
    Close(FrameView),
    Migrate { target: usize, command: CommandView },
}

impl View for Action {
    type V = ActionView;

    open spec fn view(&self) -> ActionView {
        match self {
            Action::Reply(frame) => ActionView::Reply(frame@),
            Action::Close(frame) => ActionView::Close(frame@),
            Action::Migrate { target, command } => ActionView::Migrate {
                target: *target,
                command: command@,
            },
        }
    }
}

/// The text that tells that a command ended too early.
pub open spec fn end_of_stream_text() -> Seq<char> {
    "protocol error; unexpected end of stream"@
}

/// The text of an error, as the client is told it.
pub open spec fn error_text(error: CommandErrorView) -> Seq<char> {
    "ERR "@ + match error {
        CommandErrorView::Protocol(ParseErrorView::EndOfStream) => end_of_stream_text(),
        CommandErrorView::Protocol(ParseErrorView::Other(text)) => text,
        CommandErrorView::Application(text) => text,
    }
}

/// The frame that tells the client of an error.
pub open spec fn error_reply(error: CommandErrorView) -> FrameView {
    FrameView::Error(text_bytes(error_text(error)))
}

/// The frame that tells the client of an error.
pub fn error_frame(error: &CommandError) -> (frame: Frame)
    ensures
        frame@ == error_reply(error@),
{
    let mut text = String::from_str("ERR ");
    match error {
        CommandError::Protocol(ParseError::EndOfStream) => {
            text.append("protocol error; unexpected end of stream");
        },
        CommandError::Protocol(ParseError::Other(reason)) => {
            text.append(reason.as_str());
        },
        CommandError::Application(reason) => {
            text.append(reason.as_str());
        },
    }
    Frame::error(&text)
}

/// What a frame makes the executor do at the time `now`, and what it
/// leaves of the shard and of the registry.
///
/// A frame that is no command is answered with an error; where it broke
/// the protocol the connection is closed as well. A command whose slot
/// another part owns leaves with the connection and does not run here.
/// Every other command runs and is answered.
pub open spec fn steps_at(
    frame: FrameView,
    now: u64,
    routing: Dialer,
    accepted: MetadataConnection,
    before: (StorageSegment, Supervisor),
    after: (StorageSegment, Supervisor),
    action: ActionView,
) -> bool {
    match command_of(frame) {
        Err(CommandErrorView::Application(text)) => action == ActionView::Reply(
            error_reply(CommandErrorView::Application(text)),
        ) && unchanged(before, after),
        Err(error) => action == ActionView::Close(error_reply(error)) && unchanged(before, after),
        Ok(command) => match route_of(routing.local(), routing.table(), routing_hash(command)) {
            Route::Remote(target) => action == (ActionView::Migrate { target, command })
                && unchanged(before, after),
            Route::Local => action is Reply && runs_at(
                command,
                now,
                accepted@,
                before,
                after,
                action->Reply_0,
            ),
        },
    }
}

/// Nothing of the shard and of the registry has changed.
pub open spec fn unchanged(
    before: (StorageSegment, Supervisor),
    after: (StorageSegment, Supervisor),
) -> bool {
    &&& after.0.entries() == before.0.entries()
    &&& after.0.slot() == before.0.slot()
    &&& after.1.connections() == before.1.connections()
    &&& after.1.counter() == before.1.counter()
}

/// The handler of one connection.
pub struct Handler {}

impl Handler {
    /// Decides what a frame of the connection makes the executor do, and
    /// runs the command of the frame where it runs here.
    pub fn step(
        frame: Frame,
        ctx: &mut Context,
        storage: &mut StorageSegment,
        supervisor: &mut Supervisor,
    ) -> (action: Action)
        ensures
            final(ctx).accepted() == old(ctx).accepted(),
            final(ctx).routing() == old(ctx).routing(),
            exists|now: u64|
                steps_at(
                    frame@,
                    now,
                    old(ctx).routing(),
                    old(ctx).accepted(),
                    (*old(storage), *old(supervisor)),
                    (*final(storage), *final(supervisor)),
                    action@,
                ),
    {
        let now = ctx.now();
        let action = Handler::step_at(frame, now, ctx, storage, supervisor);
        assert(steps_at(
            frame@,
            now,
            old(ctx).routing(),
            old(ctx).accepted(),
            (*old(storage), *old(supervisor)),
            (*storage, *supervisor),
            action@,
        ));
        action
    }

    /// Decides what a frame of the connection makes the executor do at the
    /// time `now`, and runs the command of the frame where it runs here.
    pub fn step_at(
        frame: Frame,
        now: u64,
        ctx: &Context,
        storage: &mut StorageSegment,
        supervisor: &mut Supervisor,
    ) -> (action: Action)
        ensures
            steps_at(
                frame@,
                now,
                ctx.routing(),
                ctx.accepted(),
                (*old(storage), *old(supervisor)),
                (*final(storage), *final(supervisor)),
                action@,
            ),
    {
        let command = match Command::from_frame(frame) {
            Ok(command) => command,
            Err(CommandError::Application(text)) => {
                return Action::Reply(error_frame(&CommandError::Application(text)));
            },
            Err(error) => {
                return Action::Close(error_frame(&error));
            },
        };
        match ctx.dialer().route(command.hash_key()) {
            Route::Remote(target) => Action::Migrate { target, command },
            Route::Local => Action::Reply(
                command.apply_at(now, ctx.connection(), storage, supervisor),
            ),
        }
    }
}

/// How the run over the frames of a connection ended.
#[derive(Debug)]
pub enum RunEnd {
    /// Every frame was answered.
    Drained,
    /// A frame broke the protocol: the frame that tells the client so has
    /// to be written, and the connection closed.
    Closed(Frame),
    /// A command has to run on the executor of the part `target`: the
    /// connection has to be handed over with the command and with the
    /// frames that came after it.
    Migrate { target: usize, command: Command, rest_frame: Vec<Frame> },
}

/// What a run over the frames of a connection gave.
#[derive(Debug)]
pub struct RunOutcome {
    /// The answers to the frames that ran, in the order of the frames.
    pub replies: Vec<Frame>,
    /// How the run ended.
    pub end: RunEnd,
}

/// The first frames of `frames` were answered one after the other with
/// `replies`: the `i`-th answer is what the `i`-th frame gave at the time
/// `nows[i]` in the state `states[i]`, which it left as `states[i + 1]`.
pub open spec fn answered_in_order(
    frames: Seq<FrameView>,
    routing: Dialer,
    accepted: MetadataConnection,
    states: Seq<(StorageSegment, Supervisor)>,
    nows: Seq<u64>,
    replies: Seq<FrameView>,
) -> bool {
    &&& replies.len() <= frames.len()
    &&& states.len() == replies.len() + 1
    &&& nows.len() == replies.len()
    &&& forall|i: int|
        0 <= i < replies.len() ==> steps_at(
            frames[i],
            nows[i],
            routing,
            accepted,
            states[i],
            states[i + 1],
            ActionView::Reply(#[trigger] replies[i]),
        )
}

/// The run over `frames` ended as `end` after `answered` of them: with the
/// last frame, or with the first frame that was not answered, which closes
/// the connection or makes it leave with the frames after it.
pub open spec fn ended_as(
    frames: Seq<FrameView>,
    answered: int,
    routing: Dialer,
    accepted: MetadataConnection,
    last: (StorageSegment, Supervisor),
    now: u64,
    end: RunEnd,
) -> bool {
    match end {
        RunEnd::Drained => answered == frames.len(),
        RunEnd::Closed(frame) => 0 <= answered < frames.len() && steps_at(
            frames[answered],
            now,
            routing,
            accepted,
            last,
            last,
            ActionView::Close(frame@),
        ),
        RunEnd::Migrate { target, command, rest_frame } => 0 <= answered < frames.len()
            && steps_at(
            frames[answered],
            now,
            routing,
            accepted,
            last,
            last,
            ActionView::Migrate { target, command: command@ },
        ) && frames_view(rest_frame@) == frames.skip(answered + 1),
    }
}

/// The run over `frames` from the state `before` gave `out` and left the
/// state `after`.
pub open spec fn ran(
    frames: Seq<FrameView>,
    routing: Dialer,
    accepted: MetadataConnection,
    before: (StorageSegment, Supervisor),
    after: (StorageSegment, Supervisor),
    out: RunOutcome,
) -> bool {
    exists|states: Seq<(StorageSegment, Supervisor)>, nows: Seq<u64>, now: u64|
        ran_through(frames, routing, accepted, before, after, out, states, nows, now)
}

/// The run over `frames` went through the given states at the given times.
pub open spec fn ran_through(
    frames: Seq<FrameView>,
    routing: Dialer,
    accepted: MetadataConnection,
    before: (StorageSegment, Supervisor),
    after: (StorageSegment, Supervisor),
    out: RunOutcome,
    states: Seq<(StorageSegment, Supervisor)>,
    nows: Seq<u64>,
    now: u64,
) -> bool {
    &&& answered_in_order(frames, routing, accepted, states, nows, frames_view(out.replies@))
    &&& states[0] == before
    &&& unchanged(states[states.len() - 1], after)
    &&& ended_as(
        frames,
        frames_view(out.replies@).len() as int,
        routing,
        accepted,
        states[states.len() - 1],
        now,
        out.end,
    )
}

/// Turns a queue of frames around, so that the first is taken last.
fn reversed(frames: Vec<Frame>) -> (stack: Vec<Frame>)
    ensures
        frames_view(stack@) == frames_view(frames@).reverse(),
        stack@.len() == frames@.len(),
{
    let mut frames = frames;
    let ghost all = frames_view(frames@);
    let mut stack: Vec<Frame> = Vec::new();
    while frames.len() > 0
        invariant
            frames_view(frames@) == all.take(frames@.len() as int),
            frames@.len() <= all.len(),
            stack@.len() + frames@.len() == all.len(),
            forall|i: int|
                0 <= i < stack@.len() ==> (#[trigger] stack@[i])@ == all[all.len() - 1 - i],
        decreases frames.len(),
    {
        let ghost before = frames_view(frames@);
        let frame = frames.pop().unwrap();
        assert(frame@ == before[before.len() - 1]);
        stack.push(frame);
        assert(frames_view(frames@) =~= all.take(frames@.len() as int));
    }
    assert(frames_view(stack@) =~= all.reverse());
    stack
}

impl Handler {
    /// Runs over the frames that a connection has received, in their
    /// order, until they are all answered or one of them closes the
    /// connection or makes it leave.
    pub fn run(
        frames: Vec<Frame>,
        ctx: &mut Context,
        storage: &mut StorageSegment,
        supervisor: &mut Supervisor,
    ) -> (out: RunOutcome)
        ensures
            final(ctx).accepted() == old(ctx).accepted(),
            final(ctx).routing() == old(ctx).routing(),
            ran(
                frames_view(frames@),
                old(ctx).routing(),
                old(ctx).accepted(),
                (*old(storage), *old(supervisor)),
                (*final(storage), *final(supervisor)),
                out,
            ),
    {
        let ghost all = frames_view(frames@);
        let ghost routing = ctx.routing();
        let ghost accepted = ctx.accepted();
        let mut stack = reversed(frames);
        let mut replies: Vec<Frame> = Vec::new();
        let ghost mut states: Seq<(StorageSegment, Supervisor)> = seq![(*storage, *supervisor)];
        let ghost mut nows: Seq<u64> = Seq::empty();
        while stack.len() > 0
            invariant
                all == frames_view(frames@),
                routing == old(ctx).routing(),
                accepted == old(ctx).accepted(),
                ctx.routing() == routing,
                ctx.accepted() == accepted,
                stack@.len() + replies@.len() == all.len(),
                frames_view(stack@).reverse() == all.skip(replies@.len() as int),
                answered_in_order(all, routing, accepted, states, nows, frames_view(replies@)),
                states[0] == (*old(storage), *old(supervisor)),
                states[states.len() - 1] == (*storage, *supervisor),
            decreases stack.len(),
        {
            let ghost answered = replies@.len() as int;
            let ghost done = frames_view(replies@);
            let ghost left = frames_view(stack@);
            let frame = stack.pop().unwrap();
            proof {
                assert(frame@ == left[left.len() - 1]);
                assert(left.reverse()[0] == left[left.len() - 1]);
                assert(frame@ == all[answered]);
                let shorter = frames_view(stack@);
                assert(shorter =~= left.take(left.len() - 1));
                assert(shorter.reverse().len() == all.skip(answered + 1).len());
                assert forall|i: int| 0 <= i < shorter.len() implies shorter.reverse()[i]
                    == all.skip(answered + 1)[i] by {
                    assert(shorter.reverse()[i] == left[left.len() - 2 - i]);
                    assert(left.reverse()[i + 1] == left[left.len() - 2 - i]);
                    assert(all.skip(answered)[i + 1] == all[answered + 1 + i]);
                }
                assert(shorter.reverse() =~= all.skip(answered + 1));
            }
            let now = ctx.now();
            match Handler::step_at(frame, now, ctx, storage, supervisor) {
                Action::Reply(reply) => {
                    replies.push(reply);
                    proof {
                        let longer = frames_view(replies@);
                        let earlier = states;
                        states = states.push((*storage, *supervisor));
                        nows = nows.push(now);
                        assert(longer =~= done.push(reply@));
                        assert forall|i: int| 0 <= i < longer.len() implies steps_at(
                            all[i],
                            nows[i],
                            routing,
                            accepted,
                            states[i],
                            states[i + 1],
                            ActionView::Reply(#[trigger] longer[i]),
                        ) by {
                            if i < answered {
                                assert(longer[i] == done[i]);
                                assert(states[i] == earlier[i]);
                                assert(states[i + 1] == earlier[i + 1]);
                            }
                        }
                    }
                },
                Action::Close(frame) => {
                    let out = RunOutcome { replies, end: RunEnd::Closed(frame) };
                    proof {
                        assert(ran_through(
                            all,
                            routing,
                            accepted,
                            (*old(storage), *old(supervisor)),
                            (*storage, *supervisor),
                            out,
                            states,
                            nows,
                            now,
                        ));
                    }
                    return out;
                },
                Action::Migrate { target, command } => {
                    let rest_frame = reversed(stack);
                    let out = RunOutcome {
                        replies,
                        end: RunEnd::Migrate { target, command, rest_frame },
                    };
                    proof {
                        assert(frames_view(rest_frame@) =~= all.skip(answered + 1)) by {
                            assert(frames_view(stack@).reverse().reverse() =~= frames_view(
                                stack@,
                            ));
                        }
                        assert(ran_through(
                            all,
                            routing,
                            accepted,
                            (*old(storage), *old(supervisor)),
                            (*storage, *supervisor),
                            out,
                            states,
                            nows,
                            now,
                        ));
                    }
                    return out;
                },
            }
        }
        let out = RunOutcome { replies, end: RunEnd::Drained };
        assert(ran_through(
            all,
            routing,
            accepted,
            (*old(storage), *old(supervisor)),
            (*storage, *supervisor),
            out,
            states,
            nows,
            0,
        ));
        out
    }
}

/// Resuming the connection of `msg` from the state `before` gave `out` and
/// left the state `after`: the first answer is that of the command that
/// made the connection move, and the answers after it are those of a run
/// over the frames that came with it.
pub open spec fn resumed(
    msg: ConnectionMsg,
    routing: Dialer,
    accepted: MetadataConnection,
    before: (StorageSegment, Supervisor),
    after: (StorageSegment, Supervisor),
    out: RunOutcome,
) -> bool {
    exists|middle: (StorageSegment, Supervisor), now: u64, rest: RunOutcome|
        resumed_through(msg, routing, accepted, before, after, out, middle, now, rest)
}

/// Resuming the connection of `msg` ran its command at the time `now`,
/// which left the state `middle`, and then ran over its frames, which gave `rest`.
pub open spec fn resumed_through(
    msg: ConnectionMsg,
    routing: Dialer,
    accepted: MetadataConnection,
    before: (StorageSegment, Supervisor),
    after: (StorageSegment, Supervisor),
    out: RunOutcome,
    middle: (StorageSegment, Supervisor),
    now: u64,
    rest: RunOutcome,
) -> bool {
    &&& out.replies@.len() > 0
    &&& runs_at(msg.current_command@, now, accepted@, before, middle, out.replies@[0]@)
    &&& ran(frames_view(msg.rest_frame@), routing, accepted, middle, after, rest)
    &&& frames_view(out.replies@).skip(1) == frames_view(rest.replies@)
    &&& out.end == rest.end
}

impl ConnectionMsg {
    /// The message that hands a connection over: its socket, the command
    /// that made it move and the frames that came after the command.
    pub fn new(fd: i32, current_command: Command, rest_frame: Vec<Frame>) -> (msg: ConnectionMsg)
        ensures
            msg.fd == fd,
            msg.current_command == current_command,
            msg.rest_frame == rest_frame,
    {
        ConnectionMsg { fd, current_command, rest_frame }
    }
}

impl Handler {
    /// Resumes a connection that was handed over: runs the command that
    /// made it move, then runs over the frames that came with it.
    pub fn continue_run(
        msg: ConnectionMsg,
        ctx: &mut Context,
        storage: &mut StorageSegment,
        supervisor: &mut Supervisor,
    ) -> (out: RunOutcome)
        ensures
            final(ctx).accepted() == old(ctx).accepted(),
            final(ctx).routing() == old(ctx).routing(),
            resumed(
                msg,
                old(ctx).routing(),
                old(ctx).accepted(),
                (*old(storage), *old(supervisor)),
                (*final(storage), *final(supervisor)),
                out,
            ),
    {
        let ConnectionMsg { fd: _, current_command, rest_frame } = msg;
        let first = current_command.apply(ctx, storage, supervisor);
        let ghost middle = (*storage, *supervisor);
        let ghost now = choose|now: u64|
            runs_at(
                current_command@,
                now,
                old(ctx).accepted()@,
                (*old(storage), *old(supervisor)),
                middle,
                first@,
            );
        let rest = Handler::run(rest_frame, ctx, storage, supervisor);
        let ghost rest_outcome = rest;
        let RunOutcome { replies, end } = rest;
        let mut replies = replies;
        replies.insert(0, first);
        let out = RunOutcome { replies, end };
        proof {
            assert(frames_view(out.replies@).skip(1) =~= frames_view(rest_outcome.replies@));
            assert(resumed_through(
                msg,
                old(ctx).routing(),
                old(ctx).accepted(),
                (*old(storage), *old(supervisor)),
                (*storage, *supervisor),
                out,
                middle,
                now,
                rest_outcome,
            ));
        }
        out
    }
}

/// Response ordering: a run that ends with the last frame has answered
/// every frame, the `i`-th answer being that of the `i`-th frame.
pub proof fn lemma_run_answers_in_order(
    frames: Seq<FrameView>,
    routing: Dialer,
    accepted: MetadataConnection,
    before: (StorageSegment, Supervisor),
    after: (StorageSegment, Supervisor),
    out: RunOutcome,
)
    requires
        ran(frames, routing, accepted, before, after, out),
        out.end is Drained,
    ensures
        out.replies@.len() == frames.len(),
        forall|i: int|
            0 <= i < frames.len() ==> exists|
                now: u64,
                here: (StorageSegment, Supervisor),
                there: (StorageSegment, Supervisor),
            |
                steps_at(
                    frames[i],
                    now,
                    routing,
                    accepted,
                    here,
                    there,
                    ActionView::Reply(#[trigger] out.replies@[i]@),
                ),
{
    let (states, nows, now) = choose|
        states: Seq<(StorageSegment, Supervisor)>,
        nows: Seq<u64>,
        now: u64,
    | ran_through(frames, routing, accepted, before, after, out, states, nows, now);
    assert forall|i: int| 0 <= i < frames.len() implies exists|
        now: u64,
        here: (StorageSegment, Supervisor),
        there: (StorageSegment, Supervisor),
    |
        steps_at(
            frames[i],
            now,
            routing,
            accepted,
            here,
            there,
            ActionView::Reply(#[trigger] out.replies@[i]@),
        ) by {
        assert(frames_view(out.replies@)[i] == out.replies@[i]@);
        assert(steps_at(
            frames[i],
            nows[i],
            routing,
            accepted,
            states[i],
            states[i + 1],
            ActionView::Reply(frames_view(out.replies@)[i]),
        ));
    }
}

/// Migration preservation: a connection that left with its `k`-th frame
/// carries the command of that frame and the frames after it, and resuming
/// it answers the command first and then runs over those frames.
pub proof fn lemma_migration_keeps_order(
    frames: Seq<FrameView>,
    routing: Dialer,
    accepted: MetadataConnection,
    before: (StorageSegment, Supervisor),
    after: (StorageSegment, Supervisor),
    out: RunOutcome,
    fd: i32,
    target_routing: Dialer,
    target_accepted: MetadataConnection,
    target_before: (StorageSegment, Supervisor),
    target_after: (StorageSegment, Supervisor),
    target_out: RunOutcome,
)
    requires
        ran(frames, routing, accepted, before, after, out),
        out.end is Migrate,
        resumed(
            ConnectionMsg {
                fd,
                current_command: out.end->Migrate_command,
                rest_frame: out.end->Migrate_rest_frame,
            },
            target_routing,
            target_accepted,
            target_before,
            target_after,
            target_out,
        ),
    ensures
        out.replies@.len() < frames.len(),
        command_of(frames[out.replies@.len() as int]) == Ok::<CommandView, CommandErrorView>(
            out.end->Migrate_command@,
        ),
        target_out.replies@.len() > 0,
        exists|now: u64, middle: (StorageSegment, Supervisor)|
            runs_at(
                out.end->Migrate_command@,
                now,
                target_accepted@,
                target_before,
                middle,
                #[trigger] target_out.replies@[0]@,
            ),
        exists|middle: (StorageSegment, Supervisor), rest: RunOutcome|
            #[trigger] ran(
                frames.skip(out.replies@.len() as int + 1),
                target_routing,
                target_accepted,
                middle,
                target_after,
                rest,
            ) && frames_view(target_out.replies@).skip(1) == frames_view(rest.replies@),
{
    let (states, nows, now) = choose|
        states: Seq<(StorageSegment, Supervisor)>,
        nows: Seq<u64>,
        now: u64,
    | ran_through(frames, routing, accepted, before, after, out, states, nows, now);
    let msg = ConnectionMsg {
        fd,
        current_command: out.end->Migrate_command,
        rest_frame: out.end->Migrate_rest_frame,
    };
    let (middle, at, rest) = choose|
        middle: (StorageSegment, Supervisor),
        at: u64,
        rest: RunOutcome,
    |
        resumed_through(
            msg,
            target_routing,
            target_accepted,
            target_before,
            target_after,
            target_out,
            middle,
            at,
            rest,
        );
    assert(runs_at(
        out.end->Migrate_command@,
        at,
        target_accepted@,
        target_before,
        middle,
        target_out.replies@[0]@,
    ));
    assert(ran(
        frames.skip(out.replies@.len() as int + 1),
        target_routing,
        target_accepted,
        middle,
        target_after,
        rest,
    ));
}

} // verus!
