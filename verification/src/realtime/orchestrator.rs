//! The decisions of the task that wires a WebRTC session to the recogniser:
//! how the audio of each Opus packet is sent on, how a session's audio ends,
//! and how the updates of the recogniser are forwarded to the session's client.
use vstd::prelude::*;

verus! {

/// A transcript update of the recogniser, by kind.
#[derive(Debug, Clone, Copy, PartialEq, Eq, Structural)]
pub enum TranscriptEvent {
    Partial,
    Final,
}

/// What the forwarder does after one poll of the recogniser.
#[derive(Debug, Clone, Copy, PartialEq, Eq, Structural)]
pub enum ForwardAction {
    /// Send the update to the client and poll again.
    Send,
    /// Send the update to the client and stop forwarding.
    SendAndStop,
    /// Nothing new: poll again.
    Wait,
    /// Polling failed: stop forwarding.
    Stop,
}

/// The forwarding rule: a partial update is sent and forwarding goes on, the
/// final update is sent and ends it, an empty poll waits, a failed poll ends it.
pub open spec fn forward_turn(update: Result<Option<TranscriptEvent>, ()>) -> ForwardAction {
    match update {
        Ok(Some(TranscriptEvent::Partial)) => ForwardAction::Send,
        Ok(Some(TranscriptEvent::Final)) => ForwardAction::SendAndStop,
        Ok(None) => ForwardAction::Wait,
        Err(()) => ForwardAction::Stop,
    }
}

/// One step of the forwarder, given what the poll gave.
pub fn forward_step(update: Result<Option<TranscriptEvent>, ()>) -> (a: ForwardAction)
    ensures
        a == forward_turn(update),
{
    match update {
        Ok(Some(TranscriptEvent::Partial)) => ForwardAction::Send,
        Ok(Some(TranscriptEvent::Final)) => ForwardAction::SendAndStop,
        Ok(None) => ForwardAction::Wait,
        Err(()) => ForwardAction::Stop,
    }
}


/// What decoding one Opus packet of the session gave.
#[derive(Debug, Clone, Copy, PartialEq, Eq, Structural)]
pub enum PacketDecode {
    /// The packet decoded.
    Decoded,
    /// The packet did not decode; `concealed` when loss concealment filled
    /// the gap in its place.
    Failed { concealed: bool },
}

/// How the frames the pipeline made of a packet's audio are sent.
#[derive(Debug, Clone, Copy, PartialEq, Eq, Structural)]
pub enum SendPolicy {
    /// In order, stopping at the first frame the recogniser refuses.
    UntilFailure,
    /// In order, all of them, whatever the recogniser answers.
    IgnoringFailures,
    /// None: there is no audio for the packet.
    Nothing,
}

/// The sending rule of a packet: decoded audio is sent until a send fails,
/// concealed audio is sent in full, and a packet that neither decoded nor was
/// concealed sends nothing.
pub open spec fn policy_of(decode: PacketDecode) -> SendPolicy {
    match decode {
        PacketDecode::Decoded => SendPolicy::UntilFailure,
        PacketDecode::Failed { concealed } => if concealed {
            SendPolicy::IgnoringFailures
        } else {
            SendPolicy::Nothing
        },
    }
}

/// The sending rule for a packet.
pub fn send_policy(decode: PacketDecode) -> (p: SendPolicy)
    ensures
        p == policy_of(decode),
{
    match decode {
        PacketDecode::Decoded => SendPolicy::UntilFailure,
        PacketDecode::Failed { concealed } => if concealed {
            SendPolicy::IgnoringFailures
        } else {
            SendPolicy::Nothing
        },
    }
}

/// Whether the next frame of a packet is sent after one was sent under
/// `policy`, the recogniser having accepted it (`sent`) or not.
pub open spec fn goes_on(policy: SendPolicy, sent: bool) -> bool {
    match policy {
        SendPolicy::UntilFailure => sent,
        SendPolicy::IgnoringFailures => true,
        SendPolicy::Nothing => false,
    }
}

/// One step of sending a packet's frames.
pub fn keep_sending(policy: SendPolicy, sent: bool) -> (b: bool)
    ensures
        b == goes_on(policy, sent),
{
    match policy {
        SendPolicy::UntilFailure => sent,
        SendPolicy::IgnoringFailures => true,
        SendPolicy::Nothing => false,
    }
}

/// A step of ending a session's audio.
#[derive(Debug, Clone, Copy, PartialEq, Eq, Structural)]
pub enum EndStep {
    /// Send the frame the pipeline still held.
    SendRemainder,
    /// Tell the recogniser the audio is complete.
    Finish,
    /// Forget the recognition session.
    Drop,
}

/// The steps that end a session's audio once its packets are spent: the
/// remainder is sent when the pipeline held one, then the session is
/// finished and dropped, whatever each step answers.
pub open spec fn end_steps(has_remainder: bool) -> Seq<EndStep> {
    if has_remainder {
        seq![EndStep::SendRemainder, EndStep::Finish, EndStep::Drop]
    } else {
        seq![EndStep::Finish, EndStep::Drop]
    }
}

/// The steps that end a session's audio.
pub fn closing_steps(has_remainder: bool) -> (steps: Vec<EndStep>)
    ensures
        steps@ == end_steps(has_remainder),
{
    let mut steps: Vec<EndStep> = Vec::new();
    if has_remainder {
        steps.push(EndStep::SendRemainder);
    }
    steps.push(EndStep::Finish);
    steps.push(EndStep::Drop);
    proof {
        if has_remainder {
            assert(steps@ =~= end_steps(has_remainder));
        } else {
            assert(steps@ =~= end_steps(has_remainder));
        }
    }
    steps
}

/// Of the frames of a packet sent under `policy`, with `accepted[i]` the
/// recogniser's answer to frame `i` if it is sent, the number that are sent:
/// none under `Nothing`, all under `IgnoringFailures`, and under
/// `UntilFailure` those up to and including the first refused one.
pub open spec fn frames_sent(policy: SendPolicy, accepted: Seq<bool>) -> nat
    decreases accepted.len(),
{
    if accepted.len() == 0 || policy == SendPolicy::Nothing {
        0
    } else if goes_on(policy, accepted[0]) {
        1 + frames_sent(policy, accepted.drop_first())
    } else {
        1
    }
}

/// Sending under `UntilFailure` stops right after the first refused frame:
/// every frame before it was accepted, and when all were accepted all are sent.
pub proof fn law_send_stops_at_first_failure(accepted: Seq<bool>)
    ensures
        frames_sent(SendPolicy::UntilFailure, accepted) <= accepted.len(),
        forall|i: int| 0 <= i < frames_sent(SendPolicy::UntilFailure, accepted) - 1 ==> accepted[i],
        (forall|i: int| 0 <= i < accepted.len() ==> accepted[i]) ==> frames_sent(
            SendPolicy::UntilFailure,
            accepted,
        ) == accepted.len(),
        frames_sent(SendPolicy::UntilFailure, accepted) < accepted.len() ==> !accepted[frames_sent(
            SendPolicy::UntilFailure,
            accepted,
        ) - 1],
    decreases accepted.len(),
{
    if accepted.len() > 0 {
        let rest = accepted.drop_first();
        law_send_stops_at_first_failure(rest);
        assert forall|i: int| 0 <= i < frames_sent(SendPolicy::UntilFailure, accepted) - 1 implies accepted[i] by {
            if i > 0 {
                assert(accepted[i] == rest[i - 1]);
            }
        }
        if accepted[0] {
            if frames_sent(SendPolicy::UntilFailure, accepted) < accepted.len() {
                assert(rest[frames_sent(SendPolicy::UntilFailure, rest) - 1] == accepted[frames_sent(
                    SendPolicy::UntilFailure,
                    accepted,
                ) - 1]);
            }
        }
    }
}

} // verus!
