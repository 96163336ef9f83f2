//! The reminder as the mail transport wants it, and what the transport's
//! answer means.

use crate::error::DeliveryError;
use vstd::prelude::*;
use vstd::string::StringExecFns;

verus! {

/// The program that carries the mail.
pub const TRANSPORT: &'static str = "msmtp";

/// Subject line of every reminder.
pub const SUBJECT: &'static str = "Arose tes plantes !";

/// Body of every reminder.
pub const BODY: &'static str = "Glouglou";

/// The text of a reminder to `recipient`: the header lines, an empty line,
/// the body, each line closed by a line feed.
pub open spec fn message_text(recipient: Seq<char>) -> Seq<char> {
    "To: "@ + recipient + "\nSubject: "@ + SUBJECT@ + "\n\n"@ + BODY@ + "\n"@
}

/// The arguments that the transport is started with: the end of the options,
/// then the recipient.
pub open spec fn argument_texts(recipient: Seq<char>) -> Seq<Seq<char>> {
    seq!["--"@, recipient]
}

/// How one run of the mail transport ended.
#[derive(Clone, Copy, Debug, PartialEq, Eq, Structural)]
pub enum TransportOutcome {
    /// The transport could not be started.
    NotStarted,
    /// The message could not be written to the transport.
    NotWritten,
    /// The transport's end could not be awaited.
    NotAwaited,
    /// The transport did not end in time.
    TimedOut,
    /// The transport ended; `success` is its own verdict.
    Exited { success: bool },
}

/// What a transport outcome means for the delivery.
pub open spec fn verdict(outcome: TransportOutcome) -> Result<(), DeliveryError> {
    match outcome {
        TransportOutcome::Exited { success: true } => Ok(()),
        TransportOutcome::Exited { success: false } => Err(DeliveryError::Rejected),
        TransportOutcome::TimedOut => Err(DeliveryError::TimedOut),
        _ => Err(DeliveryError::Unreachable),
    }
}

/// Writes the reminder for `recipient`.
pub fn compose(recipient: &str) -> (message: String)
    ensures
        message@ == message_text(recipient@),
{
    let mut message = String::from_str("To: ");
    message.append(recipient);
    message.append("\nSubject: ");
    message.append(SUBJECT);
    message.append("\n\n");
    message.append(BODY);
    message.append("\n");
    message
}

/// The arguments to start the transport with for a reminder to `recipient`.
pub fn transport_arguments(recipient: &str) -> (arguments: Vec<String>)
    ensures
        arguments.deep_view() == argument_texts(recipient@),
{
    let mut arguments: Vec<String> = Vec::new();
    arguments.push(String::from_str("--"));
    arguments.push(String::from_str(recipient));
    assert(arguments.deep_view() =~= argument_texts(recipient@));
    arguments
}

/// Judges a run of the transport: the reminder is delivered only when the
/// transport ended and called it a success; every other outcome is a failed
/// delivery.
pub fn delivery_result(outcome: TransportOutcome) -> (delivery: Result<(), DeliveryError>)
    ensures
        delivery == verdict(outcome),
{
    match outcome {
        TransportOutcome::Exited { success } => if success {
            Ok(())
        } else {
            Err(DeliveryError::Rejected)
        },
        TransportOutcome::TimedOut => Err(DeliveryError::TimedOut),
        _ => Err(DeliveryError::Unreachable),
    }
}

} // verus!
