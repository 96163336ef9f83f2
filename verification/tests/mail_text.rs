use watering::error::DeliveryError;
use watering::mail::{
    compose, delivery_result, transport_arguments, TransportOutcome, BODY, SUBJECT, TRANSPORT,
};

#[test]
fn reminder_has_headers_blank_line_and_body() {
    assert_eq!(
        compose("someone@example.org"),
        "To: someone@example.org\nSubject: Arose tes plantes !\n\nGlouglou\n"
    );
}

#[test]
fn reminder_to_nobody_still_has_its_shape() {
    assert_eq!(compose(""), "To: \nSubject: Arose tes plantes !\n\nGlouglou\n");
}

#[test]
fn subject_body_and_transport_are_fixed() {
    assert_eq!(SUBJECT, "Arose tes plantes !");
    assert_eq!(BODY, "Glouglou");
    assert_eq!(TRANSPORT, "msmtp");
}

#[test]
fn transport_gets_the_recipient_after_the_options_end() {
    assert_eq!(
        transport_arguments("someone@example.org"),
        vec![String::from("--"), String::from("someone@example.org")]
    );
}

#[test]
fn only_a_successful_exit_is_a_delivery() {
    assert_eq!(delivery_result(TransportOutcome::Exited { success: true }), Ok(()));
    assert_eq!(
        delivery_result(TransportOutcome::Exited { success: false }),
        Err(DeliveryError::Rejected)
    );
    assert_eq!(delivery_result(TransportOutcome::TimedOut), Err(DeliveryError::TimedOut));
    assert_eq!(delivery_result(TransportOutcome::NotStarted), Err(DeliveryError::Unreachable));
    assert_eq!(delivery_result(TransportOutcome::NotWritten), Err(DeliveryError::Unreachable));
    assert_eq!(delivery_result(TransportOutcome::NotAwaited), Err(DeliveryError::Unreachable));
}
