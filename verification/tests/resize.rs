use desktop_commands::resize::{failure_message, requested_size, resize_outcome, PhysicalSize};

#[test]
fn requested_size_cuts_both_lengths() {
    let size = requested_size(800.0f64.to_bits(), 600.0f64.to_bits());
    assert_eq!(size, PhysicalSize { width: 800, height: 600 });
    let size = requested_size(100.9f64.to_bits(), 0.4f64.to_bits());
    assert_eq!(size, PhysicalSize { width: 100, height: 0 });
    let size = requested_size((-3.0f64).to_bits(), 1.0e12f64.to_bits());
    assert_eq!(size, PhysicalSize { width: 0, height: 4294967295 });
}

#[test]
fn width_and_height_are_not_swapped() {
    let size = requested_size(1.0f64.to_bits(), 2.0f64.to_bits());
    assert_eq!(size.width, 1);
    assert_eq!(size.height, 2);
}

#[test]
fn failure_message_puts_the_prefix_before_the_host_words() {
    assert_eq!(failure_message("window not found"), "Failed to resize window: window not found");
    assert_eq!(failure_message(""), "Failed to resize window: ");
    assert_eq!(failure_message("").chars().count(), 25);
}

#[test]
fn success_of_the_host_is_success() {
    assert_eq!(resize_outcome(Ok(())), Ok(()));
}

#[test]
fn failure_of_the_host_is_reported_with_its_words() {
    assert_eq!(
        resize_outcome(Err(String::from("failed to send message to the event loop"))),
        Err(String::from("Failed to resize window: failed to send message to the event loop"))
    );
}

#[test]
fn a_report_is_never_empty() {
    let details: Vec<&str> = vec!["", " ", "x", "Failed to resize window: "];
    for detail in details {
        let outcome = resize_outcome(Err(String::from(detail)));
        assert!(matches!(&outcome, Err(text) if !text.is_empty() && text.ends_with(detail)));
    }
}
