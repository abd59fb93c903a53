use serve_core::signal::Signal;

#[test]
fn signal_with_name_is_described_with_both() {
    let signal = Signal { number: 2, name: Some("Interrupt".to_string()) };
    assert_eq!(signal.to_string(), "signal (2): Interrupt");
    let signal = Signal { number: 15, name: Some("Terminated".to_string()) };
    assert_eq!(signal.to_string(), "signal (15): Terminated");
}

#[test]
fn signal_without_name_is_described_by_number() {
    assert_eq!(Signal { number: 15, name: None }.to_string(), "signal (15)");
    assert_eq!(Signal { number: 0, name: None }.to_string(), "signal (0)");
}

#[test]
fn signal_numbers_at_the_limits() {
    assert_eq!(Signal { number: -1, name: None }.to_string(), "signal (-1)");
    assert_eq!(Signal { number: i32::MAX, name: None }.to_string(), "signal (2147483647)");
    assert_eq!(
        Signal { number: i32::MIN, name: Some(String::new()) }.to_string(),
        "signal (-2147483648): "
    );
}
