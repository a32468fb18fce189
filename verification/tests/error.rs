use game_of_life::error::Error;

#[test]
fn message_is_kept_as_it_is() {
    let error = Error::msg("the grid is too small");
    assert_eq!(error.to_string(), "the grid is too small");
    assert_eq!(error.to_debug_string(), "the grid is too small");
}

#[test]
fn empty_message_is_kept_empty() {
    let error = Error::msg("");
    assert_eq!(error.to_string(), "");
    assert_eq!(error.to_debug_string(), "");
}

#[test]
fn carried_error_displays_as_itself() {
    let cause = "twelve".parse::<u32>().unwrap_err();
    let expected = format!("{}", cause);
    let error = Error::default(cause);
    assert_eq!(error.to_string(), expected);
    assert_eq!(error.to_string(), "invalid digit found in string");
}

#[test]
fn carried_error_has_its_own_debug_form() {
    let cause = "twelve".parse::<u32>().unwrap_err();
    let expected = format!("{:?}", anyhow::Error::from(cause.clone()));
    let error = Error::default(cause);
    assert_eq!(error.to_debug_string(), expected);
    assert!(error.to_debug_string().contains("invalid digit found in string"));
}

#[test]
fn carried_anyhow_error_is_not_wrapped_again() {
    let error = Error::default(anyhow::Error::msg("boom"));
    assert_eq!(error.to_string(), "boom");
}
