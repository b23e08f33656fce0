use gag_combos::error::pick_args;
use gag_combos::{ArgsError, ParseError};

fn args(v: &[&str]) -> Vec<String> {
    v.iter().map(|s| s.to_string()).collect()
}

#[test]
fn missing_input_argument() {
    let err = pick_args(&args(&["prog"])).unwrap_err();
    assert_eq!(err, ArgsError::MissingArg { arg_name: "input configuration filename" });
    assert_eq!(err.message(), "Missing argument: input configuration filename");
}

#[test]
fn missing_output_argument() {
    let err = pick_args(&args(&["prog", "in.toml"])).unwrap_err();
    assert_eq!(err, ArgsError::MissingArg { arg_name: "output HTML filename" });
}

#[test]
fn both_arguments_given() {
    let picked = pick_args(&args(&["prog", "in.toml", "out.html", "extra"])).unwrap();
    assert_eq!(picked, ("in.toml".to_string(), "out.html".to_string()));
}

#[test]
fn index_message_has_decimal_digits() {
    assert_eq!(
        ParseError::IxOutOfBounds { ix: 1204 }.message(),
        "TOML array index out of bounds: 1204"
    );
    assert_eq!(
        ParseError::SlotOutOfRange { track: "drop", value: i64::MIN }.message(),
        "Gag index out of range on track drop: -9223372036854775808"
    );
    assert_eq!(
        ParseError::SlotOutOfRange { track: "sound", value: 10 }.message(),
        "Gag index out of range on track sound: 10"
    );
}
