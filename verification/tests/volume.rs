use hyprdeck::cli::VolumeStatusArgs;
use hyprdeck::commands::modules::audio::volume::{
    get_volume_args, is_float, mute_value, parse_status, set_mute_args, set_volume_args,
    status_format, step_value, update_message, MuteChange, VolumeError, VolumeFormat,
};
use hyprdeck::text::chars_of;

fn volume(output: &str) -> (f32, bool) {
    let (text, muted) = parse_status(output).unwrap();
    (text.parse::<f32>().unwrap(), muted)
}

#[test]
fn parses_volume_and_mute_state() {
    assert_eq!(volume("Volume: 0.75 [MUTED]\n"), (0.75, true));
    assert_eq!(volume("Volume: 0.25\n"), (0.25, false));
}

#[test]
fn rejects_missing_volume() {
    assert!(parse_status("Volume: [MUTED]").is_err());
}

#[test]
fn volume_errors_and_formats() {
    assert_eq!(parse_status(""), Err(VolumeError::MissingVolume));
    assert_eq!(VolumeError::MissingVolume.message(), "volume value not found");
    let args = VolumeStatusArgs { percent: true, value: true, json: false, device: "@DEFAULT_AUDIO_SINK@".into() };
    assert_eq!(status_format(&args), VolumeFormat::Value);
}

#[test]
fn float_texts_match_std() {
    for text in [
        "1", "1.", ".5", "-0.25", "+3e4", "2E-3", "inf", "-Infinity", "NaN", "1.5e+10", "",
        ".", "e5", "1e", "1e+", "0x10", "1.2.3", "--1", "[MUTED]", "Volume:", "١",
    ] {
        let v = chars_of(text);
        assert_eq!(is_float(&v), text.parse::<f32>().is_ok(), "{text}");
    }
}

#[test]
fn volume_commands_and_messages() {
    assert_eq!(get_volume_args("@DEFAULT_AUDIO_SINK@"), vec!["get-volume", "@DEFAULT_AUDIO_SINK@"]);
    assert_eq!(step_value("0.05", true), "0.05+");
    assert_eq!(step_value("0.05", false), "0.05-");
    assert_eq!(set_volume_args("42", "0.5"), vec!["set-volume", "42", "0.5"]);
    assert_eq!(mute_value(MuteChange::Mute), "1");
    assert_eq!(mute_value(MuteChange::Unmute), "0");
    assert_eq!(mute_value(MuteChange::Toggle), "toggle");
    assert_eq!(set_mute_args("42", "toggle"), vec!["set-mute", "42", "toggle"]);
    assert_eq!(update_message(false, "42", "0.5"), "Volume updated: 42 0.5");
    assert_eq!(update_message(true, "42", "1"), "Mute updated: 42 1");
}
