use morse_wav::naming::{container_name, is_container_name, recovered_name};

fn bytes(name: &str) -> Vec<u8> {
    name.as_bytes().to_vec()
}

#[test]
fn container_names_hold_the_extension() {
    assert!(is_container_name(&bytes("song.wav")));
    assert!(is_container_name(&bytes(".wav")));
    assert!(is_container_name(&bytes("a.wav.bak")));
    assert!(is_container_name(&bytes("dir.wav/file")));
    assert!(!is_container_name(&bytes("song.mp3")));
    assert!(!is_container_name(&bytes("")));
    assert!(!is_container_name(&bytes("wav")));
    assert!(!is_container_name(&bytes(".wa")));
    assert!(!is_container_name(&bytes("song.WAV")));
    assert!(!is_container_name(&bytes(".w.a.v")));
}

#[test]
fn container_name_appends_the_extension() {
    assert_eq!(container_name(&bytes("secret.bin")), bytes("secret.bin.wav"));
    assert_eq!(container_name(&bytes("")), bytes(".wav"));
}

#[test]
fn recovered_name_replaces_the_last_four_bytes() {
    assert_eq!(recovered_name(&bytes("secret.bin.wav")), bytes("secret.bin.recovered"));
    assert_eq!(recovered_name(&bytes(".wav")), bytes(".recovered"));
    assert_eq!(recovered_name(&bytes("a.wav.bak")), bytes("a.wav.recovered"));
}

#[test]
fn names_round_trip_through_both() {
    let input = bytes("payload");
    let container = container_name(&input);
    assert!(is_container_name(&container));
    assert_eq!(recovered_name(&container), bytes("payload.recovered"));
}
