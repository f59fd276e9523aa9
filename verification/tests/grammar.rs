use keysounds::binding::{KeyBinding, SoundRef};
use keysounds::grammar::{build_table, check_audio_ext, parse_filename, split_bytes, ScanEntry};
use keysounds::keys::KeyId;

fn parse(name: &[u8]) -> Option<KeyBinding> {
    parse_filename(name, name.to_vec())
}

#[test]
fn parse_two_modifiers_and_letter() {
    let b = parse(b"cmd-shift-k.flac").expect("should parse");
    assert!(b.cmd);
    assert!(b.shift);
    assert!(!b.ctrl);
    assert_eq!(b.key, KeyId::Letter(b'k'));
    assert_eq!(b.sound, SoundRef::File(b"cmd-shift-k.flac".to_vec()));
}

#[test]
fn parse_bare_letter() {
    let b = parse(b"w.flac").expect("should parse");
    assert!(!b.cmd);
    assert!(!b.shift);
    assert!(!b.ctrl);
    assert_eq!(b.key, KeyId::Letter(b'w'));
}

#[test]
fn parse_unknown_key_yields_nothing() {
    assert!(parse(b"xyz-???.flac").is_none());
}

#[test]
fn parse_unknown_modifier_yields_nothing() {
    assert!(parse(b"alt-k.flac").is_none());
}

#[test]
fn parse_named_keys() {
    assert_eq!(parse(b"escape.wav").unwrap().key, KeyId::Escape);
    assert_eq!(parse(b"backspace.ogg").unwrap().key, KeyId::Backspace);
    assert_eq!(parse(b"space.mp3").unwrap().key, KeyId::Space);
    assert_eq!(parse(b"enter.flac").unwrap().key, KeyId::Return);
    assert_eq!(parse(b"tab.flac").unwrap().key, KeyId::Tab);
}

#[test]
fn parse_is_case_insensitive() {
    let b = parse(b"CMD-Shift-K.flac").expect("should parse");
    assert!(b.cmd);
    assert!(b.shift);
    assert_eq!(b.key, KeyId::Letter(b'k'));

    let c = parse(b"Ctrl-ESCAPE.flac").expect("should parse");
    assert!(c.ctrl);
    assert!(!c.cmd);
    assert_eq!(c.key, KeyId::Escape);
}

#[test]
fn parse_repeated_modifiers_collapse() {
    let b = parse(b"cmd-cmd-z.flac").expect("should parse");
    assert!(b.cmd);
    assert!(!b.shift);
    assert!(!b.ctrl);
    assert_eq!(b.key, KeyId::Letter(b'z'));
}

#[test]
fn extension_allow_list() {
    assert!(check_audio_ext(b"a.flac"));
    assert!(check_audio_ext(b"a.wav"));
    assert!(check_audio_ext(b"a.mp3"));
    assert!(check_audio_ext(b"a.ogg"));
    assert!(check_audio_ext(b"a.FLAC"));
    assert!(check_audio_ext(b"song.old.flac"));
    assert!(!check_audio_ext(b"a.txt"));
    assert!(!check_audio_ext(b"noext"));
    assert!(!check_audio_ext(b".flac"));
    assert!(!check_audio_ext(b"a."));
}

fn entry(name: &[u8], path: &[u8]) -> ScanEntry {
    ScanEntry { name: name.to_vec(), path: path.to_vec() }
}

#[test]
fn scan_skips_bad_names_and_keeps_good_ones() {
    let entries = vec![
        entry(b"xyz-???.flac", b"/s/xyz-???.flac"),
        entry(b"w.flac", b"/s/w.flac"),
        entry(b"notes.txt", b"/s/notes.txt"),
        entry(b"cmd-c.wav", b"/s/cmd-c.wav"),
    ];
    let t = build_table(&entries);
    assert_eq!(t.len(), 2);
    let first = t.get(0);
    assert_eq!(first.key, KeyId::Letter(b'w'));
    assert_eq!(first.sound, SoundRef::File(b"/s/w.flac".to_vec()));
    let second = t.get(1);
    assert!(second.cmd);
    assert_eq!(second.key, KeyId::Letter(b'c'));
    assert_eq!(second.sound, SoundRef::File(b"/s/cmd-c.wav".to_vec()));
}

#[test]
fn scan_of_nothing_valid_is_empty() {
    let entries = vec![entry(b"readme.md", b"/s/readme.md"), entry(b"???.flac", b"/s/???.flac")];
    let t = build_table(&entries);
    assert_eq!(t.len(), 0);
}

#[test]
fn split_keeps_empty_tokens() {
    let toks = split_bytes(b"a--b", b'-');
    assert_eq!(toks.len(), 3);
    assert_eq!(toks[0], b"a".to_vec());
    assert_eq!(toks[1], Vec::<u8>::new());
    assert_eq!(toks[2], b"b".to_vec());

    let one = split_bytes(b"", b'-');
    assert_eq!(one.len(), 1);
    assert_eq!(one[0], Vec::<u8>::new());
}
