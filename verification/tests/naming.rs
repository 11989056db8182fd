use wav_to_mp3::naming::{is_listed, object_stem, output_name, suffix_of, Role};

#[test]
fn stem_of_a_plain_key() {
    assert_eq!(object_stem("recordings/take1.wav"), "take1");
    assert_eq!(object_stem("take1.wav"), "take1");
    assert_eq!(object_stem("a/b/c/song.WAV"), "song");
}

#[test]
fn stem_ignores_dots_in_directories() {
    assert_eq!(object_stem("dir.with.dots/file.wav"), "file");
    assert_eq!(object_stem("dir.with.dots/file"), "");
}

#[test]
fn stem_of_a_name_without_extension_is_empty() {
    assert_eq!(object_stem("noext"), "");
    assert_eq!(object_stem("a/noext"), "");
    assert_eq!(object_stem(""), "");
    assert_eq!(object_stem("a/"), "");
}

#[test]
fn stem_joins_the_pieces_from_last_to_first() {
    assert_eq!(object_stem("a/b/c.d.wav"), "dc");
    assert_eq!(object_stem("one.two.three.wav"), "threetwoone");
    assert_eq!(object_stem("x..wav"), "x");
    assert_eq!(object_stem(".wav"), "");
    assert_eq!(object_stem("name."), "name");
}

#[test]
fn stem_keeps_characters_beyond_ascii() {
    assert_eq!(object_stem("für/élise.wav"), "élise");
    assert_eq!(object_stem("音/楽.曲.wav"), "曲楽");
}

#[test]
fn output_names_carry_role_and_extension() {
    assert_eq!(output_name("take1", Role::Left), "take1-left.mp3");
    assert_eq!(output_name("take1", Role::Right), "take1-right.mp3");
    assert_eq!(output_name("take1", Role::Joint), "take1.mp3");
    assert_eq!(output_name("", Role::Joint), ".mp3");
    assert_eq!(output_name("a.b", Role::Left), "a.b-left.mp3");
}

#[test]
fn suffixes_of_the_roles() {
    assert_eq!(suffix_of(Role::Left), "-left");
    assert_eq!(suffix_of(Role::Right), "-right");
    assert_eq!(suffix_of(Role::Joint), "");
}

#[test]
fn output_names_of_one_object_differ() {
    for base in ["", "x", "take1", "x-left", "-right"] {
        let left = output_name(base, Role::Left);
        let right = output_name(base, Role::Right);
        let joint = output_name(base, Role::Joint);
        assert_ne!(left, right);
        assert_ne!(left, joint);
        assert_ne!(right, joint);
    }
}

#[test]
fn output_names_are_the_same_on_every_run() {
    let first = output_name(&object_stem("in/session.wav"), Role::Left);
    let second = output_name(&object_stem("in/session.wav"), Role::Left);
    assert_eq!(first, second);
    assert_eq!(first, "session-left.mp3");
}

#[test]
fn names_of_two_objects_can_collide() {
    assert_eq!(output_name("x-left", Role::Joint), output_name("x", Role::Left));
}

#[test]
fn is_listed_finds_exact_names_only() {
    let names = vec!["a.mp3".to_string(), "b.mp3".to_string()];
    assert!(is_listed(&names, "a.mp3"));
    assert!(is_listed(&names, "b.mp3"));
    assert!(!is_listed(&names, "A.mp3"));
    assert!(!is_listed(&names, "a.mp"));
    assert!(!is_listed(&Vec::new(), "a.mp3"));
}
