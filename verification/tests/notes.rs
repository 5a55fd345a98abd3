use geist::notes::{choose_note, load_note, random_note, NoteError};

fn names(list: &[&str]) -> Vec<String> {
    list.iter().map(|n| n.to_string()).collect()
}

#[test]
fn choose_note_wraps_around_the_list() {
    let notes = names(&["a.txt", "b.txt", "c.txt"]);
    assert_eq!(choose_note(&notes, 0).unwrap(), "a.txt");
    assert_eq!(choose_note(&notes, 1).unwrap(), "b.txt");
    assert_eq!(choose_note(&notes, 2).unwrap(), "c.txt");
    assert_eq!(choose_note(&notes, 3).unwrap(), "a.txt");
    assert_eq!(choose_note(&notes, 100).unwrap(), "b.txt");
    assert_eq!(choose_note(&notes, usize::MAX).unwrap(), notes[usize::MAX % 3]);
}

#[test]
fn random_note_is_one_of_the_list() {
    let notes = names(&["a.txt", "b.txt", "c.txt"]);
    let mut seen = [false; 3];
    for _ in 0..300 {
        let name = random_note(&notes).unwrap();
        let which = notes.iter().position(|n| *n == name).unwrap();
        seen[which] = true;
    }
    assert_eq!(seen, [true; 3]);
    assert_eq!(random_note(&names(&["only.txt"])).unwrap(), "only.txt");
}

#[test]
fn load_note_parses_what_was_read() {
    let note = load_note("n.txt".to_string(), Ok("k: v\n\nbody\n".to_string())).ok().unwrap();
    assert_eq!(note.name, "n.txt");
    assert_eq!(note.headers, vec![("k".to_string(), "v".to_string())]);
    assert_eq!(note.content, "body\n");
}

#[test]
fn load_note_hands_on_the_failure_of_reading() {
    match load_note("n.txt".to_string(), Err("no such file".to_string())) {
        Err(NoteError::IOError(description)) => assert_eq!(description, "no such file"),
        Ok(_) => panic!("a note came back"),
    }
}

#[test]
fn no_note_is_chosen_from_an_empty_list() {
    assert_eq!(choose_note(&Vec::new(), 5), None);
    assert_eq!(random_note(&Vec::new()), None);
}
