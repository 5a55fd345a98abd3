use geist::menu::{command_at, menu_text, Command, COMMAND_COUNT};

#[test]
fn menu_has_ten_commands_in_order() {
    assert_eq!(COMMAND_COUNT, 10);
    let expected = [
        Command::Critic,
        Command::Actor,
        Command::FourActor,
        Command::Compress,
        Command::Question,
        Command::Critique,
        Command::Connect,
        Command::FreeText,
        Command::Conversation,
        Command::Quit,
    ];
    for (i, command) in expected.iter().enumerate() {
        assert_eq!(command_at(i + 1), Some(*command));
    }
}

#[test]
fn menu_has_no_other_positions() {
    assert_eq!(command_at(0), None);
    assert_eq!(command_at(11), None);
    assert_eq!(command_at(usize::MAX), None);
}

#[test]
fn commands_have_their_labels() {
    assert_eq!(Command::Critic.to_string(), "Load random note & analyse (critic) (ChatGPT)");
    assert_eq!(Command::Actor.to_string(), "Load random note & analyse (actor) (ChatGPT)");
    assert_eq!(Command::FourActor.to_string(), "Load 4 random notes & analyse (actor) (ChatGPT)");
    assert_eq!(Command::Compress.to_string(), "Load two random notes & compress");
    assert_eq!(Command::Question.to_string(), "Load random note & question");
    assert_eq!(Command::Critique.to_string(), "Load random note & critique");
    assert_eq!(Command::Connect.to_string(), "Load random note & connect to random notes");
    assert_eq!(Command::FreeText.to_string(), "Free text input");
    assert_eq!(Command::Conversation.to_string(), "Conversation between geists");
    assert_eq!(Command::Quit.to_string(), "Quit");
}

#[test]
fn menu_text_lists_the_commands_with_their_positions() {
    let expected = "Commands:\n\
[1] Load random note & analyse (critic) (ChatGPT)\n\
[2] Load random note & analyse (actor) (ChatGPT)\n\
[3] Load 4 random notes & analyse (actor) (ChatGPT)\n\
[4] Load two random notes & compress\n\
[5] Load random note & question\n\
[6] Load random note & critique\n\
[7] Load random note & connect to random notes\n\
[8] Free text input\n\
[9] Conversation between geists\n\
[10] Quit\n";
    assert_eq!(menu_text(), expected);
    let lines = (1..=COMMAND_COUNT)
        .map(|i| format!("[{}] {}", i, command_at(i).unwrap().to_string()))
        .collect::<Vec<String>>()
        .join("\n");
    assert_eq!(menu_text(), format!("Commands:\n{}\n", lines));
}
