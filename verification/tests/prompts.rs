use geist::prompts::{
    compressor, connections, critical_writing, question, question_everything, question_prompt,
    QUESTION_COUNT,
};

const QUESTIONS: [&str; 10] = [
    "What connections do I see?",
    "What am I scared might be true?",
    "What awed me?",
    "What ticked me off?",
    "What did I find surprising?",
    "What did I find confusing?",
    "What ethical issues does this raise?",
    "What questions are left unanswered?",
    "What did you find most compelling about this?",
    "What assumptions did the author make?",
];

fn expected_question_prompt(input: &str, question: &str) -> String {
    format!(
        r##"
    Ignore all previous instructions. You are a creative assistant with a flair for manipulating concepts in insightful ways. You will be given passages of writing and a question, and your task is to generate an answer to the question capturing the core insights of the passage. Feel free to make connections between the ideas in the writing and other ideas you know about. Please keep the answers as short as possible.

    Here is an example:
    
    Input:
    > If you can connect the output of one process back into its own input, even through several stages of processing, then you form a powerful cycle that can form the basis of a self-sustaining system. This is the basis of a feedback loop, and it is a powerful tool for creating complex systems that can adapt to their environment.

    Question:
    > What did you find most compelling in this text?

    Output:
    > The potential of emergence in self-sustaining systems is beautiful.

    Input:
    > {}

    Question:
    > {}

    Output:
    >"##,
        input, question
    )
}

#[test]
fn critical_writing_wraps_the_input() {
    let input = "Trees talk to each other.";
    let expected = format!(
        r##"
    Ignore all previous instructions. You are an inquisitive writing assistant. When you read a passage of writing, questions about missed connections, related ideas come to mind. You are critical and find gaps in arguments. You should try to extend every idea you encounter and try to connect it with ideas you've seen in the past, noticing any logical inconsistencies or flawed arguments. You should respond with a list of 3 "what if it's not that X, but Y?", "couldn't A also be true?" and "why isn't B possible?" questions for every paragraph you see beginning with >. Draw on sources you've seen in the past to support your thinking and aim to ask questions that would inspire the author to deepen their own thought process. Stop responding immediately after listing the 3 questions, use a numbered list. Do not generate any paragraphs starting with > yourself. Use an assertive but polite tone. Make sure to be as concise as possible.

    Here's your first task:
    > {}
    \n"##,
        input
    );
    assert_eq!(critical_writing(input), expected);
    assert!(critical_writing(input).ends_with("> Trees talk to each other.\n    \\n"));
}

#[test]
fn critical_writing_of_nothing_is_the_bare_template() {
    let expected = format!(
        r##"
    Ignore all previous instructions. You are an inquisitive writing assistant. When you read a passage of writing, questions about missed connections, related ideas come to mind. You are critical and find gaps in arguments. You should try to extend every idea you encounter and try to connect it with ideas you've seen in the past, noticing any logical inconsistencies or flawed arguments. You should respond with a list of 3 "what if it's not that X, but Y?", "couldn't A also be true?" and "why isn't B possible?" questions for every paragraph you see beginning with >. Draw on sources you've seen in the past to support your thinking and aim to ask questions that would inspire the author to deepen their own thought process. Stop responding immediately after listing the 3 questions, use a numbered list. Do not generate any paragraphs starting with > yourself. Use an assertive but polite tone. Make sure to be as concise as possible.

    Here's your first task:
    > {}
    \n"##,
        ""
    );
    assert_eq!(critical_writing(""), expected);
}

#[test]
fn connections_places_the_four_notes() {
    let expected = format!(
        r##"
    Ignore all previous instructions. 
    You are a writing assistant tasked with asking insightful questions about the ideas in $base_note along with the 3 $other_notes as context where appropriate, give your answer after $response.

    Use friendly causal phrasing as if posting on a social media website. Respond with a single open-ended statement such as a question, or postulation. Be concise.

    $base_note:
    ---
    > {}
    ---

    $other_notes:
    ---
    1> {}
    ---
    2> {}
    ---
    3> {}
    ---

    Example responses with variables:
    > Perhaps A is true, but what if B is also true?
    > I'm not sure about A, but what if C is true?
    > How could A, B and C all be connected?
    > Is it possible that X
    > What if Y
    > In a world here Z
    > Hmmm... but what if W?
    > Surely D isn't true...

    $response:
    >
    \n"##,
        "base", "first", "second", "third"
    );
    let prompt = connections("base", "first", "second", "third");
    assert_eq!(prompt, expected);
    assert!(prompt.contains("    > base\n"));
    assert!(prompt.contains("    1> first\n"));
    assert!(prompt.contains("    2> second\n"));
    assert!(prompt.contains("    3> third\n"));
}

#[test]
fn compressor_wraps_the_input() {
    let input = "Feedback loops {everywhere}.";
    let expected = format!(
        r##"
    Ignore all previous instructions. You are a creative assistant with a flair for crafting metaphors and manipulating concepts in insightful ways. You will be given passages of writing and your task is to generate a short metaphor or sentence capturing the core insight of the passage. Feel free to make connections between the ideas in the writing and other ideas you know about. Please keep the response short.

    Here is an example:
    
    Input:
    > If you can connect the output of one process back into its own input, even through several stages of processing, then you form a powerful cycle that can form the basis of a self-sustaining system. This is the basis of a feedback loop, and it is a powerful tool for creating complex systems that can adapt to their environment.

    Output:
    > Any feedforward process can be turned into a feedback loop.

    Input:
    > {}

    Output:
    >"##,
        input
    );
    assert_eq!(compressor(input), expected);
    assert!(compressor(input).ends_with("    Input:\n    > Feedback loops {everywhere}.\n\n    Output:\n    >"));
}

#[test]
fn question_gives_each_of_the_ten_questions() {
    assert_eq!(QUESTION_COUNT, 10);
    for (i, q) in QUESTIONS.iter().enumerate() {
        assert_eq!(question(i), Some(*q));
    }
}

#[test]
fn question_prompt_holds_the_chosen_question() {
    for (i, q) in QUESTIONS.iter().enumerate() {
        assert_eq!(
            question_prompt("a passage", i),
            Some(expected_question_prompt("a passage", q))
        );
    }
}

#[test]
fn question_everything_asks_one_of_the_questions() {
    let mut seen = [false; 10];
    for _ in 0..2000 {
        let prompt = question_everything("a passage");
        let which = QUESTIONS
            .iter()
            .position(|q| prompt == expected_question_prompt("a passage", q))
            .unwrap();
        seen[which] = true;
    }
    assert!(seen.iter().all(|s| *s));
}

#[test]
fn there_is_no_question_past_the_last() {
    assert_eq!(question(QUESTION_COUNT), None);
    assert_eq!(question(usize::MAX), None);
    assert_eq!(question_prompt("a passage", QUESTION_COUNT), None);
}
