use geist::agent::{compose_prompt, Agent, AgentError};
use geist::openai::OpenAIError;
use geist::similarity::Embedding;

fn embedding(components: &[i16]) -> Embedding {
    Embedding::new(components.to_vec()).unwrap()
}

/// A unit vector in the plane whose cosine with the first axis is `cosine`,
/// in fixed point.
fn at_cosine(cosine: f64) -> Embedding {
    let sine = (1.0 - cosine * cosine).sqrt();
    let x = (cosine * 32767.0).round() as i16;
    let y = (sine * 32767.0).round() as i16;
    embedding(&[x, y])
}

fn remember(agent: &mut Agent, subject: &str, content: &str, e: Embedding) {
    let r = agent.memorize(subject.to_string(), content.to_string(), Ok(e));
    assert!(r.is_ok());
}

#[test]
fn new_agent_has_its_prompt_and_no_memories() {
    let agent = Agent::new("persona".to_string());
    assert_eq!(agent.base_prompt, "persona");
    assert!(agent.memory_bank.is_empty());
}

#[test]
fn recall_on_an_empty_bank_finds_nothing() {
    let agent = Agent::new("persona".to_string());
    assert_eq!(agent.recall(&embedding(&[1, 2, 3])), None);
}

#[test]
fn recall_returns_the_most_similar_memory() {
    let mut agent = Agent::new("persona".to_string());
    remember(&mut agent, "a", "A", at_cosine(0.9));
    remember(&mut agent, "b", "B", at_cosine(0.95));
    remember(&mut agent, "c", "C", at_cosine(0.2));
    let query = embedding(&[32767, 0]);
    assert_eq!(agent.recall(&query), Some("B".to_string()));
}

#[test]
fn recall_returns_the_most_similar_memory_in_any_order() {
    let orders: [[usize; 3]; 6] =
        [[0, 1, 2], [0, 2, 1], [1, 0, 2], [1, 2, 0], [2, 0, 1], [2, 1, 0]];
    let cosines = [0.9, 0.95, 0.2];
    let contents = ["A", "B", "C"];
    for order in orders.iter() {
        let mut agent = Agent::new("persona".to_string());
        for &i in order.iter() {
            remember(&mut agent, "s", contents[i], at_cosine(cosines[i]));
        }
        assert_eq!(agent.recall(&embedding(&[100, 0])), Some("B".to_string()));
    }
}

#[test]
fn recall_finds_nothing_when_no_similarity_is_positive() {
    let mut agent = Agent::new("persona".to_string());
    remember(&mut agent, "opposite", "opposite", embedding(&[-5, 0]));
    remember(&mut agent, "orthogonal", "orthogonal", embedding(&[0, 9]));
    remember(&mut agent, "obtuse", "obtuse", embedding(&[-1, 7]));
    assert_eq!(agent.recall(&embedding(&[3, 0])), None);
}

#[test]
fn recall_needs_a_positive_similarity() {
    let mut agent = Agent::new("persona".to_string());
    remember(&mut agent, "orthogonal", "orthogonal", embedding(&[0, 9]));
    remember(&mut agent, "barely", "barely", embedding(&[1, 32767]));
    assert_eq!(agent.recall(&embedding(&[3, 0])), Some("barely".to_string()));
}

#[test]
fn recall_keeps_the_first_of_equally_similar_memories() {
    let mut agent = Agent::new("persona".to_string());
    remember(&mut agent, "first", "first", embedding(&[3, 4]));
    remember(&mut agent, "second", "second", embedding(&[6, 8]));
    remember(&mut agent, "third", "third", embedding(&[3, 4]));
    assert_eq!(agent.recall(&embedding(&[1, 1])), Some("first".to_string()));
}

#[test]
fn recall_passes_over_memories_of_another_dimension() {
    let mut agent = Agent::new("persona".to_string());
    remember(&mut agent, "long", "long", embedding(&[1, 0, 0]));
    remember(&mut agent, "empty", "empty", embedding(&[]));
    remember(&mut agent, "zero", "zero", embedding(&[0, 0]));
    remember(&mut agent, "fits", "fits", embedding(&[1, 1]));
    assert_eq!(agent.recall(&embedding(&[1, 0])), Some("fits".to_string()));
    assert_eq!(agent.recall(&embedding(&[1, 0, 0])), Some("long".to_string()));
    assert_eq!(agent.recall(&embedding(&[1, 0, 0, 0])), None);
    assert_eq!(agent.recall(&embedding(&[])), None);
    assert_eq!(agent.recall(&embedding(&[0, 0])), None);
}

#[test]
fn recall_tells_apart_similarities_that_differ_in_the_last_bit() {
    // Two memories of 1000 large components each; they differ from the
    // query by one unit in one component, the second in the smaller one.
    let n = 1000usize;
    let mut query = vec![32767i16; n];
    query[0] = 30000;
    let mut near = query.clone();
    near[1] = 32766;
    let mut nearer = query.clone();
    nearer[0] = 29999;
    let mut agent = Agent::new("persona".to_string());
    remember(&mut agent, "near", "near", Embedding::new(near).unwrap());
    remember(&mut agent, "nearer", "nearer", Embedding::new(nearer).unwrap());
    let q = Embedding::new(query).unwrap();
    let recalled = agent.recall(&q).unwrap();
    let target = q.components();
    let cosine = |v: &Embedding| {
        let components = v.components();
        let mut dot = 0f64;
        let mut norm = 0f64;
        for i in 0..n {
            dot += components[i] as f64 * target[i] as f64;
            norm += components[i] as f64 * components[i] as f64;
        }
        dot * dot / norm
    };
    let first = cosine(&agent.memory_bank[0].embedding);
    let second = cosine(&agent.memory_bank[1].embedding);
    assert_ne!(first, second);
    let expected = if second > first { "nearer" } else { "near" };
    assert_eq!(recalled, expected);
}

#[test]
fn recall_compares_large_similarities_exactly() {
    // Squared dot products here exceed 64 bits, and the two candidates
    // differ only far below the precision of a 64-bit quotient.
    let n = 4096usize;
    let query = Embedding::new(vec![32767i16; n]).unwrap();
    let mut a = vec![32767i16; n];
    a[0] = 32766;
    let mut b = vec![32767i16; n];
    b[0] = 32765;
    let mut agent = Agent::new("persona".to_string());
    remember(&mut agent, "b", "farther", Embedding::new(b).unwrap());
    remember(&mut agent, "a", "closer", Embedding::new(a).unwrap());
    assert_eq!(agent.recall(&query), Some("closer".to_string()));
}

#[test]
fn memorize_appends_in_order() {
    let mut agent = Agent::new("persona".to_string());
    remember(&mut agent, "one", "first", embedding(&[1]));
    remember(&mut agent, "two", "second", embedding(&[2, 3]));
    assert_eq!(agent.memory_bank.len(), 2);
    assert_eq!(agent.memory_bank[0].subject, "one");
    assert_eq!(agent.memory_bank[0].content, "first");
    assert_eq!(agent.memory_bank[0].embedding.dimension(), 1);
    assert_eq!(agent.memory_bank[1].subject, "two");
    assert_eq!(agent.memory_bank[1].content, "second");
    assert_eq!(agent.memory_bank[1].embedding.components(), vec![2, 3]);
    assert_eq!(agent.base_prompt, "persona");
}

#[test]
fn memorize_leaves_the_bank_unchanged_when_the_embedding_failed() {
    let mut agent = Agent::new("persona".to_string());
    remember(&mut agent, "one", "first", embedding(&[1]));
    let r = agent.memorize(
        "two".to_string(),
        "second".to_string(),
        Err(OpenAIError::Error("no service".to_string())),
    );
    match r {
        Err(AgentError::OpenAIError(OpenAIError::Error(message))) => {
            assert_eq!(message, "no service")
        }
        Ok(()) => panic!("the failure was not handed on"),
    }
    assert_eq!(agent.memory_bank.len(), 1);
    assert_eq!(agent.memory_bank[0].content, "first");
}

#[test]
fn agent_error_comes_from_a_service_error() {
    let error = AgentError::from(OpenAIError::Error("refused".to_string()));
    match error {
        AgentError::OpenAIError(OpenAIError::Error(message)) => assert_eq!(message, "refused"),
    }
}

#[test]
fn compose_prompt_without_a_memory_holds_the_input_only() {
    let prompt = compose_prompt("base", "what is new?", None);
    assert_eq!(
        prompt,
        format!(
            "base{}",
            format!(
                "
          
          Message:
          {}
          ",
                "what is new?"
            )
        )
    );
    assert!(prompt.starts_with("base"));
    assert!(prompt.contains("what is new?"));
    assert!(!prompt.contains("Reminding me of:"));
}

#[test]
fn compose_prompt_with_a_memory_holds_both() {
    let prompt = compose_prompt("base", "what is new?", Some("M"));
    assert_eq!(
        prompt,
        format!(
            "base{}",
            format!(
                "

          Message:
          {}
          
          Reminding me of:
          {}",
                "what is new?", "M"
            )
        )
    );
    assert!(prompt.contains("what is new?"));
    assert!(prompt.contains("Reminding me of:"));
    assert!(prompt.ends_with("M"));
}

#[test]
fn compose_prompt_leaves_the_persona_as_it_was() {
    let base = String::from("persona");
    let first = compose_prompt(&base, "one", None);
    let second = compose_prompt(&base, "two", Some("memory"));
    assert_eq!(base, "persona");
    assert_ne!(first, second);
}

#[test]
fn prompt_splices_in_what_is_recalled() {
    let mut agent = Agent::new("persona".to_string());
    remember(&mut agent, "s", "the sea", embedding(&[1, 0]));
    remember(&mut agent, "t", "the sky", embedding(&[0, 1]));
    let prompt = agent.prompt("waves", &embedding(&[9, 1]));
    assert_eq!(prompt, compose_prompt("persona", "waves", Some("the sea")));
    let prompt = agent.prompt("clouds", &embedding(&[1, 9]));
    assert_eq!(prompt, compose_prompt("persona", "clouds", Some("the sky")));
    let prompt = agent.prompt("nothing", &embedding(&[-1, -1]));
    assert_eq!(prompt, compose_prompt("persona", "nothing", None));
    assert_eq!(agent.base_prompt, "persona");
    assert_eq!(agent.memory_bank.len(), 2);
}

#[test]
fn speak_hands_on_a_failed_embedding() {
    let mut agent = Agent::new("persona".to_string());
    remember(&mut agent, "s", "the sea", embedding(&[1, 0]));
    let r = agent.speak("waves", Err(OpenAIError::Error("timeout".to_string())));
    match r {
        Err(AgentError::OpenAIError(OpenAIError::Error(message))) => {
            assert_eq!(message, "timeout")
        }
        Ok(_) => panic!("a prompt was composed without an embedding"),
    }
}

#[test]
fn speak_composes_the_prompt_to_send() {
    let mut agent = Agent::new("persona".to_string());
    remember(&mut agent, "s", "the sea", embedding(&[1, 0]));
    let r = agent.speak("waves", Ok(embedding(&[5, 1])));
    match r {
        Ok(prompt) => assert_eq!(prompt, compose_prompt("persona", "waves", Some("the sea"))),
        Err(_) => panic!("the embedding was there"),
    }
}
