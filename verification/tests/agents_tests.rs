use masday_mcp::agents::{match_agent, text_words};

fn texts(items: &[&str]) -> Vec<String> {
    items.iter().map(|s| s.to_string()).collect()
}

fn words_of(text: &str) -> Vec<String> {
    text_words(text).into_iter().map(|w| w.into_iter().collect()).collect()
}

#[test]
fn text_words_lowercases_and_drops_short_pieces() {
    assert_eq!(words_of("Build the backend API, go!"), vec!["build", "the", "backend", "api"]);
    assert_eq!(words_of(""), Vec::<String>::new());
    assert_eq!(words_of("a-b-c"), Vec::<String>::new());
}

#[test]
fn text_words_counts_bytes_not_chars() {
    // "éa" is two characters but three bytes in UTF-8.
    assert_eq!(words_of("éa ok"), vec!["éa"]);
}

#[test]
fn match_agent_picks_largest_overlap() {
    let agents = texts(&[
        "ui-designer designer Designs user interfaces frontend",
        "api-builder backend Builds REST APIs and backend services backend",
    ]);
    assert_eq!(match_agent("Build the backend API", &agents), Some(1));
}

#[test]
fn match_agent_prefers_first_of_equals() {
    let agents = texts(&["alpha backend", "beta backend"]);
    assert_eq!(match_agent("backend work", &agents), Some(0));
}

#[test]
fn match_agent_without_agents_or_words_is_default() {
    assert_eq!(match_agent("Build the backend", &[]), None);
    let agents = texts(&["backend builder"]);
    assert_eq!(match_agent("a b c", &agents), None);
    assert_eq!(match_agent("nothing shared here", &agents), None);
}

#[test]
fn match_agent_threshold_is_one_in_twenty() {
    let agents = texts(&["needle"]);
    let mut task: Vec<String> = (0..19).map(|i| format!("word{}", i)).collect();
    task.push("needle".to_string());
    // 1 of 20 words shared: exactly 0.05, kept.
    assert_eq!(match_agent(&task.join(" "), &agents), Some(0));
    task.push("word19".to_string());
    // 1 of 21 words shared: under 0.05, default.
    assert_eq!(match_agent(&task.join(" "), &agents), None);
}
