use masday_mcp::config::read_embedding_dimensions;
use masday_mcp::config::{read_embedding_base_url, read_embedding_model, read_embedding_provider};
use masday_mcp::config::{
    env_or_config, read_config_value, read_api_url, read_db_url_from_config, read_mode, read_redis_url,
};

const SAMPLE: &str = "# masday config\nmode = \"local\"\napi-url = 'http://localhost:3000' # API\n\nredis_url=redis://127.0.0.1\ndatabase_url = \"\"\ndatabase_url = \"postgres://db\"\nmodel = other\n";

#[test]
fn reads_quoted_and_bare_values() {
    assert_eq!(read_config_value(SAMPLE, "mode"), Some("local".to_string()));
    assert_eq!(read_config_value(SAMPLE, "redis_url"), Some("redis://127.0.0.1".to_string()));
}

#[test]
fn dashed_keys_match_underscored_lookups() {
    assert_eq!(read_config_value(SAMPLE, "api_url"), Some("http://localhost:3000".to_string()));
}

#[test]
fn empty_values_are_skipped_and_the_next_line_wins() {
    assert_eq!(read_config_value(SAMPLE, "database_url"), Some("postgres://db".to_string()));
}

#[test]
fn a_longer_key_does_not_match() {
    assert_eq!(read_config_value("models = x\n", "mode"), None);
    assert_eq!(read_config_value("mode x = y\n", "mode"), None);
}

#[test]
fn values_stop_at_a_comment_and_lose_equal_signs() {
    assert_eq!(read_config_value("  key ==  \"v\" # note\n", "key"), Some("v".to_string()));
    assert_eq!(read_config_value("key = # only a comment\n", "key"), None);
    assert_eq!(read_config_value("key = v\r\n", "key"), Some("v".to_string()));
}

#[test]
fn mode_defaults_to_standalone() {
    assert_eq!(read_mode(None), "standalone");
    assert_eq!(read_mode(Some("api_url = x\n")), "standalone");
    assert_eq!(read_mode(Some(SAMPLE)), "local");
}

#[test]
fn urls_come_from_the_config() {
    assert_eq!(read_api_url(Some(SAMPLE)), Some("http://localhost:3000".to_string()));
    assert_eq!(read_redis_url(Some(SAMPLE)), Some("redis://127.0.0.1".to_string()));
    assert_eq!(read_db_url_from_config(Some(SAMPLE)), Some("postgres://db".to_string()));
    assert_eq!(read_api_url(None), None);
}

#[test]
fn a_non_empty_environment_variable_wins() {
    assert_eq!(env_or_config(Some("env".to_string()), Some("cfg".to_string())), Some("env".to_string()));
    assert_eq!(env_or_config(Some(String::new()), Some("cfg".to_string())), Some("cfg".to_string()));
    assert_eq!(env_or_config(None, None), None);
}

const EMBEDDING_CONFIG: &str = "embedding_provider = \"ollama\"\nembedding_model = \"nomic-embed-text\"\nembedding_base_url = \"http://localhost:11434\"\nembedding_dimensions = 768\n";

#[test]
fn embedding_settings_env_wins_when_non_empty() {
    let cfg = Some(EMBEDDING_CONFIG);
    assert_eq!(read_embedding_provider(Some("openai".to_string()), cfg), Some("openai".to_string()));
    assert_eq!(read_embedding_provider(Some(String::new()), cfg), Some("ollama".to_string()));
    assert_eq!(read_embedding_provider(None, cfg), Some("ollama".to_string()));
    assert_eq!(read_embedding_provider(None, None), None);
    assert_eq!(read_embedding_model(None, cfg), Some("nomic-embed-text".to_string()));
    assert_eq!(read_embedding_model(Some("m".to_string()), cfg), Some("m".to_string()));
    assert_eq!(read_embedding_base_url(None, cfg), Some("http://localhost:11434".to_string()));
    assert_eq!(read_embedding_base_url(None, Some("mode = \"cloud\"\n")), None);
}

#[test]
fn embedding_dimensions_falls_back_when_env_does_not_parse() {
    let cfg = Some(EMBEDDING_CONFIG);
    assert_eq!(read_embedding_dimensions(Some("1536"), cfg), Some(1536));
    assert_eq!(read_embedding_dimensions(Some("abc"), cfg), Some(768));
    assert_eq!(read_embedding_dimensions(None, cfg), Some(768));
    assert_eq!(read_embedding_dimensions(None, Some("embedding_dimensions = \"x\"\n")), None);
    assert_eq!(read_embedding_dimensions(None, None), None);
}

#[test]
fn parse_usize_matches_str_parse() {
    let max = usize::MAX.to_string();
    let over = format!("{}0", usize::MAX);
    for s in ["", "0", "+", "+7", "-1", "12a", " 1", "007", "768", "++1", max.as_str(), over.as_str(), "٣"] {
        assert_eq!(masday_mcp::config::parse_usize(s), s.parse::<usize>().ok(), "{:?}", s);
    }
}
