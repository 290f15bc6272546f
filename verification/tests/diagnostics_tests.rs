use masday_mcp::diagnostics::{
    embedding_detail, embedding_report, lowered_provider, ollama_probe_url, provider_kind, ProviderKind,
};

#[test]
fn provider_names_are_compared_lower_cased() {
    assert_eq!(lowered_provider("Ollama"), "ollama");
    assert_eq!(provider_kind(&lowered_provider("OpenAI")), ProviderKind::OpenAi);
    assert_eq!(provider_kind(""), ProviderKind::Unset);
    assert_eq!(provider_kind("local"), ProviderKind::Local);
    assert_eq!(provider_kind("ollama"), ProviderKind::Ollama);
    assert_eq!(provider_kind("mock"), ProviderKind::Unknown);
}

#[test]
fn detail_shows_defaults() {
    assert_eq!(embedding_detail("ollama", None, None), "provider=ollama model=(default) dims=(default)");
    assert_eq!(embedding_detail("openai", Some("m"), Some(1536)), "provider=openai model=m dims=1536");
}

#[test]
fn probe_url_drops_trailing_slashes() {
    assert_eq!(ollama_probe_url("http://localhost:11434//"), "http://localhost:11434/api/tags");
    assert_eq!(ollama_probe_url("http://h"), "http://h/api/tags");
}

#[test]
fn report_lines_per_provider() {
    let d = "provider=x model=(default) dims=(default)";
    assert!(embedding_report("", d, "u", "m", false, false).starts_with("[masday] Embedding: DISABLED — "));
    assert_eq!(
        embedding_report("ollama", d, "http://h", "m", true, false),
        format!("[masday] Embedding: ✓ OK — {} (Ollama http://h reachable)", d)
    );
    assert_eq!(
        embedding_report("ollama", d, "http://h", "nomic-embed-text", false, false),
        format!(
            "[masday] Embedding: ⚠ OLLAMA TIDAK TERSEDIA — {} (http://h tidak merespon). Jalankan `ollama serve` lalu `ollama pull nomic-embed-text`. Memory search akan fallback ke mock.",
            d
        )
    );
    assert_eq!(
        embedding_report("openai", d, "u", "m", false, true),
        format!("[masday] Embedding: ✓ configured — {} (API key present)", d)
    );
    assert!(embedding_report("openai", d, "u", "m", false, false).contains("OPENAI KEY HILANG"));
    assert!(embedding_report("local", d, "u", "m", false, false).contains("TIDAK TERSEDIA — provider=x"));
    assert_eq!(
        embedding_report("mock", d, "u", "m", false, false),
        "[masday] Embedding: ⚠ SALAH SETTINGS — provider 'mock' tidak dikenal. Pilihan valid: local | ollama | openai. Memory search fallback ke mock."
    );
}
