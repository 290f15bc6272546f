//! The startup report on the embedding settings: which provider is set,
//! what must be probed for it, and the line printed about it.
use vstd::prelude::*;
use crate::features::{to_lower, unicode_lower};
use crate::readiness::{trim_slashes_end, without_trailing_slashes};
use crate::text::{concat3, concat4, concat5, concat_str, spec_decimal, u64_decimal};

verus! {

/// The embedding provider named in the settings.
#[derive(Debug, PartialEq, Eq, Structural)]
pub enum ProviderKind {
    /// None is set.
    Unset,
    /// `local`: not built into this server.
    Local,
    /// `ollama`: its server is probed.
    Ollama,
    /// `openai`: an API key is looked for.
    OpenAi,
    /// Any other name.
    Unknown,
}

/// The kind of a provider name, already lower-cased.
pub open spec fn kind_of(lowered: Seq<char>) -> ProviderKind {
    if lowered.len() == 0 {
        ProviderKind::Unset
    } else if lowered == "local"@ {
        ProviderKind::Local
    } else if lowered == "ollama"@ {
        ProviderKind::Ollama
    } else if lowered == "openai"@ {
        ProviderKind::OpenAi
    } else {
        ProviderKind::Unknown
    }
}

/// No name selects no provider; `local`, `ollama` and `openai` select their
/// own provider; every other name is unknown.
pub proof fn lemma_provider_kind_table(lowered: Seq<char>)
    ensures
        kind_of(Seq::empty()) == ProviderKind::Unset,
        kind_of("local"@) == ProviderKind::Local,
        kind_of("ollama"@) == ProviderKind::Ollama,
        kind_of("openai"@) == ProviderKind::OpenAi,
        kind_of(lowered) == ProviderKind::Unknown <==> (lowered.len() > 0 && lowered != "local"@
            && lowered != "ollama"@ && lowered != "openai"@),
{
    reveal_strlit("local");
    reveal_strlit("ollama");
    reveal_strlit("openai");
    assert("ollama"@.len() != "local"@.len());
    assert("openai"@.len() != "local"@.len());
    assert("openai"@[0] == 'o' && "openai"@[1] == 'p' && "ollama"@[1] == 'l');
}

/// A provider name lower-cased, as it is compared.
pub fn lowered_provider(provider: &str) -> (r: String)
    ensures
        r@ == unicode_lower(provider@),
{
    to_lower(provider)
}

/// The kind of a lower-cased provider name.
pub fn provider_kind(lowered: &str) -> (r: ProviderKind)
    ensures
        r == kind_of(lowered@),
        lowered@.len() == 0 ==> r == ProviderKind::Unset,
        lowered@ == "local"@ ==> r == ProviderKind::Local,
        lowered@ == "ollama"@ ==> r == ProviderKind::Ollama,
        lowered@ == "openai"@ ==> r == ProviderKind::OpenAi,
        r == ProviderKind::Unknown <==> (lowered@.len() > 0 && lowered@ != "local"@ && lowered@
            != "ollama"@ && lowered@ != "openai"@),
{
    proof {
        lemma_provider_kind_table(lowered@);
        reveal_strlit("local");
        reveal_strlit("ollama");
        reveal_strlit("openai");
    }
    if lowered.is_empty() {
        ProviderKind::Unset
    } else if crate::text::str_eq(lowered, "local") {
        ProviderKind::Local
    } else if crate::text::str_eq(lowered, "ollama") {
        ProviderKind::Ollama
    } else if crate::text::str_eq(lowered, "openai") {
        ProviderKind::OpenAi
    } else {
        ProviderKind::Unknown
    }
}

/// `(default)` for a setting left out.
pub open spec fn or_default(s: Option<Seq<char>>) -> Seq<char> {
    match s {
        Some(v) => v,
        None => "(default)"@,
    }
}

/// The settings as the report shows them:
/// `provider=<p> model=<m> dims=<d>`.
pub fn embedding_detail(provider: &str, model: Option<&str>, dims: Option<usize>) -> (r: String)
    ensures
        r@ == "provider="@ + provider@ + " model="@ + or_default(
            match model {
                Some(m) => Some(m@),
                None => None,
            },
        ) + " dims="@ + or_default(
            match dims {
                Some(d) => Some(spec_decimal(d as nat)),
                None => None,
            },
        ),
{
    let m: String = match model {
        Some(x) => x.to_string(),
        None => String::from_str("(default)"),
    };
    let d: String = match dims {
        Some(x) => u64_decimal(x as u64),
        None => String::from_str("(default)"),
    };
    let head = concat4("provider=", provider, " model=", m.as_str());
    concat3(head.as_str(), " dims=", d.as_str())
}

/// The Ollama server probed when no base URL is set.
pub const DEFAULT_OLLAMA_URL: &'static str = "http://localhost:11434";

/// The model suggested when none is set.
pub const DEFAULT_OLLAMA_MODEL: &'static str = "nomic-embed-text";

/// The URL probed to see that Ollama answers: its base URL without trailing
/// slashes, then `/api/tags`.
pub fn ollama_probe_url(base_url: &str) -> (r: String)
    ensures
        r@ == trim_slashes_end(base_url@) + "/api/tags"@,
{
    let base = without_trailing_slashes(base_url);
    concat_str(base.as_str(), "/api/tags")
}

/// The report line, from the provider, the settings' detail, and what was
/// observed: whether Ollama answered (for `ollama`) and whether an API key
/// is set (for `openai`).
pub open spec fn report_line(
    lowered: Seq<char>,
    detail: Seq<char>,
    base_url: Seq<char>,
    model: Seq<char>,
    reachable: bool,
    has_key: bool,
) -> Seq<char> {
    match kind_of(lowered) {
        ProviderKind::Unset => "[masday] Embedding: DISABLED — embedding_provider tidak diset di ~/.masday/config.toml. Memory/code search memakai fallback feature-hashing. Set embedding_provider=ollama (butuh `ollama serve` + `ollama pull nomic-embed-text`) atau jalankan `masday embed setting`."@,
        ProviderKind::Local => "[masday] Embedding: ⚠ TIDAK TERSEDIA — "@ + detail
            + ". Provider 'local' (fastembed/ONNX) tidak dikompilasi ke MCP server. Memory search jatuh ke mock. Solusi: set embedding_provider=\"ollama\" di config.toml, ATAU rebuild masday-mcp dengan feature local-embeddings."@,
        ProviderKind::Ollama => if reachable {
            "[masday] Embedding: ✓ OK — "@ + detail + " (Ollama "@ + base_url + " reachable)"@
        } else {
            "[masday] Embedding: ⚠ OLLAMA TIDAK TERSEDIA — "@ + detail + " ("@ + base_url
                + " tidak merespon). Jalankan `ollama serve` lalu `ollama pull "@ + model
                + "`. Memory search akan fallback ke mock."@
        },
        ProviderKind::OpenAi => if has_key {
            "[masday] Embedding: ✓ configured — "@ + detail + " (API key present)"@
        } else {
            "[masday] Embedding: ⚠ OPENAI KEY HILANG — "@ + detail
                + " (embedding_api_key/openai_api_key tidak ada di config.toml). Memory search akan fallback ke mock."@
        },
        ProviderKind::Unknown => "[masday] Embedding: ⚠ SALAH SETTINGS — provider '"@ + lowered
            + "' tidak dikenal. Pilihan valid: local | ollama | openai. Memory search fallback ke mock."@,
    }
}

/// The report line of [`report_line`].
pub fn embedding_report(
    lowered: &str,
    detail: &str,
    base_url: &str,
    model: &str,
    reachable: bool,
    has_key: bool,
) -> (r: String)
    ensures
        r@ == report_line(lowered@, detail@, base_url@, model@, reachable, has_key),
{
    match provider_kind(lowered) {
        ProviderKind::Unset => String::from_str(
            "[masday] Embedding: DISABLED — embedding_provider tidak diset di ~/.masday/config.toml. Memory/code search memakai fallback feature-hashing. Set embedding_provider=ollama (butuh `ollama serve` + `ollama pull nomic-embed-text`) atau jalankan `masday embed setting`.",
        ),
        ProviderKind::Local => concat3(
            "[masday] Embedding: ⚠ TIDAK TERSEDIA — ",
            detail,
            ". Provider 'local' (fastembed/ONNX) tidak dikompilasi ke MCP server. Memory search jatuh ke mock. Solusi: set embedding_provider=\"ollama\" di config.toml, ATAU rebuild masday-mcp dengan feature local-embeddings.",
        ),
        ProviderKind::Ollama => {
            if reachable {
                let head = concat4("[masday] Embedding: ✓ OK — ", detail, " (Ollama ", base_url);
                concat_str(head.as_str(), " reachable)")
            } else {
                let head = concat5(
                    "[masday] Embedding: ⚠ OLLAMA TIDAK TERSEDIA — ",
                    detail,
                    " (",
                    base_url,
                    " tidak merespon). Jalankan `ollama serve` lalu `ollama pull ",
                );
                concat3(head.as_str(), model, "`. Memory search akan fallback ke mock.")
            }
        },
        ProviderKind::OpenAi => {
            if has_key {
                concat3("[masday] Embedding: ✓ configured — ", detail, " (API key present)")
            } else {
                concat3(
                    "[masday] Embedding: ⚠ OPENAI KEY HILANG — ",
                    detail,
                    " (embedding_api_key/openai_api_key tidak ada di config.toml). Memory search akan fallback ke mock.",
                )
            }
        },
        ProviderKind::Unknown => concat3(
            "[masday] Embedding: ⚠ SALAH SETTINGS — provider '",
            lowered,
            "' tidak dikenal. Pilihan valid: local | ollama | openai. Memory search fallback ke mock.",
        ),
    }
}

} // verus!
