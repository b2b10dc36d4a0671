//! Application configuration: the models in use, the server address, and
//! the fingerprint of the last index build.

use vstd::prelude::*;
use crate::text;

verus! {

/// Model configuration for embedding and generation.
#[derive(Debug, Clone, PartialEq)]
pub struct ModelsConfig {
    /// Model used for embeddings, both when indexing and when querying.
    pub embedding_model: String,
    /// Model used for generating suggestions.
    pub llm_model: String,
}

/// Model-server configuration.
#[derive(Debug, Clone, PartialEq)]
pub struct OllamaConfig {
    /// Base URL of the model server.
    pub url: String,
}

/// Fingerprint of the last successful index build.
#[derive(Debug, Clone, PartialEq)]
pub struct IndexConfig {
    /// Embedding dimension recorded when the index was built.
    pub embedding_dimension: Option<u32>,
    /// Embedding model recorded when the index was built.
    pub last_embedding_model: Option<String>,
}

/// Application configuration.
#[derive(Debug, Clone, PartialEq)]
pub struct Config {
    /// Model configuration.
    pub models: ModelsConfig,
    /// Server configuration.
    pub ollama: OllamaConfig,
    /// Index fingerprint.
    pub index: IndexConfig,
}

impl Default for Config {
    /// The configuration used before any was saved.
    fn default() -> (r: Self)
        ensures
            r.models.embedding_model@ == "nomic-embed-text"@,
            r.models.llm_model@ == "llama3.2:3b"@,
            r.ollama.url@ == "http://localhost:11434"@,
            r.index.embedding_dimension is None,
            r.index.last_embedding_model is None,
    {
        Config {
            models: ModelsConfig {
                embedding_model: "nomic-embed-text".to_owned(),
                llm_model: "llama3.2:3b".to_owned(),
            },
            ollama: OllamaConfig { url: "http://localhost:11434".to_owned() },
            index: IndexConfig { embedding_dimension: None, last_embedding_model: None },
        }
    }
}

/// True when a fingerprint exists and names another embedding model than
/// the configuration does now: the stored index cannot serve queries.
pub open spec fn spec_needs_rebuild(c: Config) -> bool {
    match c.index.last_embedding_model {
        Some(last) => last@ != c.models.embedding_model@,
        None => false,
    }
}

impl Config {
    /// The embedding model name.
    pub fn embedding_model(&self) -> (r: &str)
        ensures
            r@ == self.models.embedding_model@,
    {
        self.models.embedding_model.as_str()
    }

    /// The generation model name.
    pub fn llm_model(&self) -> (r: &str)
        ensures
            r@ == self.models.llm_model@,
    {
        self.models.llm_model.as_str()
    }

    /// The model-server URL.
    pub fn ollama_url(&self) -> (r: &str)
        ensures
            r@ == self.ollama.url@,
    {
        self.ollama.url.as_str()
    }

    /// Records the fingerprint of a finished index build: the dimension and
    /// the embedding model it was built with.
    pub fn update_index_metadata(&mut self, dimension: u32)
        ensures
            final(self).index.embedding_dimension == Some(dimension),
            final(self).index.last_embedding_model == Some(old(self).models.embedding_model),
            final(self).models == old(self).models,
            final(self).ollama == old(self).ollama,
    {
        self.index.embedding_dimension = Some(dimension);
        self.index.last_embedding_model = Some(self.models.embedding_model.clone());
    }

    /// Whether the stored index was built with a different embedding model,
    /// matching [`spec_needs_rebuild`].
    pub fn needs_index_rebuild(&self) -> (r: bool)
        ensures
            r == spec_needs_rebuild(*self),
    {
        match &self.index.last_embedding_model {
            Some(last) => !text::str_eq(last.as_str(), self.models.embedding_model.as_str()),
            None => false,
        }
    }

    /// The recorded embedding dimension, when one exists.
    pub fn index_dimension(&self) -> (r: Option<u32>)
        ensures
            r == self.index.embedding_dimension,
    {
        self.index.embedding_dimension
    }

    /// A configuration migrated from the legacy single-model document: the
    /// one model name serves as embedding and generation model alike, and
    /// the index fingerprint is cleared.
    pub fn from_legacy(model_name: String, ollama_url: String) -> (r: Config)
        ensures
            r.models.embedding_model == model_name,
            r.models.llm_model == model_name,
            r.ollama.url == ollama_url,
            r.index.embedding_dimension is None,
            r.index.last_embedding_model is None,
    {
        Config {
            models: ModelsConfig { embedding_model: model_name.clone(), llm_model: model_name },
            ollama: OllamaConfig { url: ollama_url },
            index: IndexConfig { embedding_dimension: None, last_embedding_model: None },
        }
    }

    /// The configuration document as saved to disk. Values are written
    /// verbatim between quotes; the caller keeps them free of quotes and
    /// backslashes.
    pub fn to_toml(&self) -> (r: String)
        ensures
            r@ == spec_config_toml(*self),
    {
        let mut out = String::new();
        out.append("[models]\nembedding_model = \"");
        out.append(self.models.embedding_model.as_str());
        out.append("\"\nllm_model = \"");
        out.append(self.models.llm_model.as_str());
        out.append("\"\n\n[ollama]\nurl = \"");
        out.append(self.ollama.url.as_str());
        out.append("\"\n\n[index]\n");
        match self.index.embedding_dimension {
            Some(d) => {
                out.append("embedding_dimension = ");
                let digits = text::u32_to_string(d);
                out.append(digits.as_str());
                out.append("\n");
            },
            None => {},
        }
        match &self.index.last_embedding_model {
            Some(m) => {
                out.append("last_embedding_model = \"");
                out.append(m.as_str());
                out.append("\"\n");
            },
            None => {},
        }
        out
    }
}

/// The exact text of the saved configuration document.
pub open spec fn spec_config_toml(c: Config) -> Seq<char> {
    "[models]\nembedding_model = \""@ + c.models.embedding_model@ + "\"\nllm_model = \""@
        + c.models.llm_model@ + "\"\n\n[ollama]\nurl = \""@ + c.ollama.url@ + "\"\n\n[index]\n"@ + (
    match c.index.embedding_dimension {
        Some(d) => "embedding_dimension = "@ + text::spec_decimal(d as nat) + "\n"@,
        None => Seq::empty(),
    }) + (match c.index.last_embedding_model {
        Some(m) => "last_embedding_model = \""@ + m@ + "\"\n"@,
        None => Seq::empty(),
    })
}

} // verus!
