use vstd::prelude::*;
use crate::strings::{decimal, lower_of, same_chars, to_lowercase, usize_to_string};

verus! {

// Server configuration and the execution providers it can name.

/// Where inference runs.
#[derive(Debug, Clone, Copy, PartialEq, Eq, Structural)]
pub enum ExecutionProvider {
    Auto,
    Cpu,
    CoreML,
    Cuda,
    DirectML,
}

/// The operating system the server was built for.
#[derive(Debug, Clone, Copy, PartialEq, Eq, Structural)]
pub enum TargetOs {
    MacOs,
    Windows,
    Other,
}

/// The provider a lower-case name stands for.
pub open spec fn provider_named(l: Seq<char>) -> Option<ExecutionProvider> {
    if l == "auto"@ {
        Some(ExecutionProvider::Auto)
    } else if l == "cpu"@ {
        Some(ExecutionProvider::Cpu)
    } else if l == "coreml"@ || l == "core_ml"@ {
        Some(ExecutionProvider::CoreML)
    } else if l == "cuda"@ {
        Some(ExecutionProvider::Cuda)
    } else if l == "directml"@ || l == "direct_ml"@ {
        Some(ExecutionProvider::DirectML)
    } else {
        None
    }
}

pub open spec fn provider_name(p: ExecutionProvider) -> Seq<char> {
    match p {
        ExecutionProvider::Auto => "auto"@,
        ExecutionProvider::Cpu => "cpu"@,
        ExecutionProvider::CoreML => "coreml"@,
        ExecutionProvider::Cuda => "cuda"@,
        ExecutionProvider::DirectML => "directml"@,
    }
}

impl ExecutionProvider {
    /// Parses a provider name in any case ("core_ml" and "direct_ml" too).
    pub fn from_str(s: &str) -> (r: Result<ExecutionProvider, String>)
        ensures
            match provider_named(lower_of(s@)) {
                Some(p) => r matches Ok(q) && q == p,
                None => r matches Err(m) && m@ == "Unknown execution provider: "@ + s@,
            },
    {
        let lower = to_lowercase(s);
        match ExecutionProvider::from_lower_name(lower.as_str()) {
            Some(p) => Ok(p),
            None => Err(String::from_str("Unknown execution provider: ").concat(s)),
        }
    }

    /// The provider an already lower-cased name stands for.
    pub fn from_lower_name(l: &str) -> (r: Option<ExecutionProvider>)
        ensures
            r == provider_named(l@),
    {
        if same_chars(l, "auto") {
            Some(ExecutionProvider::Auto)
        } else if same_chars(l, "cpu") {
            Some(ExecutionProvider::Cpu)
        } else if same_chars(l, "coreml") || same_chars(l, "core_ml") {
            Some(ExecutionProvider::CoreML)
        } else if same_chars(l, "cuda") {
            Some(ExecutionProvider::Cuda)
        } else if same_chars(l, "directml") || same_chars(l, "direct_ml") {
            Some(ExecutionProvider::DirectML)
        } else {
            None
        }
    }

    /// The canonical lower-case name.
    pub fn as_str(&self) -> (r: &'static str)
        ensures
            r@ == provider_name(*self),
    {
        match self {
            ExecutionProvider::Auto => "auto",
            ExecutionProvider::Cpu => "cpu",
            ExecutionProvider::CoreML => "coreml",
            ExecutionProvider::Cuda => "cuda",
            ExecutionProvider::DirectML => "directml",
        }
    }
}

impl std::str::FromStr for ExecutionProvider {
    type Err = String;

    fn from_str(s: &str) -> Result<Self, Self::Err> {
        ExecutionProvider::from_str(s)
    }
}

/// Settings of a running server.
#[derive(Debug, Clone)]
pub struct Config {
    pub host: String,
    pub port: u16,
    pub api_key: Option<String>,
    pub model_path: Option<String>,
    pub execution_provider: ExecutionProvider,
    pub workers: usize,
    pub max_input_chars: usize,
}

/// The first problem with the target-independent settings, if any.
pub open spec fn settings_error(c: Config) -> Option<Seq<char>> {
    if c.workers == 0 || c.workers > 8 {
        Some("Workers must be between 1 and 8, got "@ + decimal(c.workers as nat))
    } else if c.port == 0 {
        Some("Port cannot be 0"@)
    } else if c.max_input_chars == 0 {
        Some("Max input chars cannot be 0"@)
    } else {
        None
    }
}

/// Whether the provider is unavailable on the target, and why.
pub open spec fn target_error(p: ExecutionProvider, os: TargetOs) -> Option<Seq<char>> {
    if p == ExecutionProvider::CoreML && os != TargetOs::MacOs {
        Some("CoreML is only available on macOS"@)
    } else if p == ExecutionProvider::DirectML && os != TargetOs::Windows {
        Some("DirectML is only available on Windows"@)
    } else {
        None
    }
}

pub open spec fn matches_error(r: Result<(), String>, e: Option<Seq<char>>) -> bool {
    match e {
        Some(m) => r matches Err(x) && x@ == m,
        None => r is Ok,
    }
}

impl Config {
    /// Checks the worker count (1 to 8), the port and the input limit. Whether
    /// the execution provider exists on the target is a separate check,
    /// `validate_target`; `from_env_and_args` applies both.
    pub fn validate(&self) -> (r: Result<(), String>)
        ensures
            matches_error(r, settings_error(*self)),
    {
        if self.workers == 0 || self.workers > 8 {
            let got = usize_to_string(self.workers);
            return Err(String::from_str("Workers must be between 1 and 8, got ").concat(got.as_str()));
        }
        if self.port == 0 {
            return Err(String::from_str("Port cannot be 0"));
        }
        if self.max_input_chars == 0 {
            return Err(String::from_str("Max input chars cannot be 0"));
        }
        Ok(())
    }

    /// Checks that the execution provider exists on the target.
    pub fn validate_target(&self, os: TargetOs) -> (r: Result<(), String>)
        ensures
            matches_error(r, target_error(self.execution_provider, os)),
    {
        if self.execution_provider == ExecutionProvider::CoreML && os != TargetOs::MacOs {
            return Err(String::from_str("CoreML is only available on macOS"));
        }
        if self.execution_provider == ExecutionProvider::DirectML && os != TargetOs::Windows {
            return Err(String::from_str("DirectML is only available on Windows"));
        }
        Ok(())
    }

    /// Accepts settings read from the command line and the environment when
    /// they pass both checks, reporting the first problem otherwise.
    pub fn from_env_and_args(parsed: Config, os: TargetOs) -> (r: Result<Config, String>)
        ensures
            match settings_error(parsed) {
                Some(m) => r matches Err(x) && x@ == m,
                None => match target_error(parsed.execution_provider, os) {
                    Some(m) => r matches Err(x) && x@ == m,
                    None => r matches Ok(c) && c == parsed,
                },
            },
    {
        match parsed.validate() {
            Err(e) => Err(e),
            Ok(()) => match parsed.validate_target(os) {
                Err(e) => Err(e),
                Ok(()) => Ok(parsed),
            },
        }
    }

    /// The model identifiers a request may name.
    pub fn accepted_model_ids() -> (r: Vec<&'static str>)
        ensures
            r@.len() == 2,
            r@[0]@ == "tts-1"@,
            r@[1]@ == "kokoro"@,
    {
        vec!["tts-1", "kokoro"]
    }
}

} // verus!
