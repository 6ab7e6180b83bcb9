use vstd::prelude::*;
use crate::config::Config;
use crate::error::{AppError, AppErrorModel};
use crate::strings::{
    decimal, eq_ignore_ascii_case, lower_of, same_chars, same_ignoring_ascii_case, to_lowercase,
    usize_to_string,
};

verus! {

// Checks on the fields of a speech request, and the voice catalog.

/// A voice that requests may name.
#[derive(Debug, Clone)]
pub struct Voice {
    pub id: String,
    pub name: String,
    pub preview_url: Option<String>,
}

/// The response formats accepted (in lower case).
pub open spec fn is_valid_format(f: Seq<char>) -> bool {
    f == "wav"@ || f == "pcm"@ || f == "mp3"@ || f == "opus"@
}

pub open spec fn result_string_is(r: Result<String, AppError>, s: Seq<char>) -> bool {
    r matches Ok(v) && v@ == s
}

pub open spec fn result_error_is<T>(r: Result<T, AppError>, e: AppErrorModel) -> bool {
    r matches Err(x) && x@ == e
}

/// Whether an already lower-cased format is one of the accepted ones.
pub fn is_valid_lower_format(l: &str) -> (r: bool)
    ensures
        r == is_valid_format(l@),
{
    same_chars(l, "wav") || same_chars(l, "pcm") || same_chars(l, "mp3") || same_chars(l, "opus")
}

/// Accepts a response format in any case and answers it in lower case.
pub fn validate_response_format(format: &str) -> (r: Result<String, AppError>)
    ensures
        is_valid_format(lower_of(format@)) ==> result_string_is(r, lower_of(format@)),
        !is_valid_format(lower_of(format@)) ==> result_error_is(
            r,
            AppErrorModel::InvalidResponseFormat(format@),
        ),
{
    let lower = to_lowercase(format);
    if is_valid_lower_format(lower.as_str()) {
        Ok(lower)
    } else {
        Err(AppError::unsupported_format(format))
    }
}

pub open spec fn too_long_message(max_chars: nat) -> Seq<char> {
    "Input text exceeds maximum length of "@ + decimal(max_chars) + " characters"@
}

/// Input text must be non-empty and at most `max_chars` characters long.
pub fn validate_input(input: &str, max_chars: usize) -> (r: Result<(), AppError>)
    ensures
        input@.len() == 0 ==> result_error_is(
            r,
            AppErrorModel::InvalidRequest("Input text cannot be empty"@),
        ),
        input@.len() > max_chars ==> input@.len() == 0 || result_error_is(
            r,
            AppErrorModel::InvalidRequest(too_long_message(max_chars as nat)),
        ),
        0 < input@.len() <= max_chars ==> r is Ok,
{
    let n = input.unicode_len();
    if n == 0 {
        return Err(AppError::invalid_request("Input text cannot be empty"));
    }
    if n > max_chars {
        let digits = usize_to_string(max_chars);
        let message = String::from_str("Input text exceeds maximum length of ").concat(
            digits.as_str(),
        ).concat(" characters");
        return Err(AppError::invalid_request(message.as_str()));
    }
    Ok(())
}

/// The model identifiers a request may name.
pub open spec fn is_accepted_model(m: Seq<char>) -> bool {
    m == "tts-1"@ || m == "kokoro"@
}

pub fn validate_model(model: &str) -> (r: Result<String, AppError>)
    ensures
        is_accepted_model(model@) ==> result_string_is(r, model@),
        !is_accepted_model(model@) ==> result_error_is(r, AppErrorModel::ModelNotFound(model@)),
{
    let accepted = Config::accepted_model_ids();
    let mut i: usize = 0;
    while i < accepted.len()
        invariant
            accepted@.len() == 2,
            accepted@[0]@ == "tts-1"@,
            accepted@[1]@ == "kokoro"@,
            i <= 2,
            forall|k: int| 0 <= k < i ==> accepted@[k]@ != model@,
        decreases 2 - i,
    {
        if same_chars(accepted[i], model) {
            return Ok(String::from_str(model));
        }
        i += 1;
    }
    Err(AppError::model_not_found(model))
}

/// OpenAI voice names and the voices they stand for.
pub open spec fn alias_table() -> Seq<(&'static str, &'static str)> {
    seq![
        ("alloy", "af_alloy"),
        ("echo", "am_echo"),
        ("fable", "bm_fable"),
        ("nova", "af_nova"),
        ("onyx", "am_onyx"),
        ("shimmer", "af_shimmer"),
        ("ash", "am_adam"),
        ("ballad", "am_michael"),
        ("verse", "am_eric"),
        ("cedar", "am_liam"),
        ("coral", "af_nicole"),
        ("sage", "af_sarah"),
        ("marin", "af_river"),
    ]
}

/// The voice an alias (matched in any ASCII case) stands for; any other name is
/// kept as it is. The first matching alias from position `i` on wins.
pub open spec fn resolve_alias_from(voice: Seq<char>, i: nat) -> Seq<char>
    decreases alias_table().len() - i,
{
    if i >= alias_table().len() {
        voice
    } else if same_ignoring_ascii_case(alias_table()[i as int].0@, voice) {
        alias_table()[i as int].1@
    } else {
        resolve_alias_from(voice, i + 1)
    }
}

pub open spec fn resolve_alias(voice: Seq<char>) -> Seq<char> {
    resolve_alias_from(voice, 0)
}

/// The alias table, in order.
pub fn openai_voice_aliases() -> (r: Vec<(&'static str, &'static str)>)
    ensures
        r@ == alias_table(),
{
    let r = vec![
        ("alloy", "af_alloy"),
        ("echo", "am_echo"),
        ("fable", "bm_fable"),
        ("nova", "af_nova"),
        ("onyx", "am_onyx"),
        ("shimmer", "af_shimmer"),
        ("ash", "am_adam"),
        ("ballad", "am_michael"),
        ("verse", "am_eric"),
        ("cedar", "am_liam"),
        ("coral", "af_nicole"),
        ("sage", "af_sarah"),
        ("marin", "af_river"),
    ];
    assert(r@ =~= alias_table());
    r
}

pub fn resolve_legacy_voice_alias(voice: &str) -> (r: String)
    ensures
        r@ == resolve_alias(voice@),
{
    let aliases = openai_voice_aliases();
    let mut i: usize = 0;
    while i < aliases.len()
        invariant
            aliases@ == alias_table(),
            i <= aliases@.len(),
            resolve_alias(voice@) == resolve_alias_from(voice@, i as nat),
        decreases aliases@.len() - i,
    {
        let (alias, target) = aliases[i];
        if eq_ignore_ascii_case(alias, voice) {
            return String::from_str(target);
        }
        i += 1;
    }
    String::from_str(voice)
}

/// Whether some voice of `voices` has identifier `id`.
pub open spec fn has_voice(voices: Seq<Voice>, id: Seq<char>) -> bool {
    exists|i: int| 0 <= i < voices.len() && #[trigger] voices[i].id@ == id
}

/// Accepts a voice of `available_voices`, named directly or through an alias,
/// and answers its identifier.
pub fn validate_voice(voice: &str, available_voices: &[Voice]) -> (r: Result<String, AppError>)
    ensures
        has_voice(available_voices@, resolve_alias(voice@)) ==> result_string_is(
            r,
            resolve_alias(voice@),
        ),
        !has_voice(available_voices@, resolve_alias(voice@)) ==> result_error_is(
            r,
            AppErrorModel::VoiceNotFound(voice@),
        ),
{
    let resolved = resolve_legacy_voice_alias(voice);
    let mut i: usize = 0;
    while i < available_voices.len()
        invariant
            resolved@ == resolve_alias(voice@),
            i <= available_voices@.len(),
            forall|k: int| 0 <= k < i ==> available_voices@[k].id@ != resolved@,
        decreases available_voices@.len() - i,
    {
        if same_chars(available_voices[i].id.as_str(), resolved.as_str()) {
            assert(available_voices@[i as int].id@ == resolved@);
            return Ok(resolved);
        }
        i += 1;
    }
    Err(AppError::voice_not_found(voice))
}

pub open spec fn alias_voice_name(alias: Seq<char>, target: Seq<char>) -> Seq<char> {
    alias + " (OpenAI alias for "@ + target + ")"@
}

/// One voice entry per alias, named after the voice it stands for.
pub fn openai_alias_voices() -> (r: Vec<Voice>)
    ensures
        r@.len() == alias_table().len(),
        forall|i: int|
            0 <= i < r@.len() ==> {
                &&& #[trigger] r@[i].id@ == alias_table()[i].0@
                &&& r@[i].name@ == alias_voice_name(alias_table()[i].0@, alias_table()[i].1@)
                &&& r@[i].preview_url is None
            },
{
    let aliases = openai_voice_aliases();
    let mut out: Vec<Voice> = Vec::new();
    let mut i: usize = 0;
    while i < aliases.len()
        invariant
            aliases@ == alias_table(),
            i <= aliases@.len(),
            out@.len() == i,
            forall|k: int|
                0 <= k < i ==> {
                    &&& #[trigger] out@[k].id@ == alias_table()[k].0@
                    &&& out@[k].name@ == alias_voice_name(alias_table()[k].0@, alias_table()[k].1@)
                    &&& out@[k].preview_url is None
                },
        decreases aliases@.len() - i,
    {
        let (alias, target) = aliases[i];
        let name = String::from_str(alias).concat(" (OpenAI alias for ").concat(target).concat(")");
        out.push(Voice { id: String::from_str(alias), name, preview_url: None });
        i += 1;
    }
    out
}

/// The voices of the engine: identifier and display name.
pub open spec fn voice_catalog() -> Seq<(&'static str, &'static str)> {
    seq![
        ("af_alloy", "Alloy (Female, American)"),
        ("af_heart", "Heart (Female, American)"),
        ("af_nova", "Nova (Female, American)"),
        ("af_river", "River (Female, American)"),
        ("af_shimmer", "Shimmer (Female, American)"),
        ("am_adam", "Adam (Male, American)"),
        ("am_echo", "Echo (Male, American)"),
        ("am_fenrir", "Fenrir (Male, American)"),
        ("am_onyx", "Onyx (Male, American)"),
        ("am_puck", "Puck (Male, American)"),
        ("am_santa", "Santa (Male, American)"),
        ("bf_alice", "Alice (Female, British)"),
        ("bf_emma", "Emma (Female, British)"),
        ("bf_lily", "Lily (Female, British)"),
        ("bm_daniel", "Daniel (Male, British)"),
        ("bm_fable", "Fable (Male, British)"),
        ("bm_george", "George (Male, British)"),
        ("bm_lewis", "Lewis (Male, British)"),
        ("jf_alpha", "Alpha (Female, Japanese)"),
        ("jf_gongitsune", "Gongitsune (Female, Japanese)"),
        ("jf_nezumi", "Nezumi (Female, Japanese)"),
        ("jf_tebukuro", "Tebukuro (Female, Japanese)"),
        ("jm_kumo", "Kumo (Male, Japanese)"),
        ("zf_xiaobei", "Xiaobei (Female, Chinese)"),
        ("zf_xiaoni", "Xiaoni (Female, Chinese)"),
        ("zf_xiaoxiao", "Xiaoxiao (Female, Chinese)"),
        ("zf_yunjian", "Yunjian (Female, Chinese)"),
        ("zf_yunxia", "Yunxia (Female, Chinese)"),
        ("zf_yunxi", "Yunxi (Female, Chinese)"),
        ("zm_yunjian", "Yunjian (Male, Chinese)"),
        ("ef_dora", "Dora (Female, Spanish)"),
        ("em_alex", "Alex (Male, Spanish)"),
        ("em_santa", "Santa (Male, Spanish)"),
        ("ff_siwis", "Siwis (Female, French)"),
        ("hf_alpha", "Alpha (Female, Hindi)"),
        ("hf_beta", "Beta (Female, Hindi)"),
        ("hm_omega", "Omega (Male, Hindi)"),
        ("hm_psi", "Psi (Male, Hindi)"),
        ("if_sara", "Sara (Female, Italian)"),
        ("im_nicola", "Nicola (Male, Italian)"),
        ("pf_dora", "Dora (Female, Portuguese)"),
        ("pm_alex", "Alex (Male, Portuguese)"),
        ("pm_santa", "Santa (Male, Portuguese)"),
    ]
}

fn voice_catalog_entries() -> (r: Vec<(&'static str, &'static str)>)
    ensures
        r@ == voice_catalog(),
{
    let r = vec![
        ("af_alloy", "Alloy (Female, American)"),
        ("af_heart", "Heart (Female, American)"),
        ("af_nova", "Nova (Female, American)"),
        ("af_river", "River (Female, American)"),
        ("af_shimmer", "Shimmer (Female, American)"),
        ("am_adam", "Adam (Male, American)"),
        ("am_echo", "Echo (Male, American)"),
        ("am_fenrir", "Fenrir (Male, American)"),
        ("am_onyx", "Onyx (Male, American)"),
        ("am_puck", "Puck (Male, American)"),
        ("am_santa", "Santa (Male, American)"),
        ("bf_alice", "Alice (Female, British)"),
        ("bf_emma", "Emma (Female, British)"),
        ("bf_lily", "Lily (Female, British)"),
        ("bm_daniel", "Daniel (Male, British)"),
        ("bm_fable", "Fable (Male, British)"),
        ("bm_george", "George (Male, British)"),
        ("bm_lewis", "Lewis (Male, British)"),
        ("jf_alpha", "Alpha (Female, Japanese)"),
        ("jf_gongitsune", "Gongitsune (Female, Japanese)"),
        ("jf_nezumi", "Nezumi (Female, Japanese)"),
        ("jf_tebukuro", "Tebukuro (Female, Japanese)"),
        ("jm_kumo", "Kumo (Male, Japanese)"),
        ("zf_xiaobei", "Xiaobei (Female, Chinese)"),
        ("zf_xiaoni", "Xiaoni (Female, Chinese)"),
        ("zf_xiaoxiao", "Xiaoxiao (Female, Chinese)"),
        ("zf_yunjian", "Yunjian (Female, Chinese)"),
        ("zf_yunxia", "Yunxia (Female, Chinese)"),
        ("zf_yunxi", "Yunxi (Female, Chinese)"),
        ("zm_yunjian", "Yunjian (Male, Chinese)"),
        ("ef_dora", "Dora (Female, Spanish)"),
        ("em_alex", "Alex (Male, Spanish)"),
        ("em_santa", "Santa (Male, Spanish)"),
        ("ff_siwis", "Siwis (Female, French)"),
        ("hf_alpha", "Alpha (Female, Hindi)"),
        ("hf_beta", "Beta (Female, Hindi)"),
        ("hm_omega", "Omega (Male, Hindi)"),
        ("hm_psi", "Psi (Male, Hindi)"),
        ("if_sara", "Sara (Female, Italian)"),
        ("im_nicola", "Nicola (Male, Italian)"),
        ("pf_dora", "Dora (Female, Portuguese)"),
        ("pm_alex", "Alex (Male, Portuguese)"),
        ("pm_santa", "Santa (Male, Portuguese)"),
    ];
    assert(r@ =~= voice_catalog());
    r
}

/// Every voice of the engine, in catalog order, without preview.
pub fn get_available_voices() -> (r: Vec<Voice>)
    ensures
        r@.len() == voice_catalog().len(),
        forall|i: int|
            0 <= i < r@.len() ==> {
                &&& #[trigger] r@[i].id@ == voice_catalog()[i].0@
                &&& r@[i].name@ == voice_catalog()[i].1@
                &&& r@[i].preview_url is None
            },
{
    let entries = voice_catalog_entries();
    let mut out: Vec<Voice> = Vec::new();
    let mut i: usize = 0;
    while i < entries.len()
        invariant
            entries@ == voice_catalog(),
            i <= entries@.len(),
            out@.len() == i,
            forall|k: int|
                0 <= k < i ==> {
                    &&& #[trigger] out@[k].id@ == voice_catalog()[k].0@
                    &&& out@[k].name@ == voice_catalog()[k].1@
                    &&& out@[k].preview_url is None
                },
        decreases entries@.len() - i,
    {
        let (id, name) = entries[i];
        out.push(Voice { id: String::from_str(id), name: String::from_str(name), preview_url: None });
        i += 1;
    }
    out
}

} // verus!
