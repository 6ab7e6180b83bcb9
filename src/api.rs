use vstd::prelude::*;
use vstd::utf8::encode_utf8_decode_utf8;
use crate::error::{AppError, AppErrorModel};
use crate::stream::Framing;
use crate::strings::{lower_of, same_chars};
use crate::validation::{
    get_available_voices, has_voice, is_accepted_model, is_valid_format, resolve_alias,
    too_long_message, validate_input, validate_model, validate_response_format, validate_voice,
    voice_catalog, Voice,
};

verus! {

// Request-level decisions of the HTTP API: authorization, listings and the
// checks a speech request passes before synthesis.

/// One model entry of the model listing.
#[derive(Debug)]
pub struct Model {
    pub id: String,
    pub object: String,
    pub created: i64,
    pub owned_by: String,
}

/// The model listing.
#[derive(Debug)]
pub struct ModelsResponse {
    pub object: String,
    pub data: Vec<Model>,
}

/// The voice listing.
#[derive(Debug)]
pub struct VoicesResponse {
    pub object: String,
    pub data: Vec<Voice>,
}

/// Voice used when a request names none.
pub fn default_voice() -> (r: String)
    ensures
        r@ == "af_alloy"@,
{
    String::from_str("af_alloy")
}

/// Response format used when a request names none.
pub fn default_response_format() -> (r: String)
    ensures
        r@ == "wav"@,
{
    String::from_str("wav")
}

/// Compares two keys in time that depends on their lengths only.
pub fn constant_time_eq(a: &str, b: &str) -> (r: bool)
    ensures
        r == (a@ == b@),
{
    let x = a.as_bytes();
    let y = b.as_bytes();
    let la = x.len();
    let lb = y.len();
    let mut diff: usize = la ^ lb;
    assert((la ^ lb) == 0usize <==> la == lb) by (bit_vector);
    let n = if la < lb {
        la
    } else {
        lb
    };
    let mut i: usize = 0;
    while i < n
        invariant
            n <= x@.len(),
            n <= y@.len(),
            la == x@.len(),
            lb == y@.len(),
            n == la || n == lb,
            i <= n,
            (diff == 0) == (la == lb && forall|k: int| 0 <= k < i ==> x@[k] == y@[k]),
        decreases n - i,
    {
        let d = x[i] ^ y[i];
        let xi = x[i];
        let yi = y[i];
        assert((xi ^ yi) == 0u8 <==> xi == yi) by (bit_vector);
        let old_diff = diff;
        diff = diff | (d as usize);
        assert((old_diff | (d as usize)) == 0usize <==> (old_diff == 0usize && d == 0u8))
            by (bit_vector);
        i += 1;
    }
    proof {
        if diff == 0 {
            assert(x@ =~= y@);
            encode_utf8_decode_utf8(a@);
            encode_utf8_decode_utf8(b@);
        }
        if a@ == b@ {
            assert(la == lb);
        }
    }
    diff == 0
}

pub open spec fn is_prefix(p: Seq<char>, s: Seq<char>) -> bool {
    p.len() <= s.len() && s.take(p.len() as int) == p
}

fn starts_with(s: &str, prefix: &str) -> (r: bool)
    ensures
        r == is_prefix(prefix@, s@),
{
    let n = prefix.unicode_len();
    if n > s.unicode_len() {
        return false;
    }
    let head = s.substring_char(0, n);
    same_chars(head, prefix)
}

/// Paths served without a key.
pub open spec fn is_public_path(path: Seq<char>) -> bool {
    path == "/"@ || path == "/health"@ || is_prefix("/v1/audio/voices"@, path)
}

/// Whether a request may proceed: public paths always do; otherwise, when a
/// key is configured, the Authorization header must be "Bearer " and the key.
pub open spec fn authorized(
    path: Seq<char>,
    api_key: Option<Seq<char>>,
    authorization: Option<Seq<char>>,
) -> bool {
    is_public_path(path) || match api_key {
        None => true,
        Some(key) => match authorization {
            Some(h) => is_prefix("Bearer "@, h) && h.skip(7) == key,
            None => false,
        },
    }
}

pub open spec fn opt_view(o: Option<&str>) -> Option<Seq<char>> {
    match o {
        Some(s) => Some(s@),
        None => None,
    }
}

pub fn is_authorized(path: &str, api_key: Option<&str>, authorization: Option<&str>) -> (r: bool)
    ensures
        r == authorized(path@, opt_view(api_key), opt_view(authorization)),
{
    if same_chars(path, "/") || same_chars(path, "/health") || starts_with(path, "/v1/audio/voices") {
        return true;
    }
    match api_key {
        None => true,
        Some(expected) => match authorization {
            Some(header) => {
                proof {
                    reveal_strlit("Bearer ");
                }
                if starts_with(header, "Bearer ") {
                    let provided = header.substring_char(7, header.unicode_len());
                    assert(provided@ == header@.skip(7));
                    constant_time_eq(provided, expected)
                } else {
                    false
                }
            },
            None => false,
        },
    }
}

/// The models listed: identifier of each, all created at the same instant
/// and owned by "kokoro".
pub open spec fn listed_model_ids() -> Seq<Seq<char>> {
    seq!["tts-1"@, "tts-1-hd"@, "kokoro"@, "gpt-4o-mini-tts"@]
}

fn model_entry(id: &str) -> (r: Model)
    ensures
        r.id@ == id@,
        r.object@ == "model"@,
        r.created == 1704067200,
        r.owned_by@ == "kokoro"@,
{
    Model {
        id: String::from_str(id),
        object: String::from_str("model"),
        created: 1704067200,
        owned_by: String::from_str("kokoro"),
    }
}

pub fn list_models() -> (r: ModelsResponse)
    ensures
        r.object@ == "list"@,
        r.data@.len() == listed_model_ids().len(),
        forall|i: int|
            0 <= i < r.data@.len() ==> {
                &&& #[trigger] r.data@[i].id@ == listed_model_ids()[i]
                &&& r.data@[i].object@ == "model"@
                &&& r.data@[i].created == 1704067200
                &&& r.data@[i].owned_by@ == "kokoro"@
            },
{
    let data = vec![
        model_entry("tts-1"),
        model_entry("tts-1-hd"),
        model_entry("kokoro"),
        model_entry("gpt-4o-mini-tts"),
    ];
    ModelsResponse { object: String::from_str("list"), data }
}

/// The OpenAI voice names offered beside the catalog, with display names.
pub open spec fn listed_alias_voices() -> Seq<(&'static str, &'static str)> {
    seq![
        ("alloy", "Alloy (OpenAI alias)"),
        ("echo", "Echo (OpenAI alias)"),
        ("fable", "Fable (OpenAI alias)"),
        ("nova", "Nova (OpenAI alias)"),
        ("onyx", "Onyx (OpenAI alias)"),
        ("shimmer", "Shimmer (OpenAI alias)"),
    ]
}

pub open spec fn voice_model(v: Voice) -> (Seq<char>, Seq<char>, Option<Seq<char>>) {
    (
        v.id@,
        v.name@,
        match v.preview_url {
            Some(u) => Some(u@),
            None => None,
        },
    )
}

pub open spec fn voices_model(vs: Seq<Voice>) -> Seq<(Seq<char>, Seq<char>, Option<Seq<char>>)> {
    vs.map_values(|v: Voice| voice_model(v))
}

/// The OpenAI alias entries of the voice listing.
pub fn openai_alias_voices() -> (r: Vec<Voice>)
    ensures
        r@.len() == listed_alias_voices().len(),
        forall|i: int|
            0 <= i < r@.len() ==> #[trigger] voice_model(r@[i]) == (
                listed_alias_voices()[i].0@,
                listed_alias_voices()[i].1@,
                None::<Seq<char>>,
            ),
{
    let entries: Vec<(&'static str, &'static str)> = vec![
        ("alloy", "Alloy (OpenAI alias)"),
        ("echo", "Echo (OpenAI alias)"),
        ("fable", "Fable (OpenAI alias)"),
        ("nova", "Nova (OpenAI alias)"),
        ("onyx", "Onyx (OpenAI alias)"),
        ("shimmer", "Shimmer (OpenAI alias)"),
    ];
    assert(entries@ =~= listed_alias_voices());
    let mut out: Vec<Voice> = Vec::new();
    let mut i: usize = 0;
    while i < entries.len()
        invariant
            entries@ == listed_alias_voices(),
            i <= entries@.len(),
            out@.len() == i,
            forall|k: int|
                0 <= k < i ==> #[trigger] voice_model(out@[k]) == (
                    listed_alias_voices()[k].0@,
                    listed_alias_voices()[k].1@,
                    None::<Seq<char>>,
                ),
        decreases entries@.len() - i,
    {
        let (id, name) = entries[i];
        out.push(Voice { id: String::from_str(id), name: String::from_str(name), preview_url: None });
        i += 1;
    }
    out
}

pub open spec fn id_taken(vs: Seq<(Seq<char>, Seq<char>, Option<Seq<char>>)>, id: Seq<char>) -> bool {
    exists|i: int| 0 <= i < vs.len() && (#[trigger] vs[i]).0 == id
}

/// `acc` followed by the voices of `extra` whose identifier is not yet listed.
pub open spec fn merge_voices(
    acc: Seq<(Seq<char>, Seq<char>, Option<Seq<char>>)>,
    extra: Seq<(Seq<char>, Seq<char>, Option<Seq<char>>)>,
) -> Seq<(Seq<char>, Seq<char>, Option<Seq<char>>)>
    decreases extra.len(),
{
    if extra.len() == 0 {
        acc
    } else {
        let next = if id_taken(acc, extra[0].0) {
            acc
        } else {
            acc.push(extra[0])
        };
        merge_voices(next, extra.drop_first())
    }
}

fn copy_voice(v: &Voice) -> (r: Voice)
    ensures
        voice_model(r) == voice_model(*v),
{
    let preview_url = match &v.preview_url {
        Some(u) => Some(u.clone()),
        None => None,
    };
    Voice { id: v.id.clone(), name: v.name.clone(), preview_url }
}

/// Appends each voice of `extra` whose identifier is not listed yet.
pub fn append_unlisted_voices(listed: &mut Vec<Voice>, extra: &Vec<Voice>)
    ensures
        voices_model(final(listed)@) == merge_voices(voices_model(old(listed)@), voices_model(extra@)),
{
    let ghost target = merge_voices(voices_model(listed@), voices_model(extra@));
    assert(voices_model(extra@).skip(0) =~= voices_model(extra@));
    let mut i: usize = 0;
    while i < extra.len()
        invariant
            i <= extra@.len(),
            target == merge_voices(voices_model(listed@), voices_model(extra@).skip(i as int)),
        decreases extra@.len() - i,
    {
        let ghost acc = voices_model(listed@);
        let ghost rest = voices_model(extra@).skip(i as int);
        assert(rest.drop_first() =~= voices_model(extra@).skip(i + 1));
        assert(rest[0] == voice_model(extra@[i as int]));
        let mut taken = false;
        let mut j: usize = 0;
        while j < listed.len()
            invariant
                i < extra@.len(),
                j <= listed@.len(),
                acc == voices_model(listed@),
                taken == exists|k: int| 0 <= k < j && (#[trigger] acc[k]).0 == extra@[i as int].id@,
            decreases listed@.len() - j,
        {
            if same_chars(listed[j].id.as_str(), extra[i].id.as_str()) {
                assert(acc[j as int].0 == extra@[i as int].id@);
                taken = true;
            }
            j += 1;
        }
        if !taken {
            let v = copy_voice(&extra[i]);
            listed.push(v);
            assert(voices_model(listed@) =~= acc.push(rest[0]));
        }
        i += 1;
    }
    assert(voices_model(extra@).skip(extra@.len() as int) =~= Seq::<(Seq<char>, Seq<char>, Option<Seq<char>>)>::empty());
}

/// The voice listing: the catalog, then each OpenAI alias not already listed.
pub fn list_voices() -> (r: VoicesResponse)
    ensures
        r.object@ == "list"@,
        ({
            let catalog = voice_catalog().map_values(
                |e: (&'static str, &'static str)| (e.0@, e.1@, None::<Seq<char>>),
            );
            let aliases = listed_alias_voices().map_values(
                |e: (&'static str, &'static str)| (e.0@, e.1@, None::<Seq<char>>),
            );
            voices_model(r.data@) == merge_voices(catalog, aliases)
        }),
{
    let mut voices = get_available_voices();
    let aliases = openai_alias_voices();
    assert(voices_model(voices@) =~= voice_catalog().map_values(
        |e: (&'static str, &'static str)| (e.0@, e.1@, None::<Seq<char>>),
    ));
    assert(voices_model(aliases@) =~= listed_alias_voices().map_values(
        |e: (&'static str, &'static str)| (e.0@, e.1@, None::<Seq<char>>),
    ));
    append_unlisted_voices(&mut voices, &aliases);
    VoicesResponse { object: String::from_str("list"), data: voices }
}

/// Whether the engine has a voice with this identifier.
pub open spec fn in_catalog(id: Seq<char>) -> bool {
    exists|i: int| 0 <= i < voice_catalog().len() && (#[trigger] voice_catalog()[i]).0@ == id
}

/// The outcome of checking a speech request, field by field in this order:
/// model, input text, response format, voice. On success: the format in lower
/// case and the voice identifier the name resolves to.
pub open spec fn speech_request_check(
    model: Seq<char>,
    input: Seq<char>,
    max_input_chars: nat,
    response_format: Seq<char>,
    voice: Seq<char>,
) -> Result<(Seq<char>, Seq<char>), AppErrorModel> {
    if !is_accepted_model(model) {
        Err(AppErrorModel::ModelNotFound(model))
    } else if input.len() == 0 {
        Err(AppErrorModel::InvalidRequest("Input text cannot be empty"@))
    } else if input.len() > max_input_chars {
        Err(AppErrorModel::InvalidRequest(too_long_message(max_input_chars)))
    } else if !is_valid_format(lower_of(response_format)) {
        Err(AppErrorModel::InvalidResponseFormat(response_format))
    } else if !in_catalog(resolve_alias(voice)) {
        Err(AppErrorModel::VoiceNotFound(voice))
    } else {
        Ok((lower_of(response_format), resolve_alias(voice)))
    }
}

/// Checks the fields of a speech request (all but the speed) and answers the
/// response format and voice to synthesize with.
pub fn validate_speech_request(
    model: &str,
    input: &str,
    max_input_chars: usize,
    response_format: &str,
    voice: &str,
) -> (r: Result<(String, String), AppError>)
    ensures
        match speech_request_check(model@, input@, max_input_chars as nat, response_format@, voice@) {
            Ok((f, v)) => r matches Ok((a, b)) && a@ == f && b@ == v,
            Err(e) => r matches Err(x) && x@ == e,
        },
{
    match validate_model(model) {
        Err(e) => return Err(e),
        Ok(_) => {},
    }
    match validate_input(input, max_input_chars) {
        Err(e) => return Err(e),
        Ok(()) => {},
    }
    let format = match validate_response_format(response_format) {
        Err(e) => return Err(e),
        Ok(f) => f,
    };
    let voices = get_available_voices();
    proof {
        let id = resolve_alias(voice@);
        if in_catalog(id) {
            let i = choose|i: int| 0 <= i < voice_catalog().len() && (#[trigger] voice_catalog()[i]).0@ == id;
            assert(voices@[i].id@ == id);
        }
        if has_voice(voices@, id) {
            let i = choose|i: int| 0 <= i < voices@.len() && #[trigger] voices@[i].id@ == id;
            assert(voice_catalog()[i].0@ == id);
        }
    }
    match validate_voice(voice, voices.as_slice()) {
        Err(e) => Err(e),
        Ok(v) => Ok((format, v)),
    }
}

/// WAVE framing for "wav", raw PCM for every other accepted format.
pub fn framing_for(format: &str) -> (r: Framing)
    ensures
        r == (if format@ == "wav"@ {
            Framing::Wav
        } else {
            Framing::Pcm
        }),
{
    if same_chars(format, "wav") {
        Framing::Wav
    } else {
        Framing::Pcm
    }
}

/// The content type of a response in the given framing.
pub fn content_type_for(framing: Framing) -> (r: &'static str)
    ensures
        r@ == (if framing == Framing::Wav {
            "audio/wav"@
        } else {
            "audio/pcm"@
        }),
{
    match framing {
        Framing::Wav => "audio/wav",
        Framing::Pcm => "audio/pcm",
    }
}

} // verus!
