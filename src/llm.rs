//! The language-model client's logic: its settings, the chat calls it makes
//! (what is sent where; the HTTP transport itself lives outside the library),
//! the three-stage recovery of JSON from a response, and the assembly of a
//! vision result from per-page answers.
use vstd::prelude::*;
use crate::confidence::{
    clamp_confidence, clamp_spec, Confidence, DIRECT_BITS, EMBEDDED_BITS, FALLBACK_BITS,
    FENCED_BITS,
};
use crate::json::{
    cell_opt, json_array_items, json_cell, json_field, json_keys, json_object_of, map_get,
    object_field, object_value_of, pretty_of, string_value, value_get, json_object_text, object_insert_text, object_new,
    object_value, parse_json_object, pretty_json, JsonCell,
};
use crate::prompts::{
    merge_pages_prompt, merge_prompt_of, system_prompt, system_prompt_of, user_prompt,
    user_prompt_of, vision_user_prompt, vision_user_prompt_of,
};
use crate::text::{
    chars_of, find_from, opt_text, first_index, first_index_of, first_occurrence_from, last_index,
    last_index_of, push_all, push_str, slice_chars, string_of,
};

verus! {

/// The standard base64 alphabet (RFC 4648).
pub const BASE64_ALPHABET: &'static str =
    "ABCDEFGHIJKLMNOPQRSTUVWXYZabcdefghijklmnopqrstuvwxyz0123456789+/";

/// The base64 digit of a value below 64.
pub open spec fn b64(n: int) -> char {
    BASE64_ALPHABET@[n]
}

/// Standard base64 with padding (RFC 4648): each group of three bytes
/// becomes four digits; a last group of one or two bytes is padded with `=`.
pub open spec fn base64_of(b: Seq<u8>) -> Seq<char>
    decreases b.len(),
{
    let x = if b.len() > 0 { b[0] as int } else { 0 };
    let y = if b.len() > 1 { b[1] as int } else { 0 };
    let z = if b.len() > 2 { b[2] as int } else { 0 };
    if b.len() == 0 {
        Seq::empty()
    } else if b.len() == 1 {
        seq![b64(x / 4), b64((x % 4) * 16), '=', '=']
    } else if b.len() == 2 {
        seq![b64(x / 4), b64((x % 4) * 16 + y / 16), b64((y % 16) * 4), '=']
    } else {
        seq![b64(x / 4), b64((x % 4) * 16 + y / 16), b64((y % 16) * 4 + z / 64), b64(z % 64)]
            + base64_of(b.subrange(3, b.len() as int))
    }
}

/// Relies on `base64::engine::general_purpose::STANDARD.encode`: standard
/// base64 with padding.
#[verifier::external_body]
fn base64_encode(b: &Vec<u8>) -> (r: String)
    ensures
        r@ == base64_of(b@),
{
    base64::Engine::encode(&base64::engine::general_purpose::STANDARD, b)
}

/// Why a model call gave no result.
#[derive(Debug, Clone, PartialEq, Eq)]
pub enum LlmError {
    /// The request failed on the network or the endpoint answered with a
    /// status other than 2xx; or no page of a vision call succeeded.
    Transport(String),
    /// A vision call was asked for while no vision model is configured.
    VisionNotConfigured,
}

/// The settings of the model client.
#[derive(Debug, Clone)]
pub struct LlmSettings {
    pub api_url: String,
    pub api_key: String,
    pub model_name: String,
    /// The model's context size in tokens; a text prompt is cut at three
    /// characters per token.
    pub context_size: u32,
    /// The sampling temperature, as the bit pattern of a single-precision float.
    pub temperature_bits: u32,
    pub max_tokens: u32,
    /// The vision model; empty where vision is disabled.
    pub vision_model_name: String,
    pub vision_dpi: u32,
    pub vision_max_pages: u32,
}

/// The resolution at which scanned pages are rendered unless configured.
pub fn default_vision_dpi() -> (r: u32)
    ensures
        r == 200,
{
    200
}

/// How many pages of a scanned PDF are rendered unless configured.
pub fn default_vision_max_pages() -> (r: u32)
    ensures
        r == 5,
{
    5
}

/// A change of settings: each field that is present replaces the current one.
#[derive(Debug, Clone)]
pub struct SettingsUpdate {
    pub api_url: Option<String>,
    pub api_key: Option<String>,
    pub temperature_bits: Option<u32>,
    pub max_tokens: Option<u32>,
    pub context_size: Option<u32>,
    pub vision_model_name: Option<String>,
}

/// `new` where present, else `cur`.
pub open spec fn or_keep<T>(new: Option<T>, cur: T) -> T {
    match new {
        Some(v) => v,
        None => cur,
    }
}

impl LlmSettings {
    /// Vision is enabled when a vision model is named.
    pub open spec fn vision_enabled(&self) -> bool {
        self.vision_model_name@.len() > 0
    }

    /// Whether a vision model is configured.
    pub fn has_vision(&self) -> (r: bool)
        ensures
            r == self.vision_enabled(),
    {
        self.vision_model_name.as_str().unicode_len() > 0
    }

    /// Switch the text model; returns the model that was in use.
    pub fn switch_model(&mut self, model_name: &str) -> (previous: String)
        ensures
            previous@ == old(self).model_name@,
            final(self).model_name@ == model_name@,
            final(self).api_url == old(self).api_url,
            final(self).api_key == old(self).api_key,
            final(self).context_size == old(self).context_size,
            final(self).temperature_bits == old(self).temperature_bits,
            final(self).max_tokens == old(self).max_tokens,
            final(self).vision_model_name == old(self).vision_model_name,
            final(self).vision_dpi == old(self).vision_dpi,
            final(self).vision_max_pages == old(self).vision_max_pages,
    {
        let previous = self.model_name.clone();
        self.model_name = String::from_str(model_name);
        previous
    }

    /// Apply a change of settings.
    pub fn update_settings(&mut self, u: SettingsUpdate)
        ensures
            final(self).api_url == or_keep(u.api_url, old(self).api_url),
            final(self).api_key == or_keep(u.api_key, old(self).api_key),
            final(self).temperature_bits == or_keep(u.temperature_bits, old(self).temperature_bits),
            final(self).max_tokens == or_keep(u.max_tokens, old(self).max_tokens),
            final(self).context_size == or_keep(u.context_size, old(self).context_size),
            final(self).vision_model_name == or_keep(
                u.vision_model_name,
                old(self).vision_model_name,
            ),
            final(self).model_name == old(self).model_name,
            final(self).vision_dpi == old(self).vision_dpi,
            final(self).vision_max_pages == old(self).vision_max_pages,
    {
        if let Some(v) = u.api_url {
            self.api_url = v;
        }
        if let Some(v) = u.api_key {
            self.api_key = v;
        }
        if let Some(v) = u.temperature_bits {
            self.temperature_bits = v;
        }
        if let Some(v) = u.max_tokens {
            self.max_tokens = v;
        }
        if let Some(v) = u.context_size {
            self.context_size = v;
        }
        if let Some(v) = u.vision_model_name {
            self.vision_model_name = v;
        }
    }
}

/// The marker appended to a prompt that was cut.
pub const TRUNCATED_MARK: &'static str = "...[truncated]";

/// A prompt cut to at most `max` characters, marked where it was cut.
pub open spec fn truncated_spec(s: Seq<char>, max: nat) -> Seq<char> {
    if s.len() > max {
        s.subrange(0, max as int) + TRUNCATED_MARK@
    } else {
        s
    }
}

/// Cut a prompt to `context_size × 3` characters, appending
/// `...[truncated]` where it was cut.
pub fn truncate_prompt(prompt: &str, context_size: u32) -> (r: String)
    ensures
        r@ == truncated_spec(prompt@, (context_size as nat) * 3),
{
    let p = chars_of(prompt);
    let max: u64 = (context_size as u64) * 3;
    if (p.len() as u64) > max {
        let mut out = slice_chars(&p, 0, max as usize);
        push_str(&mut out, TRUNCATED_MARK);
        string_of(&out)
    } else {
        string_of(&p)
    }
}

/// What a caller sends for one chat completion.
#[derive(Debug, Clone)]
pub struct ChatCall {
    /// The endpoint: the API URL followed by `/chat/completions`.
    pub url: String,
    /// The bearer token, sent only where an API key is set.
    pub bearer: Option<String>,
    pub model: String,
    pub system_prompt: String,
    pub user_text: String,
    /// A page image as a `data:image/jpeg;base64,...` URL, for vision calls.
    pub image_url: Option<String>,
    /// The sampling temperature, as the bit pattern of a single-precision float.
    pub temperature_bits: u32,
    pub max_tokens: u32,
}

/// The bearer token of an API key: none where the key is empty.
pub open spec fn bearer_of(key: Seq<char>) -> Option<Seq<char>> {
    if key.len() > 0 {
        Some(key)
    } else {
        None
    }
}

/// `url` followed by `suffix`.
fn join_url(url: &String, suffix: &str) -> (r: String)
    ensures
        r@ == url@ + suffix@,
{
    let mut out = chars_of(url.as_str());
    push_str(&mut out, suffix);
    string_of(&out)
}

/// The URL that lists the endpoint's models.
pub fn models_url(s: &LlmSettings) -> (r: String)
    ensures
        r@ == s.api_url@ + "/models"@,
{
    join_url(&s.api_url, "/models")
}

/// The bearer token to send, if any.
pub fn bearer(s: &LlmSettings) -> (r: Option<String>)
    ensures
        r matches Some(k) ==> bearer_of(s.api_key@) == Some(k@),
        r is None ==> bearer_of(s.api_key@) is None,
{
    if s.api_key.as_str().unicode_len() > 0 {
        Some(s.api_key.clone())
    } else {
        None
    }
}

/// The call that extracts structured data from a document text: the system
/// prompt of the type hint, and the user prompt cut to the context size.
pub fn text_call(s: &LlmSettings, raw_text: &str, type_hint: &str) -> (r: ChatCall)
    ensures
        r.url@ == s.api_url@ + "/chat/completions"@,
        opt_text(r.bearer) == bearer_of(s.api_key@),
        r.model@ == s.model_name@,
        r.system_prompt@ == system_prompt_of(type_hint@),
        r.user_text@ == truncated_spec(
            user_prompt_of(raw_text@, type_hint@),
            (s.context_size as nat) * 3,
        ),
        r.image_url is None,
        r.temperature_bits == s.temperature_bits,
        r.max_tokens == s.max_tokens,
{
    let user = user_prompt(raw_text, type_hint);
    let b = bearer(s);
    ChatCall {
        url: join_url(&s.api_url, "/chat/completions"),
        bearer: b,
        model: s.model_name.clone(),
        system_prompt: system_prompt(type_hint),
        user_text: truncate_prompt(user.as_str(), s.context_size),
        image_url: None,
        temperature_bits: s.temperature_bits,
        max_tokens: s.max_tokens,
    }
}

/// The data URL of a JPEG page image.
pub open spec fn jpeg_data_url(image: Seq<u8>) -> Seq<char> {
    "data:image/jpeg;base64,"@ + base64_of(image)
}

/// The call that reads page `page_num` of `total_pages` page images with the
/// vision model; fails where no vision model is configured.
pub fn vision_call(
    s: &LlmSettings,
    image: &Vec<u8>,
    page_num: usize,
    total_pages: usize,
    type_hint: &str,
) -> (r: Result<ChatCall, LlmError>)
    ensures
        !s.vision_enabled() <==> r == Err::<ChatCall, LlmError>(LlmError::VisionNotConfigured),
        s.vision_enabled() ==> r is Ok,
        r matches Ok(c) ==> {
            &&& c.url@ == s.api_url@ + "/chat/completions"@
            &&& opt_text(c.bearer) == bearer_of(s.api_key@)
            &&& c.model@ == s.vision_model_name@
            &&& c.system_prompt@ == system_prompt_of(type_hint@)
            &&& c.user_text@ == vision_user_prompt_of(
                type_hint@,
                page_num as nat,
                total_pages as nat,
            )
            &&& c.image_url matches Some(u) && u@ == jpeg_data_url(image@)
            &&& c.temperature_bits == s.temperature_bits
            &&& c.max_tokens == s.max_tokens
        },
{
    if !s.has_vision() {
        return Err(LlmError::VisionNotConfigured);
    }
    let mut url = chars_of("data:image/jpeg;base64,");
    let enc = base64_encode(image);
    let encc = chars_of(enc.as_str());
    push_all(&mut url, &encc);
    let b = bearer(s);
    Ok(
        ChatCall {
            url: join_url(&s.api_url, "/chat/completions"),
            bearer: b,
            model: s.vision_model_name.clone(),
            system_prompt: system_prompt(type_hint),
            user_text: vision_user_prompt(type_hint, page_num, total_pages),
            image_url: Some(string_of(&url)),
            temperature_bits: s.temperature_bits,
            max_tokens: s.max_tokens,
        },
    )
}

/// The call that asks the text model to merge per-page results, each given
/// as its pretty-printed JSON text.
pub fn merge_call(s: &LlmSettings, page_texts: &Vec<String>, type_hint: &str) -> (r: ChatCall)
    requires
        page_texts@.len() < usize::MAX,
    ensures
        r.url@ == s.api_url@ + "/chat/completions"@,
        opt_text(r.bearer) == bearer_of(s.api_key@),
        r.model@ == s.model_name@,
        r.system_prompt@ == system_prompt_of(type_hint@),
        r.user_text@ == merge_prompt_of(type_hint@, page_texts@.map_values(|p: String| p@)),
        r.image_url is None,
        r.temperature_bits == s.temperature_bits,
        r.max_tokens == s.max_tokens,
{
    let b = bearer(s);
    ChatCall {
        url: join_url(&s.api_url, "/chat/completions"),
        bearer: b,
        model: s.model_name.clone(),
        system_prompt: system_prompt(type_hint),
        user_text: merge_pages_prompt(type_hint, page_texts),
        image_url: None,
        temperature_bits: s.temperature_bits,
        max_tokens: s.max_tokens,
    }
}

/// The fences that may open a JSON block, in the order they are tried.
pub open spec fn fence_marker(k: int) -> Seq<char> {
    if k == 0 {
        "```json\n"@
    } else if k == 1 {
        "```json\r\n"@
    } else if k == 2 {
        "```\n"@
    } else {
        "```\r\n"@
    }
}

/// The block that the first occurrence of `marker` opens, up to the next
/// closing fence; none where either is missing.
pub open spec fn fenced_after(text: Seq<char>, marker: Seq<char>) -> Option<Seq<char>> {
    match first_occurrence_from(text, marker, 0) {
        Some(s) => match first_occurrence_from(text, "```"@, s + marker.len()) {
            Some(e) => Some(text.subrange(s + marker.len(), e)),
            None => None,
        },
        None => None,
    }
}

/// The first JSON block in a code fence, trying the markers from `k` on.
pub open spec fn json_block_from(text: Seq<char>, k: int) -> Option<Seq<char>>
    decreases 4 - k,
{
    if k >= 4 || k < 0 {
        None
    } else {
        match fenced_after(text, fence_marker(k)) {
            Some(b) => Some(b),
            None => json_block_from(text, k + 1),
        }
    }
}

fn fence_marker_exec(k: usize) -> (r: &'static str)
    requires
        k < 4,
    ensures
        r@ == fence_marker(k as int),
{
    if k == 0 {
        "```json\n"
    } else if k == 1 {
        "```json\r\n"
    } else if k == 2 {
        "```\n"
    } else {
        "```\r\n"
    }
}

/// The contents of the first code fence of `text` that opens with one of
/// ```` ```json ```` or ```` ``` ```` and a line break, and is closed.
pub fn extract_json_block(text: &str) -> (r: Option<String>)
    ensures
        opt_text(r) == json_block_from(text@, 0),
{
    let t = chars_of(text);
    let close = chars_of("```");
    let mut k: usize = 0;
    while k < 4
        invariant
            k <= 4,
            t@ == text@,
            close@ == "```"@,
            json_block_from(text@, 0) == json_block_from(text@, k as int),
        decreases 4 - k,
    {
        let m = chars_of(fence_marker_exec(k));
        match find_from(&t, &m, 0) {
            Some(s) => {
                proof {
                    crate::text::lemma_first_occurrence(t@, m@, 0);
                }
                let tl = t.len();
                assert(s + m@.len() <= tl);
                let js = s + m.len();
                match find_from(&t, &close, js) {
                    Some(e) => {
                        proof {
                            crate::text::lemma_first_occurrence(t@, close@, js as int);
                        }
                        let b = slice_chars(&t, js, e);
                        return Some(string_of(&b));
                    },
                    None => {},
                }
            },
            None => {},
        }
        k = k + 1;
    }
    None
}

/// The text from the first `{` to the last `}`, where the first comes
/// before the last.
pub open spec fn embedded_object_of(text: Seq<char>) -> Option<Seq<char>> {
    let s = first_index_of(text, '{');
    let e = last_index_of(text, '}');
    if s >= 0 && e >= s {
        Some(text.subrange(s, e + 1))
    } else {
        None
    }
}

/// The text from the first `{` to the last `}`, where there is such a span.
pub fn embedded_object(text: &str) -> (r: Option<String>)
    ensures
        opt_text(r) == embedded_object_of(text@),
{
    let t = chars_of(text);
    proof {
        crate::text::lemma_last_index_of_bounds(t@, '}');
    }
    match (first_index(&t, '{'), last_index(&t, '}')) {
        (Some(s), Some(e)) => {
            if e >= s {
                Some(string_of(&slice_chars(&t, s, e + 1)))
            } else {
                None
            }
        },
        _ => None,
    }
}

/// How the JSON of a response was found.
#[derive(Debug, Clone, Copy, PartialEq, Eq, Structural)]
pub enum ParseStage {
    /// The whole response is one JSON object.
    Direct,
    /// A JSON object stands in a code fence.
    Fenced,
    /// A JSON object stands between the first `{` and the last `}`.
    Embedded,
    /// No JSON object was found; the response is kept as text.
    Fallback,
}

/// Which stage of the recovery reads a response.
pub open spec fn parse_stage_of(content: Seq<char>) -> ParseStage {
    if json_object_text(content) {
        ParseStage::Direct
    } else if json_block_from(content, 0) matches Some(b) && json_object_text(b) {
        ParseStage::Fenced
    } else if embedded_object_of(content) matches Some(b) && json_object_text(b) {
        ParseStage::Embedded
    } else {
        ParseStage::Fallback
    }
}

/// The score of a response found at a stage that reports none itself.
pub open spec fn stage_default_bits(stage: ParseStage) -> u64 {
    match stage {
        ParseStage::Direct => DIRECT_BITS,
        ParseStage::Fenced => FENCED_BITS,
        ParseStage::Embedded => EMBEDDED_BITS,
        ParseStage::Fallback => FALLBACK_BITS,
    }
}

/// The score that a response's own `confidence` field gives, clamped to
/// `[0.0, 1.0]`; `default_bits` where the field is missing or not a number.
pub open spec fn reported_confidence(cell: Option<JsonCell>, default_bits: u64) -> u64 {
    match cell {
        Some(JsonCell::Number(_, Some(b))) => clamp_spec(b),
        _ => clamp_spec(default_bits),
    }
}

/// The score of a response from its `confidence` field, if it has one.
pub fn confidence_from(cell: Option<JsonCell>, default_bits: u64) -> (r: Confidence)
    ensures
        r.bits == reported_confidence(cell, default_bits),
        r.wf(),
{
    match cell {
        Some(JsonCell::Number(_, Some(b))) => clamp_confidence(b),
        _ => clamp_confidence(default_bits),
    }
}

/// The score of a stage.
pub fn stage_default(stage: ParseStage) -> (r: u64)
    ensures
        r == stage_default_bits(stage),
{
    match stage {
        ParseStage::Direct => DIRECT_BITS,
        ParseStage::Fenced => FENCED_BITS,
        ParseStage::Embedded => EMBEDDED_BITS,
        ParseStage::Fallback => FALLBACK_BITS,
    }
}

/// A response read as JSON.
pub struct ParsedResponse {
    /// Always a JSON object.
    pub data: serde_json::Map<String, serde_json::Value>,
    pub stage: ParseStage,
    pub confidence: Confidence,
}

/// Why a fallback object is one.
pub const PARSE_ERROR_TEXT: &'static str = "LLM response was not valid JSON";

/// The object found in a response at a stage other than the fallback.
pub open spec fn parsed_object(content: Seq<char>) -> serde_json::Map<String, serde_json::Value> {
    match parse_stage_of(content) {
        ParseStage::Fenced => match json_block_from(content, 0) {
            Some(b) => json_object_of(b),
            None => json_object_of(content),
        },
        ParseStage::Embedded => match embedded_object_of(content) {
            Some(b) => json_object_of(b),
            None => json_object_of(content),
        },
        _ => json_object_of(content),
    }
}

/// The object that keeps a response that held no JSON: the response under
/// `raw_response`, the reason under `parse_error`, and nothing else.
pub open spec fn fallback_object(m: serde_json::Map<String, serde_json::Value>, content: Seq<char>) -> bool {
    &&& json_keys(m) == set!["raw_response"@, "parse_error"@]
    &&& map_get(m, "raw_response"@) == Some(string_value(content))
    &&& map_get(m, "parse_error"@) == Some(string_value(PARSE_ERROR_TEXT@))
}

/// The score of a response: its own `confidence` field (clamped) where the
/// JSON has one, else the default of the stage that found it.
pub open spec fn response_score(content: Seq<char>) -> u64 {
    let stage = parse_stage_of(content);
    if stage == ParseStage::Fallback {
        FALLBACK_BITS
    } else {
        reported_confidence(
            cell_opt(map_get(parsed_object(content), "confidence"@)),
            stage_default_bits(stage),
        )
    }
}

/// The document type of a response: the string under its `document_type`,
/// else the hint.
pub open spec fn response_type(content: Seq<char>, hint: Seq<char>) -> Seq<char> {
    if parse_stage_of(content) == ParseStage::Fallback {
        hint
    } else {
        response_type_of(cell_opt(map_get(parsed_object(content), "document_type"@)), hint)
    }
}

/// Read a model's response as a JSON object: the whole text; else a fenced
/// block; else the span from the first `{` to the last `}`; else an object
/// that keeps the text under `raw_response`. Never fails, and always gives
/// an object.
pub fn parse_llm_response(content: &str) -> (r: ParsedResponse)
    ensures
        r.stage == parse_stage_of(content@),
        r.stage != ParseStage::Fallback ==> r.data == parsed_object(content@),
        r.stage == ParseStage::Fallback ==> fallback_object(r.data, content@),
        r.confidence.bits == response_score(content@),
        r.confidence.wf(),
{
    let mut found: Option<(serde_json::Map<String, serde_json::Value>, ParseStage)> = None;
    if let Some(m) = parse_json_object(content) {
        found = Some((m, ParseStage::Direct));
    } else {
        match extract_json_block(content) {
            Some(b) => {
                if let Some(m) = parse_json_object(b.as_str()) {
                    found = Some((m, ParseStage::Fenced));
                }
            },
            None => {},
        }
        if found.is_none() {
            match embedded_object(content) {
                Some(b) => {
                    if let Some(m) = parse_json_object(b.as_str()) {
                        found = Some((m, ParseStage::Embedded));
                    }
                },
                None => {},
            }
        }
    }
    match found {
        Some((m, stage)) => {
            let cell = match object_field(&m, "confidence") {
                Some(c) => Some(json_cell(&c)),
                None => None,
            };
            let confidence = confidence_from(cell, stage_default(stage));
            ParsedResponse { data: m, stage, confidence }
        },
        None => {
            let mut m = object_new();
            object_insert_text(&mut m, "raw_response", content);
            object_insert_text(&mut m, "parse_error", PARSE_ERROR_TEXT);
            proof {
                assert(json_keys(m) =~= set!["raw_response"@, "parse_error"@]);
                reveal_strlit("raw_response");
                reveal_strlit("parse_error");
                assert("raw_response"@[0] != "parse_error"@[0]);
                assert("raw_response"@ != "parse_error"@);
            }
            ParsedResponse {
                data: m,
                stage: ParseStage::Fallback,
                confidence: Confidence { bits: FALLBACK_BITS },
            }
        },
    }
}

/// The document type of a response from its `document_type` field.
pub open spec fn response_type_of(cell: Option<JsonCell>, hint: Seq<char>) -> Seq<char> {
    match cell {
        Some(JsonCell::Text(s)) => s@,
        _ => hint,
    }
}

/// The document type of a response from its `document_type` field.
pub fn document_type_from(cell: Option<JsonCell>, hint: &str) -> (r: String)
    ensures
        r@ == response_type_of(cell, hint@),
{
    match cell {
        Some(JsonCell::Text(s)) => s,
        _ => String::from_str(hint),
    }
}

/// The field `key` of a JSON value, as a cell.
fn field_cell(v: &serde_json::Value, key: &str) -> (r: Option<JsonCell>)
    ensures
        r == cell_opt(value_get(*v, key@)),
{
    match json_field(v, key) {
        Some(c) => Some(json_cell(&c)),
        None => None,
    }
}

/// The field `key` of a JSON object, as a cell.
fn object_cell(m: &serde_json::Map<String, serde_json::Value>, key: &str) -> (r: Option<JsonCell>)
    ensures
        r == cell_opt(map_get(*m, key@)),
{
    match object_field(m, key) {
        Some(c) => Some(json_cell(&c)),
        None => None,
    }
}

/// The models an endpoint lists: the `data` array of an OpenAI-style answer,
/// else the `models` array of an Ollama-style one, else none.
pub fn models_list(body: &serde_json::Value) -> (r: Vec<serde_json::Value>) {
    let listed = match json_field(body, "data") {
        Some(d) => Some(d),
        None => json_field(body, "models"),
    };
    match listed {
        Some(v) => match json_array_items(&v) {
            Some(items) => items,
            None => Vec::new(),
        },
        None => Vec::new(),
    }
}

/// The result of a model call.
pub struct LlmResponse {
    pub structured_data: serde_json::Value,
    pub document_type: String,
    pub confidence: Confidence,
    pub model_used: String,
    pub processing_time_ms: i64,
}

/// The data, type and score that a response's content gives.
pub open spec fn response_of(r: LlmResponse, content: Seq<char>, hint: Seq<char>) -> bool {
    &&& parse_stage_of(content) != ParseStage::Fallback ==> r.structured_data == object_value_of(
        parsed_object(content),
    )
    &&& parse_stage_of(content) == ParseStage::Fallback ==> exists|m: serde_json::Map<
        String,
        serde_json::Value,
    >| fallback_object(m, content) && r.structured_data == object_value_of(m)
    &&& r.document_type@ == response_type(content, hint)
    &&& r.confidence.bits == response_score(content)
    &&& r.confidence.wf()
}

/// The result of a text call from the content of its answer.
pub fn text_response(s: &LlmSettings, content: &str, type_hint: &str, elapsed_ms: i64) -> (r:
    LlmResponse)
    ensures
        response_of(r, content@, type_hint@),
        r.model_used@ == s.model_name@,
        r.processing_time_ms == elapsed_ms,
{
    let p = parse_llm_response(content);
    let t = if p.stage == ParseStage::Fallback {
        String::from_str(type_hint)
    } else {
        document_type_from(object_cell(&p.data, "document_type"), type_hint)
    };
    let ghost data = p.data;
    let v = object_value(p.data);
    LlmResponse {
        structured_data: v,
        document_type: t,
        confidence: p.confidence,
        model_used: s.model_name.clone(),
        processing_time_ms: elapsed_ms,
    }
}

/// What a vision call does once every page has been tried.
pub enum VisionStep {
    /// No page gave a result.
    Failed(LlmError),
    /// One page gave a result, which is the answer.
    Done(LlmResponse),
    /// Several pages gave results; the text model merges them with this call.
    Merge(ChatCall),
}

/// The message of a vision call in which every page failed.
pub const NO_PAGE_RESULTS: &'static str = "Vision LLM returned no results for any page";

/// The pretty-printed texts of page results.
pub open spec fn page_texts_of(pages: Seq<serde_json::Value>) -> Seq<Seq<char>> {
    pages.map_values(|v: serde_json::Value| pretty_of(v))
}

/// Decide a vision call from the results of the pages that succeeded, in
/// page order: fail where none did; take the single one as the answer; else
/// ask the text model to merge them.
pub fn vision_step(
    s: &LlmSettings,
    page_results: Vec<serde_json::Value>,
    type_hint: &str,
    elapsed_ms: i64,
) -> (r: VisionStep)
    requires
        page_results@.len() < usize::MAX,
    ensures
        page_results@.len() == 0 <==> (r matches VisionStep::Failed(LlmError::Transport(m)) && m@
            == NO_PAGE_RESULTS@),
        page_results@.len() == 1 <==> (r matches VisionStep::Done(_)),
        r matches VisionStep::Done(resp) ==> {
            let page = page_results@[0];
            &&& resp.structured_data == page
            &&& resp.document_type@ == response_type_of(
                cell_opt(value_get(page, "document_type"@)),
                type_hint@,
            )
            &&& resp.confidence.bits == reported_confidence(
                cell_opt(value_get(page, "confidence"@)),
                FENCED_BITS,
            )
            &&& resp.confidence.wf()
            &&& resp.model_used@ == s.vision_model_name@
            &&& resp.processing_time_ms == elapsed_ms
        },
        page_results@.len() > 1 <==> (r matches VisionStep::Merge(_)),
        r matches VisionStep::Merge(c) ==> {
            &&& c.url@ == s.api_url@ + "/chat/completions"@
            &&& opt_text(c.bearer) == bearer_of(s.api_key@)
            &&& c.model@ == s.model_name@
            &&& c.system_prompt@ == system_prompt_of(type_hint@)
            &&& c.user_text@ == merge_prompt_of(type_hint@, page_texts_of(page_results@))
            &&& c.image_url is None
        },
{
    let n = page_results.len();
    if n == 0 {
        VisionStep::Failed(LlmError::Transport(String::from_str(NO_PAGE_RESULTS)))
    } else if n == 1 {
        let mut results = page_results;
        let v = results.pop().unwrap();
        let confidence = confidence_from(field_cell(&v, "confidence"), FENCED_BITS);
        let t = document_type_from(field_cell(&v, "document_type"), type_hint);
        VisionStep::Done(
            LlmResponse {
                structured_data: v,
                document_type: t,
                confidence,
                model_used: s.vision_model_name.clone(),
                processing_time_ms: elapsed_ms,
            },
        )
    } else {
        let mut texts: Vec<String> = Vec::new();
        let mut i: usize = 0;
        while i < n
            invariant
                n == page_results@.len() < usize::MAX,
                i <= n,
                texts@.len() == i,
                forall|j: int| 0 <= j < i ==> #[trigger] texts@[j]@ == pretty_of(page_results@[j]),
            decreases n - i,
        {
            texts.push(pretty_json(&page_results[i]));
            i = i + 1;
        }
        assert(texts@.map_values(|p: String| p@) =~= page_texts_of(page_results@));
        VisionStep::Merge(merge_call(s, &texts, type_hint))
    }
}

/// The model a merged vision result names: the vision model and the text model.
pub open spec fn merged_model_of(s: LlmSettings) -> Seq<char> {
    s.vision_model_name@ + "+"@ + s.model_name@
}

/// The result of a vision call whose pages the text model merged, from the
/// content of the merge answer.
pub fn merged_response(s: &LlmSettings, content: &str, type_hint: &str, elapsed_ms: i64) -> (r:
    LlmResponse)
    ensures
        response_of(r, content@, type_hint@),
        r.model_used@ == merged_model_of(*s),
        r.processing_time_ms == elapsed_ms,
{
    let p = text_response(s, content, type_hint, elapsed_ms);
    let mut m = chars_of(s.vision_model_name.as_str());
    push_str(&mut m, "+");
    let t = chars_of(s.model_name.as_str());
    push_all(&mut m, &t);
    LlmResponse { model_used: string_of(&m), ..p }
}

} // verus!
