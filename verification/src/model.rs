//! The client session: key, model, options, and the conversation history,
//! with the send operations and their state rules.
//!
//! A session is either stateless (each send is one independent exchange)
//! or accumulating (the history is resent and grown with each exchange).
//! The proved invariant: the history only ever holds turns that received a
//! successful reply — a send that fails in any way leaves the history
//! exactly as it was.

use vstd::prelude::*;

use crate::body::error::{sp_error_envelope, ErrorV};
use crate::body::request::{
    spec_config_json, spec_request_json, GeminiRequestBody, GenerationConfig,
    GenerationConfigV, RequestBodyV,
};
use crate::body::response::{sp_response, GenerateContentResponse, GenerateContentResponseV, Model};
use crate::body::{spec_content_json, Content, ContentV, Part, PartV, Role};
use crate::json::{
    lemma_view_elems_push, lemma_view_members_push, parse_json, spec_parse_json, spec_render,
    str_eq, view_members, JsonV, JsonValue,
};
use crate::param::{spec_model_path, LanguageModel};
use crate::utils::image::{base64_of, image_type_and_base64, spec_mime_of_magic};

verus! {

/// The endpoint all sessions talk to.
pub const GEMINI_API_URL: &'static str = "https://generativelanguage.googleapis.com/v1beta/";

/// Why a send or listing failed.
#[derive(Clone, Debug)]
pub enum GeminiError {
    /// The transport could not complete the exchange; its message.
    Transport(String),
    /// The remote API answered a non-success status with this error.
    Remote(crate::body::error::Error),
    /// The response arrived but had a shape the schema does not allow.
    UnexpectedFormat,
    /// An image could not be downloaded; the status code that came back.
    ImageFetch(u16),
    /// The image bytes matched no known format.
    UnknownImageFormat,
}

/// The model of a `GeminiError`.
pub enum GeminiErrorV {
    Transport(Seq<char>),
    Remote(ErrorV),
    UnexpectedFormat,
    ImageFetch(u16),
    UnknownImageFormat,
}

impl DeepView for GeminiError {
    type V = GeminiErrorV;

    open spec fn deep_view(&self) -> GeminiErrorV {
        match self {
            GeminiError::Transport(s) => GeminiErrorV::Transport(s@),
            GeminiError::Remote(e) => GeminiErrorV::Remote(e.deep_view()),
            GeminiError::UnexpectedFormat => GeminiErrorV::UnexpectedFormat,
            GeminiError::ImageFetch(c) => GeminiErrorV::ImageFetch(*c),
            GeminiError::UnknownImageFormat => GeminiErrorV::UnknownImageFormat,
        }
    }
}

/// The human-readable message of a failure: a remote error surfaces the
/// remote message itself.
pub open spec fn spec_error_message(e: GeminiErrorV) -> Seq<char> {
    match e {
        GeminiErrorV::Transport(s) => s,
        GeminiErrorV::Remote(re) => re.message,
        GeminiErrorV::UnexpectedFormat => "Unexpected response format"@,
        GeminiErrorV::ImageFetch(c) => "Failed to download image, status: "@
            + crate::json::spec_i64_str(c as int),
        GeminiErrorV::UnknownImageFormat => "Unrecognized image format"@,
    }
}

impl GeminiError {
    /// The failure's human-readable message.
    pub fn message(&self) -> (r: String)
        ensures
            r@ == spec_error_message(self.deep_view()),
    {
        match self {
            GeminiError::Transport(s) => s.clone(),
            GeminiError::Remote(e) => e.message.clone(),
            GeminiError::UnexpectedFormat => "Unexpected response format".to_owned(),
            GeminiError::ImageFetch(c) => {
                let mut s = "Failed to download image, status: ".to_owned();
                s.append(crate::json::i64_to_string(*c as i64).as_str());
                s
            },
            GeminiError::UnknownImageFormat => "Unrecognized image format".to_owned(),
        }
    }
}

// ---------- reply interpretation ----------

/// The text of a reply: the first part of the first candidate, where that
/// part is text.
pub open spec fn spec_extract_text(r: GenerateContentResponseV) -> Option<Seq<char>> {
    if r.candidates.len() > 0 && r.candidates[0].content.parts.len() > 0 {
        match r.candidates[0].content.parts[0] {
            PartV::Text(s) => Option::Some(s),
            _ => Option::None,
        }
    } else {
        Option::None
    }
}

/// What one exchange's reply means. On a success status the body must
/// parse as a response envelope whose first candidate's first part is
/// text; anything else is the local format error. On a non-success status
/// the body must parse as the error envelope, surfaced as the remote
/// error; anything else is the local format error.
pub open spec fn spec_decode_reply(success: bool, body: Seq<char>) -> Result<
    (Seq<char>, GenerateContentResponseV),
    GeminiErrorV,
> {
    if success {
        match spec_parse_json(body) {
            Option::None => Result::Err(GeminiErrorV::UnexpectedFormat),
            Option::Some(v) => match sp_response(v) {
                Option::None => Result::Err(GeminiErrorV::UnexpectedFormat),
                Option::Some(resp) => match spec_extract_text(resp) {
                    Option::Some(t) => Result::Ok((t, resp)),
                    Option::None => Result::Err(GeminiErrorV::UnexpectedFormat),
                },
            },
        }
    } else {
        match spec_parse_json(body) {
            Option::None => Result::Err(GeminiErrorV::UnexpectedFormat),
            Option::Some(v) => match sp_error_envelope(v) {
                Option::None => Result::Err(GeminiErrorV::UnexpectedFormat),
                Option::Some(env) => Result::Err(GeminiErrorV::Remote(env.error)),
            },
        }
    }
}

/// A decoded reply fails only as the remote error or the local format
/// error; image errors never come out of an exchange's reply.
pub proof fn lemma_decode_reply_err_shape(success: bool, body: Seq<char>)
    ensures
        spec_decode_reply(success, body) matches Result::Err(e) ==> (e is Remote
            || e is UnexpectedFormat),
{
}

fn extract_text(resp: &GenerateContentResponse) -> (r: Option<String>)
    ensures
        ({
            let sp = spec_extract_text(resp.deep_view());
            match sp {
                Option::None => r is None,
                Option::Some(t) => r matches Some(rt) && rt@ == t,
            }
        }),
{
    if resp.candidates.len() > 0 {
        let c = &resp.candidates[0];
        if c.content.parts.len() > 0 {
            match &c.content.parts[0] {
                Part::Text(s) => Some(s.clone()),
                _ => None,
            }
        } else {
            None
        }
    } else {
        None
    }
}

/// Interprets one exchange's reply, exactly as `spec_decode_reply` says.
pub fn decode_reply(success: bool, body: &str) -> (r: Result<
    (String, GenerateContentResponse),
    GeminiError,
>)
    ensures
        ({
            let sp = spec_decode_reply(success, body@);
            match sp {
                Result::Ok((t, resp)) => r matches Ok((rt, rr)) && rt@ == t && rr.deep_view()
                    == resp,
                Result::Err(e) => r matches Err(re) && re.deep_view() == e,
            }
        }),
{
    if success {
        match parse_json(body) {
            None => Err(GeminiError::UnexpectedFormat),
            Some(v) => {
                match crate::body::response::response_from_json(&v) {
                    None => Err(GeminiError::UnexpectedFormat),
                    Some(resp) => {
                        match extract_text(&resp) {
                            Some(t) => Ok((t, resp)),
                            None => Err(GeminiError::UnexpectedFormat),
                        }
                    },
                }
            },
        }
    } else {
        match parse_json(body) {
            None => Err(GeminiError::UnexpectedFormat),
            Some(v) => {
                match crate::body::error::error_envelope_from_json(&v) {
                    None => Err(GeminiError::UnexpectedFormat),
                    Some(env) => Err(GeminiError::Remote(env.error)),
                }
            },
        }
    }
}

// ---------- the session ----------

/// A client session: the key and model to call, the accumulated turns,
/// the generation options, an optional system instruction, and whether
/// the session accumulates its history.
#[derive(Clone, Debug)]
pub struct Gemini {
    pub key: String,
    pub model: LanguageModel,
    pub contents: Vec<Content>,
    pub options: GenerationConfig,
    pub system_instruction: Option<String>,
    pub conversation: bool,
}

/// A single-part text turn with the user role.
pub open spec fn spec_user_text(t: Seq<char>) -> ContentV {
    ContentV { parts: seq![PartV::Text(t)], role: Option::Some(Role::User) }
}

/// A single-part text turn with the model role.
pub open spec fn spec_model_text(t: Seq<char>) -> ContentV {
    ContentV { parts: seq![PartV::Text(t)], role: Option::Some(Role::Model) }
}

/// The request envelope one send serializes: the turns to send, the
/// session's options, and the system instruction as a role-less turn when
/// set.
pub open spec fn spec_build_request(
    contents: Seq<ContentV>,
    options: GenerationConfigV,
    sys: Option<Seq<char>>,
) -> RequestBodyV {
    RequestBodyV {
        contents,
        generation_config: Option::Some(options),
        system_instruction: match sys {
            Option::Some(s) => Option::Some(
                ContentV { parts: seq![PartV::Text(s)], role: Option::None },
            ),
            Option::None => Option::None,
        },
    }
}

/// The URL one generation request posts to.
pub open spec fn spec_generate_url(model: LanguageModel, key: Seq<char>) -> Seq<char> {
    "https://generativelanguage.googleapis.com/v1beta/"@ + spec_model_path(model)
        + ":generateContent?key="@ + key
}

/// The URL the model listing reads.
pub open spec fn spec_models_url(key: Seq<char>) -> Seq<char> {
    "https://generativelanguage.googleapis.com/v1beta/models?key="@ + key
}

/// Builds the model-listing URL for a key.
pub fn models_url(key: &str) -> (r: String)
    ensures
        r@ == spec_models_url(key@),
{
    let mut u = String::from_str(
        "https://generativelanguage.googleapis.com/v1beta/models?key=",
    );
    u.append(key);
    u
}

impl Gemini {
    /// A fresh stateless session for the given key and model.
    pub fn new(key: String, model: LanguageModel) -> (r: Gemini)
        ensures
            r.key == key,
            r.model == model,
            r.contents@.len() == 0,
            r.options.deep_view() == crate::body::request::spec_default_config(),
            r.system_instruction is None,
            !r.conversation,
    {
        Gemini {
            key,
            model,
            contents: Vec::new(),
            options: GenerationConfig::default(),
            system_instruction: None,
            conversation: false,
        }
    }

    /// A fresh stateless session with the default model.
    pub fn new_default_model(key: String) -> (r: Gemini)
        ensures
            r.key == key,
            r.model is Gemini2_0FlashExp,
            r.contents@.len() == 0,
            r.options.deep_view() == crate::body::request::spec_default_config(),
            r.system_instruction is None,
            !r.conversation,
    {
        Gemini::new(key, LanguageModel::default())
    }

    /// An accumulating session rebuilt from persisted state.
    pub fn rebuild(
        key: String,
        model: LanguageModel,
        contents: Vec<Content>,
        options: GenerationConfig,
    ) -> (r: Gemini)
        ensures
            r.key == key,
            r.model == model,
            r.contents == contents,
            r.options == options,
            r.system_instruction is None,
            r.conversation,
    {
        Gemini { key, model, contents, options, system_instruction: None, conversation: true }
    }

    /// Sets the system instruction sent with every request.
    pub fn set_system_instruction(&mut self, instruction: String)
        ensures
            final(self).system_instruction == Option::Some(instruction),
            final(self).key == old(self).key,
            final(self).model == old(self).model,
            final(self).contents == old(self).contents,
            final(self).options == old(self).options,
            final(self).conversation == old(self).conversation,
    {
        self.system_instruction = Some(instruction);
    }

    /// Replaces the generation options.
    pub fn set_options(&mut self, options: GenerationConfig)
        ensures
            final(self).options == options,
            final(self).key == old(self).key,
            final(self).model == old(self).model,
            final(self).contents == old(self).contents,
            final(self).system_instruction == old(self).system_instruction,
            final(self).conversation == old(self).conversation,
    {
        self.options = options;
    }

    /// Starts an accumulating conversation over the given history.
    pub fn start_chat(&mut self, contents: Vec<Content>)
        ensures
            final(self).contents == contents,
            final(self).conversation,
            final(self).key == old(self).key,
            final(self).model == old(self).model,
            final(self).options == old(self).options,
            final(self).system_instruction == old(self).system_instruction,
    {
        self.contents = contents;
        self.conversation = true;
    }

    /// Builds the request envelope around the given turns.
    pub fn build_request_body(&self, contents: Vec<Content>) -> (r: GeminiRequestBody)
        ensures
            r.deep_view() == spec_build_request(
                contents.deep_view(),
                self.options.deep_view(),
                self.system_instruction.deep_view(),
            ),
    {
        let system_instruction = match &self.system_instruction {
            Some(s) => {
                let c = Content::text(None, s.clone());
                proof {
                    assert(c.deep_view().parts =~= seq![
                        PartV::Text(self.system_instruction.deep_view()->0),
                    ]);
                }
                Some(c)
            },
            None => None,
        };
        let r = GeminiRequestBody {
            contents,
            generation_config: Some(self.options.duplicate()),
            system_instruction,
        };
        proof {
            if self.system_instruction is Some {
                assert(r.deep_view().system_instruction->0.parts =~= seq![
                    PartV::Text(self.system_instruction.deep_view()->0),
                ]);
            }
        }
        r
    }

    /// The URL this session's generation requests post to.
    pub fn generate_url(&self) -> (r: String)
        ensures
            r@ == spec_generate_url(self.model, self.key@),
    {
        let mut u = String::from_str("https://generativelanguage.googleapis.com/v1beta/");
        u.append(self.model.to_path().as_str());
        u.append(":generateContent?key=");
        u.append(self.key.as_str());
        u
    }

    /// Serializes the outgoing request for one send, and, in an
    /// accumulating session, appends the user turn to the history.
    pub fn begin_send(&mut self, message: Content) -> (r: String)
        ensures
            final(self).key == old(self).key,
            final(self).model == old(self).model,
            final(self).options == old(self).options,
            final(self).system_instruction == old(self).system_instruction,
            final(self).conversation == old(self).conversation,
            old(self).conversation ==> final(self).contents@ == old(self).contents@.push(
                message,
            ),
            !old(self).conversation ==> final(self).contents == old(self).contents,
            r@ == spec_render(
                spec_request_json(
                    spec_build_request(
                        if old(self).conversation {
                            old(self).contents.deep_view().push(message.deep_view())
                        } else {
                            seq![message.deep_view()]
                        },
                        old(self).options.deep_view(),
                        old(self).system_instruction.deep_view(),
                    ),
                ),
            ),
    {
        if self.conversation {
            let ghost pre = self.contents.deep_view();
            let ghost mv = message.deep_view();
            self.contents.push(message);
            proof {
                assert(self.contents.deep_view() =~= pre.push(mv));
            }
            let body = self.request_json_of(&self.contents);
            body
        } else {
            let single = vec![message];
            proof {
                assert(single.deep_view() =~= seq![message.deep_view()]);
            }
            let body = self.request_json_of(&single);
            body
        }
    }

    /// Serializes the request envelope around the given turns.
    fn request_json_of(&self, contents: &Vec<Content>) -> (r: String)
        ensures
            r@ == spec_render(
                spec_request_json(
                    spec_build_request(
                        contents.deep_view(),
                        self.options.deep_view(),
                        self.system_instruction.deep_view(),
                    ),
                ),
            ),
    {
        let ghost bv = spec_build_request(
            contents.deep_view(),
            self.options.deep_view(),
            self.system_instruction.deep_view(),
        );
        let mut arr: Vec<JsonValue> = Vec::new();
        let n = contents.len();
        let mut i: usize = 0;
        while i < n
            invariant
                i <= n,
                n == contents@.len(),
                crate::json::view_elems(arr@)
                    == crate::body::request::spec_contents_json(
                    contents.deep_view().take(i as int),
                ),
            decreases n - i,
        {
            let cj = crate::body::content_to_json(&contents[i]);
            proof {
                lemma_view_elems_push(arr@, cj);
                let dv = contents.deep_view();
                assert(dv.take(i + 1int).drop_last() =~= dv.take(i as int));
                assert(dv.take(i + 1int).last() == contents@[i as int].deep_view());
            }
            arr.push(cj);
            i = i + 1;
        }
        proof {
            assert(contents.deep_view().take(n as int) =~= contents.deep_view());
        }
        let mut ms: Vec<(String, JsonValue)> = Vec::new();
        let k1 = String::from_str("contents");
        let v1 = JsonValue::Arr(arr);
        proof {
            lemma_view_members_push(ms@, k1, v1);
        }
        ms.push((k1, v1));
        let k2 = String::from_str("generationConfig");
        let v2 = crate::body::request::config_to_json(&self.options);
        proof {
            lemma_view_members_push(ms@, k2, v2);
        }
        ms.push((k2, v2));
        match &self.system_instruction {
            Some(s) => {
                let k3 = String::from_str("systemInstruction");
                let c = Content::text(None, s.clone());
                proof {
                    assert(c.deep_view().parts =~= seq![PartV::Text(s@)]);
                }
                let v3 = crate::body::content_to_json(&c);
                proof {
                    lemma_view_members_push(ms@, k3, v3);
                    assert(bv.system_instruction->0 == c.deep_view());
                }
                ms.push((k3, v3));
                proof {
                    assert(view_members(ms@) =~= seq![
                        ("contents"@, JsonV::Arr(
                            crate::body::request::spec_contents_json(bv.contents),
                        )),
                    ] + crate::body::request::opt_member(
                        "generationConfig"@,
                        Option::Some(spec_config_json(bv.generation_config->0)),
                    ) + crate::body::request::opt_member(
                        "systemInstruction"@,
                        Option::Some(spec_content_json(bv.system_instruction->0)),
                    ));
                }
            },
            None => {
                proof {
                    assert(view_members(ms@) =~= seq![
                        ("contents"@, JsonV::Arr(
                            crate::body::request::spec_contents_json(bv.contents),
                        )),
                    ] + crate::body::request::opt_member(
                        "generationConfig"@,
                        Option::Some(spec_config_json(bv.generation_config->0)),
                    ) + Seq::<(Seq<char>, JsonV)>::empty());
                }
            },
        }
        let j = JsonValue::Obj(ms);
        proof {
            assert(j@ == spec_request_json(bv));
        }
        crate::json::render_json(&j)
    }

    /// Applies one exchange's outcome to the session: on success the reply
    /// text, with the model turn appended in an accumulating session; on
    /// any failure the error, with the pending user turn rolled back so
    /// the history keeps only turns that received a successful reply.
    pub fn finish_send(&mut self, outcome: Result<(bool, String), String>) -> (r: Result<
        (String, GenerateContentResponse),
        GeminiError,
    >)
        requires
            old(self).conversation ==> old(self).contents@.len() >= 1,
        ensures
            final(self).key == old(self).key,
            final(self).model == old(self).model,
            final(self).options == old(self).options,
            final(self).system_instruction == old(self).system_instruction,
            final(self).conversation == old(self).conversation,
            !old(self).conversation ==> final(self).contents == old(self).contents,
            r matches Err(e) ==> (e.deep_view() is Transport || e.deep_view() is Remote
                || e.deep_view() is UnexpectedFormat),
            ({
                let hist0 = old(self).contents@;
                let hist1 = final(self).contents@;
                let conv = old(self).conversation;
                match outcome {
                    Result::Err(t) => r matches Err(e) && e.deep_view()
                        == GeminiErrorV::Transport(t@) && (conv ==> hist1
                        == hist0.drop_last()),
                    Result::Ok((success, body)) => {
                        let sp = spec_decode_reply(success, body@);
                        match sp {
                            Result::Ok((t, resp)) => r matches Ok((rt, rr)) && rt@ == t
                                && rr.deep_view() == resp && (conv ==> final(self).contents.deep_view() == old(self).contents.deep_view().push(
                                spec_model_text(t),
                            )),
                            Result::Err(e) => r matches Err(re) && re.deep_view() == e && (conv
                                ==> hist1 == hist0.drop_last()),
                        }
                    },
                }
            }),
    {
        match outcome {
            Err(t) => {
                if self.conversation {
                    let _ = self.contents.pop();
                }
                Err(GeminiError::Transport(t))
            },
            Ok((success, body)) => {
                proof {
                    lemma_decode_reply_err_shape(success, body@);
                }
                match decode_reply(success, body.as_str()) {
                    Ok((t, resp)) => {
                        if self.conversation {
                            let ghost pre = self.contents.deep_view();
                            let reply = Content::text(Some(Role::Model), t.clone());
                            proof {
                                assert(reply.deep_view().parts =~= seq![PartV::Text(t@)]);
                            }
                            self.contents.push(reply);
                            proof {
                                assert(self.contents.deep_view() =~= pre.push(
                                    spec_model_text(t@),
                                ));
                            }
                        }
                        Ok((t, resp))
                    },
                    Err(e) => {
                        if self.conversation {
                            let _ = self.contents.pop();
                        }
                        Err(e)
                    },
                }
            },
        }
    }

    /// Sends one turn. In an accumulating session a successful exchange
    /// appends the user turn and the model's reply to the history, and any
    /// failure leaves the history unchanged; a stateless session's history
    /// is never touched.
    pub fn send_message(&mut self, message: Content) -> (r: Result<
        (String, GenerateContentResponse),
        GeminiError,
    >)
        ensures
            final(self).key == old(self).key,
            final(self).model == old(self).model,
            final(self).options == old(self).options,
            final(self).system_instruction == old(self).system_instruction,
            final(self).conversation == old(self).conversation,
            !old(self).conversation ==> final(self).contents == old(self).contents,
            r matches Ok((t, resp)) ==> spec_extract_text(resp.deep_view()) == Option::Some(
                t@,
            ),
            r matches Err(e) ==> (e.deep_view() is Transport || e.deep_view() is Remote
                || e.deep_view() is UnexpectedFormat),
            old(self).conversation ==> match r {
                Result::Ok((t, resp)) => final(self).contents.deep_view() == old(self).contents.deep_view().push(message.deep_view()).push(spec_model_text(t@)),
                Result::Err(e) => final(self).contents.deep_view() == old(self).contents.deep_view(),
            },
    {
        let ghost pre = self.contents.deep_view();
        let ghost mv = message.deep_view();
        let url = self.generate_url();
        let body = self.begin_send(message);
        let outcome = crate::http::http_post_json(url.as_str(), body.as_str());
        let r = self.finish_send(outcome);
        proof {
            if old(self).conversation {
                match r {
                    Result::Ok(_) => {
                        assert(pre.push(mv).drop_last() =~= pre);
                    },
                    Result::Err(_) => {
                        assert(pre.push(mv).drop_last() =~= pre);
                        assert(self.contents@ == old(self).contents@.push(
                            message,
                        ).drop_last());
                        assert(old(self).contents@.push(message).drop_last() =~= old(self).contents@);
                    },
                }
            }
        }
        r
    }

    /// Sends one plain text message as a user turn.
    pub fn send_simple_message(&mut self, message: String) -> (r: Result<
        (String, GenerateContentResponse),
        GeminiError,
    >)
        ensures
            final(self).key == old(self).key,
            final(self).model == old(self).model,
            final(self).options == old(self).options,
            final(self).system_instruction == old(self).system_instruction,
            final(self).conversation == old(self).conversation,
            !old(self).conversation ==> final(self).contents == old(self).contents,
            r matches Ok((t, resp)) ==> spec_extract_text(resp.deep_view()) == Option::Some(
                t@,
            ),
            r matches Err(e) ==> (e.deep_view() is Transport || e.deep_view() is Remote
                || e.deep_view() is UnexpectedFormat),
            old(self).conversation ==> match r {
                Result::Ok((t, resp)) => final(self).contents.deep_view() == old(self).contents.deep_view().push(spec_user_text(message@)).push(
                    spec_model_text(t@),
                ),
                Result::Err(e) => final(self).contents.deep_view() == old(self).contents.deep_view(),
            },
    {
        let ghost msgv = message@;
        let content = Content::text(Some(Role::User), message);
        proof {
            assert(content.deep_view() == spec_user_text(msgv));
        }
        self.send_message(content)
    }
}

/// Where an image comes from: a URL to fetch over HTTP, or bytes the
/// caller already read.
pub enum ImageSource {
    Url(String),
    Bytes(Vec<u8>),
}

/// The user turn of an image message: the text first, then the image as
/// inline data.
pub open spec fn spec_image_content(
    text: Seq<char>,
    mime: Seq<char>,
    data: Seq<char>,
) -> ContentV {
    ContentV {
        parts: seq![PartV::Text(text), PartV::InlineData { mime_type: mime, data }],
        role: Option::Some(Role::User),
    }
}

/// Builds the user turn of an image message: the MIME type is the one the
/// bytes' magic announces, and the payload their base64 encoding.
pub fn image_content(bytes: &[u8], text: String) -> (r: Content)
    ensures
        r.deep_view() == spec_image_content(
            text@,
            spec_mime_of_magic(bytes@),
            base64_of(bytes@),
        ),
{
    let (mime, data) = image_type_and_base64(bytes);
    let parts = vec![Part::Text(text), Part::InlineData { mime_type: mime, data }];
    let c = Content { parts, role: Some(Role::User) };
    proof {
        assert(c.deep_view().parts =~= spec_image_content(
            text@,
            spec_mime_of_magic(bytes@),
            base64_of(bytes@),
        ).parts);
    }
    c
}

/// Maps an image download outcome: a transport failure, a non-success
/// status with its code, or the bytes.
pub fn resolve_image_fetch(outcome: Result<(bool, u16, Vec<u8>), String>) -> (r: Result<
    Vec<u8>,
    GeminiError,
>)
    ensures
        ({
            match outcome {
                Result::Err(t) => r matches Err(e) && e.deep_view() == GeminiErrorV::Transport(
                    t@,
                ),
                Result::Ok((ok, code, bytes)) => if ok {
                    r matches Ok(b) && b == bytes
                } else {
                    r matches Err(e) && e.deep_view() == GeminiErrorV::ImageFetch(code)
                },
            }
        }),
{
    match outcome {
        Err(t) => Err(GeminiError::Transport(t)),
        Ok((ok, code, bytes)) => {
            if ok {
                Ok(bytes)
            } else {
                Err(GeminiError::ImageFetch(code))
            }
        },
    }
}

/// Downloads an image over HTTP; a failure is a transport error or the
/// non-success status code.
pub fn fetch_image_bytes(url: &str) -> (r: Result<Vec<u8>, GeminiError>)
    ensures
        r matches Err(e) ==> (e.deep_view() is Transport || e.deep_view() is ImageFetch),
{
    resolve_image_fetch(crate::http::http_get_bytes(url))
}

impl Gemini {
    /// Sends an image with a caption: the image source is resolved to
    /// bytes, their format sniffed from the magic bytes — an unrecognized
    /// format fails before anything is sent — and the turn goes out with
    /// the text part first and the inline image second.
    pub fn send_image_message(&mut self, image: ImageSource, text: String) -> (r: Result<
        (String, GenerateContentResponse),
        GeminiError,
    >)
        ensures
            final(self).key == old(self).key,
            final(self).model == old(self).model,
            final(self).options == old(self).options,
            final(self).system_instruction == old(self).system_instruction,
            final(self).conversation == old(self).conversation,
            !old(self).conversation ==> final(self).contents == old(self).contents,
            r matches Ok((t, resp)) ==> spec_extract_text(resp.deep_view()) == Option::Some(
                t@,
            ),
            old(self).conversation ==> match r {
                Result::Ok((t, resp)) => exists|b: Seq<u8>|
                    #[trigger] spec_mime_of_magic(b) != "unknown"@ && final(self).contents.deep_view() == old(self).contents.deep_view().push(
                        spec_image_content(text@, spec_mime_of_magic(b), base64_of(b)),
                    ).push(spec_model_text(t@)),
                Result::Err(e) => final(self).contents.deep_view() == old(self).contents.deep_view(),
            },
            (image matches ImageSource::Bytes(bs) && spec_mime_of_magic(bs@) == "unknown"@)
                ==> (r matches Err(e) && e.deep_view() == GeminiErrorV::UnknownImageFormat),
            (image matches ImageSource::Bytes(bs) && spec_mime_of_magic(bs@) != "unknown"@)
                ==> !(r matches Err(e) && e.deep_view() is UnknownImageFormat),
            image matches ImageSource::Bytes(bs) ==> (old(self).conversation ==> (r matches Ok(
                (t, resp),
            ) ==> final(self).contents.deep_view() == old(self).contents.deep_view().push(
                spec_image_content(text@, spec_mime_of_magic(bs@), base64_of(bs@)),
            ).push(spec_model_text(t@)))),
    {
        let ghost gimage = image;
        let bytes: Vec<u8> = match image {
            ImageSource::Url(url) => {
                match fetch_image_bytes(url.as_str()) {
                    Ok(b) => b,
                    Err(e) => {
                        return Err(e);
                    },
                }
            },
            ImageSource::Bytes(b) => b,
        };
        proof {
            match gimage {
                ImageSource::Bytes(bs) => {
                    assert(bs == bytes);
                },
                ImageSource::Url(_) => {},
            }
        }
        let mime = crate::utils::image::guess_image_format(bytes.as_slice());
        if str_eq(mime.as_str(), "unknown") {
            return Err(GeminiError::UnknownImageFormat);
        }
        let content = image_content(bytes.as_slice(), text);
        let r = self.send_message(content);
        proof {
            if old(self).conversation && r is Ok {
                assert(spec_mime_of_magic(bytes@) != "unknown"@);
            }
        }
        r
    }
}

/// Lists the models the API offers, one page at a time; the page token is
/// exposed to the caller and not followed.
pub fn get_models(key: String) -> (r: Result<Vec<Model>, GeminiError>)
    ensures
        r matches Ok(models) ==> ({
            exists|body: Seq<char>|
                {
                    let sp = #[trigger] spec_decode_models_reply(true, body);
                    sp matches Result::Ok(xs) && models.deep_view() == xs
                }
        }),
{
    let url = models_url(key.as_str());
    match crate::http::http_get_text(url.as_str()) {
        Err(t) => Err(GeminiError::Transport(t)),
        Ok((success, body)) => decode_models_reply(success, body.as_str()),
    }
}

/// What the model-listing reply means: on success the body must parse as
/// the listing envelope; on a non-success status the error envelope is
/// surfaced as the remote error; anything else is the local format error.
pub open spec fn spec_decode_models_reply(success: bool, body: Seq<char>) -> Result<
    Seq<crate::body::response::ModelV>,
    GeminiErrorV,
> {
    if success {
        match spec_parse_json(body) {
            Option::None => Result::Err(GeminiErrorV::UnexpectedFormat),
            Option::Some(v) => match crate::body::response::sp_models_response(v) {
                Option::None => Result::Err(GeminiErrorV::UnexpectedFormat),
                Option::Some(mr) => Result::Ok(mr.models),
            },
        }
    } else {
        match spec_parse_json(body) {
            Option::None => Result::Err(GeminiErrorV::UnexpectedFormat),
            Option::Some(v) => match sp_error_envelope(v) {
                Option::None => Result::Err(GeminiErrorV::UnexpectedFormat),
                Option::Some(env) => Result::Err(GeminiErrorV::Remote(env.error)),
            },
        }
    }
}

/// Interprets the model-listing reply, exactly as
/// `spec_decode_models_reply` says.
pub fn decode_models_reply(success: bool, body: &str) -> (r: Result<Vec<Model>, GeminiError>)
    ensures
        ({
            let sp = spec_decode_models_reply(success, body@);
            match sp {
                Result::Ok(xs) => r matches Ok(rv) && rv.deep_view() == xs,
                Result::Err(e) => r matches Err(re) && re.deep_view() == e,
            }
        }),
{
    if success {
        match parse_json(body) {
            None => Err(GeminiError::UnexpectedFormat),
            Some(v) => {
                match crate::body::response::models_response_from_json(&v) {
                    None => Err(GeminiError::UnexpectedFormat),
                    Some(mr) => Ok(mr.models),
                }
            },
        }
    } else {
        match parse_json(body) {
            None => Err(GeminiError::UnexpectedFormat),
            Some(v) => {
                match crate::body::error::error_envelope_from_json(&v) {
                    None => Err(GeminiError::UnexpectedFormat),
                    Some(env) => Err(GeminiError::Remote(env.error)),
                }
            },
        }
    }
}

} // verus!
