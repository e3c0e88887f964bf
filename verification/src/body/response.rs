//! The response envelope: candidates, safety ratings, usage metadata, and
//! the model listing.

use vstd::prelude::*;

use crate::body::{sp_content, Content, ContentV};
use crate::json::{str_eq, JsonV, JsonValue};

verus! {

// ---------- wire enums ----------

/// Why the model stopped generating a candidate.
#[derive(Clone, Copy, PartialEq, Eq, Structural, Debug)]
pub enum FinishReason {
    FinishReasonUnspecified,
    Stop,
    MaxTokens,
    Safety,
    Recitation,
    Language,
    Other,
    Blocklist,
    ProhibitedContent,
    Spii,
    MalformedFunctionCall,
}

impl DeepView for FinishReason {
    type V = FinishReason;

    open spec fn deep_view(&self) -> FinishReason {
        *self
    }
}

/// The wire token of a finish reason.
pub open spec fn spec_finish_reason_token(v: FinishReason) -> Seq<char> {
    match v {
        FinishReason::FinishReasonUnspecified => "FINISH_REASON_UNSPECIFIED"@,
        FinishReason::Stop => "STOP"@,
        FinishReason::MaxTokens => "MAX_TOKENS"@,
        FinishReason::Safety => "SAFETY"@,
        FinishReason::Recitation => "RECITATION"@,
        FinishReason::Language => "LANGUAGE"@,
        FinishReason::Other => "OTHER"@,
        FinishReason::Blocklist => "BLOCKLIST"@,
        FinishReason::ProhibitedContent => "PROHIBITED_CONTENT"@,
        FinishReason::Spii => "SPII"@,
        FinishReason::MalformedFunctionCall => "MALFORMED_FUNCTION_CALL"@,
    }
}

/// The finish reason a wire token decodes to; the schema carries an
/// unspecified sentinel, so an unknown token falls back to it.
pub open spec fn sp_finish_reason(s: Seq<char>) -> FinishReason {
    if s == "STOP"@ {
        FinishReason::Stop
    } else if s == "MAX_TOKENS"@ {
        FinishReason::MaxTokens
    } else if s == "SAFETY"@ {
        FinishReason::Safety
    } else if s == "RECITATION"@ {
        FinishReason::Recitation
    } else if s == "LANGUAGE"@ {
        FinishReason::Language
    } else if s == "OTHER"@ {
        FinishReason::Other
    } else if s == "BLOCKLIST"@ {
        FinishReason::Blocklist
    } else if s == "PROHIBITED_CONTENT"@ {
        FinishReason::ProhibitedContent
    } else if s == "SPII"@ {
        FinishReason::Spii
    } else if s == "MALFORMED_FUNCTION_CALL"@ {
        FinishReason::MalformedFunctionCall
    } else {
        FinishReason::FinishReasonUnspecified
    }
}

/// Renders a finish reason to its wire token.
pub fn finish_reason_to_token(v: &FinishReason) -> (r: String)
    ensures
        r@ == spec_finish_reason_token(*v),
{
    match v {
        FinishReason::FinishReasonUnspecified => String::from_str("FINISH_REASON_UNSPECIFIED"),
        FinishReason::Stop => String::from_str("STOP"),
        FinishReason::MaxTokens => String::from_str("MAX_TOKENS"),
        FinishReason::Safety => String::from_str("SAFETY"),
        FinishReason::Recitation => String::from_str("RECITATION"),
        FinishReason::Language => String::from_str("LANGUAGE"),
        FinishReason::Other => String::from_str("OTHER"),
        FinishReason::Blocklist => String::from_str("BLOCKLIST"),
        FinishReason::ProhibitedContent => String::from_str("PROHIBITED_CONTENT"),
        FinishReason::Spii => String::from_str("SPII"),
        FinishReason::MalformedFunctionCall => String::from_str("MALFORMED_FUNCTION_CALL"),
    }
}

/// Reads a finish reason from its wire token.
pub fn finish_reason_from_token(s: &str) -> (r: FinishReason)
    ensures
        r == sp_finish_reason(s@),
{
    if str_eq(s, "STOP") {
        FinishReason::Stop
    } else if str_eq(s, "MAX_TOKENS") {
        FinishReason::MaxTokens
    } else if str_eq(s, "SAFETY") {
        FinishReason::Safety
    } else if str_eq(s, "RECITATION") {
        FinishReason::Recitation
    } else if str_eq(s, "LANGUAGE") {
        FinishReason::Language
    } else if str_eq(s, "OTHER") {
        FinishReason::Other
    } else if str_eq(s, "BLOCKLIST") {
        FinishReason::Blocklist
    } else if str_eq(s, "PROHIBITED_CONTENT") {
        FinishReason::ProhibitedContent
    } else if str_eq(s, "SPII") {
        FinishReason::Spii
    } else if str_eq(s, "MALFORMED_FUNCTION_CALL") {
        FinishReason::MalformedFunctionCall
    } else {
        FinishReason::FinishReasonUnspecified
    }
}

/// Decoding a finish-reason token that encoding produced yields the value
/// back: the wire vocabulary round-trips.
pub proof fn lemma_finish_reason_round_trip(v: FinishReason)
    ensures
        sp_finish_reason(spec_finish_reason_token(v)) == v,
{
    reveal_strlit("FINISH_REASON_UNSPECIFIED");
    reveal_strlit("STOP");
    reveal_strlit("MAX_TOKENS");
    reveal_strlit("SAFETY");
    reveal_strlit("RECITATION");
    reveal_strlit("LANGUAGE");
    reveal_strlit("OTHER");
    reveal_strlit("BLOCKLIST");
    reveal_strlit("PROHIBITED_CONTENT");
    reveal_strlit("SPII");
    reveal_strlit("MALFORMED_FUNCTION_CALL");
    assert(("FINISH_REASON_UNSPECIFIED"@).len() == 25);
    assert(("STOP"@).len() == 4);
    assert(("MAX_TOKENS"@).len() == 10);
    assert(("SAFETY"@).len() == 6);
    assert(("RECITATION"@).len() == 10);
    assert(("LANGUAGE"@).len() == 8);
    assert(("OTHER"@).len() == 5);
    assert(("BLOCKLIST"@).len() == 9);
    assert(("PROHIBITED_CONTENT"@).len() == 18);
    assert(("SPII"@).len() == 4);
    assert(("MALFORMED_FUNCTION_CALL"@).len() == 23);
    assert(("STOP"@)[1] == 'T');
    assert(("SPII"@)[1] == 'P');
    assert(("MAX_TOKENS"@)[0] == 'M');
    assert(("RECITATION"@)[0] == 'R');
}

/// The category a safety rating speaks of.
#[derive(Clone, Copy, PartialEq, Eq, Structural, Debug)]
pub enum HarmCategory {
    HarmCategoryUnspecified,
    HarmCategoryDerogatory,
    HarmCategoryToxicity,
    HarmCategoryViolence,
    HarmCategorySexual,
    HarmCategoryMedical,
    HarmCategoryDangerous,
    HarmCategoryHarassment,
    HarmCategoryHateSpeech,
    HarmCategorySexuallyExplicit,
    HarmCategoryDangerousContent,
    HarmCategoryCivicIntegrity,
}

impl DeepView for HarmCategory {
    type V = HarmCategory;

    open spec fn deep_view(&self) -> HarmCategory {
        *self
    }
}

/// The wire token of a harm category.
pub open spec fn spec_harm_category_token(v: HarmCategory) -> Seq<char> {
    match v {
        HarmCategory::HarmCategoryUnspecified => "HARM_CATEGORY_UNSPECIFIED"@,
        HarmCategory::HarmCategoryDerogatory => "HARM_CATEGORY_DEROGATORY"@,
        HarmCategory::HarmCategoryToxicity => "HARM_CATEGORY_TOXICITY"@,
        HarmCategory::HarmCategoryViolence => "HARM_CATEGORY_VIOLENCE"@,
        HarmCategory::HarmCategorySexual => "HARM_CATEGORY_SEXUAL"@,
        HarmCategory::HarmCategoryMedical => "HARM_CATEGORY_MEDICAL"@,
        HarmCategory::HarmCategoryDangerous => "HARM_CATEGORY_DANGEROUS"@,
        HarmCategory::HarmCategoryHarassment => "HARM_CATEGORY_HARASSMENT"@,
        HarmCategory::HarmCategoryHateSpeech => "HARM_CATEGORY_HATE_SPEECH"@,
        HarmCategory::HarmCategorySexuallyExplicit => "HARM_CATEGORY_SEXUALLY_EXPLICIT"@,
        HarmCategory::HarmCategoryDangerousContent => "HARM_CATEGORY_DANGEROUS_CONTENT"@,
        HarmCategory::HarmCategoryCivicIntegrity => "HARM_CATEGORY_CIVIC_INTEGRITY"@,
    }
}

/// The harm category a wire token decodes to, with the unspecified sentinel
/// as the fallback.
pub open spec fn sp_harm_category(s: Seq<char>) -> HarmCategory {
    if s == "HARM_CATEGORY_DEROGATORY"@ {
        HarmCategory::HarmCategoryDerogatory
    } else if s == "HARM_CATEGORY_TOXICITY"@ {
        HarmCategory::HarmCategoryToxicity
    } else if s == "HARM_CATEGORY_VIOLENCE"@ {
        HarmCategory::HarmCategoryViolence
    } else if s == "HARM_CATEGORY_SEXUAL"@ {
        HarmCategory::HarmCategorySexual
    } else if s == "HARM_CATEGORY_MEDICAL"@ {
        HarmCategory::HarmCategoryMedical
    } else if s == "HARM_CATEGORY_DANGEROUS"@ {
        HarmCategory::HarmCategoryDangerous
    } else if s == "HARM_CATEGORY_HARASSMENT"@ {
        HarmCategory::HarmCategoryHarassment
    } else if s == "HARM_CATEGORY_HATE_SPEECH"@ {
        HarmCategory::HarmCategoryHateSpeech
    } else if s == "HARM_CATEGORY_SEXUALLY_EXPLICIT"@ {
        HarmCategory::HarmCategorySexuallyExplicit
    } else if s == "HARM_CATEGORY_DANGEROUS_CONTENT"@ {
        HarmCategory::HarmCategoryDangerousContent
    } else if s == "HARM_CATEGORY_CIVIC_INTEGRITY"@ {
        HarmCategory::HarmCategoryCivicIntegrity
    } else {
        HarmCategory::HarmCategoryUnspecified
    }
}

/// Reads a harm category from its wire token.
pub fn harm_category_from_token(s: &str) -> (r: HarmCategory)
    ensures
        r == sp_harm_category(s@),
{
    if str_eq(s, "HARM_CATEGORY_DEROGATORY") {
        HarmCategory::HarmCategoryDerogatory
    } else if str_eq(s, "HARM_CATEGORY_TOXICITY") {
        HarmCategory::HarmCategoryToxicity
    } else if str_eq(s, "HARM_CATEGORY_VIOLENCE") {
        HarmCategory::HarmCategoryViolence
    } else if str_eq(s, "HARM_CATEGORY_SEXUAL") {
        HarmCategory::HarmCategorySexual
    } else if str_eq(s, "HARM_CATEGORY_MEDICAL") {
        HarmCategory::HarmCategoryMedical
    } else if str_eq(s, "HARM_CATEGORY_DANGEROUS") {
        HarmCategory::HarmCategoryDangerous
    } else if str_eq(s, "HARM_CATEGORY_HARASSMENT") {
        HarmCategory::HarmCategoryHarassment
    } else if str_eq(s, "HARM_CATEGORY_HATE_SPEECH") {
        HarmCategory::HarmCategoryHateSpeech
    } else if str_eq(s, "HARM_CATEGORY_SEXUALLY_EXPLICIT") {
        HarmCategory::HarmCategorySexuallyExplicit
    } else if str_eq(s, "HARM_CATEGORY_DANGEROUS_CONTENT") {
        HarmCategory::HarmCategoryDangerousContent
    } else if str_eq(s, "HARM_CATEGORY_CIVIC_INTEGRITY") {
        HarmCategory::HarmCategoryCivicIntegrity
    } else {
        HarmCategory::HarmCategoryUnspecified
    }
}

/// Renders a harm category to its wire token.
pub fn harm_category_to_token(v: &HarmCategory) -> (r: String)
    ensures
        r@ == spec_harm_category_token(*v),
{
    match v {
        HarmCategory::HarmCategoryUnspecified => String::from_str("HARM_CATEGORY_UNSPECIFIED"),
        HarmCategory::HarmCategoryDerogatory => String::from_str("HARM_CATEGORY_DEROGATORY"),
        HarmCategory::HarmCategoryToxicity => String::from_str("HARM_CATEGORY_TOXICITY"),
        HarmCategory::HarmCategoryViolence => String::from_str("HARM_CATEGORY_VIOLENCE"),
        HarmCategory::HarmCategorySexual => String::from_str("HARM_CATEGORY_SEXUAL"),
        HarmCategory::HarmCategoryMedical => String::from_str("HARM_CATEGORY_MEDICAL"),
        HarmCategory::HarmCategoryDangerous => String::from_str("HARM_CATEGORY_DANGEROUS"),
        HarmCategory::HarmCategoryHarassment => String::from_str("HARM_CATEGORY_HARASSMENT"),
        HarmCategory::HarmCategoryHateSpeech => String::from_str("HARM_CATEGORY_HATE_SPEECH"),
        HarmCategory::HarmCategorySexuallyExplicit => String::from_str(
            "HARM_CATEGORY_SEXUALLY_EXPLICIT",
        ),
        HarmCategory::HarmCategoryDangerousContent => String::from_str(
            "HARM_CATEGORY_DANGEROUS_CONTENT",
        ),
        HarmCategory::HarmCategoryCivicIntegrity => String::from_str(
            "HARM_CATEGORY_CIVIC_INTEGRITY",
        ),
    }
}

/// Decoding a harm-category token that encoding produced yields the value
/// back.
pub proof fn lemma_harm_category_round_trip(v: HarmCategory)
    ensures
        sp_harm_category(spec_harm_category_token(v)) == v,
{
    reveal_strlit("HARM_CATEGORY_UNSPECIFIED");
    reveal_strlit("HARM_CATEGORY_DEROGATORY");
    reveal_strlit("HARM_CATEGORY_TOXICITY");
    reveal_strlit("HARM_CATEGORY_VIOLENCE");
    reveal_strlit("HARM_CATEGORY_SEXUAL");
    reveal_strlit("HARM_CATEGORY_MEDICAL");
    reveal_strlit("HARM_CATEGORY_DANGEROUS");
    reveal_strlit("HARM_CATEGORY_HARASSMENT");
    reveal_strlit("HARM_CATEGORY_HATE_SPEECH");
    reveal_strlit("HARM_CATEGORY_SEXUALLY_EXPLICIT");
    reveal_strlit("HARM_CATEGORY_DANGEROUS_CONTENT");
    reveal_strlit("HARM_CATEGORY_CIVIC_INTEGRITY");
    assert(("HARM_CATEGORY_UNSPECIFIED"@).len() == 25);
    assert(("HARM_CATEGORY_DEROGATORY"@).len() == 24);
    assert(("HARM_CATEGORY_TOXICITY"@).len() == 22);
    assert(("HARM_CATEGORY_VIOLENCE"@).len() == 22);
    assert(("HARM_CATEGORY_SEXUAL"@).len() == 20);
    assert(("HARM_CATEGORY_MEDICAL"@).len() == 21);
    assert(("HARM_CATEGORY_DANGEROUS"@).len() == 23);
    assert(("HARM_CATEGORY_HARASSMENT"@).len() == 24);
    assert(("HARM_CATEGORY_HATE_SPEECH"@).len() == 25);
    assert(("HARM_CATEGORY_SEXUALLY_EXPLICIT"@).len() == 31);
    assert(("HARM_CATEGORY_DANGEROUS_CONTENT"@).len() == 31);
    assert(("HARM_CATEGORY_CIVIC_INTEGRITY"@).len() == 29);
    assert(("HARM_CATEGORY_TOXICITY"@)[14] == 'T');
    assert(("HARM_CATEGORY_VIOLENCE"@)[14] == 'V');
    assert(("HARM_CATEGORY_DEROGATORY"@)[14] == 'D');
    assert(("HARM_CATEGORY_HARASSMENT"@)[14] == 'H');
    assert(("HARM_CATEGORY_UNSPECIFIED"@)[14] == 'U');
    assert(("HARM_CATEGORY_HATE_SPEECH"@)[14] == 'H');
    assert(("HARM_CATEGORY_SEXUALLY_EXPLICIT"@)[14] == 'S');
    assert(("HARM_CATEGORY_DANGEROUS_CONTENT"@)[14] == 'D');
}

/// How likely a piece of content is to be harmful.
#[derive(Clone, Copy, PartialEq, Eq, Structural, Debug)]
pub enum HarmProbability {
    HarmProbabilityUnspecified,
    Negligible,
    Low,
    Medium,
    High,
}

impl DeepView for HarmProbability {
    type V = HarmProbability;

    open spec fn deep_view(&self) -> HarmProbability {
        *self
    }
}

/// The wire token of a harm probability.
pub open spec fn spec_harm_probability_token(v: HarmProbability) -> Seq<char> {
    match v {
        HarmProbability::HarmProbabilityUnspecified => "HARM_PROBABILITY_UNSPECIFIED"@,
        HarmProbability::Negligible => "NEGLIGIBLE"@,
        HarmProbability::Low => "LOW"@,
        HarmProbability::Medium => "MEDIUM"@,
        HarmProbability::High => "HIGH"@,
    }
}

/// The harm probability a wire token decodes to, with the unspecified
/// sentinel as the fallback.
pub open spec fn sp_harm_probability(s: Seq<char>) -> HarmProbability {
    if s == "NEGLIGIBLE"@ {
        HarmProbability::Negligible
    } else if s == "LOW"@ {
        HarmProbability::Low
    } else if s == "MEDIUM"@ {
        HarmProbability::Medium
    } else if s == "HIGH"@ {
        HarmProbability::High
    } else {
        HarmProbability::HarmProbabilityUnspecified
    }
}

/// Renders a harm probability to its wire token.
pub fn harm_probability_to_token(v: &HarmProbability) -> (r: String)
    ensures
        r@ == spec_harm_probability_token(*v),
{
    match v {
        HarmProbability::HarmProbabilityUnspecified => String::from_str(
            "HARM_PROBABILITY_UNSPECIFIED",
        ),
        HarmProbability::Negligible => String::from_str("NEGLIGIBLE"),
        HarmProbability::Low => String::from_str("LOW"),
        HarmProbability::Medium => String::from_str("MEDIUM"),
        HarmProbability::High => String::from_str("HIGH"),
    }
}

/// Reads a harm probability from its wire token.
pub fn harm_probability_from_token(s: &str) -> (r: HarmProbability)
    ensures
        r == sp_harm_probability(s@),
{
    if str_eq(s, "NEGLIGIBLE") {
        HarmProbability::Negligible
    } else if str_eq(s, "LOW") {
        HarmProbability::Low
    } else if str_eq(s, "MEDIUM") {
        HarmProbability::Medium
    } else if str_eq(s, "HIGH") {
        HarmProbability::High
    } else {
        HarmProbability::HarmProbabilityUnspecified
    }
}

/// Decoding a harm-probability token that encoding produced yields the
/// value back.
pub proof fn lemma_harm_probability_round_trip(v: HarmProbability)
    ensures
        sp_harm_probability(spec_harm_probability_token(v)) == v,
{
    reveal_strlit("HARM_PROBABILITY_UNSPECIFIED");
    reveal_strlit("NEGLIGIBLE");
    reveal_strlit("LOW");
    reveal_strlit("MEDIUM");
    reveal_strlit("HIGH");
    assert(("HARM_PROBABILITY_UNSPECIFIED"@).len() == 28);
    assert(("NEGLIGIBLE"@).len() == 10);
    assert(("LOW"@).len() == 3);
    assert(("MEDIUM"@).len() == 6);
    assert(("HIGH"@).len() == 4);
}

/// Why a prompt was blocked.
#[derive(Clone, Copy, PartialEq, Eq, Structural, Debug)]
pub enum BlockReason {
    BlockReasonUnspecified,
    Safety,
    Other,
    Blocklist,
    ProhibitedContent,
}

impl DeepView for BlockReason {
    type V = BlockReason;

    open spec fn deep_view(&self) -> BlockReason {
        *self
    }
}

/// The wire token of a block reason.
pub open spec fn spec_block_reason_token(v: BlockReason) -> Seq<char> {
    match v {
        BlockReason::BlockReasonUnspecified => "BLOCK_REASON_UNSPECIFIED"@,
        BlockReason::Safety => "SAFETY"@,
        BlockReason::Other => "OTHER"@,
        BlockReason::Blocklist => "BLOCKLIST"@,
        BlockReason::ProhibitedContent => "PROHIBITED_CONTENT"@,
    }
}

/// The block reason a wire token decodes to, with the unspecified sentinel
/// as the fallback.
pub open spec fn sp_block_reason(s: Seq<char>) -> BlockReason {
    if s == "SAFETY"@ {
        BlockReason::Safety
    } else if s == "OTHER"@ {
        BlockReason::Other
    } else if s == "BLOCKLIST"@ {
        BlockReason::Blocklist
    } else if s == "PROHIBITED_CONTENT"@ {
        BlockReason::ProhibitedContent
    } else {
        BlockReason::BlockReasonUnspecified
    }
}

/// Renders a block reason to its wire token.
pub fn block_reason_to_token(v: &BlockReason) -> (r: String)
    ensures
        r@ == spec_block_reason_token(*v),
{
    match v {
        BlockReason::BlockReasonUnspecified => String::from_str("BLOCK_REASON_UNSPECIFIED"),
        BlockReason::Safety => String::from_str("SAFETY"),
        BlockReason::Other => String::from_str("OTHER"),
        BlockReason::Blocklist => String::from_str("BLOCKLIST"),
        BlockReason::ProhibitedContent => String::from_str("PROHIBITED_CONTENT"),
    }
}

/// Reads a block reason from its wire token.
pub fn block_reason_from_token(s: &str) -> (r: BlockReason)
    ensures
        r == sp_block_reason(s@),
{
    if str_eq(s, "SAFETY") {
        BlockReason::Safety
    } else if str_eq(s, "OTHER") {
        BlockReason::Other
    } else if str_eq(s, "BLOCKLIST") {
        BlockReason::Blocklist
    } else if str_eq(s, "PROHIBITED_CONTENT") {
        BlockReason::ProhibitedContent
    } else {
        BlockReason::BlockReasonUnspecified
    }
}

/// Decoding a block-reason token that encoding produced yields the value
/// back.
pub proof fn lemma_block_reason_round_trip(v: BlockReason)
    ensures
        sp_block_reason(spec_block_reason_token(v)) == v,
{
    reveal_strlit("BLOCK_REASON_UNSPECIFIED");
    reveal_strlit("SAFETY");
    reveal_strlit("OTHER");
    reveal_strlit("BLOCKLIST");
    reveal_strlit("PROHIBITED_CONTENT");
    assert(("BLOCK_REASON_UNSPECIFIED"@).len() == 24);
    assert(("SAFETY"@).len() == 6);
    assert(("OTHER"@).len() == 5);
    assert(("BLOCKLIST"@).len() == 9);
    assert(("PROHIBITED_CONTENT"@).len() == 18);
}

// ---------- response records ----------

/// The harm category and probability found for a piece of content.
#[derive(Clone, Copy, Debug)]
pub struct SafetyRating {
    pub category: HarmCategory,
    pub probability: HarmProbability,
    pub blocked: Option<bool>,
}

impl DeepView for SafetyRating {
    type V = SafetyRating;

    open spec fn deep_view(&self) -> SafetyRating {
        *self
    }
}

/// Token counts for one generation request.
#[derive(Clone, Copy, Debug)]
pub struct UsageMetadata {
    pub prompt_token_count: i64,
    pub cached_content_token_count: Option<i64>,
    pub candidates_token_count: i64,
    pub total_token_count: i64,
}

impl DeepView for UsageMetadata {
    type V = UsageMetadata;

    open spec fn deep_view(&self) -> UsageMetadata {
        *self
    }
}

/// A citation to a source for a portion of a response.
#[derive(Clone, Debug)]
pub struct CitationSource {
    pub start_index: Option<i64>,
    pub end_index: Option<i64>,
    pub uri: Option<String>,
    pub license: Option<String>,
}

/// The model of a `CitationSource`.
pub struct CitationSourceV {
    pub start_index: Option<i64>,
    pub end_index: Option<i64>,
    pub uri: Option<Seq<char>>,
    pub license: Option<Seq<char>>,
}

impl DeepView for CitationSource {
    type V = CitationSourceV;

    open spec fn deep_view(&self) -> CitationSourceV {
        CitationSourceV {
            start_index: self.start_index,
            end_index: self.end_index,
            uri: self.uri.deep_view(),
            license: self.license.deep_view(),
        }
    }
}

/// The source attributions of one candidate.
#[derive(Clone, Debug)]
pub struct CitationMetadata {
    pub citation_sources: Vec<CitationSource>,
}

/// The model of a `CitationMetadata`.
pub struct CitationMetadataV {
    pub citation_sources: Seq<CitationSourceV>,
}

impl DeepView for CitationMetadata {
    type V = CitationMetadataV;

    open spec fn deep_view(&self) -> CitationMetadataV {
        CitationMetadataV { citation_sources: self.citation_sources.deep_view() }
    }
}

/// Feedback on the prompt itself: when set, a block reason and the rating
/// that caused it.
#[derive(Clone, Copy, Debug)]
pub struct PromptFeedback {
    pub block_reason: Option<BlockReason>,
    pub safety_ratings: SafetyRating,
}

impl DeepView for PromptFeedback {
    type V = PromptFeedback;

    open spec fn deep_view(&self) -> PromptFeedback {
        *self
    }
}

/// One generated answer.
#[derive(Clone, Debug)]
pub struct Candidate {
    pub content: Content,
    pub finish_reason: Option<FinishReason>,
    pub safety_ratings: Option<Vec<SafetyRating>>,
    pub citation_metadata: Option<CitationMetadata>,
    pub token_count: Option<i64>,
    pub index: Option<i64>,
}

/// The model of a `Candidate`.
pub struct CandidateV {
    pub content: ContentV,
    pub finish_reason: Option<FinishReason>,
    pub safety_ratings: Option<Seq<SafetyRating>>,
    pub citation_metadata: Option<CitationMetadataV>,
    pub token_count: Option<i64>,
    pub index: Option<i64>,
}

impl DeepView for Candidate {
    type V = CandidateV;

    open spec fn deep_view(&self) -> CandidateV {
        CandidateV {
            content: self.content.deep_view(),
            finish_reason: self.finish_reason,
            safety_ratings: self.safety_ratings.deep_view(),
            citation_metadata: self.citation_metadata.deep_view(),
            token_count: self.token_count,
            index: self.index,
        }
    }
}

/// The response envelope: the candidates, prompt feedback, and token usage.
/// The remote API returns either all requested candidates or none; none
/// means the prompt was blocked and the feedback says why.
#[derive(Clone, Debug)]
pub struct GenerateContentResponse {
    pub candidates: Vec<Candidate>,
    pub prompt_feedback: Option<PromptFeedback>,
    pub usage_metadata: UsageMetadata,
}

/// The model of a `GenerateContentResponse`.
pub struct GenerateContentResponseV {
    pub candidates: Seq<CandidateV>,
    pub prompt_feedback: Option<PromptFeedback>,
    pub usage_metadata: UsageMetadata,
}

impl DeepView for GenerateContentResponse {
    type V = GenerateContentResponseV;

    open spec fn deep_view(&self) -> GenerateContentResponseV {
        GenerateContentResponseV {
            candidates: self.candidates.deep_view(),
            prompt_feedback: self.prompt_feedback,
            usage_metadata: self.usage_metadata,
        }
    }
}

/// Attribution for a source that contributed to an answer.
#[derive(Clone, Debug)]
pub struct GroundingAttribution {
    pub source_id: AttributionSourceId,
    pub content: Content,
}

/// Identifier for the source contributing to an attribution.
#[derive(Clone, Debug)]
pub struct AttributionSourceId {
    pub grounding_passage: GroundingPassageId,
    pub semantic_retriever_chunk: SemanticRetrieverChunk,
}

/// Identifier for a part within a grounding passage.
#[derive(Clone, Debug)]
pub struct GroundingPassageId {
    pub passage_id: String,
    pub part_index: i64,
}

/// Identifier for a chunk fetched via the semantic retriever.
#[derive(Clone, Debug)]
pub struct SemanticRetrieverChunk {
    pub source: String,
    pub chunk: String,
}

/// Information about one available model. The numeric sampling defaults are
/// kept as their decimal wire text.
#[derive(Clone, Debug)]
pub struct Model {
    pub name: String,
    pub base_model_id: Option<String>,
    pub version: String,
    pub display_name: String,
    pub description: String,
    pub input_token_limit: i64,
    pub output_token_limit: i64,
    pub supported_generation_methods: Vec<String>,
    pub temperature: Option<String>,
    pub max_temperature: Option<String>,
    pub top_p: Option<String>,
    pub top_k: Option<i64>,
}

/// The model of a `Model`.
pub struct ModelV {
    pub name: Seq<char>,
    pub base_model_id: Option<Seq<char>>,
    pub version: Seq<char>,
    pub display_name: Seq<char>,
    pub description: Seq<char>,
    pub input_token_limit: i64,
    pub output_token_limit: i64,
    pub supported_generation_methods: Seq<Seq<char>>,
    pub temperature: Option<Seq<char>>,
    pub max_temperature: Option<Seq<char>>,
    pub top_p: Option<Seq<char>>,
    pub top_k: Option<i64>,
}

impl DeepView for Model {
    type V = ModelV;

    open spec fn deep_view(&self) -> ModelV {
        ModelV {
            name: self.name@,
            base_model_id: self.base_model_id.deep_view(),
            version: self.version@,
            display_name: self.display_name@,
            description: self.description@,
            input_token_limit: self.input_token_limit,
            output_token_limit: self.output_token_limit,
            supported_generation_methods: self.supported_generation_methods.deep_view(),
            temperature: self.temperature.deep_view(),
            max_temperature: self.max_temperature.deep_view(),
            top_p: self.top_p.deep_view(),
            top_k: self.top_k,
        }
    }
}

/// A page of the model listing.
#[derive(Clone, Debug)]
pub struct ModelsResponse {
    pub models: Vec<Model>,
    pub next_page_token: Option<String>,
}

/// The model of a `ModelsResponse`.
pub struct ModelsResponseV {
    pub models: Seq<ModelV>,
    pub next_page_token: Option<Seq<char>>,
}

impl DeepView for ModelsResponse {
    type V = ModelsResponseV;

    open spec fn deep_view(&self) -> ModelsResponseV {
        ModelsResponseV {
            models: self.models.deep_view(),
            next_page_token: self.next_page_token.deep_view(),
        }
    }
}

// ---------- decoding ----------

use crate::json::{obj_get, sp_obj_get, view_elems, lemma_view_elems};

/// The safety rating a JSON value decodes to.
pub open spec fn sp_safety_rating(v: JsonV) -> Option<SafetyRating> {
    match v {
        JsonV::Obj(ms) => match (sp_obj_get(ms, "category"@), sp_obj_get(ms, "probability"@)) {
            (Option::Some(JsonV::Str(c)), Option::Some(JsonV::Str(p))) => match sp_obj_get(
                ms,
                "blocked"@,
            ) {
                Option::None => Option::Some(
                    SafetyRating {
                        category: sp_harm_category(c),
                        probability: sp_harm_probability(p),
                        blocked: Option::None,
                    },
                ),
                Option::Some(JsonV::Bool(b)) => Option::Some(
                    SafetyRating {
                        category: sp_harm_category(c),
                        probability: sp_harm_probability(p),
                        blocked: Option::Some(b),
                    },
                ),
                Option::Some(_) => Option::None,
            },
            _ => Option::None,
        },
        _ => Option::None,
    }
}

/// Decodes a safety rating.
pub fn safety_rating_from_json(v: &JsonValue) -> (r: Option<SafetyRating>)
    ensures
        r == sp_safety_rating(v@),
{
    match v {
        JsonValue::Obj(ms) => {
            let c = obj_get(ms, "category");
            let p = obj_get(ms, "probability");
            match (c, p) {
                (Some(JsonValue::Str(cs)), Some(JsonValue::Str(ps))) => {
                    let category = harm_category_from_token(cs.as_str());
                    let probability = harm_probability_from_token(ps.as_str());
                    match obj_get(ms, "blocked") {
                        None => Some(SafetyRating { category, probability, blocked: None }),
                        Some(JsonValue::Bool(b)) => Some(
                            SafetyRating { category, probability, blocked: Some(*b) },
                        ),
                        Some(_) => None,
                    }
                },
                _ => None,
            }
        },
        _ => None,
    }
}

/// The safety ratings a JSON list decodes to.
pub open spec fn sp_safety_ratings(vs: Seq<JsonV>) -> Option<Seq<SafetyRating>>
    decreases vs.len(),
{
    if vs.len() == 0 {
        Option::Some(Seq::empty())
    } else {
        match sp_safety_rating(vs[0]) {
            Option::None => Option::None,
            Option::Some(x) => match sp_safety_ratings(vs.drop_first()) {
                Option::None => Option::None,
                Option::Some(rest) => Option::Some(seq![x] + rest),
            },
        }
    }
}

/// Decodes a list of safety ratings.
pub fn safety_ratings_from_json(arr: &Vec<JsonValue>) -> (r: Option<Vec<SafetyRating>>)
    ensures
        ({
            let sp = sp_safety_ratings(view_elems(arr@));
            match sp {
                Option::None => r is None,
                Option::Some(xs) => r matches Some(rv) && rv.deep_view() == xs,
            }
        }),
{
    let n = arr.len();
    let mut acc: Vec<SafetyRating> = Vec::new();
    let mut i: usize = 0;
    proof {
        lemma_view_elems(arr@);
        let full = view_elems(arr@);
        assert(full.skip(0) =~= full);
        assert(acc.deep_view() =~= Seq::<SafetyRating>::empty());
        match sp_safety_ratings(full) {
            Option::None => {},
            Option::Some(rest) => {
                assert(acc.deep_view() + rest =~= rest);
            },
        }
    }
    while i < n
        invariant
            i <= n,
            n == arr@.len(),
            ({
                let full = view_elems(arr@);
                let sp = sp_safety_ratings(full);
                match sp_safety_ratings(full.skip(i as int)) {
                    Option::None => sp is None,
                    Option::Some(rest) => sp == Option::Some(acc.deep_view() + rest),
                }
            }),
        decreases n - i,
    {
        proof {
            lemma_view_elems(arr@);
            let full = view_elems(arr@);
            assert(full.skip(i as int)[0] == full[i as int]);
            assert(full.skip(i as int).drop_first() =~= full.skip(i + 1int));
        }
        match safety_rating_from_json(&arr[i]) {
            None => {
                return None;
            },
            Some(x) => {
                let ghost dv = acc.deep_view();
                acc.push(x);
                proof {
                    assert(acc.deep_view() =~= dv.push(x));
                    let full = view_elems(arr@);
                    match sp_safety_ratings(full.skip(i + 1int)) {
                        Option::None => {},
                        Option::Some(rest) => {
                            assert(dv + (seq![x] + rest) =~= dv.push(x) + rest);
                        },
                    }
                }
                i = i + 1;
            },
        }
    }
    proof {
        let full = view_elems(arr@);
        assert(full.skip(n as int) =~= Seq::<JsonV>::empty());
        assert(acc.deep_view() + Seq::<SafetyRating>::empty() =~= acc.deep_view());
    }
    Some(acc)
}

/// The usage metadata a JSON value decodes to.
pub open spec fn sp_usage(v: JsonV) -> Option<UsageMetadata> {
    match v {
        JsonV::Obj(ms) => {
            let pt = sp_obj_get(ms, "promptTokenCount"@);
            let ct = sp_obj_get(ms, "candidatesTokenCount"@);
            let tt = sp_obj_get(ms, "totalTokenCount"@);
            match (pt, ct, tt) {
                (
                    Option::Some(JsonV::Int(p)),
                    Option::Some(JsonV::Int(c)),
                    Option::Some(JsonV::Int(t)),
                ) => {
                    if i64::MIN <= p <= i64::MAX && i64::MIN <= c <= i64::MAX && i64::MIN <= t
                        <= i64::MAX {
                        match sp_obj_get(ms, "cachedContentTokenCount"@) {
                            Option::None => Option::Some(
                                UsageMetadata {
                                    prompt_token_count: p as i64,
                                    cached_content_token_count: Option::None,
                                    candidates_token_count: c as i64,
                                    total_token_count: t as i64,
                                },
                            ),
                            Option::Some(JsonV::Int(cc)) => if i64::MIN <= cc <= i64::MAX {
                                Option::Some(
                                    UsageMetadata {
                                        prompt_token_count: p as i64,
                                        cached_content_token_count: Option::Some(cc as i64),
                                        candidates_token_count: c as i64,
                                        total_token_count: t as i64,
                                    },
                                )
                            } else {
                                Option::None
                            },
                            Option::Some(_) => Option::None,
                        }
                    } else {
                        Option::None
                    }
                },
                _ => Option::None,
            }
        },
        _ => Option::None,
    }
}

/// Decodes usage metadata.
pub fn usage_from_json(v: &JsonValue) -> (r: Option<UsageMetadata>)
    ensures
        r == sp_usage(v@),
{
    match v {
        JsonValue::Obj(ms) => {
            let pt = obj_get(ms, "promptTokenCount");
            let ct = obj_get(ms, "candidatesTokenCount");
            let tt = obj_get(ms, "totalTokenCount");
            match (pt, ct, tt) {
                (
                    Some(JsonValue::Int(p)),
                    Some(JsonValue::Int(c)),
                    Some(JsonValue::Int(t)),
                ) => {
                    match obj_get(ms, "cachedContentTokenCount") {
                        None => Some(
                            UsageMetadata {
                                prompt_token_count: *p,
                                cached_content_token_count: None,
                                candidates_token_count: *c,
                                total_token_count: *t,
                            },
                        ),
                        Some(JsonValue::Int(cc)) => Some(
                            UsageMetadata {
                                prompt_token_count: *p,
                                cached_content_token_count: Some(*cc),
                                candidates_token_count: *c,
                                total_token_count: *t,
                            },
                        ),
                        Some(_) => None,
                    }
                },
                _ => None,
            }
        },
        _ => None,
    }
}

/// The citation source a JSON value decodes to.
pub open spec fn sp_citation_source(v: JsonV) -> Option<CitationSourceV> {
    match v {
        JsonV::Obj(ms) => {
            let si: Option<Option<i64>> = match sp_obj_get(ms, "startIndex"@) {
                Option::None => Option::Some(Option::None),
                Option::Some(JsonV::Int(n)) => if i64::MIN <= n <= i64::MAX {
                    Option::Some(Option::Some(n as i64))
                } else {
                    Option::None
                },
                Option::Some(_) => Option::None,
            };
            let ei: Option<Option<i64>> = match sp_obj_get(ms, "endIndex"@) {
                Option::None => Option::Some(Option::None),
                Option::Some(JsonV::Int(n)) => if i64::MIN <= n <= i64::MAX {
                    Option::Some(Option::Some(n as i64))
                } else {
                    Option::None
                },
                Option::Some(_) => Option::None,
            };
            let u: Option<Option<Seq<char>>> = match sp_obj_get(ms, "uri"@) {
                Option::None => Option::Some(Option::None),
                Option::Some(JsonV::Str(s)) => Option::Some(Option::Some(s)),
                Option::Some(_) => Option::None,
            };
            let l: Option<Option<Seq<char>>> = match sp_obj_get(ms, "license"@) {
                Option::None => Option::Some(Option::None),
                Option::Some(JsonV::Str(s)) => Option::Some(Option::Some(s)),
                Option::Some(_) => Option::None,
            };
            match (si, ei, u, l) {
                (Option::Some(si), Option::Some(ei), Option::Some(u), Option::Some(l)) => {
                    Option::Some(
                        CitationSourceV { start_index: si, end_index: ei, uri: u, license: l },
                    )
                },
                _ => Option::None,
            }
        },
        _ => Option::None,
    }
}

/// Decodes a citation source.
pub fn citation_source_from_json(v: &JsonValue) -> (r: Option<CitationSource>)
    ensures
        ({
            let sp = sp_citation_source(v@);
            match sp {
                Option::None => r is None,
                Option::Some(x) => r matches Some(rx) && rx.deep_view() == x,
            }
        }),
{
    match v {
        JsonValue::Obj(ms) => {
            let si: Option<i64> = match obj_get(ms, "startIndex") {
                None => None,
                Some(JsonValue::Int(n)) => Some(*n),
                Some(_) => {
                    return None;
                },
            };
            let ei: Option<i64> = match obj_get(ms, "endIndex") {
                None => None,
                Some(JsonValue::Int(n)) => Some(*n),
                Some(_) => {
                    return None;
                },
            };
            let u: Option<String> = match obj_get(ms, "uri") {
                None => None,
                Some(JsonValue::Str(s)) => Some(s.clone()),
                Some(_) => {
                    return None;
                },
            };
            let l: Option<String> = match obj_get(ms, "license") {
                None => None,
                Some(JsonValue::Str(s)) => Some(s.clone()),
                Some(_) => {
                    return None;
                },
            };
            Some(CitationSource { start_index: si, end_index: ei, uri: u, license: l })
        },
        _ => None,
    }
}

/// The citation sources a JSON list decodes to.
pub open spec fn sp_citation_sources(vs: Seq<JsonV>) -> Option<Seq<CitationSourceV>>
    decreases vs.len(),
{
    if vs.len() == 0 {
        Option::Some(Seq::empty())
    } else {
        match sp_citation_source(vs[0]) {
            Option::None => Option::None,
            Option::Some(x) => match sp_citation_sources(vs.drop_first()) {
                Option::None => Option::None,
                Option::Some(rest) => Option::Some(seq![x] + rest),
            },
        }
    }
}

/// Decodes a list of citation sources.
pub fn citation_sources_from_json(arr: &Vec<JsonValue>) -> (r: Option<Vec<CitationSource>>)
    ensures
        ({
            let sp = sp_citation_sources(view_elems(arr@));
            match sp {
                Option::None => r is None,
                Option::Some(xs) => r matches Some(rv) && rv.deep_view() == xs,
            }
        }),
{
    let n = arr.len();
    let mut acc: Vec<CitationSource> = Vec::new();
    let mut i: usize = 0;
    proof {
        lemma_view_elems(arr@);
        let full = view_elems(arr@);
        assert(full.skip(0) =~= full);
        assert(acc.deep_view() =~= Seq::<CitationSourceV>::empty());
        match sp_citation_sources(full) {
            Option::None => {},
            Option::Some(rest) => {
                assert(acc.deep_view() + rest =~= rest);
            },
        }
    }
    while i < n
        invariant
            i <= n,
            n == arr@.len(),
            ({
                let full = view_elems(arr@);
                let sp = sp_citation_sources(full);
                match sp_citation_sources(full.skip(i as int)) {
                    Option::None => sp is None,
                    Option::Some(rest) => sp == Option::Some(acc.deep_view() + rest),
                }
            }),
        decreases n - i,
    {
        proof {
            lemma_view_elems(arr@);
            let full = view_elems(arr@);
            assert(full.skip(i as int)[0] == full[i as int]);
            assert(full.skip(i as int).drop_first() =~= full.skip(i + 1int));
        }
        match citation_source_from_json(&arr[i]) {
            None => {
                return None;
            },
            Some(x) => {
                let ghost dv = acc.deep_view();
                let ghost xv = x.deep_view();
                acc.push(x);
                proof {
                    assert(acc.deep_view() =~= dv.push(xv));
                    let full = view_elems(arr@);
                    match sp_citation_sources(full.skip(i + 1int)) {
                        Option::None => {},
                        Option::Some(rest) => {
                            assert(dv + (seq![xv] + rest) =~= dv.push(xv) + rest);
                        },
                    }
                }
                i = i + 1;
            },
        }
    }
    proof {
        let full = view_elems(arr@);
        assert(full.skip(n as int) =~= Seq::<JsonV>::empty());
        assert(acc.deep_view() + Seq::<CitationSourceV>::empty() =~= acc.deep_view());
    }
    Some(acc)
}

/// The citation metadata a JSON value decodes to.
pub open spec fn sp_citation_metadata(v: JsonV) -> Option<CitationMetadataV> {
    match v {
        JsonV::Obj(ms) => match sp_obj_get(ms, "citationSources"@) {
            Option::Some(JsonV::Arr(vs)) => match sp_citation_sources(vs) {
                Option::None => Option::None,
                Option::Some(xs) => Option::Some(CitationMetadataV { citation_sources: xs }),
            },
            _ => Option::None,
        },
        _ => Option::None,
    }
}

/// Decodes citation metadata.
pub fn citation_metadata_from_json(v: &JsonValue) -> (r: Option<CitationMetadata>)
    ensures
        ({
            let sp = sp_citation_metadata(v@);
            match sp {
                Option::None => r is None,
                Option::Some(x) => r matches Some(rx) && rx.deep_view() == x,
            }
        }),
{
    match v {
        JsonValue::Obj(ms) => {
            match obj_get(ms, "citationSources") {
                Some(JsonValue::Arr(vs)) => {
                    match citation_sources_from_json(vs) {
                        None => None,
                        Some(xs) => Some(CitationMetadata { citation_sources: xs }),
                    }
                },
                _ => None,
            }
        },
        _ => None,
    }
}

/// The prompt feedback a JSON value decodes to.
pub open spec fn sp_prompt_feedback(v: JsonV) -> Option<PromptFeedback> {
    match v {
        JsonV::Obj(ms) => {
            let br: Option<Option<BlockReason>> = match sp_obj_get(ms, "blockReason"@) {
                Option::None => Option::Some(Option::None),
                Option::Some(JsonV::Str(s)) => Option::Some(Option::Some(sp_block_reason(s))),
                Option::Some(_) => Option::None,
            };
            match (br, sp_obj_get(ms, "safetyRatings"@)) {
                (Option::Some(br), Option::Some(sv)) => match sp_safety_rating(sv) {
                    Option::None => Option::None,
                    Option::Some(sr) => Option::Some(
                        PromptFeedback { block_reason: br, safety_ratings: sr },
                    ),
                },
                _ => Option::None,
            }
        },
        _ => Option::None,
    }
}

/// Decodes prompt feedback.
pub fn prompt_feedback_from_json(v: &JsonValue) -> (r: Option<PromptFeedback>)
    ensures
        r == sp_prompt_feedback(v@),
{
    match v {
        JsonValue::Obj(ms) => {
            let br: Option<BlockReason> = match obj_get(ms, "blockReason") {
                None => None,
                Some(JsonValue::Str(s)) => Some(block_reason_from_token(s.as_str())),
                Some(_) => {
                    return None;
                },
            };
            match obj_get(ms, "safetyRatings") {
                Some(sv) => {
                    match safety_rating_from_json(sv) {
                        None => None,
                        Some(sr) => Some(PromptFeedback { block_reason: br, safety_ratings: sr }),
                    }
                },
                None => None,
            }
        },
        _ => None,
    }
}

/// The candidate a JSON value decodes to: its content is required, the
/// rest optional.
pub open spec fn sp_candidate(v: JsonV) -> Option<CandidateV> {
    match v {
        JsonV::Obj(ms) => match sp_obj_get(ms, "content"@) {
            Option::Some(cv) => match sp_content(cv) {
                Option::None => Option::None,
                Option::Some(content) => {
                    let fr: Option<Option<FinishReason>> = match sp_obj_get(
                        ms,
                        "finishReason"@,
                    ) {
                        Option::None => Option::Some(Option::None),
                        Option::Some(JsonV::Str(s)) => Option::Some(
                            Option::Some(sp_finish_reason(s)),
                        ),
                        Option::Some(_) => Option::None,
                    };
                    let sr: Option<Option<Seq<SafetyRating>>> = match sp_obj_get(
                        ms,
                        "safetyRatings"@,
                    ) {
                        Option::None => Option::Some(Option::None),
                        Option::Some(JsonV::Arr(vs)) => match sp_safety_ratings(vs) {
                            Option::None => Option::None,
                            Option::Some(xs) => Option::Some(Option::Some(xs)),
                        },
                        Option::Some(_) => Option::None,
                    };
                    let cm: Option<Option<CitationMetadataV>> = match sp_obj_get(
                        ms,
                        "citationMetadata"@,
                    ) {
                        Option::None => Option::Some(Option::None),
                        Option::Some(x) => match sp_citation_metadata(x) {
                            Option::None => Option::None,
                            Option::Some(c) => Option::Some(Option::Some(c)),
                        },
                    };
                    let tc: Option<Option<i64>> = match sp_obj_get(ms, "tokenCount"@) {
                        Option::None => Option::Some(Option::None),
                        Option::Some(JsonV::Int(n)) => if i64::MIN <= n <= i64::MAX {
                            Option::Some(Option::Some(n as i64))
                        } else {
                            Option::None
                        },
                        Option::Some(_) => Option::None,
                    };
                    let ix: Option<Option<i64>> = match sp_obj_get(ms, "index"@) {
                        Option::None => Option::Some(Option::None),
                        Option::Some(JsonV::Int(n)) => if i64::MIN <= n <= i64::MAX {
                            Option::Some(Option::Some(n as i64))
                        } else {
                            Option::None
                        },
                        Option::Some(_) => Option::None,
                    };
                    match (fr, sr, cm, tc, ix) {
                        (
                            Option::Some(fr),
                            Option::Some(sr),
                            Option::Some(cm),
                            Option::Some(tc),
                            Option::Some(ix),
                        ) => Option::Some(
                            CandidateV {
                                content,
                                finish_reason: fr,
                                safety_ratings: sr,
                                citation_metadata: cm,
                                token_count: tc,
                                index: ix,
                            },
                        ),
                        _ => Option::None,
                    }
                },
            },
            Option::None => Option::None,
        },
        _ => Option::None,
    }
}

/// Decodes a candidate.
pub fn candidate_from_json(v: &JsonValue) -> (r: Option<Candidate>)
    ensures
        ({
            let sp = sp_candidate(v@);
            match sp {
                Option::None => r is None,
                Option::Some(x) => r matches Some(rx) && rx.deep_view() == x,
            }
        }),
{
    match v {
        JsonValue::Obj(ms) => {
            let content: Content = match obj_get(ms, "content") {
                Some(cv) => {
                    match crate::body::content_from_json(cv) {
                        None => {
                            return None;
                        },
                        Some(c) => c,
                    }
                },
                None => {
                    return None;
                },
            };
            let fr: Option<FinishReason> = match obj_get(ms, "finishReason") {
                None => None,
                Some(JsonValue::Str(s)) => Some(finish_reason_from_token(s.as_str())),
                Some(_) => {
                    return None;
                },
            };
            let sr: Option<Vec<SafetyRating>> = match obj_get(ms, "safetyRatings") {
                None => None,
                Some(JsonValue::Arr(vs)) => {
                    match safety_ratings_from_json(vs) {
                        None => {
                            return None;
                        },
                        Some(xs) => Some(xs),
                    }
                },
                Some(_) => {
                    return None;
                },
            };
            let cm: Option<CitationMetadata> = match obj_get(ms, "citationMetadata") {
                None => None,
                Some(x) => {
                    match citation_metadata_from_json(x) {
                        None => {
                            return None;
                        },
                        Some(c) => Some(c),
                    }
                },
            };
            let tc: Option<i64> = match obj_get(ms, "tokenCount") {
                None => None,
                Some(JsonValue::Int(n)) => Some(*n),
                Some(_) => {
                    return None;
                },
            };
            let ix: Option<i64> = match obj_get(ms, "index") {
                None => None,
                Some(JsonValue::Int(n)) => Some(*n),
                Some(_) => {
                    return None;
                },
            };
            Some(
                Candidate {
                    content,
                    finish_reason: fr,
                    safety_ratings: sr,
                    citation_metadata: cm,
                    token_count: tc,
                    index: ix,
                },
            )
        },
        _ => None,
    }
}

/// The candidates a JSON list decodes to.
pub open spec fn sp_candidates(vs: Seq<JsonV>) -> Option<Seq<CandidateV>>
    decreases vs.len(),
{
    if vs.len() == 0 {
        Option::Some(Seq::empty())
    } else {
        match sp_candidate(vs[0]) {
            Option::None => Option::None,
            Option::Some(x) => match sp_candidates(vs.drop_first()) {
                Option::None => Option::None,
                Option::Some(rest) => Option::Some(seq![x] + rest),
            },
        }
    }
}

/// Decodes a list of candidates.
pub fn candidates_from_json(arr: &Vec<JsonValue>) -> (r: Option<Vec<Candidate>>)
    ensures
        ({
            let sp = sp_candidates(view_elems(arr@));
            match sp {
                Option::None => r is None,
                Option::Some(xs) => r matches Some(rv) && rv.deep_view() == xs,
            }
        }),
{
    let n = arr.len();
    let mut acc: Vec<Candidate> = Vec::new();
    let mut i: usize = 0;
    proof {
        lemma_view_elems(arr@);
        let full = view_elems(arr@);
        assert(full.skip(0) =~= full);
        assert(acc.deep_view() =~= Seq::<CandidateV>::empty());
        match sp_candidates(full) {
            Option::None => {},
            Option::Some(rest) => {
                assert(acc.deep_view() + rest =~= rest);
            },
        }
    }
    while i < n
        invariant
            i <= n,
            n == arr@.len(),
            ({
                let full = view_elems(arr@);
                let sp = sp_candidates(full);
                match sp_candidates(full.skip(i as int)) {
                    Option::None => sp is None,
                    Option::Some(rest) => sp == Option::Some(acc.deep_view() + rest),
                }
            }),
        decreases n - i,
    {
        proof {
            lemma_view_elems(arr@);
            let full = view_elems(arr@);
            assert(full.skip(i as int)[0] == full[i as int]);
            assert(full.skip(i as int).drop_first() =~= full.skip(i + 1int));
        }
        match candidate_from_json(&arr[i]) {
            None => {
                return None;
            },
            Some(x) => {
                let ghost dv = acc.deep_view();
                let ghost xv = x.deep_view();
                acc.push(x);
                proof {
                    assert(acc.deep_view() =~= dv.push(xv));
                    let full = view_elems(arr@);
                    match sp_candidates(full.skip(i + 1int)) {
                        Option::None => {},
                        Option::Some(rest) => {
                            assert(dv + (seq![xv] + rest) =~= dv.push(xv) + rest);
                        },
                    }
                }
                i = i + 1;
            },
        }
    }
    proof {
        let full = view_elems(arr@);
        assert(full.skip(n as int) =~= Seq::<JsonV>::empty());
        assert(acc.deep_view() + Seq::<CandidateV>::empty() =~= acc.deep_view());
    }
    Some(acc)
}

/// The response envelope a JSON value decodes to: the candidate list and
/// usage metadata are required, the prompt feedback optional.
pub open spec fn sp_response(v: JsonV) -> Option<GenerateContentResponseV> {
    match v {
        JsonV::Obj(ms) => match (sp_obj_get(ms, "candidates"@), sp_obj_get(
            ms,
            "usageMetadata"@,
        )) {
            (Option::Some(JsonV::Arr(cs)), Option::Some(uv)) => match (sp_candidates(cs),
            sp_usage(uv)) {
                (Option::Some(xs), Option::Some(um)) => {
                    let pf: Option<Option<PromptFeedback>> = match sp_obj_get(
                        ms,
                        "promptFeedback"@,
                    ) {
                        Option::None => Option::Some(Option::None),
                        Option::Some(x) => match sp_prompt_feedback(x) {
                            Option::None => Option::None,
                            Option::Some(p) => Option::Some(Option::Some(p)),
                        },
                    };
                    match pf {
                        Option::Some(pf) => Option::Some(
                            GenerateContentResponseV {
                                candidates: xs,
                                prompt_feedback: pf,
                                usage_metadata: um,
                            },
                        ),
                        Option::None => Option::None,
                    }
                },
                _ => Option::None,
            },
            _ => Option::None,
        },
        _ => Option::None,
    }
}

/// The strings a JSON list decodes to.
pub open spec fn sp_strings(vs: Seq<JsonV>) -> Option<Seq<Seq<char>>>
    decreases vs.len(),
{
    if vs.len() == 0 {
        Option::Some(Seq::empty())
    } else {
        match vs[0] {
            JsonV::Str(s) => match sp_strings(vs.drop_first()) {
                Option::None => Option::None,
                Option::Some(rest) => Option::Some(seq![s] + rest),
            },
            _ => Option::None,
        }
    }
}

fn jv_string(v: &JsonValue) -> (r: Option<String>)
    ensures
        ({
            match v@ {
                JsonV::Str(s) => r matches Some(rs) && rs@ == s,
                _ => r is None,
            }
        }),
{
    match v {
        JsonValue::Str(s) => Some(s.clone()),
        _ => None,
    }
}

/// Decodes a list of strings.
pub fn strings_from_json(arr: &Vec<JsonValue>) -> (r: Option<Vec<String>>)
    ensures
        ({
            let sp = sp_strings(view_elems(arr@));
            match sp {
                Option::None => r is None,
                Option::Some(xs) => r matches Some(rv) && rv.deep_view() == xs,
            }
        }),
{
    let n = arr.len();
    let mut acc: Vec<String> = Vec::new();
    let mut i: usize = 0;
    proof {
        lemma_view_elems(arr@);
        let full = view_elems(arr@);
        assert(full.skip(0) =~= full);
        assert(acc.deep_view() =~= Seq::<Seq<char>>::empty());
        match sp_strings(full) {
            Option::None => {},
            Option::Some(rest) => {
                assert(acc.deep_view() + rest =~= rest);
            },
        }
    }
    while i < n
        invariant
            i <= n,
            n == arr@.len(),
            ({
                let full = view_elems(arr@);
                let sp = sp_strings(full);
                match sp_strings(full.skip(i as int)) {
                    Option::None => sp is None,
                    Option::Some(rest) => sp == Option::Some(acc.deep_view() + rest),
                }
            }),
        decreases n - i,
    {
        proof {
            lemma_view_elems(arr@);
            let full = view_elems(arr@);
            assert(full.skip(i as int)[0] == full[i as int]);
            assert(full.skip(i as int).drop_first() =~= full.skip(i + 1int));
        }
        match jv_string(&arr[i]) {
            Some(x) => {
                let ghost dv = acc.deep_view();
                let ghost xv = x@;
                acc.push(x);
                proof {
                    assert(acc.deep_view() =~= dv.push(xv));
                    let full = view_elems(arr@);
                    match sp_strings(full.skip(i + 1int)) {
                        Option::None => {},
                        Option::Some(rest) => {
                            assert(dv + (seq![xv] + rest) =~= dv.push(xv) + rest);
                        },
                    }
                }
                i = i + 1;
            },
            None => {
                return None;
            },
        }
    }
    proof {
        let full = view_elems(arr@);
        assert(full.skip(n as int) =~= Seq::<JsonV>::empty());
        assert(acc.deep_view() + Seq::<Seq<char>>::empty() =~= acc.deep_view());
    }
    Some(acc)
}

/// The decimal text a JSON number field decodes to; an integer keeps its
/// decimal rendering, any other numeric lexeme is kept verbatim.
pub open spec fn sp_raw_number(v: JsonV) -> Option<Seq<char>> {
    match v {
        JsonV::Int(n) => Option::Some(crate::json::spec_i64_str(n)),
        JsonV::NumRaw(s) => Option::Some(s),
        _ => Option::None,
    }
}

fn raw_number_from_json(v: &JsonValue) -> (r: Option<String>)
    ensures
        ({
            let sp = sp_raw_number(v@);
            match sp {
                Option::None => r is None,
                Option::Some(s) => r matches Some(rs) && rs@ == s,
            }
        }),
{
    match v {
        JsonValue::Int(n) => Some(crate::json::i64_to_string(*n)),
        JsonValue::NumRaw(s) => Some(s.clone()),
        _ => None,
    }
}

/// The model description a JSON value decodes to.
pub open spec fn sp_model(v: JsonV) -> Option<ModelV> {
    match v {
        JsonV::Obj(ms) => {
            let name = sp_obj_get(ms, "name"@);
            let version = sp_obj_get(ms, "version"@);
            let display_name = sp_obj_get(ms, "displayName"@);
            let description = sp_obj_get(ms, "description"@);
            let itl = sp_obj_get(ms, "inputTokenLimit"@);
            let otl = sp_obj_get(ms, "outputTokenLimit"@);
            let sgm = sp_obj_get(ms, "supportedGenerationMethods"@);
            match (name, version, display_name, description, itl, otl, sgm) {
                (
                    Option::Some(JsonV::Str(name)),
                    Option::Some(JsonV::Str(version)),
                    Option::Some(JsonV::Str(display_name)),
                    Option::Some(JsonV::Str(description)),
                    Option::Some(JsonV::Int(itl)),
                    Option::Some(JsonV::Int(otl)),
                    Option::Some(JsonV::Arr(sgm)),
                ) => {
                    if !(i64::MIN <= itl <= i64::MAX && i64::MIN <= otl <= i64::MAX) {
                        Option::None
                    } else {
                        match sp_strings(sgm) {
                            Option::None => Option::None,
                            Option::Some(methods) => {
                                let bmi: Option<Option<Seq<char>>> = match sp_obj_get(
                                    ms,
                                    "baseModelId"@,
                                ) {
                                    Option::None => Option::Some(Option::None),
                                    Option::Some(JsonV::Str(s)) => Option::Some(Option::Some(s)),
                                    Option::Some(_) => Option::None,
                                };
                                let tmp: Option<Option<Seq<char>>> = match sp_obj_get(
                                    ms,
                                    "temperature"@,
                                ) {
                                    Option::None => Option::Some(Option::None),
                                    Option::Some(x) => match sp_raw_number(x) {
                                        Option::None => Option::None,
                                        Option::Some(s) => Option::Some(Option::Some(s)),
                                    },
                                };
                                let mtm: Option<Option<Seq<char>>> = match sp_obj_get(
                                    ms,
                                    "maxTemperature"@,
                                ) {
                                    Option::None => Option::Some(Option::None),
                                    Option::Some(x) => match sp_raw_number(x) {
                                        Option::None => Option::None,
                                        Option::Some(s) => Option::Some(Option::Some(s)),
                                    },
                                };
                                let tp: Option<Option<Seq<char>>> = match sp_obj_get(
                                    ms,
                                    "topP"@,
                                ) {
                                    Option::None => Option::Some(Option::None),
                                    Option::Some(x) => match sp_raw_number(x) {
                                        Option::None => Option::None,
                                        Option::Some(s) => Option::Some(Option::Some(s)),
                                    },
                                };
                                let tk: Option<Option<i64>> = match sp_obj_get(ms, "topK"@) {
                                    Option::None => Option::Some(Option::None),
                                    Option::Some(JsonV::Int(n)) => if i64::MIN <= n
                                        <= i64::MAX {
                                        Option::Some(Option::Some(n as i64))
                                    } else {
                                        Option::None
                                    },
                                    Option::Some(_) => Option::None,
                                };
                                match (bmi, tmp, mtm, tp, tk) {
                                    (
                                        Option::Some(bmi),
                                        Option::Some(tmp),
                                        Option::Some(mtm),
                                        Option::Some(tp),
                                        Option::Some(tk),
                                    ) => Option::Some(
                                        ModelV {
                                            name,
                                            base_model_id: bmi,
                                            version,
                                            display_name,
                                            description,
                                            input_token_limit: itl as i64,
                                            output_token_limit: otl as i64,
                                            supported_generation_methods: methods,
                                            temperature: tmp,
                                            max_temperature: mtm,
                                            top_p: tp,
                                            top_k: tk,
                                        },
                                    ),
                                    _ => Option::None,
                                }
                            },
                        }
                    }
                },
                _ => Option::None,
            }
        },
        _ => Option::None,
    }
}

/// Decodes a model description.
pub fn model_from_json(v: &JsonValue) -> (r: Option<Model>)
    ensures
        ({
            let sp = sp_model(v@);
            match sp {
                Option::None => r is None,
                Option::Some(x) => r matches Some(rx) && rx.deep_view() == x,
            }
        }),
{
    match v {
        JsonValue::Obj(ms) => {
            let name = obj_get(ms, "name");
            let version = obj_get(ms, "version");
            let display_name = obj_get(ms, "displayName");
            let description = obj_get(ms, "description");
            let itl = obj_get(ms, "inputTokenLimit");
            let otl = obj_get(ms, "outputTokenLimit");
            let sgm = obj_get(ms, "supportedGenerationMethods");
            match (name, version, display_name, description, itl, otl, sgm) {
                (
                    Some(JsonValue::Str(name)),
                    Some(JsonValue::Str(version)),
                    Some(JsonValue::Str(display_name)),
                    Some(JsonValue::Str(description)),
                    Some(JsonValue::Int(itl)),
                    Some(JsonValue::Int(otl)),
                    Some(JsonValue::Arr(sgm)),
                ) => {
                    let methods = match strings_from_json(sgm) {
                        None => {
                            return None;
                        },
                        Some(xs) => xs,
                    };
                    let bmi: Option<String> = match obj_get(ms, "baseModelId") {
                        None => None,
                        Some(JsonValue::Str(s)) => Some(s.clone()),
                        Some(_) => {
                            return None;
                        },
                    };
                    let tmp: Option<String> = match obj_get(ms, "temperature") {
                        None => None,
                        Some(x) => {
                            match raw_number_from_json(x) {
                                None => {
                                    return None;
                                },
                                Some(s) => Some(s),
                            }
                        },
                    };
                    let mtm: Option<String> = match obj_get(ms, "maxTemperature") {
                        None => None,
                        Some(x) => {
                            match raw_number_from_json(x) {
                                None => {
                                    return None;
                                },
                                Some(s) => Some(s),
                            }
                        },
                    };
                    let tp: Option<String> = match obj_get(ms, "topP") {
                        None => None,
                        Some(x) => {
                            match raw_number_from_json(x) {
                                None => {
                                    return None;
                                },
                                Some(s) => Some(s),
                            }
                        },
                    };
                    let tk: Option<i64> = match obj_get(ms, "topK") {
                        None => None,
                        Some(JsonValue::Int(n)) => Some(*n),
                        Some(_) => {
                            return None;
                        },
                    };
                    Some(
                        Model {
                            name: name.clone(),
                            base_model_id: bmi,
                            version: version.clone(),
                            display_name: display_name.clone(),
                            description: description.clone(),
                            input_token_limit: *itl,
                            output_token_limit: *otl,
                            supported_generation_methods: methods,
                            temperature: tmp,
                            max_temperature: mtm,
                            top_p: tp,
                            top_k: tk,
                        },
                    )
                },
                _ => None,
            }
        },
        _ => None,
    }
}

/// The models a JSON list decodes to.
pub open spec fn sp_models(vs: Seq<JsonV>) -> Option<Seq<ModelV>>
    decreases vs.len(),
{
    if vs.len() == 0 {
        Option::Some(Seq::empty())
    } else {
        match sp_model(vs[0]) {
            Option::None => Option::None,
            Option::Some(x) => match sp_models(vs.drop_first()) {
                Option::None => Option::None,
                Option::Some(rest) => Option::Some(seq![x] + rest),
            },
        }
    }
}

/// Decodes a list of models.
pub fn models_from_json(arr: &Vec<JsonValue>) -> (r: Option<Vec<Model>>)
    ensures
        ({
            let sp = sp_models(view_elems(arr@));
            match sp {
                Option::None => r is None,
                Option::Some(xs) => r matches Some(rv) && rv.deep_view() == xs,
            }
        }),
{
    let n = arr.len();
    let mut acc: Vec<Model> = Vec::new();
    let mut i: usize = 0;
    proof {
        lemma_view_elems(arr@);
        let full = view_elems(arr@);
        assert(full.skip(0) =~= full);
        assert(acc.deep_view() =~= Seq::<ModelV>::empty());
        match sp_models(full) {
            Option::None => {},
            Option::Some(rest) => {
                assert(acc.deep_view() + rest =~= rest);
            },
        }
    }
    while i < n
        invariant
            i <= n,
            n == arr@.len(),
            ({
                let full = view_elems(arr@);
                let sp = sp_models(full);
                match sp_models(full.skip(i as int)) {
                    Option::None => sp is None,
                    Option::Some(rest) => sp == Option::Some(acc.deep_view() + rest),
                }
            }),
        decreases n - i,
    {
        proof {
            lemma_view_elems(arr@);
            let full = view_elems(arr@);
            assert(full.skip(i as int)[0] == full[i as int]);
            assert(full.skip(i as int).drop_first() =~= full.skip(i + 1int));
        }
        match model_from_json(&arr[i]) {
            None => {
                return None;
            },
            Some(x) => {
                let ghost dv = acc.deep_view();
                let ghost xv = x.deep_view();
                acc.push(x);
                proof {
                    assert(acc.deep_view() =~= dv.push(xv));
                    let full = view_elems(arr@);
                    match sp_models(full.skip(i + 1int)) {
                        Option::None => {},
                        Option::Some(rest) => {
                            assert(dv + (seq![xv] + rest) =~= dv.push(xv) + rest);
                        },
                    }
                }
                i = i + 1;
            },
        }
    }
    proof {
        let full = view_elems(arr@);
        assert(full.skip(n as int) =~= Seq::<JsonV>::empty());
        assert(acc.deep_view() + Seq::<ModelV>::empty() =~= acc.deep_view());
    }
    Some(acc)
}

/// The model listing a JSON value decodes to.
pub open spec fn sp_models_response(v: JsonV) -> Option<ModelsResponseV> {
    match v {
        JsonV::Obj(ms) => match sp_obj_get(ms, "models"@) {
            Option::Some(JsonV::Arr(vs)) => match sp_models(vs) {
                Option::None => Option::None,
                Option::Some(xs) => {
                    let npt: Option<Option<Seq<char>>> = match sp_obj_get(
                        ms,
                        "nextPageToken"@,
                    ) {
                        Option::None => Option::Some(Option::None),
                        Option::Some(JsonV::Str(s)) => Option::Some(Option::Some(s)),
                        Option::Some(_) => Option::None,
                    };
                    match npt {
                        Option::Some(npt) => Option::Some(
                            ModelsResponseV { models: xs, next_page_token: npt },
                        ),
                        Option::None => Option::None,
                    }
                },
            },
            _ => Option::None,
        },
        _ => Option::None,
    }
}

/// Decodes the model listing.
pub fn models_response_from_json(v: &JsonValue) -> (r: Option<ModelsResponse>)
    ensures
        ({
            let sp = sp_models_response(v@);
            match sp {
                Option::None => r is None,
                Option::Some(x) => r matches Some(rx) && rx.deep_view() == x,
            }
        }),
{
    match v {
        JsonValue::Obj(ms) => {
            match obj_get(ms, "models") {
                Some(JsonValue::Arr(vs)) => {
                    match models_from_json(vs) {
                        None => None,
                        Some(xs) => {
                            let npt: Option<String> = match obj_get(ms, "nextPageToken") {
                                None => None,
                                Some(JsonValue::Str(s)) => Some(s.clone()),
                                Some(_) => {
                                    return None;
                                },
                            };
                            Some(ModelsResponse { models: xs, next_page_token: npt })
                        },
                    }
                },
                _ => None,
            }
        },
        _ => None,
    }
}

/// Decodes the response envelope.
pub fn response_from_json(v: &JsonValue) -> (r: Option<GenerateContentResponse>)
    ensures
        ({
            let sp = sp_response(v@);
            match sp {
                Option::None => r is None,
                Option::Some(x) => r matches Some(rx) && rx.deep_view() == x,
            }
        }),
{
    match v {
        JsonValue::Obj(ms) => {
            let cs = obj_get(ms, "candidates");
            let uv = obj_get(ms, "usageMetadata");
            match (cs, uv) {
                (Some(JsonValue::Arr(csv)), Some(uvv)) => {
                    let xs = match candidates_from_json(csv) {
                        None => {
                            return None;
                        },
                        Some(xs) => xs,
                    };
                    let um = match usage_from_json(uvv) {
                        None => {
                            return None;
                        },
                        Some(um) => um,
                    };
                    let pf: Option<PromptFeedback> = match obj_get(ms, "promptFeedback") {
                        None => None,
                        Some(x) => {
                            match prompt_feedback_from_json(x) {
                                None => {
                                    return None;
                                },
                                Some(p) => Some(p),
                            }
                        },
                    };
                    Some(
                        GenerateContentResponse {
                            candidates: xs,
                            prompt_feedback: pf,
                            usage_metadata: um,
                        },
                    )
                },
                _ => None,
            }
        },
        _ => None,
    }
}

} // verus!
