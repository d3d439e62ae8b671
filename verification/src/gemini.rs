use vstd::prelude::*;
use crate::text::{append_chars, chars_of, join, join_vec, push_str, to_string};

verus! {

/// Why the model stopped writing a candidate.
#[derive(Clone, Copy, Debug, PartialEq, Eq, Structural)]
pub enum FinishReason {
    /// Default value. This value is unused.
    Unspecified,
    /// Natural stop point of the model or provided stop sequence.
    Stop,
    /// The maximum number of tokens as specified in the request was reached.
    MaxTokens,
    /// The candidate content was flagged for safety reasons.
    Safety,
    /// The candidate content was flagged for recitation reasons.
    Recitation,
    /// Unknown reason.
    Other,
}

impl Default for FinishReason {
    fn default() -> (res: Self)
        ensures
            res == FinishReason::Unspecified,
    {
        FinishReason::Unspecified
    }
}

/// How likely a candidate is to be unsafe.
#[derive(Clone, Copy, Debug, PartialEq, Eq, Structural)]
pub enum HarmProbability {
    /// Probability is unspecified.
    Unspecified,
    /// Content has a negligible chance of being unsafe.
    Negligible,
    /// Content has a low chance of being unsafe.
    Low,
    /// Content has a medium chance of being unsafe.
    Medium,
    /// Content has a high chance of being unsafe.
    High,
}

impl Default for HarmProbability {
    fn default() -> (res: Self)
        ensures
            res == HarmProbability::Unspecified,
    {
        HarmProbability::Unspecified
    }
}

/// The kinds of harm a request can ask the model to filter.
#[derive(Clone, Copy, Debug, PartialEq, Eq, Structural)]
pub enum HarmCategory {
    /// Harasment content.
    Harassment,
    /// Hate speech and content.
    HateSpeech,
    /// Sexually explicit content.
    SexuallyExplicit,
    /// Dangerous content.
    DangerousContent,
}

/// From which likelihood of harm on content is blocked.
#[derive(Clone, Copy, Debug, PartialEq, Eq, Structural)]
pub enum HarmBlockThreshold {
    /// Threshold is unspecified.
    Unspecified,
    /// Content with NEGLIGIBLE will be allowed.
    LowAndAbove,
    /// Content with NEGLIGIBLE and LOW will be allowed.
    MediumAndAbove,
    /// Content with NEGLIGIBLE, LOW, and MEDIUM will be allowed.
    OnlyHigh,
    /// All content will be allowed.
    BlockNone,
}

/// The rating of one candidate in one category.
pub struct SafetyRating {
    pub category: HarmCategory,
    pub probability: HarmProbability,
    pub blocked: bool,
}

/// Token counts of one exchange.
pub struct UsageMetadata {
    pub prompt_token_count: i64,
    pub candidates_token_count: i64,
    pub total_token_count: i64,
}

/// One piece of text of a message.
pub struct Part {
    pub text: String,
}

/// A message: its pieces of text in order.
pub struct Content {
    pub parts: Vec<Part>,
}

/// One answer the model offers.
pub struct ResponseCandidate {
    pub content: Content,
    pub finish_reason: FinishReason,
    pub index: i64,
    pub safety_ratings: Vec<SafetyRating>,
}

/// What the model answers to a request.
pub struct Response {
    pub candidates: Vec<ResponseCandidate>,
    pub usage_metadata: UsageMetadata,
}

/// One category with the threshold from which it is blocked.
#[derive(Clone, Copy, Debug, PartialEq, Eq, Structural)]
pub struct SafetySetting {
    pub category: HarmCategory,
    pub threshold: HarmBlockThreshold,
}

/// How the model is to write its answer.
pub struct GenerationConfig {
    pub stop_sequences: Vec<String>,
    pub max_output_tokens: i64,
}

/// A request to the model.
pub struct Request {
    pub contents: Vec<Content>,
    pub safety_settings: Vec<SafetySetting>,
    pub generation_config: GenerationConfig,
}

/// The text of a message: its parts glued together.
pub open spec fn content_text(parts: Seq<Seq<char>>) -> Seq<char>
    decreases parts.len(),
{
    if parts.len() == 0 {
        Seq::empty()
    } else {
        content_text(parts.drop_last()) + parts.last()
    }
}

pub open spec fn part_texts(c: Content) -> Seq<Seq<char>> {
    c.parts@.map_values(|p: Part| p.text@)
}

/// The text of every candidate, in order.
pub open spec fn candidate_texts(r: Response) -> Seq<Seq<char>> {
    r.candidates@.map_values(|c: ResponseCandidate| content_text(part_texts(c.content)))
}

/// The text that a request sends for `query`.
pub open spec fn prompt_text(query: Seq<char>) -> Seq<char> {
    query + "\nOne sentence response only please."@
}

/// The categories that every request filters, in order.
pub open spec fn filtered_categories() -> Seq<HarmCategory> {
    seq![
        HarmCategory::Harassment,
        HarmCategory::HateSpeech,
        HarmCategory::SexuallyExplicit,
        HarmCategory::DangerousContent,
    ]
}

impl SafetySetting {
    /// One setting for each filtered category, all with `threshold`.
    pub fn all(threshold: HarmBlockThreshold) -> (res: Vec<Self>)
        ensures
            res@.len() == 4,
            forall|i: int|
                0 <= i < 4 ==> #[trigger] res@[i] == (SafetySetting {
                    category: filtered_categories()[i],
                    threshold,
                }),
    {
        let mut v: Vec<Self> = Vec::new();
        v.push(SafetySetting { category: HarmCategory::Harassment, threshold });
        v.push(SafetySetting { category: HarmCategory::HateSpeech, threshold });
        v.push(SafetySetting { category: HarmCategory::SexuallyExplicit, threshold });
        v.push(SafetySetting { category: HarmCategory::DangerousContent, threshold });
        v
    }
}

impl Request {
    /// A request asking `query` for a one-sentence answer, with no content
    /// blocked, stopping at the first newline and after 8192 tokens.
    pub fn new(query: &str) -> (res: Self)
        ensures
            res.contents@.len() == 1,
            part_texts(res.contents@[0]) == seq![prompt_text(query@)],
            res.safety_settings@.len() == 4,
            forall|i: int|
                0 <= i < 4 ==> #[trigger] res.safety_settings@[i] == (SafetySetting {
                    category: filtered_categories()[i],
                    threshold: HarmBlockThreshold::BlockNone,
                }),
            res.generation_config.stop_sequences@.len() == 1,
            res.generation_config.stop_sequences@[0]@ == seq!['\n'],
            res.generation_config.max_output_tokens == 8192,
    {
        let mut text = chars_of(query);
        push_str(&mut text, "\nOne sentence response only please.");
        let mut parts: Vec<Part> = Vec::new();
        parts.push(Part { text: to_string(&text) });
        let mut contents: Vec<Content> = Vec::new();
        let content = Content { parts };
        assert(part_texts(content) =~= seq![prompt_text(query@)]);
        contents.push(content);
        let mut nl: Vec<char> = Vec::new();
        nl.push('\n');
        let mut stop_sequences: Vec<String> = Vec::new();
        stop_sequences.push(to_string(&nl));
        assert(stop_sequences@[0]@ =~= seq!['\n']);
        Request {
            contents,
            safety_settings: SafetySetting::all(HarmBlockThreshold::BlockNone),
            generation_config: GenerationConfig { stop_sequences, max_output_tokens: 8192 },
        }
    }
}

impl Response {
    /// The text of every candidate, one candidate per line.
    pub fn formatted_response(self) -> (res: String)
        ensures
            res@ == join(candidate_texts(self), seq!['\n']),
    {
        let ghost target = candidate_texts(self);
        let mut texts: Vec<Vec<char>> = Vec::new();
        let mut i: usize = 0;
        while i < self.candidates.len()
            invariant
                i <= self.candidates@.len(),
                target == candidate_texts(self),
                texts@.map_values(|v: Vec<char>| v@) == target.take(i as int),
            decreases self.candidates@.len() - i,
        {
            let parts = &self.candidates[i].content.parts;
            let ghost ps = parts@.map_values(|p: Part| p.text@);
            let mut t: Vec<char> = Vec::new();
            let mut k: usize = 0;
            while k < parts.len()
                invariant
                    k <= parts@.len(),
                    ps == parts@.map_values(|p: Part| p.text@),
                    t@ == content_text(ps.take(k as int)),
                decreases parts@.len() - k,
            {
                let piece = chars_of(parts[k].text.as_str());
                append_chars(&mut t, &piece);
                assert(ps.take(k + 1).drop_last() =~= ps.take(k as int));
                k += 1;
            }
            assert(ps.take(parts@.len() as int) =~= ps);
            let ghost before = texts@.map_values(|v: Vec<char>| v@);
            texts.push(t);
            assert(texts@.map_values(|v: Vec<char>| v@) =~= before.push(target[i as int]));
            assert(target.take(i + 1) =~= target.take(i as int).push(target[i as int]));
            i += 1;
        }
        assert(target.take(self.candidates@.len() as int) =~= target);
        let mut nl: Vec<char> = Vec::new();
        nl.push('\n');
        assert(nl@ =~= seq!['\n']);
        to_string(&join_vec(&texts, &nl))
    }
}

} // verus!
