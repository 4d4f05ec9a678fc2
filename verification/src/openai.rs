//! The OpenAI backend's data shapes and the pure mappings between them
//! and the core model. As with the other backend, transport and wire
//! coding live outside the library.

use vstd::prelude::*;
use crate::api::{ApiResponse, LLMApiError, Usage};
use crate::content::{ContentItem as CoreItem, ContentV, Image as CoreImage, ImageType, ItemV, Role};

verus! {

/// The backend configuration: a secret key and a model choice.
#[derive(Debug)]
pub struct OAIApi {
    secret_key: Option<String>,
    model: Model,
}

impl OAIApi {
    /// The configured model, as a mathematical value.
    pub closed spec fn spec_model(&self) -> Model {
        self.model
    }

    /// The configured key's text, when one is set.
    pub closed spec fn spec_key(&self) -> Option<Seq<char>> {
        match self.secret_key {
            Some(k) => Some(k@),
            None => None,
        }
    }

    /// A configuration holding the given key and model.
    pub fn new(key: String, model: Model) -> (r: Self)
        ensures
            r.spec_model() == model,
            r.spec_key() == Some(key@),
    {
        OAIApi { secret_key: Some(key), model }
    }

    /// The configured model.
    pub fn model(&self) -> (r: Model)
        ensures
            r == self.spec_model(),
    {
        self.model
    }

    /// The configured key, if one is set.
    pub fn key(&self) -> (r: &Option<String>)
        ensures
            match r {
                Some(k) => self.spec_key() == Some(k@),
                None => self.spec_key() is None,
            },
    {
        &self.secret_key
    }
}

/// The models this backend accepts.
#[derive(Debug, Clone, Copy, PartialEq, Eq, Structural)]
pub enum Model {
    GPT4O,
    GPT4OMini,
    O1,
    O1Mini,
    O1Preview,
}

impl Model {
    /// The model identifier on the wire.
    pub fn wire_name(self) -> (r: &'static str)
        ensures
            r@ == match self {
                Model::GPT4O => "gpt-4o"@,
                Model::GPT4OMini => "gpt-4o-mini"@,
                Model::O1 => "o1"@,
                Model::O1Mini => "o1-mini"@,
                Model::O1Preview => "o1-preview"@,
            },
    {
        match self {
            Model::GPT4O => "gpt-4o",
            Model::GPT4OMini => "gpt-4o-mini",
            Model::O1 => "o1",
            Model::O1Mini => "o1-mini",
            Model::O1Preview => "o1-preview",
        }
    }

    /// The combined input+output token budget of the model.
    pub fn max_context_tokens(self) -> (r: usize)
        ensures
            r == match self {
                Model::O1 => 200_000usize,
                _ => 128_000usize,
            },
    {
        match self {
            Model::O1 => 200_000,
            _ => 128_000,
        }
    }

    /// Whether the model takes its system text as a user message rather
    /// than a developer message.
    pub fn system_as_user(self) -> (r: bool)
        ensures
            r == (self is O1 || self is O1Mini || self is O1Preview),
    {
        match self {
            Model::O1 => true,
            Model::O1Mini => true,
            Model::O1Preview => true,
            _ => false,
        }
    }
}

/// Request-side content: a bare string, or a list of typed elements.
#[derive(Debug)]
pub enum Content {
    PureText(String),
    Mixed(Vec<ContentElem>),
}

/// One typed request content element.
#[derive(Debug)]
pub enum ContentElem {
    Text(String),
    Image(Image),
}

/// A request-side image: a media type and base64 data.
#[derive(Debug)]
pub struct Image {
    pub media_type: MediaType,
    pub data: String,
}

/// The media types of the wire format.
#[derive(Debug, Clone, Copy, PartialEq, Eq, Structural)]
pub enum MediaType {
    Jpeg,
    Png,
    Gif,
    Webp,
}

/// The image format a media type carries.
pub open spec fn media_view(m: MediaType) -> ImageType {
    match m {
        MediaType::Jpeg => ImageType::Jpeg,
        MediaType::Png => ImageType::Png,
        MediaType::Gif => ImageType::Gif,
        MediaType::Webp => ImageType::Webp,
    }
}

impl View for Image {
    type V = crate::content::ImageV;

    open spec fn view(&self) -> crate::content::ImageV {
        crate::content::ImageV { image_type: media_view(self.media_type), data: self.data@ }
    }
}

impl View for ContentElem {
    type V = ItemV;

    open spec fn view(&self) -> ItemV {
        match self {
            ContentElem::Text(t) => ItemV::Text(t@),
            ContentElem::Image(img) => ItemV::Image(img@),
        }
    }
}

impl View for Content {
    type V = ContentV;

    open spec fn view(&self) -> ContentV {
        match self {
            Content::PureText(t) => ContentV::Single(ItemV::Text(t@)),
            Content::Mixed(es) => ContentV::Multiple(es@.map_values(|e: ContentElem| e@)),
        }
    }
}

impl MediaType {
    /// The media type for a core image format.
    pub fn from_image_type(t: ImageType) -> (r: MediaType)
        ensures
            media_view(r) == t,
    {
        match t {
            ImageType::Jpeg => MediaType::Jpeg,
            ImageType::Png => MediaType::Png,
            ImageType::Gif => MediaType::Gif,
            ImageType::Webp => MediaType::Webp,
        }
    }

    /// The media type as it stands inside a data URL.
    pub fn wire_name(self) -> (r: &'static str)
        ensures
            r@ == match self {
                MediaType::Jpeg => "image/jpeg"@,
                MediaType::Png => "image/png"@,
                MediaType::Gif => "image/gif"@,
                MediaType::Webp => "image/webp"@,
            },
    {
        match self {
            MediaType::Jpeg => "image/jpeg",
            MediaType::Png => "image/png",
            MediaType::Gif => "image/gif",
            MediaType::Webp => "image/webp",
        }
    }
}

impl Image {
    /// The wire image for a core image.
    pub fn from_core(img: CoreImage) -> (r: Image)
        ensures
            r@ == img@,
    {
        Image { media_type: MediaType::from_image_type(img.image_type), data: img.data }
    }
}

impl ContentElem {
    /// The wire element for a core content item.
    pub fn from_core(item: CoreItem) -> (r: ContentElem)
        ensures
            r@ == item@,
    {
        match item {
            CoreItem::Text(t) => ContentElem::Text(t),
            CoreItem::Image(img) => ContentElem::Image(Image::from_core(img)),
        }
    }
}

impl Content {
    /// The wire content for a core content value, shaped as the other
    /// backend shapes it: a lone text stays a bare string, anything else
    /// becomes a list.
    pub fn from_core(c: crate::content::Content) -> (r: Content)
        ensures
            r@ == crate::anthropic::spec_to_wire(c@),
    {
        match c {
            crate::content::Content::Single(item) => match item {
                CoreItem::Text(t) => Content::PureText(t),
                CoreItem::Image(img) => {
                    let mut es: Vec<ContentElem> = Vec::new();
                    es.push(ContentElem::Image(Image::from_core(img)));
                    proof {
                        assert(es@.map_values(|e: ContentElem| e@) =~= seq![es@[0]@]);
                    }
                    Content::Mixed(es)
                },
            },
            crate::content::Content::Multiple(items) => {
                let ghost target = items@.map_values(|item: CoreItem| item@);
                let items = items;
                let mut es: Vec<ContentElem> = Vec::new();
                let n = items.len();
                let mut i: usize = 0;
                while i < n
                    invariant
                        0 <= i <= n,
                        n == items@.len(),
                        target == items@.map_values(|item: CoreItem| item@),
                        es@.map_values(|e: ContentElem| e@) =~= target.take(i as int),
                    decreases n - i,
                {
                    let item = items[i].clone();
                    proof {
                        assert(cloned::<CoreItem>(items@[i as int], item));
                    }
                    es.push(ContentElem::from_core(item));
                    proof {
                        assert(es@.map_values(|e: ContentElem| e@) =~= target.take(i as int).push(
                            target[i as int],
                        ));
                        assert(target.take(i as int + 1) =~= target.take(i as int).push(
                            target[i as int],
                        ));
                    }
                    i = i + 1;
                }
                proof {
                    assert(target.take(n as int) =~= target);
                }
                Content::Mixed(es)
            },
        }
    }
}

/// Request-side roles; the system text rides as `Developer` on models
/// that accept it.
#[derive(Debug, Clone, Copy, PartialEq, Eq, Structural)]
pub enum OAIRole {
    Assistant,
    User,
    Developer,
}

impl OAIRole {
    /// The wire role for a core role.
    pub fn from_role(role: Role) -> (r: OAIRole)
        ensures
            r == match role {
                Role::Assistant => OAIRole::Assistant,
                Role::User => OAIRole::User,
            },
    {
        match role {
            Role::Assistant => OAIRole::Assistant,
            Role::User => OAIRole::User,
        }
    }
}

/// The request's optional reasoning-effort setting.
#[derive(Debug, Clone, Copy, PartialEq, Eq, Structural)]
pub enum ReasoningEffort {
    Low,
    Medium,
    High,
}

/// A completion document.
#[derive(Debug)]
pub struct OAIResponse {
    pub id: String,
    pub object: String,
    pub created: u64,
    pub model: String,
    pub system_fingerprint: String,
    pub choices: Vec<Choice>,
    pub usage: UsageInfo,
}

/// One completion choice.
#[derive(Debug)]
pub struct Choice {
    pub index: u32,
    pub message: OAIMessageResp,
    pub finish_reason: FinishReason,
}

/// The message body of one choice.
#[derive(Debug)]
pub struct OAIMessageResp {
    pub role: OAIRole,
    pub content: String,
}

/// The completion's finish reason on the wire.
#[derive(Debug, Clone, Copy, PartialEq, Eq, Structural)]
pub enum FinishReason {
    Stop,
    Length,
    ContentFilter,
    ToolCalls,
}

impl FinishReason {
    /// The core stop reason, where one exists.
    pub fn to_core(self) -> (r: Result<crate::api::StopReason, ()>)
        ensures
            r == match self {
                FinishReason::Stop => Ok::<crate::api::StopReason, ()>(
                    crate::api::StopReason::EndTurn,
                ),
                FinishReason::Length => Ok::<crate::api::StopReason, ()>(
                    crate::api::StopReason::MaxTokens,
                ),
                _ => Err::<crate::api::StopReason, ()>(()),
            },
    {
        match self {
            FinishReason::Stop => Ok(crate::api::StopReason::EndTurn),
            FinishReason::Length => Ok(crate::api::StopReason::MaxTokens),
            FinishReason::ContentFilter => Err(()),
            FinishReason::ToolCalls => Err(()),
        }
    }
}

/// The completion's token accounting.
#[derive(Debug, Clone, Copy, PartialEq, Eq, Structural)]
pub struct UsageInfo {
    pub prompt_tokens: u32,
    pub completion_tokens: u32,
    pub total_tokens: u32,
    pub completion_tokens_details: TokenDetails,
}

/// The completion-side token details.
#[derive(Debug, Clone, Copy, PartialEq, Eq, Structural)]
pub struct TokenDetails {
    pub reasoning_tokens: u32,
    pub accepted_prediction_tokens: u32,
    pub rejected_prediction_tokens: u32,
}

impl UsageInfo {
    /// The core usage value: prompt tokens in, completion tokens out.
    pub fn to_usage(self) -> (r: Usage)
        ensures
            r.n_input_tokens == self.prompt_tokens,
            r.n_output_tokens == self.completion_tokens,
    {
        Usage {
            n_input_tokens: self.prompt_tokens as usize,
            n_output_tokens: self.completion_tokens as usize,
        }
    }
}

/// The core error an HTTP status surfaces as.
pub fn api_error_from_status(status: u16) -> (r: LLMApiError)
    ensures
        r == (if status == 401 {
            LLMApiError::AuthenticationError
        } else if status == 403 {
            LLMApiError::PermissionError
        } else if status == 429 {
            LLMApiError::RateLimitExceeded
        } else if status == 500 {
            LLMApiError::ApiError
        } else if status == 503 {
            LLMApiError::OverloadedError
        } else {
            LLMApiError::Other
        }),
{
    if status == 401 {
        LLMApiError::AuthenticationError
    } else if status == 403 {
        LLMApiError::PermissionError
    } else if status == 429 {
        LLMApiError::RateLimitExceeded
    } else if status == 500 {
        LLMApiError::ApiError
    } else if status == 503 {
        LLMApiError::OverloadedError
    } else {
        LLMApiError::Other
    }
}

impl OAIResponse {
    /// The core reply this completion carries: the first choice's text
    /// and mapped finish reason, and the usage. No choice, or an
    /// unmappable finish reason, surfaces as `Other`.
    pub fn into_api_response(self) -> (r: Result<ApiResponse, LLMApiError>)
        ensures
            match r {
                Ok(a) => {
                    &&& self.choices@.len() > 0
                    &&& (self.choices@[0].finish_reason is Stop || self.choices@[0].finish_reason
                        is Length)
                    &&& a.stop_reason == (if self.choices@[0].finish_reason is Stop {
                        crate::api::StopReason::EndTurn
                    } else {
                        crate::api::StopReason::MaxTokens
                    })
                    &&& a.resp@ == self.choices@[0].message.content@
                    &&& a.usage.n_input_tokens == self.usage.prompt_tokens
                    &&& a.usage.n_output_tokens == self.usage.completion_tokens
                },
                Err(e) => e == LLMApiError::Other && (self.choices@.len() == 0 || !(
                self.choices@[0].finish_reason is Stop || self.choices@[0].finish_reason
                    is Length)),
            },
    {
        let mut choices = self.choices;
        if choices.len() == 0 {
            return Err(LLMApiError::Other);
        }
        let choice = choices.remove(0);
        let stop_reason = match choice.finish_reason.to_core() {
            Ok(s) => s,
            Err(_) => {
                return Err(LLMApiError::Other);
            },
        };
        Ok(ApiResponse { resp: choice.message.content, stop_reason, usage: self.usage.to_usage() })
    }
}

} // verus!
