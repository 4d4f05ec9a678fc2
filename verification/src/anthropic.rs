//! The Anthropic backend's data shapes and the pure mappings between
//! them and the core model. The HTTP transport and the JSON wire coding
//! live outside the library; everything that decides or converts is
//! here, verified.

use vstd::prelude::*;
use crate::api::{ApiResponse, LLMApiError, Usage};
use crate::content::{ContentItem as CoreItem, ContentV, Image as CoreImage, ImageType, ItemV, Role};

verus! {

/// The backend configuration: a secret key and a model choice.
#[derive(Debug)]
pub struct AnthropicApi {
    secret_key: Option<String>,
    model: Model,
}

impl AnthropicApi {
    /// The configured model, as a mathematical value.
    pub closed spec fn spec_model(&self) -> Model {
        self.model
    }

    /// The configured key's text, when one is set.
    pub closed spec fn spec_key(&self) -> Option<Seq<char>> {
        match self.secret_key {
            Some(k) => Some(k@),
            None => None,
        }
    }

    /// A configuration holding the given key and model.
    pub fn new(key: String, model: Model) -> (r: Self)
        ensures
            r.spec_model() == model,
            r.spec_key() == Some(key@),
    {
        AnthropicApi { secret_key: Some(key), model: model }
    }

    /// The configured model.
    pub fn model(&self) -> (r: Model)
        ensures
            r == self.spec_model(),
    {
        self.model
    }

    /// The configured key, if one is set.
    pub fn key(&self) -> (r: &Option<String>)
        ensures
            match r {
                Some(k) => self.spec_key() == Some(k@),
                None => self.spec_key() is None,
            },
    {
        &self.secret_key
    }
}

/// The models this backend accepts.
#[derive(Debug, Clone, Copy, PartialEq, Eq, Structural)]
pub enum Model {
    Haiku3_5,
    Sonnet3_5,
    Opus3,
}

impl Model {
    /// The combined input+output token budget of the model.
    pub fn max_context_tokens(self) -> (r: usize)
        ensures
            r == 200_000usize,
    {
        match self {
            Model::Haiku3_5 => 200_000,
            Model::Sonnet3_5 => 200_000,
            Model::Opus3 => 200_000,
        }
    }

    /// The per-call output token cap of the model.
    pub fn max_output_tokens(self) -> (r: usize)
        ensures
            r == match self {
                Model::Haiku3_5 => 8192usize,
                Model::Sonnet3_5 => 8192usize,
                Model::Opus3 => 4096usize,
            },
    {
        match self {
            Model::Haiku3_5 => 8192,
            Model::Sonnet3_5 => 8192,
            Model::Opus3 => 4096,
        }
    }

}

/// Request-side content: a bare string, or a list of typed elements.
#[derive(Debug)]
pub enum Content {
    PureText(String),
    Mixed(Vec<ContentElem>),
}

/// One typed request content element.
#[derive(Debug)]
pub enum ContentElem {
    Text(String),
    Image(Image),
}

/// A request-side image: a media type and base64 data.
#[derive(Debug)]
pub struct Image {
    pub media_type: MediaType,
    pub data: String,
}

/// The media types of the wire format.
#[derive(Debug, Clone, Copy, PartialEq, Eq, Structural)]
pub enum MediaType {
    Jpeg,
    Png,
    Gif,
    Webp,
}

/// The image format a media type carries.
pub open spec fn media_view(m: MediaType) -> ImageType {
    match m {
        MediaType::Jpeg => ImageType::Jpeg,
        MediaType::Png => ImageType::Png,
        MediaType::Gif => ImageType::Gif,
        MediaType::Webp => ImageType::Webp,
    }
}

impl View for Image {
    type V = crate::content::ImageV;

    open spec fn view(&self) -> crate::content::ImageV {
        crate::content::ImageV { image_type: media_view(self.media_type), data: self.data@ }
    }
}

impl View for ContentElem {
    type V = ItemV;

    open spec fn view(&self) -> ItemV {
        match self {
            ContentElem::Text(t) => ItemV::Text(t@),
            ContentElem::Image(img) => ItemV::Image(img@),
        }
    }
}

impl View for Content {
    type V = ContentV;

    open spec fn view(&self) -> ContentV {
        match self {
            Content::PureText(t) => ContentV::Single(ItemV::Text(t@)),
            Content::Mixed(es) => ContentV::Multiple(es@.map_values(|e: ContentElem| e@)),
        }
    }
}

/// How core content is shaped for the wire: a lone text stays a bare
/// string, a lone image becomes a one-element list, a list stays a list.
pub open spec fn spec_to_wire(c: ContentV) -> ContentV {
    match c {
        ContentV::Single(ItemV::Text(t)) => ContentV::Single(ItemV::Text(t)),
        ContentV::Single(i) => ContentV::Multiple(seq![i]),
        ContentV::Multiple(is) => ContentV::Multiple(is),
    }
}

impl MediaType {
    /// The media type for a core image format.
    pub fn from_image_type(t: ImageType) -> (r: MediaType)
        ensures
            media_view(r) == t,
    {
        match t {
            ImageType::Jpeg => MediaType::Jpeg,
            ImageType::Png => MediaType::Png,
            ImageType::Gif => MediaType::Gif,
            ImageType::Webp => MediaType::Webp,
        }
    }

    /// The media type on the wire.
    pub fn wire_name(self) -> (r: &'static str)
        ensures
            r@ == match self {
                MediaType::Jpeg => "image/jpeg"@,
                MediaType::Png => "image/png"@,
                MediaType::Gif => "image/gif"@,
                MediaType::Webp => "image/webp"@,
            },
    {
        match self {
            MediaType::Jpeg => "image/jpeg",
            MediaType::Png => "image/png",
            MediaType::Gif => "image/gif",
            MediaType::Webp => "image/webp",
        }
    }
}

impl Image {
    /// The wire image for a core image.
    pub fn from_core(img: CoreImage) -> (r: Image)
        ensures
            r@ == img@,
    {
        Image { media_type: MediaType::from_image_type(img.image_type), data: img.data }
    }
}

impl ContentElem {
    /// The wire element for a core content item.
    pub fn from_core(item: CoreItem) -> (r: ContentElem)
        ensures
            r@ == item@,
    {
        match item {
            CoreItem::Text(t) => ContentElem::Text(t),
            CoreItem::Image(img) => ContentElem::Image(Image::from_core(img)),
        }
    }
}

impl Content {
    /// The wire content for a core content value.
    pub fn from_core(c: crate::content::Content) -> (r: Content)
        ensures
            r@ == spec_to_wire(c@),
    {
        match c {
            crate::content::Content::Single(item) => match item {
                CoreItem::Text(t) => Content::PureText(t),
                CoreItem::Image(img) => {
                    let mut es: Vec<ContentElem> = Vec::new();
                    es.push(ContentElem::Image(Image::from_core(img)));
                    proof {
                        assert(es@.map_values(|e: ContentElem| e@) =~= seq![es@[0]@]);
                    }
                    Content::Mixed(es)
                },
            },
            crate::content::Content::Multiple(items) => {
                let ghost target = items@.map_values(|item: CoreItem| item@);
                let mut items = items;
                let mut es: Vec<ContentElem> = Vec::new();
                let n = items.len();
                let mut i: usize = 0;
                // consume the items front to back
                while i < n
                    invariant
                        0 <= i <= n,
                        n == items@.len(),
                        target == items@.map_values(|item: CoreItem| item@),
                        es@.map_values(|e: ContentElem| e@) =~= target.take(i as int),
                    decreases n - i,
                {
                    let item = items[i].clone();
                    proof {
                        assert(cloned::<CoreItem>(items@[i as int], item));
                    }
                    es.push(ContentElem::from_core(item));
                    proof {
                        assert(es@.map_values(|e: ContentElem| e@) =~= target.take(i as int).push(
                            target[i as int],
                        ));
                        assert(target.take(i as int + 1) =~= target.take(i as int).push(
                            target[i as int],
                        ));
                    }
                    i = i + 1;
                }
                proof {
                    assert(target.take(n as int) =~= target);
                }
                Content::Mixed(es)
            },
        }
    }
}

/// Request-side roles.
#[derive(Debug, Clone, Copy, PartialEq, Eq, Structural)]
pub enum AnthropicRole {
    Assistant,
    User,
}

impl AnthropicRole {
    /// The wire role for a core role.
    pub fn from_role(role: Role) -> (r: AnthropicRole)
        ensures
            r == match role {
                Role::Assistant => AnthropicRole::Assistant,
                Role::User => AnthropicRole::User,
            },
    {
        match role {
            Role::Assistant => AnthropicRole::Assistant,
            Role::User => AnthropicRole::User,
        }
    }
}

/// What the backend answered: a completion, or a typed error document.
#[derive(Debug)]
pub enum AnthropicResult {
    Success(AnthropicResponse),
    Error(ErrorResponse),
}

impl AnthropicResult {
    /// Whether this is the error document.
    pub fn is_error(&self) -> (r: bool)
        ensures
            r == (self is Error),
    {
        matches!(self, Self::Error(_))
    }

    /// Whether this is a completion.
    pub fn is_success(&self) -> (r: bool)
        ensures
            r == (self is Success),
    {
        matches!(self, Self::Success(_))
    }

    /// The completion, or the error stripped of its envelope.
    pub fn into_response(self) -> (r: Result<AnthropicResponse, AnthropicError>)
        ensures
            self is Success ==> r == Ok::<AnthropicResponse, AnthropicError>(self->Success_0),
            self is Error ==> r == Err::<AnthropicResponse, AnthropicError>(
                self->Error_0.error,
            ),
    {
        match self {
            Self::Success(response) => Ok(response),
            Self::Error(err) => Err(err.error),
        }
    }
}

/// A completion document.
#[derive(Debug)]
pub struct AnthropicResponse {
    pub content: Vec<ContentItem>,
    pub id: String,
    pub model: String,
    pub role: AnthropicRole,
    pub stop_reason: StopReason,
    pub stop_sequence: Option<String>,
    pub message_type: String,
    pub usage: UsageInfo,
}

/// One completion content block.
#[derive(Debug)]
pub struct ContentItem {
    pub item_type: String,
    pub text: String,
}

/// The completion's stop reason on the wire.
#[derive(Debug, Clone, Copy, PartialEq, Eq, Structural)]
pub enum StopReason {
    EndTurn,
    MaxTokens,
    StopSequence,
    ToolUse,
}

impl StopReason {
    /// The core stop reason, where one exists.
    pub fn to_core(self) -> (r: Result<crate::api::StopReason, ()>)
        ensures
            r == match self {
                StopReason::EndTurn => Ok::<crate::api::StopReason, ()>(
                    crate::api::StopReason::EndTurn,
                ),
                StopReason::MaxTokens => Ok::<crate::api::StopReason, ()>(
                    crate::api::StopReason::MaxTokens,
                ),
                _ => Err::<crate::api::StopReason, ()>(()),
            },
    {
        match self {
            StopReason::EndTurn => Ok(crate::api::StopReason::EndTurn),
            StopReason::MaxTokens => Ok(crate::api::StopReason::MaxTokens),
            StopReason::StopSequence => Err(()),
            StopReason::ToolUse => Err(()),
        }
    }
}

/// The completion's token accounting.
#[derive(Debug, Clone, Copy, PartialEq, Eq, Structural)]
pub struct UsageInfo {
    pub input_tokens: u32,
    pub output_tokens: u32,
}

impl UsageInfo {
    /// The core usage value.
    pub fn to_usage(self) -> (r: Usage)
        ensures
            r.n_input_tokens == self.input_tokens,
            r.n_output_tokens == self.output_tokens,
    {
        Usage {
            n_input_tokens: self.input_tokens as usize,
            n_output_tokens: self.output_tokens as usize,
        }
    }
}

/// The error document's envelope.
#[derive(Debug)]
pub struct ErrorResponse {
    pub response_type: String,
    pub error: AnthropicError,
}

/// The error document's body.
#[derive(Debug)]
pub struct AnthropicError {
    pub error_type: ErrorType,
    pub message: String,
}

/// The error taxonomy on the wire.
#[derive(Debug, Clone, Copy, PartialEq, Eq, Structural)]
pub enum ErrorType {
    InvalidRequestError,
    AuthenticationError,
    PermissionError,
    NotFoundError,
    RequestTooLarge,
    RateLimitError,
    ApiError,
    OverloadedError,
}

impl ErrorType {
    /// The core error this wire error surfaces as.
    pub fn to_api_error(self) -> (r: LLMApiError)
        ensures
            r == match self {
                ErrorType::InvalidRequestError => LLMApiError::InvalidRequestError,
                ErrorType::AuthenticationError => LLMApiError::AuthenticationError,
                ErrorType::PermissionError => LLMApiError::PermissionError,
                ErrorType::NotFoundError => LLMApiError::NotFoundError,
                ErrorType::RequestTooLarge => LLMApiError::RequestTooLarge,
                ErrorType::RateLimitError => LLMApiError::RateLimitExceeded,
                ErrorType::ApiError => LLMApiError::ApiError,
                ErrorType::OverloadedError => LLMApiError::OverloadedError,
            },
    {
        match self {
            Self::InvalidRequestError => LLMApiError::InvalidRequestError,
            Self::AuthenticationError => LLMApiError::AuthenticationError,
            Self::PermissionError => LLMApiError::PermissionError,
            Self::NotFoundError => LLMApiError::NotFoundError,
            Self::RequestTooLarge => LLMApiError::RequestTooLarge,
            Self::RateLimitError => LLMApiError::RateLimitExceeded,
            Self::ApiError => LLMApiError::ApiError,
            Self::OverloadedError => LLMApiError::OverloadedError,
        }
    }
}

impl AnthropicResponse {
    /// The core reply this completion carries: the first content block's
    /// text (empty when there is none), the mapped stop reason (an
    /// unmappable one surfaces as `Other`), and the usage.
    pub fn into_api_response(self) -> (r: Result<ApiResponse, LLMApiError>)
        ensures
            match r {
                Ok(a) => {
                    &&& (self.stop_reason is EndTurn || self.stop_reason is MaxTokens)
                    &&& a.stop_reason == (if self.stop_reason is EndTurn {
                        crate::api::StopReason::EndTurn
                    } else {
                        crate::api::StopReason::MaxTokens
                    })
                    &&& a.resp@ == (if self.content@.len() > 0 {
                        self.content@[0].text@
                    } else {
                        Seq::<char>::empty()
                    })
                    &&& a.usage.n_input_tokens == self.usage.input_tokens
                    &&& a.usage.n_output_tokens == self.usage.output_tokens
                },
                Err(e) => e == LLMApiError::Other && !(self.stop_reason is EndTurn
                    || self.stop_reason is MaxTokens),
            },
    {
        let mut content = self.content;
        let resp = if content.len() > 0 {
            let first = content.remove(0);
            first.text
        } else {
            String::new()
        };
        let stop_reason = match self.stop_reason.to_core() {
            Ok(s) => s,
            Err(_) => {
                return Err(LLMApiError::Other);
            },
        };
        Ok(ApiResponse { resp, stop_reason, usage: self.usage.to_usage() })
    }
}

} // verus!
