//! The user-facing model choice and its mapping to each backend's model
//! set.

use vstd::prelude::*;

verus! {

/// Every model a session can be started with, across both backends.
#[derive(Debug, Clone, Copy, PartialEq, Eq, Structural)]
pub enum ModelChoice {
    Haiku3_5,
    Sonnet3_5,
    Opus3,
    GPT4O,
    GPT4OMini,
    O1,
    O1Mini,
    O1Preview,
}

impl ModelChoice {
    /// The Anthropic model this choice names, if it is one of theirs.
    pub fn to_anthropic_model(&self) -> (r: Option<crate::anthropic::Model>)
        ensures
            r == match self {
                ModelChoice::Haiku3_5 => Some(crate::anthropic::Model::Haiku3_5),
                ModelChoice::Sonnet3_5 => Some(crate::anthropic::Model::Sonnet3_5),
                ModelChoice::Opus3 => Some(crate::anthropic::Model::Opus3),
                _ => None::<crate::anthropic::Model>,
            },
    {
        match self {
            ModelChoice::Haiku3_5 => Some(crate::anthropic::Model::Haiku3_5),
            ModelChoice::Sonnet3_5 => Some(crate::anthropic::Model::Sonnet3_5),
            ModelChoice::Opus3 => Some(crate::anthropic::Model::Opus3),
            _ => None,
        }
    }

    /// The OpenAI model this choice names, if it is one of theirs.
    pub fn to_openai_model(&self) -> (r: Option<crate::openai::Model>)
        ensures
            r == match self {
                ModelChoice::GPT4O => Some(crate::openai::Model::GPT4O),
                ModelChoice::GPT4OMini => Some(crate::openai::Model::GPT4OMini),
                ModelChoice::O1 => Some(crate::openai::Model::O1),
                ModelChoice::O1Mini => Some(crate::openai::Model::O1Mini),
                ModelChoice::O1Preview => Some(crate::openai::Model::O1Preview),
                _ => None::<crate::openai::Model>,
            },
    {
        match self {
            ModelChoice::GPT4O => Some(crate::openai::Model::GPT4O),
            ModelChoice::GPT4OMini => Some(crate::openai::Model::GPT4OMini),
            ModelChoice::O1 => Some(crate::openai::Model::O1),
            ModelChoice::O1Mini => Some(crate::openai::Model::O1Mini),
            ModelChoice::O1Preview => Some(crate::openai::Model::O1Preview),
            _ => None,
        }
    }
}

} // verus!
