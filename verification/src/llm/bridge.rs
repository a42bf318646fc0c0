//! The LLM bridge: context → prompt → client → parser → proposed command.
//!
//! The client call itself is asynchronous I/O and is driven by the caller;
//! the bridge composes the request and turns the response into a
//! [`ProposedCommand`].

use vstd::prelude::*;
use std::sync::Arc;
use crate::config::LlmConfig;
use crate::text::string_views;
use super::context::SystemContextProvider;
use super::error::LlmError;
use super::parser::{parse_command_response, parse_outcome, spec_parse_response};
use super::prompt::PromptComposer;
use super::proposed::{CommandSource, ProposedCommand};

verus! {

/// Orchestrates the LLM-to-command pipeline for a client of type `C`.
#[derive(Debug)]
pub struct LlmBridge<C> {
    composer: PromptComposer,
    client: Arc<C>,
    context_provider: SystemContextProvider,
}

impl<C> LlmBridge<C> {
    /// The composer this bridge uses.
    pub closed spec fn composer_view(&self) -> PromptComposer {
        self.composer
    }

    /// The client this bridge sends requests to.
    pub closed spec fn client_view(&self) -> Arc<C> {
        self.client
    }

    /// Constructs a bridge with a model name and context cap.
    pub fn new(client: Arc<C>, model: &str, max_context_chars: usize) -> (b: Self)
        ensures
            b.client_view() == client,
            b.composer_view().model_view() == model@,
            b.composer_view().cap() == max_context_chars,
    {
        LlmBridge {
            composer: PromptComposer::new(model, max_context_chars),
            client,
            context_provider: SystemContextProvider::new(),
        }
    }

    /// Constructs a bridge from an [`LlmConfig`]; fails as
    /// [`PromptComposer::from_config`] does.
    pub fn from_config(client: Arc<C>, config: &LlmConfig) -> (res: Result<Self, LlmError>)
        ensures
            !config.enabled ==> (res matches Err(e) && e == LlmError::Disabled),
            config.enabled && config.model is None ==> (res matches Err(e) && e
                == LlmError::ModelNotSpecified),
            config.enabled && config.model is Some ==> (res matches Ok(b)
                && b.client_view() == client
                && b.composer_view().model_view() == config.model->0@
                && b.composer_view().cap() == config.invocation.max_context_chars as usize),
    {
        let composer = PromptComposer::from_config(config)?;
        Ok(LlmBridge { composer, client, context_provider: SystemContextProvider::new() })
    }

    /// The model name this bridge sends in every request.
    pub fn model(&self) -> (s: &str)
        ensures
            s@ == self.composer_view().model_view(),
    {
        self.composer.model()
    }

    /// The composer this bridge uses.
    pub fn composer(&self) -> (c: &PromptComposer)
        ensures
            *c == self.composer_view(),
    {
        &self.composer
    }

    /// The client this bridge was built with.
    pub fn client(&self) -> (c: &Arc<C>)
        ensures
            *c == self.client_view(),
    {
        &self.client
    }

    /// The context provider this bridge uses.
    pub fn context_provider(&self) -> &SystemContextProvider {
        &self.context_provider
    }

    /// Turns the model's response text into an AI-generated proposed
    /// command, keeping the raw text; fails as the response parser does.
    pub fn proposal_from_response(text: &str) -> (res: Result<ProposedCommand, LlmError>)
        ensures
            match spec_parse_response(text@) {
                Ok(t) => res matches Ok(p) && string_views(p.argv@) == t && p.source
                    == CommandSource::AiGenerated && p.raw_response@ == text@,
                Err(m) => res matches Err(e) && e matches LlmError::Parse(msg) && msg@ == m,
            },
    {
        let argv = parse_command_response(text)?;
        Ok(ProposedCommand::new(argv, CommandSource::AiGenerated, text))
    }
}

} // verus!
