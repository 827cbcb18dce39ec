//! Endpoint types (the upstream protocols a channel can speak), their
//! request paths and wire names, and the protocol converters chosen for them.
use vstd::prelude::*;
use crate::text::text_eq;

verus! {

/// Protocol of an upstream endpoint.
#[derive(Debug, Clone, Copy, PartialEq, Eq, Structural)]
pub enum EndpointType {
    OpenAiChat,
    OpenAiResponse,
    Anthropic,
    Gemini,
    OpenAiEmbedding,
    OpenAiImages,
}

/// Request path appended to an endpoint's base URL.
pub open spec fn path_of(t: EndpointType) -> Seq<char> {
    match t {
        EndpointType::OpenAiChat => "/chat/completions"@,
        EndpointType::OpenAiResponse => "/responses"@,
        EndpointType::Anthropic => "/messages"@,
        EndpointType::Gemini => "/models/{model}:generateContent"@,
        EndpointType::OpenAiEmbedding => "/embeddings"@,
        EndpointType::OpenAiImages => "/images/generations"@,
    }
}

/// Wire name of an endpoint type, as stored in channel configuration.
pub open spec fn name_of(t: EndpointType) -> Seq<char> {
    match t {
        EndpointType::OpenAiChat => "openai_chat"@,
        EndpointType::OpenAiResponse => "openai_response"@,
        EndpointType::Anthropic => "anthropic"@,
        EndpointType::Gemini => "gemini"@,
        EndpointType::OpenAiEmbedding => "openai_embedding"@,
        EndpointType::OpenAiImages => "openai_images"@,
    }
}

/// The endpoint type whose wire name is `s`, if any.
pub open spec fn endpoint_named(s: Seq<char>) -> Option<EndpointType> {
    if s == "openai_chat"@ {
        Some(EndpointType::OpenAiChat)
    } else if s == "openai_response"@ {
        Some(EndpointType::OpenAiResponse)
    } else if s == "anthropic"@ {
        Some(EndpointType::Anthropic)
    } else if s == "gemini"@ {
        Some(EndpointType::Gemini)
    } else if s == "openai_embedding"@ {
        Some(EndpointType::OpenAiEmbedding)
    } else if s == "openai_images"@ {
        Some(EndpointType::OpenAiImages)
    } else {
        None
    }
}

impl EndpointType {
    /// Request path of this endpoint type.
    pub fn path(&self) -> (r: &'static str)
        ensures
            r@ == path_of(*self),
    {
        match self {
            EndpointType::OpenAiChat => "/chat/completions",
            EndpointType::OpenAiResponse => "/responses",
            EndpointType::Anthropic => "/messages",
            EndpointType::Gemini => "/models/{model}:generateContent",
            EndpointType::OpenAiEmbedding => "/embeddings",
            EndpointType::OpenAiImages => "/images/generations",
        }
    }

    /// Wire name of this endpoint type.
    pub fn name(&self) -> (r: &'static str)
        ensures
            r@ == name_of(*self),
    {
        match self {
            EndpointType::OpenAiChat => "openai_chat",
            EndpointType::OpenAiResponse => "openai_response",
            EndpointType::Anthropic => "anthropic",
            EndpointType::Gemini => "gemini",
            EndpointType::OpenAiEmbedding => "openai_embedding",
            EndpointType::OpenAiImages => "openai_images",
        }
    }
}

/// The endpoint type named by a test-protocol string, if any.
pub fn parse_protocol(protocol: &str) -> (r: Option<EndpointType>)
    ensures
        r == endpoint_named(protocol@),
{
    if text_eq(protocol, "openai_chat") {
        Some(EndpointType::OpenAiChat)
    } else if text_eq(protocol, "openai_response") {
        Some(EndpointType::OpenAiResponse)
    } else if text_eq(protocol, "anthropic") {
        Some(EndpointType::Anthropic)
    } else if text_eq(protocol, "gemini") {
        Some(EndpointType::Gemini)
    } else if text_eq(protocol, "openai_embedding") {
        Some(EndpointType::OpenAiEmbedding)
    } else if text_eq(protocol, "openai_images") {
        Some(EndpointType::OpenAiImages)
    } else {
        None
    }
}

/// Reading back the wire name of an endpoint type gives that type again.
pub proof fn lemma_name_roundtrip(t: EndpointType)
    ensures
        endpoint_named(name_of(t)) == Some(t),
{
    reveal_strlit("openai_chat");
    reveal_strlit("openai_response");
    reveal_strlit("anthropic");
    reveal_strlit("gemini");
    reveal_strlit("openai_embedding");
    reveal_strlit("openai_images");
    assert("openai_chat"@.len() == 11);
    assert("openai_response"@.len() == 15);
    assert("anthropic"@.len() == 9);
    assert("gemini"@.len() == 6);
    assert("openai_embedding"@.len() == 16);
    assert("openai_images"@.len() == 13);
}

/// One endpoint of a channel: its protocol and base URL.
#[derive(Debug, Clone)]
pub struct EndpointConfig {
    pub endpoint_type: EndpointType,
    pub base_url: String,
}

impl EndpointConfig {
    /// A copy of this endpoint configuration.
    pub fn duplicate(&self) -> (r: EndpointConfig)
        ensures
            r == *self,
    {
        EndpointConfig { endpoint_type: self.endpoint_type, base_url: self.base_url.clone() }
    }
}

/// The protocol converter used on one side of a conversion.
#[derive(Debug, Clone, Copy, PartialEq, Eq, Structural)]
pub enum Converter {
    OpenAiChat,
    OpenAiResponses,
    Anthropic,
}

/// Converter for an endpoint type; types without a converter of their own use the chat one.
pub open spec fn converter_for(t: EndpointType) -> Converter {
    match t {
        EndpointType::OpenAiResponse => Converter::OpenAiResponses,
        EndpointType::Anthropic => Converter::Anthropic,
        _ => Converter::OpenAiChat,
    }
}

/// Inbound converter (client side) for an endpoint type.
pub fn get_inbound(endpoint_type: &EndpointType) -> (r: Converter)
    ensures
        r == converter_for(*endpoint_type),
{
    match endpoint_type {
        EndpointType::OpenAiChat => Converter::OpenAiChat,
        EndpointType::OpenAiResponse => Converter::OpenAiResponses,
        EndpointType::Anthropic => Converter::Anthropic,
        _ => Converter::OpenAiChat,
    }
}

/// Outbound converter (upstream side) for an endpoint type.
pub fn get_outbound(endpoint_type: &EndpointType) -> (r: Converter)
    ensures
        r == converter_for(*endpoint_type),
{
    match endpoint_type {
        EndpointType::OpenAiChat => Converter::OpenAiChat,
        EndpointType::OpenAiResponse => Converter::OpenAiResponses,
        EndpointType::Anthropic => Converter::Anthropic,
        _ => Converter::OpenAiChat,
    }
}

/// Load-balancing mode of a group.
#[derive(Debug, Clone, Copy, PartialEq, Eq, Structural)]
pub enum GroupMode {
    RoundRobin,
    Random,
    Failover,
    Weighted,
}

/// Display name of a group mode.
pub open spec fn mode_name(m: GroupMode) -> Seq<char> {
    match m {
        GroupMode::RoundRobin => "round_robin"@,
        GroupMode::Random => "random"@,
        GroupMode::Failover => "failover"@,
        GroupMode::Weighted => "weighted"@,
    }
}

impl GroupMode {
    /// Display name of this mode.
    pub fn to_text(&self) -> (r: String)
        ensures
            r@ == mode_name(*self),
    {
        match self {
            GroupMode::RoundRobin => String::from_str("round_robin"),
            GroupMode::Random => String::from_str("random"),
            GroupMode::Failover => String::from_str("failover"),
            GroupMode::Weighted => String::from_str("weighted"),
        }
    }
}

} // verus!
