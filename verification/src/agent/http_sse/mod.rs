//! Agents behind an HTTP endpoint that streams its events.

use vstd::prelude::*;

use crate::agent::cli::stream::{help_events, is_answer};
use crate::config::AgentConfig;
use crate::error::{ErrorV, GatewayError};
use crate::strs::{begins, concat2, same, starts_with, stripped_end, trim_end_char};
use crate::types::AgentEvent;

pub mod convert;
pub mod sse;

verus! {

/// The path under which WeChat messages are processed.
pub const WECHAT_PROCESS_PATH: &'static str = "/api/integrations/wechat/process";

/// What a sender is told whose message the endpoint does not take.
pub const MESSAGE_REFUSED: &'static str = "消息无法处理。仅支持文字及 JPEG、PNG、WebP 图片；每条最多 3 张、单图最多 8 MB。请检查后重新发送。";

/// Where the endpoint is, and as whom to call it.
pub struct HttpSseBackend {
    pub base_url: String,
    pub path: String,
    pub agent_id: String,
    pub bearer_token: Option<String>,
}

/// The URL of the endpoint.
pub open spec fn process_url_of(base_url: Seq<char>, path: Seq<char>) -> Seq<char> {
    if begins(path, "/"@) {
        base_url + path
    } else {
        base_url + "/"@ + path
    }
}

impl HttpSseBackend {
    /// The endpoint that is configured.
    pub fn from_config(cfg: &AgentConfig) -> (r: HttpSseBackend)
        ensures
            r.base_url@ == stripped_end(cfg.base_url@, '/'),
            r.path@ == cfg.path@,
            r.agent_id@ == cfg.agent_id@,
            r.bearer_token.deep_view() == if cfg.bearer_token@.len() == 0 {
                None
            } else {
                Some(cfg.bearer_token@)
            },
    {
        let bearer: Option<String> = if cfg.bearer_token.as_str().is_empty() {
            None
        } else {
            Some(cfg.bearer_token.clone())
        };
        HttpSseBackend {
            base_url: trim_end_char(cfg.base_url.as_str(), '/').to_owned(),
            path: cfg.path.clone(),
            agent_id: cfg.agent_id.clone(),
            bearer_token: bearer,
        }
    }

    /// The URL of the endpoint.
    pub fn process_url(&self) -> (r: String)
        ensures
            r@ == process_url_of(self.base_url@, self.path@),
    {
        let mut r: String = self.base_url.clone();
        if !starts_with(self.path.as_str(), "/") {
            r.append("/");
        }
        r.append(self.path.as_str());
        r
    }

    /// The headers of a call, by name.
    pub fn headers(&self) -> (r: Vec<(String, String)>)
        ensures
            r.deep_view() == match self.bearer_token.deep_view() {
                Some(token) => seq![
                    ("content-type"@, "application/json"@),
                    ("X-Agent-Id"@, self.agent_id@),
                    ("authorization"@, "Bearer "@ + token),
                ],
                None => seq![
                    ("content-type"@, "application/json"@),
                    ("X-Agent-Id"@, self.agent_id@),
                ],
            },
    {
        let mut h: Vec<(String, String)> = Vec::new();
        h.push(("content-type".to_owned(), "application/json".to_owned()));
        h.push(("X-Agent-Id".to_owned(), self.agent_id.clone()));
        match &self.bearer_token {
            Some(token) => {
                h.push(("authorization".to_owned(), concat2("Bearer ", token.as_str())));
                assert(h.deep_view() =~= seq![
                    ("content-type"@, "application/json"@),
                    ("X-Agent-Id"@, self.agent_id@),
                    ("authorization"@, "Bearer "@ + token@),
                ]);
            },
            None => {
                assert(h.deep_view() =~= seq![
                    ("content-type"@, "application/json"@),
                    ("X-Agent-Id"@, self.agent_id@),
                ]);
            },
        }
        h
    }

    /// What becomes of a call that the endpoint refused: a WeChat sender whose message is too
    /// large or not of a kind that is taken is told so; anything else is an error.
    pub fn refused(&self, status: u16, body: &str) -> (r: Result<Vec<AgentEvent>, GatewayError>)
        ensures
            match r {
                Ok(events) => self.path@ == WECHAT_PROCESS_PATH@ && (status == 413 || status == 422)
                    && is_answer(events.deep_view(), MESSAGE_REFUSED@),
                Err(e) => !(self.path@ == WECHAT_PROCESS_PATH@ && (status == 413 || status == 422))
                    && e@ == (ErrorV::Api { status: status, body: body@ }),
            },
    {
        if same(self.path.as_str(), WECHAT_PROCESS_PATH) && (status == 413 || status == 422) {
            return Ok(help_events(MESSAGE_REFUSED));
        }
        Err(GatewayError::Api { status: status, body: body.to_owned() })
    }
}

} // verus!
