//! What serving a message needs: the configuration, the access lists and the language.

use vstd::prelude::*;

use crate::acl::AccessControl;
use crate::config::{acl_flags_of, AppConfig};
use crate::error::{ErrorV, GatewayError};
use crate::pipeline::{process_native, processed, NativeMessage, ProcessedReply, ReplyV};
use crate::types::AgentEvent;

verus! {

/// What serving a message needs.
pub struct GatewayContext {
    pub config: AppConfig,
    pub acl: AccessControl,
    pub language: String,
}

impl GatewayContext {
    /// The context of a configuration; it speaks the language of the agent.
    pub fn new(config: AppConfig, acl: AccessControl) -> (r: GatewayContext)
        ensures
            r.config == config,
            r.acl == acl,
            r.language@ == config.agent.language@,
    {
        let language: String = config.agent.language.clone();
        GatewayContext { config: config, acl: acl, language: language }
    }

    /// The reply to a message, from what the agent says: `broken` is the error that its events end
    /// with, where they do. Access control is what the configuration of the channel says.
    pub fn handle_native(
        &self,
        native: &NativeMessage,
        events: &Vec<AgentEvent>,
        broken: Option<GatewayError>,
    ) -> (r: Result<ProcessedReply, GatewayError>)
        ensures
            ({
                let (dm, group) = acl_flags_of(self.config.channels, native@.channel_id);
                processed(
                    self.acl,
                    self.language@,
                    dm,
                    group,
                    native@,
                    events.deep_view(),
                    match broken {
                        Some(e) => Some(e@),
                        None => None,
                    },
                )
            }) == (match r {
                Ok(reply) => Ok::<ReplyV, ErrorV>(reply@),
                Err(e) => Err::<ReplyV, ErrorV>(e@),
            }),
    {
        let flags: (bool, bool) = self.config.channels.acl_flags(native.channel_id.as_str());
        process_native(
            &self.acl,
            self.language.as_str(),
            flags.0,
            flags.1,
            native,
            events,
            broken,
        )
    }
}

} // verus!
