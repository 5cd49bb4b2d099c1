//! The command tree of the API surface, as bare data. Everything here is
//! pass-through to the hosted API client in the binary; only the listen
//! pipeline has logic of its own.

use vstd::prelude::*;
use crate::cli_types::{MessageAttemptListAttemptedDestinationsOptions,
    MessageAttemptListByEndpointOptions, MessageAttemptListByMsgOptions, PostOptions};

verus! {

/// Authentication tasks, such as getting dashboard URLs.
pub struct AuthenticationArgs {
    pub command: AuthenticationCommands,
}

pub enum AuthenticationCommands {
    /// Get a dashboard URL for the given app.
    DashboardAccess { app_id: String, post_options: Option<PostOptions> },
    /// Invalidates the given dashboard key.
    Logout { dashboard_auth_token: String, post_options: Option<PostOptions> },
}

/// Lookup, listing and resending of message attempts.
pub struct MessageAttemptArgs {
    pub command: MessageAttemptCommands,
}

pub enum MessageAttemptCommands {
    /// List attempts by endpoint id.
    ListByEndpoint {
        app_id: String,
        endpoint_id: String,
        options: MessageAttemptListByEndpointOptions,
    },
    /// List attempts by message id.
    ListByMsg { app_id: String, msg_id: String, options: MessageAttemptListByMsgOptions },
    /// Get one attempt by id.
    Get { app_id: String, msg_id: String, attempt_id: String },
    /// Deletes the given attempt's response body.
    ExpungeContent { app_id: String, msg_id: String, attempt_id: String },
    /// List endpoints attempted by a given message.
    ListAttemptedDestinations {
        app_id: String,
        msg_id: String,
        options: MessageAttemptListAttemptedDestinationsOptions,
    },
    /// Resend a message to the specified endpoint.
    Resend { app_id: String, msg_id: String, endpoint_id: String },
}

/// Verifying and signing webhooks with the shared signature scheme.
pub struct SignatureArgs {
    pub command: SignatureCommands,
}

pub enum SignatureCommands {
    Sign,
    /// Verify the signature of a webhook message.
    Verify,
}

} // verus!
