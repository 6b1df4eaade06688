//! Transactional mail service, under `/v1/mail/`. Sending and status queries
//! are not offered yet: both answer with a `Decode` error that says so.

pub mod queue_status;

use std::collections::HashMap;

use vstd::prelude::*;

use crate::{WaApi, WaError};

verus! {

pub struct Address {
    pub email: String,
    pub name: String,
}

pub struct Recipient {
    pub email: String,
    pub name: String,
    pub vars: HashMap<String, String>,
}

/// Fields of POST /v1/mail/send.
///
/// When `template` is not empty it is the id of a template registered and
/// active under the authenticating account: the server builds the mail from
/// it instead of `subject`/`html`/`text`, personalised with the `vars` of `to`
/// (written `{{key}}` in the template, without prefix). The template sees only
/// the vars. The server checks that the template exists and is active before
/// queueing; if not, `send` fails with the API's error (codes 3025/3026).
pub struct SendRequest {
    pub from: Address,
    pub to: Recipient,
    pub template: String,
    pub subject: String,
    pub html: String,
    pub text: String,
    pub tags: Vec<String>,
    pub track_opens: bool,
    pub track_clicks: bool,
    /// When true the server waits (up to about 20 s) for the real outcome of
    /// the delivery before answering, instead of answering at once with
    /// `queue_status` "pending".
    pub wait_send: bool,
}

/// Reply of `Mail::send`.
pub struct SendResult {
    pub status: String,
    pub queue_key: i64,
    pub queue_status: String,
    pub error_detail: String,
    pub to: String,
}

/// Reply of `Mail::status`.
pub struct StatusResult {
    pub status: String,
    pub queue_key: i64,
    pub queue_status: String,
    pub error_detail: String,
}

/// Binds an account to the mail service of the API.
pub struct Mail<'a> {
    api: &'a WaApi,
}

impl<'a> Mail<'a> {
    /// The account whose requests this service would sign.
    pub closed spec fn account(&self) -> WaApi {
        *self.api
    }

    pub fn new(api: &'a WaApi) -> (mail: Self)
        ensures
            mail.account() == *api,
    {
        Mail { api }
    }

    /// Sends a mail to one recipient (POST /v1/mail/send). Not offered yet:
    /// always fails with a `Decode` error that says so.
    pub fn send(&self, _req: SendRequest) -> (res: Result<SendResult, WaError>)
        ensures
            res matches Err(WaError::Decode(msg)) && msg@
                == "Mail::send() aún no está implementado en el SDK de Rust"@,
    {
        Err(WaError::Decode("Mail::send() aún no está implementado en el SDK de Rust".to_owned()))
    }

    /// Queries the real status of a mail sent with `send`
    /// (GET /v1/mail/status/{queue_key}). Not offered yet: always fails with a
    /// `Decode` error that says so.
    pub fn status(&self, _queue_key: i64) -> (res: Result<StatusResult, WaError>)
        ensures
            res matches Err(WaError::Decode(msg)) && msg@
                == "Mail::status() aún no está implementado en el SDK de Rust"@,
    {
        Err(
            WaError::Decode(
                "Mail::status() aún no está implementado en el SDK de Rust".to_owned(),
            ),
        )
    }
}

} // verus!
