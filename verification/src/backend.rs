//! Lambda backends as VCL sees them.

use crate::fetch::{is_invocation, VCLBackend};
use crate::invocation::{InvokeRequest, InvokeResponse, DEFAULT_LAMBDA_TIMEOUT_SECS};
use crate::outside::{bytes_as_slice, content, string_error_text, string_from_utf8};
use crate::probe::{build_probe_state, is_built_state, Probe, ProbeError, Span};
use crate::stats::LambdaBackendStats;
use crate::text::same_text;
use vstd::prelude::*;
use vstd::slice::slice_to_vec;
use vstd::utf8::{
    decode_utf8, encode_utf8, encode_utf8_decode_utf8, encode_utf8_valid_utf8, valid_utf8,
};

verus! {

/// How a function answers.
#[derive(Clone, Copy, Debug, PartialEq, Eq, Structural)]
pub enum ResponseFormat {
    /// In JSON
    Json,
    /// With a raw HTTP response
    Http,
}

impl ResponseFormat {
    /// The format that has this name.
    pub open spec fn named(name: Seq<char>) -> Option<ResponseFormat> {
        if name == "json"@ {
            Some(ResponseFormat::Json)
        } else if name == "http"@ {
            Some(ResponseFormat::Http)
        } else {
            None
        }
    }

    /// Finds a format by its name.
    pub fn find(name: &str) -> (format: Option<ResponseFormat>)
        ensures
            format == ResponseFormat::named(name@),
    {
        if same_text(name, "json") {
            Some(ResponseFormat::Json)
        } else if same_text(name, "http") {
            Some(ResponseFormat::Http)
        } else {
            None
        }
    }
}

/// Why a backend could not be created.
pub enum BackendError {
    /// There is no response format of this name
    ResponseFormat(String),
    /// The probe of the backend of this name could not be set up
    Probe { vcl_name: String, error: ProbeError },
}

impl BackendError {
    /// The message of the error.
    pub open spec fn text(&self) -> Seq<char> {
        match self {
            BackendError::ResponseFormat(name) => "Invalid response_format '"@ + name@
                + "': must be 'json' or 'http'"@,
            BackendError::Probe { vcl_name, error } => "lambda: failed to add probe to "@
                + vcl_name@ + " ("@ + error.text() + ")"@,
        }
    }

    /// The message of the error.
    pub fn message(&self) -> (message: String)
        ensures
            message@ == self.text(),
    {
        match self {
            BackendError::ResponseFormat(name) => "Invalid response_format '".to_owned().concat(
                name.as_str(),
            ).concat("': must be 'json' or 'http'"),
            BackendError::Probe { vcl_name, error } => "lambda: failed to add probe to ".to_owned().concat(
                vcl_name.as_str(),
            ).concat(" (").concat(error.message().as_str()).concat(")"),
        }
    }
}

/// Why an invocation from VCL failed.
pub enum InvokeError {
    /// There is nothing to make invocations with yet
    NotInitialized,
    /// The invocation failed; with its message
    Invocation(String),
    /// The function reported an error
    Function(String),
    /// What the function returned is not UTF-8; with the wording of what is wrong
    InvalidUtf8(String),
}

impl InvokeError {
    /// The message of the error.
    pub open spec fn text(&self) -> Seq<char> {
        match self {
            InvokeError::NotInitialized => "VMOD not initialized"@,
            InvokeError::Invocation(message) => message@,
            InvokeError::Function(error) => "Lambda error: "@ + error@,
            InvokeError::InvalidUtf8(error) => "Invalid UTF-8 in response: "@ + error@,
        }
    }

    /// The message of the error.
    pub fn message(&self) -> (message: String)
        ensures
            message@ == self.text(),
    {
        match self {
            InvokeError::NotInitialized => "VMOD not initialized".to_owned(),
            InvokeError::Invocation(message) => message.clone(),
            InvokeError::Function(error) => "Lambda error: ".to_owned().concat(error.as_str()),
            InvokeError::InvalidUtf8(error) => "Invalid UTF-8 in response: ".to_owned().concat(
                error.as_str(),
            ),
        }
    }
}

/// Lambda backend object
#[allow(non_camel_case_types)]
pub struct backend<C> {
    pub name: String,
    pub be: VCLBackend<C>,
}

impl<C> backend<C> {
    /// Whether the backend is one that was just created with these parameters: with their values or
    /// defaults, all counters at zero, and a probe ready to start where there is to be one.
    pub open spec fn is_new(
        self,
        vcl_name: Seq<char>,
        function_name: Seq<char>,
        client: C,
        timeout: Option<Span>,
        probe: Option<Probe>,
        raw_response_mode: bool,
        now: Span,
    ) -> bool {
        &&& self.name@ == vcl_name
        &&& self.be.name@ == vcl_name
        &&& self.be.function_name@ == function_name
        &&& self.be.client == client
        &&& self.be.timeout_secs == match timeout {
            Some(span) => span.secs,
            None => 62,
        }
        &&& self.be.raw_response_mode == raw_response_mode
        &&& self.be.stats == LambdaBackendStats::zero()
        &&& match (probe, self.be.probe_state) {
            (Some(probe), Some(state)) => {
                &&& probe.request is Url
                &&& is_built_state(probe, probe.request->Url_0@, now, state)
            },
            (None, None) => true,
            _ => false,
        }
    }

    /// Create a new Lambda backend
    ///
    /// The backend invokes `function_name` through `client`. A function has `timeout` to answer,
    /// in whole seconds, or 62 s. `response_format` is "json" or "http". The time is `now`, as the
    /// time since the Unix epoch.
    pub fn new(
        vcl_name: &str,
        function_name: &str,
        client: C,
        timeout: Option<Span>,
        probe: Option<Probe>,
        response_format: &str,
        now: Span,
    ) -> (result: Result<backend<C>, BackendError>)
        ensures
            match result {
                Ok(new) => {
                    &&& ResponseFormat::named(response_format@) is Some
                    &&& new.is_new(
                        vcl_name@,
                        function_name@,
                        client,
                        timeout,
                        probe,
                        ResponseFormat::named(response_format@) == Some(ResponseFormat::Http),
                        now,
                    )
                },
                Err(BackendError::ResponseFormat(name)) => {
                    &&& ResponseFormat::named(response_format@) is None
                    &&& name@ == response_format@
                },
                Err(BackendError::Probe { vcl_name: name, error }) => {
                    &&& ResponseFormat::named(response_format@) is Some
                    &&& probe is Some
                    &&& probe->0.request is Text
                    &&& name@ == vcl_name@
                    &&& error is TextRequest
                },
            },
    {
        // Parse response format
        let format = match ResponseFormat::find(response_format) {
            Some(format) => format,
            None => return Err(BackendError::ResponseFormat(response_format.to_owned())),
        };
        backend::with_raw_response_mode(
            vcl_name,
            function_name,
            client,
            timeout,
            probe,
            format == ResponseFormat::Http,
            now,
        )
    }

    /// Creates a new Lambda backend whose function answers with raw HTTP responses or, where
    /// `raw_response_mode` is not set, in JSON.
    pub fn with_raw_response_mode(
        vcl_name: &str,
        function_name: &str,
        client: C,
        timeout: Option<Span>,
        probe: Option<Probe>,
        raw_response_mode: bool,
        now: Span,
    ) -> (result: Result<backend<C>, BackendError>)
        ensures
            match result {
                Ok(new) => new.is_new(
                    vcl_name@,
                    function_name@,
                    client,
                    timeout,
                    probe,
                    raw_response_mode,
                    now,
                ),
                Err(BackendError::Probe { vcl_name: name, error }) => {
                    &&& probe is Some
                    &&& probe->0.request is Text
                    &&& name@ == vcl_name@
                    &&& error is TextRequest
                },
                Err(_) => false,
            },
    {
        let timeout_secs: u64 = match timeout {
            Some(span) => span.secs,
            None => DEFAULT_LAMBDA_TIMEOUT_SECS,
        };
        let probe_state = match probe {
            Some(spec) => match build_probe_state(spec, now) {
                Ok(state) => Some(state),
                Err(error) => {
                    return Err(BackendError::Probe { vcl_name: vcl_name.to_owned(), error });
                },
            },
            None => None,
        };
        Ok(
            backend {
                name: vcl_name.to_owned(),
                be: VCLBackend {
                    name: vcl_name.to_owned(),
                    function_name: function_name.to_owned(),
                    client,
                    timeout_secs,
                    probe_state,
                    raw_response_mode,
                    stats: LambdaBackendStats::new(),
                },
            },
        )
    }

    /// Get the Lambda function name
    pub fn get_function_name(&self) -> (name: String)
        ensures
            name@ == self.be.function_name@,
    {
        self.be.function_name.clone()
    }

    /// Get the AWS region, given what the configuration of the client says
    pub fn get_region(&self, configured: Option<&str>) -> (region: String)
        ensures
            region@ == match configured {
                Some(name) => name@,
                None => "unknown"@,
            },
    {
        match configured {
            Some(name) => name.to_owned(),
            None => "unknown".to_owned(),
        }
    }
}

impl<C: Clone> backend<C> {
    /// Makes ready the invocation of the Lambda function with a JSON payload. `initialized` says
    /// whether there is something to make invocations with.
    pub fn invoke(&self, initialized: bool, payload: &str) -> (result: Result<
        InvokeRequest<C>,
        InvokeError,
    >)
        ensures
            match result {
                Ok(request) => {
                    &&& initialized
                    &&& is_invocation(
                        request,
                        self.be,
                        encode_utf8(payload@),
                        self.be.timeout_secs,
                    )
                },
                Err(InvokeError::NotInitialized) => !initialized,
                Err(_) => false,
            },
    {
        if !initialized {
            return Err(InvokeError::NotInitialized);
        }
        Ok(self.be.invocation(slice_to_vec(payload.as_bytes()), self.be.timeout_secs))
    }
}

/// Whether this is what VCL gets to see of an invocation: the payload as a text, or why there is none.
pub open spec fn is_reply(
    result: Result<InvokeResponse, String>,
    reply: Result<String, InvokeError>,
) -> bool {
    match (result, reply) {
        (Err(message), Err(InvokeError::Invocation(returned))) => returned == message,
        (Ok(response), Err(InvokeError::Function(error))) => response.function_error == Some(error),
        (Ok(response), Err(InvokeError::InvalidUtf8(error))) => {
            &&& response.function_error is None
            &&& response.payload is Some
            &&& !valid_utf8(content(response.payload->0))
            &&& error@ == string_error_text(content(response.payload->0))
        },
        (Ok(response), Ok(text)) => {
            &&& response.function_error is None
            &&& match response.payload {
                Some(payload) => {
                    &&& valid_utf8(content(payload))
                    &&& text@ == decode_utf8(content(payload))
                },
                None => text@.len() == 0,
            }
        },
        _ => false,
    }
}

/// Return the payload as a string, or an error
pub fn invoke_reply(result: Result<InvokeResponse, String>) -> (reply: Result<String, InvokeError>)
    ensures
        is_reply(result, reply),
{
    let response = match result {
        Ok(response) => response,
        Err(message) => return Err(InvokeError::Invocation(message)),
    };
    if let Some(error) = response.function_error {
        return Err(InvokeError::Function(error));
    }
    match response.payload {
        Some(payload) => match string_from_utf8(slice_to_vec(bytes_as_slice(&payload))) {
            Ok(text) => Ok(text),
            Err(error) => Err(InvokeError::InvalidUtf8(error)),
        },
        None => Ok(String::new()),
    }
}

/// What happens to a VCL.
#[derive(Clone, Copy, Debug, PartialEq, Eq, Structural)]
pub enum VclEvent {
    Load,
    Warm,
    Cold,
    Discard,
}

/// What becomes of the runtime that invocations are made with.
#[derive(Clone, Copy, Debug, PartialEq, Eq, Structural)]
pub enum RuntimeAction {
    Create,
    Keep,
}

/// What an event means for the runtime that the backends of a VCL share: it is created when the VCL
/// is loaded.
pub fn event(happened: VclEvent) -> (action: RuntimeAction)
    ensures
        action == (if happened == VclEvent::Load {
            RuntimeAction::Create
        } else {
            RuntimeAction::Keep
        }),
{
    match happened {
        VclEvent::Load => RuntimeAction::Create,
        _ => RuntimeAction::Keep,
    }
}

/// What becomes of the probing of a backend.
#[derive(Clone, Copy, Debug, PartialEq, Eq, Structural)]
pub enum ProbeAction {
    Start,
    Stop,
    Keep,
}

impl<C> VCLBackend<C> {
    /// What an event means for the probing of the backend: it runs while the VCL is warm, where
    /// there is a probe.
    pub fn event(&self, event: VclEvent) -> (action: ProbeAction)
        ensures
            action == (if self.probe_state is None {
                ProbeAction::Keep
            } else {
                match event {
                    VclEvent::Warm => ProbeAction::Start,
                    VclEvent::Cold => ProbeAction::Stop,
                    _ => ProbeAction::Keep,
                }
            }),
    {
        if self.probe_state.is_none() {
            return ProbeAction::Keep;
        }
        match event {
            VclEvent::Warm => ProbeAction::Start,
            VclEvent::Cold => ProbeAction::Stop,
            _ => ProbeAction::Keep,
        }
    }
}

/// There are two response formats, and each has one name.
pub proof fn law_formats_have_one_name(name: Seq<char>)
    ensures
        ResponseFormat::named(name) == Some(ResponseFormat::Json) <==> name == seq![
            'j',
            's',
            'o',
            'n',
        ],
        ResponseFormat::named(name) == Some(ResponseFormat::Http) <==> name == seq![
            'h',
            't',
            't',
            'p',
        ],
{
    reveal_strlit("json");
    reveal_strlit("http");
    assert("json"@ == seq!['j', 's', 'o', 'n']);
    assert("http"@ == seq!['h', 't', 't', 'p']);
    assert("json"@[0] != "http"@[0]);
}

/// A new backend has what it was created with: the function, the client, the whole seconds that an
/// invocation may take, or 62, and the way to read answers. Nothing has been counted, and it is
/// probed exactly if a probe was given.
pub proof fn law_new_backend_has_what_was_given<C>(
    new: backend<C>,
    vcl_name: Seq<char>,
    function_name: Seq<char>,
    client: C,
    timeout: Option<Span>,
    probe: Option<Probe>,
    raw_response_mode: bool,
    now: Span,
)
    requires
        new.is_new(vcl_name, function_name, client, timeout, probe, raw_response_mode, now),
    ensures
        new.name@ == vcl_name,
        new.be.name@ == vcl_name,
        new.be.function_name@ == function_name,
        new.be.client == client,
        timeout is Some ==> new.be.timeout_secs == timeout->0.secs,
        timeout is None ==> new.be.timeout_secs == 62,
        new.be.raw_response_mode == raw_response_mode,
        new.be.probe_state is Some <==> probe is Some,
        probe is Some ==> probe->0.request is Url && is_built_state(
            probe->0,
            probe->0.request->Url_0@,
            now,
            new.be.probe_state->0,
        ),
        new.be.stats.req == 0 && new.be.stats.fail == 0 && new.be.stats.inflight == 0,
        new.be.stats.function_error == 0 && new.be.stats.timeout == 0 && new.be.stats.throttled
            == 0,
        new.be.stats.bereq_hdrbytes == 0 && new.be.stats.bereq_bodybytes == 0,
        new.be.stats.beresp_hdrbytes == 0 && new.be.stats.beresp_bodybytes == 0,
        new.be.stats.invoke_time_ms == 0 && new.be.stats.happy == 0,
{
}

/// The messages of errors in creating a backend and in invoking its function say what is wrong.
pub proof fn law_messages_carry_backend_errors(wording: String, vcl_name: String, error: ProbeError)
    ensures
        BackendError::ResponseFormat(wording).text() == "Invalid response_format '"@ + wording@
            + "': must be 'json' or 'http'"@,
        (BackendError::Probe { vcl_name, error }).text() == "lambda: failed to add probe to "@
            + vcl_name@ + " ("@ + error.text() + ")"@,
        InvokeError::NotInitialized.text() == "VMOD not initialized"@,
        InvokeError::Invocation(wording).text() == wording@,
        InvokeError::Function(wording).text() == "Lambda error: "@ + wording@,
        InvokeError::InvalidUtf8(wording).text() == "Invalid UTF-8 in response: "@ + wording@,
{
}

/// VCL gets the text that a function returned, character for character, or nothing where it returned
/// nothing; the status of the answer plays no part in it. An error of the function comes before what it
/// returned, and a failed invocation leaves its message.
pub proof fn law_reply_is_what_function_returned(
    result: Result<InvokeResponse, String>,
    reply: Result<String, InvokeError>,
    text: Seq<char>,
)
    requires
        is_reply(result, reply),
    ensures
        result is Err ==> reply == Err::<String, InvokeError>(
            InvokeError::Invocation(result->Err_0),
        ),
        result is Ok && result->Ok_0.function_error is Some ==> reply == Err::<String, InvokeError>(
            InvokeError::Function(result->Ok_0.function_error->0),
        ),
        result is Ok && result->Ok_0.function_error is None && result->Ok_0.payload is Some && content(
            result->Ok_0.payload->0,
        ) == encode_utf8(text) ==> reply is Ok && reply->Ok_0@ == text,
        result is Ok && result->Ok_0.function_error is None && result->Ok_0.payload is None
            ==> reply is Ok && reply->Ok_0@.len() == 0,
        result is Ok && result->Ok_0.function_error is None && result->Ok_0.payload is Some
            && !valid_utf8(content(result->Ok_0.payload->0)) ==> reply is Err
            && reply->Err_0 is InvalidUtf8,
{
    encode_utf8_valid_utf8(text);
    encode_utf8_decode_utf8(text);
}

} // verus!
