//! Client side of the task-control conversation of a launch.

use vstd::prelude::*;

use crate::control::{numbered, ControlRequest, ControlResponse, ResponseView};
use crate::launcher::{
    observed_error, validate_observed_task, FailureView, LaunchError, TaskBinding,
};
use crate::text::{append, append_chars, chars_of, format_number, text_of};

verus! {

/// Text with quotes and escapes, as std's `Debug` writes a `str`.
pub uninterp spec fn quoted_text(text: Seq<char>) -> Seq<char>;

/// std's `Debug` of `str`, through `format`: the text between quotes, with
/// escapes. What exactly is escaped is left unsaid; it depends on the text
/// alone.
#[verifier::external_body]
fn quoted(text: &str) -> (written: String)
    ensures
        written@ == quoted_text(text@),
{
    format!("{:?}", text)
}

/// Text of a response in a diagnostic.
pub open spec fn response_text(response: ResponseView) -> Seq<char> {
    match response {
        ResponseView::ServerHello { major, minor } => numbered(
            numbered("ServerHello { major: "@, major as int, ", minor: "@),
            minor as int,
            " }"@,
        ),
        ResponseView::Reserved { request_id, object, display } => numbered(
            numbered(
                numbered("Reserved { request_id: "@, request_id as int, ", object: "@),
                object as int,
                ", display: "@,
            ),
            display as int,
            " }"@,
        ),
        ResponseView::Bound { request_id, object, task, display, android_display } => numbered(
            numbered(
                numbered(
                    numbered(
                        numbered("Bound { request_id: "@, request_id as int, ", object: "@),
                        object as int,
                        ", task: "@,
                    ),
                    task as int,
                    ", display: "@,
                ),
                display as int,
                ", android_display: "@,
            ),
            android_display as int,
            " }"@,
        ),
        ResponseView::Removed { request_id, object } => numbered(
            numbered("Removed { request_id: "@, request_id as int, ", object: "@),
            object as int,
            " }"@,
        ),
        ResponseView::Error { request_id, code, message } => numbered(
            "Error { request_id: "@,
            request_id as int,
            ", code: "@,
        ) + code.name() + ", message: "@ + quoted_text(message) + " }"@,
    }
}

fn add_number(text: &mut Vec<char>, number: u64, after: &str)
    ensures
        final(text)@ == numbered(old(text)@, number as int, after@),
{
    append_chars(text, &format_number(number));
    append(text, after);
}

fn describe_response(response: &ControlResponse) -> (text: Vec<char>)
    ensures
        text@ == response_text(response@),
{
    match response {
        ControlResponse::ServerHello { major, minor } => {
            let mut text: Vec<char> = chars_of("ServerHello { major: ");
            add_number(&mut text, *major as u64, ", minor: ");
            add_number(&mut text, *minor as u64, " }");
            text
        },
        ControlResponse::Reserved { request_id, object, display } => {
            let mut text: Vec<char> = chars_of("Reserved { request_id: ");
            add_number(&mut text, *request_id, ", object: ");
            add_number(&mut text, *object, ", display: ");
            add_number(&mut text, *display, " }");
            text
        },
        ControlResponse::Bound { request_id, object, task, display, android_display } => {
            let mut text: Vec<char> = chars_of("Bound { request_id: ");
            add_number(&mut text, *request_id, ", object: ");
            add_number(&mut text, *object, ", task: ");
            add_number(&mut text, *task, ", display: ");
            add_number(&mut text, *display, ", android_display: ");
            add_number(&mut text, *android_display as u64, " }");
            text
        },
        ControlResponse::Removed { request_id, object } => {
            let mut text: Vec<char> = chars_of("Removed { request_id: ");
            add_number(&mut text, *request_id, ", object: ");
            add_number(&mut text, *object, " }");
            text
        },
        ControlResponse::Error { request_id, code, message } => {
            let mut text: Vec<char> = chars_of("Error { request_id: ");
            add_number(&mut text, *request_id, ", code: ");
            append(&mut text, code.label());
            append(&mut text, ", message: ");
            append(&mut text, quoted(message.as_str()).as_str());
            append(&mut text, " }");
            text
        },
    }
}

/// Failure of a request that was not answered as it should be.
pub open spec fn failed_response(request_id: u64, response: ResponseView) -> FailureView {
    match response {
        ResponseView::Error { request_id: actual, code, message } => if actual == request_id {
            FailureView::Control(code.name() + ": "@ + message)
        } else {
            FailureView::Control(
                numbered(
                    "request "@,
                    request_id as int,
                    " received unexpected response "@,
                ) + response_text(response),
            )
        },
        _ => FailureView::Control(
            numbered("request "@, request_id as int, " received unexpected response "@)
                + response_text(response),
        ),
    }
}

/// Failure of a request that was not answered as it should be.
pub fn response_error(request_id: u64, response: &ControlResponse) -> (error: LaunchError)
    ensures
        error@ == failed_response(request_id, response@),
{
    if let ControlResponse::Error { request_id: actual, code, message } = response {
        if *actual == request_id {
            let mut text: Vec<char> = chars_of(code.label());
            append(&mut text, ": ");
            append(&mut text, message.as_str());
            return LaunchError::Control(text_of(&text));
        }
    }
    let mut text: Vec<char> = chars_of("request ");
    add_number(&mut text, request_id, " received unexpected response ");
    append_chars(&mut text, &describe_response(response));
    LaunchError::Control(text_of(&text))
}

/// State of the conversation: protocol version and next request number.
#[derive(Clone, Copy, Debug, PartialEq, Eq, Structural)]
pub struct TaskControlClient {
    /// Protocol version of the client.
    pub major: u16,
    /// Number of the next request.
    pub next_request: u64,
}

impl TaskControlClient {
    /// Conversation before its handshake.
    pub fn new(major: u16) -> (client: TaskControlClient)
        ensures
            client == (TaskControlClient { major, next_request: 1 }),
    {
        TaskControlClient { major, next_request: 1 }
    }

    /// First request of the conversation.
    pub fn hello(&self) -> (request: ControlRequest)
        ensures
            request == (ControlRequest::Hello { min_major: self.major, max_major: self.major }),
    {
        ControlRequest::Hello { min_major: self.major, max_major: self.major }
    }

    /// Check the answer to the first request.
    pub fn check_hello(&self, response: &ControlResponse) -> (result: Result<(), LaunchError>)
        ensures
            match response@ {
                ResponseView::ServerHello { major, .. } if major == self.major => result is Ok,
                other => {
                    &&& result is Err
                    &&& result->Err_0@ == FailureView::Control(
                        "unexpected hello response "@ + response_text(other),
                    )
                },
            },
    {
        if let ControlResponse::ServerHello { major, .. } = response {
            if *major == self.major {
                return Ok(());
            }
        }
        let mut text: Vec<char> = chars_of("unexpected hello response ");
        append_chars(&mut text, &describe_response(response));
        Err(LaunchError::Control(text_of(&text)))
    }

    /// Refuse a response that came with descriptors.
    pub fn check_descriptors(&self, count: usize) -> (result: Result<(), LaunchError>)
        ensures
            if count == 0 {
                result is Ok
            } else {
                &&& result is Err
                &&& result->Err_0@ == FailureView::Control(
                    "task-control response carried forbidden descriptors"@,
                )
            },
    {
        if count != 0 {
            return Err(
                LaunchError::Control(
                    "task-control response carried forbidden descriptors".to_owned(),
                ),
            );
        }
        Ok(())
    }

    /// Number for a request. No number is used twice.
    pub fn request_id(&mut self) -> (result: Result<u64, LaunchError>)
        ensures
            final(self).major == old(self).major,
            if old(self).next_request == u64::MAX {
                &&& result is Err
                &&& result->Err_0@ == FailureView::Control("request identity exhausted"@)
                &&& final(self).next_request == old(self).next_request
            } else {
                &&& result is Ok
                &&& result->Ok_0 == old(self).next_request
                &&& final(self).next_request == old(self).next_request + 1
            },
    {
        let identity: u64 = self.next_request;
        if identity == u64::MAX {
            return Err(LaunchError::Control("request identity exhausted".to_owned()));
        }
        self.next_request = identity + 1;
        Ok(identity)
    }

    /// Request that registers a task of an ordinary Android display.
    pub fn register_direct(&mut self, package: &str, task: u64, android_display: u32) -> (result: Result<
        ControlRequest,
        LaunchError,
    >)
        ensures
            final(self).major == old(self).major,
            if old(self).next_request == u64::MAX {
                &&& result is Err
                &&& result->Err_0@ == FailureView::Control("request identity exhausted"@)
                &&& final(self).next_request == old(self).next_request
            } else {
                &&& final(self).next_request == old(self).next_request + 1
                &&& match result {
                    Ok(ControlRequest::RegisterDirect {
                        request_id,
                        package: named,
                        task: target,
                        android_display: display,
                    }) => {
                        &&& request_id == old(self).next_request
                        &&& named@ == package@
                        &&& target == task
                        &&& display == android_display
                    },
                    _ => false,
                }
            },
    {
        let request_id: u64 = self.request_id()?;
        Ok(
            ControlRequest::RegisterDirect {
                request_id,
                package: package.to_owned(),
                task,
                android_display,
            },
        )
    }
}

/// Request that binds a task which the privileged task observer has resolved
/// already. No activity is started, so that intent extras, grants, results and
/// Android's own choice of the task stay as they are.
pub fn bind_existing_task(client: &mut TaskControlClient, package: &str, user: u32, task: u64) -> (result:
    Result<ControlRequest, LaunchError>)
    ensures
        final(client).major == old(client).major,
        match observed_error(package@, user, task) {
            Some(message) => {
                &&& result is Err
                &&& result->Err_0@ == FailureView::InvalidRequest(message)
                &&& *final(client) == *old(client)
            },
            None => if old(client).next_request == u64::MAX {
                &&& result is Err
                &&& result->Err_0@ == FailureView::Control("request identity exhausted"@)
                &&& *final(client) == *old(client)
            } else {
                &&& final(client).next_request == old(client).next_request + 1
                &&& match result {
                    Ok(ControlRequest::RegisterDirect {
                        request_id,
                        package: named,
                        task: target,
                        android_display,
                    }) => {
                        &&& request_id == old(client).next_request
                        &&& named@ == package@
                        &&& target == task
                        &&& android_display == 0
                    },
                    _ => false,
                }
            },
        },
{
    validate_observed_task(package, user, task)?;
    client.register_direct(package, task, 0)
}

/// Binding that the answer to a registration tells, unless it answers another
/// request, names another task or display, or reports a failure.
pub fn registered(request_id: u64, task: u64, android_display: u32, response: &ControlResponse) -> (result:
    Result<TaskBinding, LaunchError>)
    ensures
        match response@ {
            ResponseView::Bound {
                request_id: actual,
                object,
                task: bound,
                display,
                android_display: shown,
            } if actual == request_id && bound == task && shown == android_display => result == Ok::<
                TaskBinding,
                LaunchError,
            >(
                (TaskBinding {
                    object,
                    composer_display: display,
                    android_display: android_display as u64,
                    task,
                }),
            ),
            other => result is Err && result->Err_0@ == failed_response(request_id, other),
        },
{
    if let ControlResponse::Bound {
        request_id: actual,
        object,
        task: bound,
        display,
        android_display: shown,
    } = response {
        if *actual == request_id && *bound == task && *shown == android_display {
            return Ok(
                TaskBinding {
                    object: *object,
                    composer_display: *display,
                    android_display: android_display as u64,
                    task,
                },
            );
        }
    }
    Err(response_error(request_id, response))
}

/// Law: an answer under the request's own number that reports an error is told
/// by its code and its message; any other answer is unexpected.
pub proof fn law_failed_answers_are_told(
    request_id: u64,
    actual: u64,
    code: crate::control::ControlErrorCode,
    message: Seq<char>,
)
    ensures
        failed_response(
            request_id,
            (ResponseView::Error { request_id, code, message }),
        ) == FailureView::Control(code.name() + ": "@ + message),
        actual != request_id ==> failed_response(
            request_id,
            (ResponseView::Error { request_id: actual, code, message }),
        ) == FailureView::Control(
            "request "@ + crate::text::decimal(request_id as int) + " received unexpected response "@
                + response_text((ResponseView::Error { request_id: actual, code, message })),
        ),
{
}

} // verus!
