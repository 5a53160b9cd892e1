//! Turning what a failed D-Bus call or subprocess reported into a
//! [`LocaleError`].

use vstd::prelude::*;

use crate::error::LocaleError;
use crate::text::{
    chars_of, contains_infix, ends_with, has_infix, has_suffix, lowercase, string_of, to_lowercase,
    trim, trimmed,
};

verus! {

/// What a failed D-Bus call reported: the D-Bus error name when the daemon
/// answered with a method error, and the rendered error message.
#[derive(Debug, Clone)]
pub struct DbusFailure {
    pub method_error: Option<String>,
    pub message: String,
}

/// Whether a D-Bus error name is polkit's refusal: denial and
/// cancellation both surface as `org.freedesktop.PolicyKit1.Error.NotAuthorized`
/// (or `…AccessDenied` on some versions).
pub open spec fn polkit_refusal(name: Seq<char>) -> bool {
    has_suffix(name, ".NotAuthorized"@) || has_suffix(name, ".AccessDenied"@)
}

/// Convert a failed D-Bus call into our typed error. Polkit denial and
/// cancellation both surface as `org.freedesktop.PolicyKit1.Error.NotAuthorized`
/// (or `…AccessDenied` on some versions); everything else is just a
/// daemon error with the message the bus reported.
pub fn dbus_to_locale_error(err: &DbusFailure) -> (r: LocaleError)
    ensures
        match err.method_error {
            Some(name) => polkit_refusal(name@) ==> r is Cancelled,
            None => true,
        },
        !(err.method_error matches Some(name) && polkit_refusal(name@)) ==> r == LocaleError::Daemon(
            err.message,
        ),
{
    match &err.method_error {
        Some(name) => {
            let n = chars_of(name.as_str());
            if ends_with(&n, &chars_of(".NotAuthorized")) || ends_with(
                &n,
                &chars_of(".AccessDenied"),
            ) {
                return LocaleError::Cancelled;
            }
        },
        None => {},
    }
    LocaleError::Daemon(err.message.clone())
}

/// Whether `r` is the error for `command` exiting with `status` and the
/// error output `stderr`.
pub open spec fn is_command_failure(
    r: LocaleError,
    command: Seq<char>,
    status: i32,
    stderr: Seq<char>,
) -> bool {
    match r {
        LocaleError::CommandFailed { command: c, status: s, stderr: e } => c@ == command && s
            == status && e@ == stderr,
        _ => false,
    }
}

/// Whether `pkexec`'s lower-cased error output says the authorisation was
/// cancelled: some agents surface the cancellation as text such as
/// "authentication failed" or "dismissed".
pub open spec fn cancellation_text(lower: Seq<char>) -> bool {
    ||| has_infix(lower, "authentication failed"@)
    ||| has_infix(lower, "not authorized"@)
    ||| has_infix(lower, "dismissed"@)
}

/// The error for a `pkexec` run that exited with `status`, given its
/// trimmed error output and that output in lower case: exit 126 or a
/// cancellation text mean the user dismissed the auth dialog or wasn't
/// authorised; anything else is a failed command.
pub fn classify_pkexec_failure(trimmed: &str, lower: &str, status: i32) -> (r: LocaleError)
    ensures
        status == 126 || cancellation_text(lower@) ==> r is Cancelled,
        !(status == 126 || cancellation_text(lower@)) ==> is_command_failure(
            r,
            "pkexec"@,
            status,
            trimmed@,
        ),
{
    if status == 126 {
        return LocaleError::Cancelled;
    }
    let l = chars_of(lower);
    if contains_infix(&l, &chars_of("authentication failed")) || contains_infix(
        &l,
        &chars_of("not authorized"),
    ) || contains_infix(&l, &chars_of("dismissed")) {
        return LocaleError::Cancelled;
    }
    LocaleError::CommandFailed {
        command: string_of(&chars_of("pkexec")),
        status,
        stderr: string_of(&chars_of(trimmed)),
    }
}

/// Map a `pkexec` exit code + stderr into a typed error.
///
/// Exit 126 means "user dismissed the auth dialog or wasn't
/// authorised." Some agents instead surface the cancellation via
/// stderr text such as "authentication failed" or "dismissed".
pub fn classify_pkexec_error(stderr: &str, status: i32) -> (r: LocaleError)
    ensures
        status == 126 || cancellation_text(lowercase(trim(stderr@))) ==> r is Cancelled,
        !(status == 126 || cancellation_text(lowercase(trim(stderr@)))) ==> is_command_failure(
            r,
            "pkexec"@,
            status,
            trim(stderr@),
        ),
{
    let t = string_of(&trimmed(&chars_of(stderr)));
    let lower = to_lowercase(t.as_str());
    classify_pkexec_failure(t.as_str(), lower.as_str(), status)
}

/// The error for a subprocess that exited unsuccessfully: its exit code
/// (`-1` when it was killed by a signal) and its trimmed error output.
pub fn command_failure(command: &str, status: Option<i32>, stderr: &str) -> (r: LocaleError)
    ensures
        is_command_failure(
            r,
            command@,
            match status {
                Some(code) => code,
                None => -1i32,
            },
            trim(stderr@),
        ),
{
    let code = match status {
        Some(code) => code,
        None => -1,
    };
    LocaleError::CommandFailed {
        command: string_of(&chars_of(command)),
        status: code,
        stderr: string_of(&trimmed(&chars_of(stderr))),
    }
}

/// The error for a subprocess that could not be launched, with the
/// operating system's message.
pub fn spawn_failure(command: &str, message: String) -> (r: LocaleError)
    ensures
        r matches LocaleError::CommandSpawnFailed { command: c, source },
        r matches LocaleError::CommandSpawnFailed { command: c, source } ==> c@ == command@
            && source == message,
{
    LocaleError::CommandSpawnFailed { command: string_of(&chars_of(command)), source: message }
}

} // verus!
