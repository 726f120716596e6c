//! The error that a command reports: a message, and the text of the error
//! that caused it, if any.
use vstd::prelude::*;

verus! {

/// The message of an error built from `message`.
pub open spec fn error_message(message: Seq<char>) -> Seq<char> {
    "Error: "@ + message
}

#[verifier::external_type_specification]
#[verifier::external_body]
pub struct ExBacktrace(std::backtrace::Backtrace);

/// Relies on `Backtrace::force_capture`: the call stack here, captured
/// whatever the environment asks.
#[verifier::external_body]
fn capture_backtrace() -> std::backtrace::Backtrace {
    std::backtrace::Backtrace::force_capture()
}

/// Relies on `Backtrace::status`: whether frames were captured.
#[verifier::external_body]
fn backtrace_captured(b: &std::backtrace::Backtrace) -> bool {
    b.status() == std::backtrace::BacktraceStatus::Captured
}

/// Relies on `Backtrace`'s `Display`: the captured frames as text.
#[verifier::external_body]
fn backtrace_text(b: &std::backtrace::Backtrace) -> String {
    b.to_string()
}

/// The rendering of an error: the message in brackets, then the cause in
/// brackets and the backtrace, each on lines of their own where present.
pub open spec fn rendered(message: Seq<char>, cause: Option<Seq<char>>, trace: Option<Seq<char>>) -> Seq<
    char,
> {
    "AppError ["@ + message + "]"@ + match cause {
        Some(c) => "\n["@ + c + "]"@,
        None => Seq::<char>::empty(),
    } + match trace {
        Some(t) => "\n"@ + t,
        None => Seq::<char>::empty(),
    }
}

/// Renders an error from its message, the text of its cause and the text
/// of its backtrace.
pub fn render_error(message: &str, cause: Option<&str>, trace: Option<&str>) -> (r: String)
    ensures
        r@ == rendered(
            message@,
            match cause {
                Some(c) => Some(c@),
                None => None,
            },
            match trace {
                Some(t) => Some(t@),
                None => None,
            },
        ),
{
    let mut text = "AppError [".to_owned();
    text.append(message);
    text.append("]");
    let ghost head = text@;
    match cause {
        Some(c) => {
            text.append("\n[");
            text.append(c);
            text.append("]");
        },
        None => {
            assert(text@ + Seq::<char>::empty() =~= text@);
        },
    }
    let ghost middle = text@;
    match trace {
        Some(t) => {
            text.append("\n");
            text.append(t);
            assert(text@ =~= middle + ("\n"@ + t@));
        },
        None => {
            assert(text@ + Seq::<char>::empty() =~= text@);
        },
    }
    text
}

/// The text held, if any.
pub open spec fn text_of(o: Option<String>) -> Option<Seq<char>> {
    match o {
        Some(s) => Some(s@),
        None => None,
    }
}

/// An error with a message, the text of the error that caused it if any,
/// and the backtrace of where it was made.
pub struct AppError {
    pub message: String,
    pub sub_error: Option<String>,
    pub backtrace: std::backtrace::Backtrace,
}

/// Like [AppError], but without a causing error.
pub struct AppErrorStatic {
    pub message: String,
    pub backtrace: std::backtrace::Backtrace,
}

impl AppError {
    /// An error with `message` and no cause.
    pub fn new(message: &str) -> (r: AppError)
        ensures
            r.message@ == error_message(message@),
            r.sub_error.is_none(),
    {
        Self::_new(message, None)
    }

    /// An error with `message`, caused by the error whose text is `error`.
    pub fn from_error(message: &str, error: String) -> (r: AppError)
        ensures
            r.message@ == error_message(message@),
            r.sub_error == Some(error),
    {
        Self::_new(message, Some(error))
    }

    /// An error whose message is the text of the error that caused it.
    pub fn from_error_default(error: String) -> (r: AppError)
        ensures
            r.message@ == error_message(error@),
            r.sub_error == Some(error),
    {
        let message = error.clone();
        Self::_new(message.as_str(), Some(error))
    }

    fn _new(message: &str, error: Option<String>) -> (r: AppError)
        ensures
            r.message@ == error_message(message@),
            r.sub_error == error,
    {
        let backtrace = capture_backtrace();
        let mut text = "Error: ".to_owned();
        text.append(message);
        AppError { message: text, sub_error: error, backtrace }
    }

    /// The rendering shown to an operator: the message, the cause, and the
    /// backtrace where one was captured.
    pub fn to_string(&self) -> (r: String)
        ensures
            exists|t: Option<Seq<char>>|
                r@ == #[trigger] rendered(
                    self.message@,
                    text_of(self.sub_error),
                    t,
                ),
    {
        let text = if backtrace_captured(&self.backtrace) {
            Some(backtrace_text(&self.backtrace))
        } else {
            None
        };
        let cause = match &self.sub_error {
            Some(s) => Some(s.as_str()),
            None => None,
        };
        let trace = match &text {
            Some(t) => Some(t.as_str()),
            None => None,
        };
        let r = render_error(self.message.as_str(), cause, trace);
        let ghost t = match trace {
            Some(t) => Some(t@),
            None => None,
        };
        assert(r@ == rendered(
            self.message@,
            text_of(self.sub_error),
            t,
        ));
        r
    }
}

impl AppErrorStatic {
    /// An error with `message`.
    pub fn new(message: &str) -> (r: AppErrorStatic)
        ensures
            r.message@ == error_message(message@),
    {
        let backtrace = capture_backtrace();
        let mut text = "Error: ".to_owned();
        text.append(message);
        AppErrorStatic { message: text, backtrace }
    }

    /// The rendering shown to an operator: the message, and the backtrace
    /// where one was captured.
    pub fn to_string(&self) -> (r: String)
        ensures
            exists|t: Option<Seq<char>>| r@ == #[trigger] rendered(self.message@, None, t),
    {
        let text = if backtrace_captured(&self.backtrace) {
            Some(backtrace_text(&self.backtrace))
        } else {
            None
        };
        let trace = match &text {
            Some(t) => Some(t.as_str()),
            None => None,
        };
        let r = render_error(self.message.as_str(), None, trace);
        let ghost t = match trace {
            Some(t) => Some(t@),
            None => None,
        };
        assert(r@ == rendered(self.message@, None, t));
        r
    }
}

/// The message of an error that gives no reason.
pub const DEFAULT_MESSAGE: &'static str = "unspecified";

impl Default for AppError {
    fn default() -> (r: AppError)
        ensures
            r.message@ == error_message(DEFAULT_MESSAGE@),
            r.sub_error.is_none(),
    {
        Self::new(DEFAULT_MESSAGE)
    }
}

impl Default for AppErrorStatic {
    fn default() -> (r: AppErrorStatic)
        ensures
            r.message@ == error_message(DEFAULT_MESSAGE@),
    {
        Self::new(DEFAULT_MESSAGE)
    }
}

impl From<AppErrorStatic> for AppError {
    fn from(value: AppErrorStatic) -> (r: AppError) {
        AppError { message: value.message, sub_error: None, backtrace: value.backtrace }
    }
}

impl vstd::std_specs::convert::FromSpecImpl<AppErrorStatic> for AppError {
    open spec fn obeys_from_spec() -> bool {
        true
    }

    open spec fn from_spec(v: AppErrorStatic) -> AppError {
        AppError { message: v.message, sub_error: None, backtrace: v.backtrace }
    }
}

impl From<AppError> for AppErrorStatic {
    fn from(value: AppError) -> (r: AppErrorStatic) {
        AppErrorStatic { message: value.message, backtrace: value.backtrace }
    }
}

impl vstd::std_specs::convert::FromSpecImpl<AppError> for AppErrorStatic {
    open spec fn obeys_from_spec() -> bool {
        true
    }

    open spec fn from_spec(v: AppError) -> AppErrorStatic {
        AppErrorStatic { message: v.message, backtrace: v.backtrace }
    }
}

} // verus!
