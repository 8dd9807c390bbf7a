//! Errors of the Windows API: an error code with an optional comment, the system's
//! message for the code, and the error that caused it.
use vstd::prelude::*;

verus! {

/// The mathematical value of a `WinError`.
pub enum WinErrorView {
    Error {
        code: u32,
        comment: Option<Seq<char>>,
        message: Option<Seq<char>>,
        source: Option<Box<WinErrorView>>,
    },
}

/// An error of the Windows API.
#[derive(Debug)]
pub struct WinError {
    error_code: u32,
    comment: Option<String>,
    message: Option<String>,
    source: Option<Box<WinError>>,
}

pub open spec fn opt_view(s: Option<String>) -> Option<Seq<char>> {
    match s {
        Some(x) => Some(x@),
        None => None,
    }
}

/// The mathematical value of an error.
pub closed spec fn win_error_view(e: WinError) -> WinErrorView
    decreases e,
{
    WinErrorView::Error {
        code: e.error_code,
        comment: opt_view(e.comment),
        message: opt_view(e.message),
        source: match e.source {
            Some(s) => Some(Box::new(win_error_view(*s))),
            None => None,
        },
    }
}

impl View for WinError {
    type V = WinErrorView;

    open spec fn view(&self) -> WinErrorView {
        win_error_view(*self)
    }
}

impl WinErrorView {
    pub open spec fn code(self) -> u32 {
        match self {
            WinErrorView::Error { code, .. } => code,
        }
    }

    pub open spec fn comment(self) -> Option<Seq<char>> {
        match self {
            WinErrorView::Error { comment, .. } => comment,
        }
    }

    pub open spec fn message(self) -> Option<Seq<char>> {
        match self {
            WinErrorView::Error { message, .. } => message,
        }
    }

    pub open spec fn source(self) -> Option<Box<WinErrorView>> {
        match self {
            WinErrorView::Error { source, .. } => source,
        }
    }
}

/// The hexadecimal digit of `d`, in upper case.
pub open spec fn hex_digit(d: u32) -> char {
    if d < 10 {
        ((d + 48) as u8) as char
    } else {
        ((d + 55) as u8) as char
    }
}

/// `code` in hexadecimal, eight digits in upper case.
pub open spec fn hex8(code: u32) -> Seq<char> {
    Seq::new(8, |i: int| hex_digit((code >> ((28 - 4 * i) as u32)) & 0xFu32))
}

/// The message of an error whose code the system could not format.
pub open spec fn format_failure_message(code: u32) -> Seq<char> {
    "FormatMessageW failed while formatting error 0x"@ + hex8(code)
}

/// How an error is displayed: its comment, its code and message, and its cause.
pub open spec fn display_of(e: WinErrorView) -> Seq<char>
    decreases e,
{
    match e {
        WinErrorView::Error { code, comment, message, source } => {
            (match comment {
                Some(c) => c + "; "@,
                None => Seq::<char>::empty(),
            }) + "Error Code 0x"@ + hex8(code) + ": "@ + (match message {
                Some(m) => m,
                None => "UNKNOWN ERROR CODE"@,
            }) + (match source {
                Some(s) => "; Caused by: "@ + display_of(*s),
                None => Seq::<char>::empty(),
            })
        },
    }
}

/// `code` in hexadecimal, eight digits in upper case.
pub fn hex8_string(code: u32) -> (r: String)
    ensures
        r@ == hex8(code),
{
    let mut r = String::new();
    let mut i: u32 = 0;
    while i < 8
        invariant
            i <= 8,
            r@ == hex8(code).take(i as int),
        decreases 8 - i,
    {
        let shift: u32 = 28 - 4 * i;
        let d = (code >> shift) & 0xF;
        assert(d < 16) by (bit_vector)
            requires
                d == (code >> shift) & 0xFu32,
        ;
        let digit = match d {
            0 => "0",
            1 => "1",
            2 => "2",
            3 => "3",
            4 => "4",
            5 => "5",
            6 => "6",
            7 => "7",
            8 => "8",
            9 => "9",
            10 => "A",
            11 => "B",
            12 => "C",
            13 => "D",
            14 => "E",
            _ => "F",
        };
        proof {
            reveal_strlit("0");
            reveal_strlit("1");
            reveal_strlit("2");
            reveal_strlit("3");
            reveal_strlit("4");
            reveal_strlit("5");
            reveal_strlit("6");
            reveal_strlit("7");
            reveal_strlit("8");
            reveal_strlit("9");
            reveal_strlit("A");
            reveal_strlit("B");
            reveal_strlit("C");
            reveal_strlit("D");
            reveal_strlit("E");
            reveal_strlit("F");
            assert(digit@ == seq![hex_digit(d)]);
            assert(hex8(code).take(i + 1) =~= hex8(code).take(i as int).push(hex_digit(d)));
        }
        r.append(digit);
        i = i + 1;
    }
    proof {
        assert(hex8(code).take(8) =~= hex8(code));
    }
    r
}

/// The last error code of the calling thread, as the operating system reports it
/// (`std::io::Error::last_os_error`, which on Windows reads `GetLastError`). It depends on
/// the thread's history, so nothing is stated of it.
#[verifier::external_body]
fn last_os_error_code() -> (r: u32) {
    std::io::Error::last_os_error().raw_os_error().unwrap() as u32
}

impl WinError {
    fn _new(
        error_code: u32,
        comment: Option<String>,
        message: Option<String>,
        source: Option<Box<WinError>>,
    ) -> (r: Self)
        ensures
            r@ == (WinErrorView::Error {
                code: error_code,
                comment: opt_view(comment),
                message: opt_view(message),
                source: match source {
                    Some(s) => Some(Box::new(s@)),
                    None => None,
                },
            }),
    {
        WinError { error_code, comment, message, source }
    }

    /// An error of this code, without comment, message or cause.
    pub fn new(error_code: u32) -> (r: Self)
        ensures
            r@ == (WinErrorView::Error { code: error_code, comment: None, message: None, source: None }),
    {
        Self::_new(error_code, None, None, None)
    }

    /// An error of this code with the system's message for it; `formatted` is what
    /// `FormatMessage` gave for the code (see `with_message`).
    pub fn new_with_message(error_code: u32, formatted: Result<String, u32>) -> (r: Self)
        ensures
            r@ == (WinErrorView::Error {
                code: error_code,
                comment: None,
                message: None,
                source: None,
            }).with_formatted(formatted),
    {
        Self::_new(error_code, None, None, None).with_message(formatted)
    }

    /// The last error of the calling thread, without asking for its message.
    pub fn get() -> (r: Self)
        ensures
            r@ == (WinErrorView::Error { code: r@.code(), comment: None, message: None, source: None }),
    {
        let error_code = last_os_error_code();
        Self::new(error_code)
    }

    /// The last error of the calling thread with its message; `formatted` is what
    /// `FormatMessage` gave for it.
    pub fn get_with_message(formatted: Result<String, u32>) -> (r: Self)
        ensures
            exists|code: u32|
                r@ == #[trigger] (WinErrorView::Error { code, comment: None, message: None, source: None }).with_formatted(
                    formatted,
                ),
    {
        let e = Self::get();
        let r = e.with_message(formatted);
        proof {
            let code = e@.code();
            assert(r@ == (WinErrorView::Error { code, comment: None, message: None, source: None }).with_formatted(formatted));
        }
        r
    }

    /// The error code.
    pub fn error_code(&self) -> (r: u32)
        ensures
            r == self@.code(),
    {
        self.error_code
    }

    /// An equal copy of this error.
    pub fn duplicate(&self) -> (r: Self)
        ensures
            r@ == self@,
        decreases self,
    {
        WinError {
            error_code: self.error_code,
            comment: match &self.comment {
                Some(c) => Some(c.clone()),
                None => None,
            },
            message: match &self.message {
                Some(m) => Some(m.clone()),
                None => None,
            },
            source: match &self.source {
                Some(s) => Some(Box::new(s.duplicate())),
                None => None,
            },
        }
    }

    /// This error with a comment.
    pub fn with_comment(&self, comment: String) -> (r: Self)
        ensures
            r@ == (WinErrorView::Error {
                code: self@.code(),
                comment: Some(comment@),
                message: self@.message(),
                source: self@.source(),
            }),
    {
        let mut clone = self.duplicate();
        clone.comment = Some(comment);
        clone
    }

    /// This error with the system's message for its code, unless it has a message
    /// already. `formatted` is what `FormatMessage` gave for the code: the message, or the
    /// code of the error that `FormatMessage` met.
    pub fn with_message(&self, formatted: Result<String, u32>) -> (r: Self)
        ensures
            r@ == self@.with_formatted(formatted),
    {
        match self.message.as_ref() {
            Some(_) => self.duplicate(),
            None => self.clone_with_message(formatted),
        }
    }

    /// This error caused by `source`.
    pub fn with_source(&self, source: Self) -> (r: Self)
        ensures
            r@ == (WinErrorView::Error {
                code: self@.code(),
                comment: self@.comment(),
                message: self@.message(),
                source: Some(Box::new(source@)),
            }),
    {
        let mut clone = self.duplicate();
        clone.source = Some(Box::new(source));
        clone
    }

    /// This error with the formatted message; if formatting failed, an error for the
    /// failure whose cause is this error.
    fn clone_with_message(&self, formatted: Result<String, u32>) -> (r: Self)
        ensures
            r@ == self@.formatted(formatted),
    {
        match formatted {
            Ok(message) => {
                let mut clone = self.duplicate();
                clone.message = Some(message);
                clone
            },
            Err(format_error) => {
                let message = Self::get_format_message_error(self.error_code);
                Self::_new(format_error, None, Some(message), Some(Box::new(self.duplicate())))
            },
        }
    }

    fn get_format_message_error(original_error_code: u32) -> (r: String)
        ensures
            r@ == format_failure_message(original_error_code),
    {
        let prefix = String::from_str("FormatMessageW failed while formatting error 0x");
        let hex = hex8_string(original_error_code);
        prefix.concat(hex.as_str())
    }

    /// How the error is displayed.
    pub fn to_display_string(&self) -> (r: String)
        ensures
            r@ == display_of(self@),
        decreases self,
    {
        let mut s = String::new();
        match &self.comment {
            Some(c) => {
                s.append(c.as_str());
                s.append("; ");
            },
            None => {},
        }
        s.append("Error Code 0x");
        let hex = hex8_string(self.error_code);
        s.append(hex.as_str());
        s.append(": ");
        match &self.message {
            Some(m) => s.append(m.as_str()),
            None => s.append("UNKNOWN ERROR CODE"),
        }
        match &self.source {
            Some(src) => {
                s.append("; Caused by: ");
                let inner = src.to_display_string();
                s.append(inner.as_str());
            },
            None => {},
        }
        proof {
            assert(s@ =~= display_of(self@));
        }
        s
    }
}

impl Clone for WinError {
    fn clone(&self) -> (r: Self)
        ensures
            r@ == self@,
    {
        self.duplicate()
    }
}

impl WinErrorView {
    /// The error with the outcome of formatting its message: kept as it is when it has a
    /// message; with the message when formatting succeeded; otherwise an error of the
    /// formatting failure, caused by this one.
    pub open spec fn with_formatted(self, formatted: Result<String, u32>) -> WinErrorView {
        match self.message() {
            Some(_) => self,
            None => self.formatted(formatted),
        }
    }

    /// The error with the outcome of formatting its message, whatever message it had:
    /// with the message when formatting succeeded; otherwise an error of the formatting
    /// failure, caused by this one.
    pub open spec fn formatted(self, formatted: Result<String, u32>) -> WinErrorView {
        match formatted {
            Ok(m) => WinErrorView::Error {
                code: self.code(),
                comment: self.comment(),
                message: Some(m@),
                source: self.source(),
            },
            Err(e) => WinErrorView::Error {
                code: e,
                comment: None,
                message: Some(format_failure_message(self.code())),
                source: Some(Box::new(self)),
            },
        }
    }
}

} // verus!
