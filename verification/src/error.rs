//! The crate's error type, and the slot that holds what MLX last reported.
use vstd::prelude::*;

use crate::text::{chars_of, decimal, decimal_i64, signed_decimal, string_of};

verus! {

/// An error from MLX or from this crate's preconditions.
#[derive(Debug)]
pub enum Error {
    /// An mlx-c call returned non-zero.
    Mlx {
        /// What MLX passed to the error handler, or a fallback naming the status.
        message: String,
    },
    /// A precondition failed before reaching MLX.
    Invalid(String),
    /// An MLX array had a dtype this crate does not map.
    UnsupportedDtype(u32),
}

impl Error {
    /// The text this error displays as.
    pub open spec fn text(&self) -> Seq<char> {
        match self {
            Error::Mlx { message } => "mlx: "@ + message@,
            Error::Invalid(message) => message@,
            Error::UnsupportedDtype(code) => "mlx: unsupported dtype code "@ + decimal(*code as nat),
        }
    }

    /// Whether this is a precondition failure whose message is `message`.
    pub open spec fn is_invalid_with(&self, message: Seq<char>) -> bool {
        self matches Error::Invalid(m) && m@ == message
    }

    /// The text this error displays as.
    pub fn to_string(&self) -> (out: String)
        ensures
            out@ == self.text(),
    {
        match self {
            Error::Mlx { message } => {
                let mut chars = chars_of("mlx: ");
                let mut rest = chars_of(message.as_str());
                chars.append(&mut rest);
                string_of(&chars)
            },
            Error::Invalid(message) => message.clone(),
            Error::UnsupportedDtype(code) => {
                let mut chars = chars_of("mlx: unsupported dtype code ");
                let mut digits = decimal_i64(*code as i64);
                chars.append(&mut digits);
                string_of(&chars)
            },
        }
    }
}

/// What the error handler records for a message pointer: the text, or
/// `(null)` when MLX passed none.
pub open spec fn handler_text(message: Option<Seq<char>>) -> Seq<char> {
    match message {
        Some(text) => text,
        None => "(null)"@,
    }
}

/// The fallback message for a failed call that left no report.
pub open spec fn status_message(status: i32) -> Seq<char> {
    "call failed with status "@ + signed_decimal(status as int)
}

/// The message MLX last reported on this thread, if not yet taken.
pub struct ErrorSlot {
    last: Option<String>,
}

impl View for ErrorSlot {
    type V = Option<Seq<char>>;

    closed spec fn view(&self) -> Option<Seq<char>> {
        match self.last {
            Some(text) => Some(text@),
            None => None,
        }
    }
}

impl ErrorSlot {
    /// An empty slot.
    pub fn new() -> (slot: Self)
        ensures
            slot@ == None::<Seq<char>>,
    {
        ErrorSlot { last: None }
    }

    /// Record what the error handler was given; `None` stands for a null
    /// message pointer.
    pub fn record(&mut self, message: Option<&str>)
        ensures
            final(self)@ == Some(handler_text(
                match message {
                    Some(text) => Some(text@),
                    None => None,
                },
            )),
    {
        let text = match message {
            Some(text) => string_of(&chars_of(text)),
            None => string_of(&chars_of("(null)")),
        };
        self.last = Some(text);
    }

    /// Take the recorded message, leaving the slot empty.
    pub fn take_last_error(&mut self) -> (taken: Option<String>)
        ensures
            final(self)@ == None::<Seq<char>>,
            match taken {
                Some(text) => old(self)@ == Some(text@),
                None => old(self)@ == None::<Seq<char>>,
            },
    {
        let taken = self.last.take();
        taken
    }

    /// Forget any recorded message.
    pub fn clear_last_error(&mut self)
        ensures
            final(self)@ == None::<Seq<char>>,
    {
        self.last = None;
    }

    /// Turn an mlx-c status code into a `Result`, blaming the recorded message
    /// when the call failed.
    pub fn check(&mut self, status: i32) -> (out: Result<(), Error>)
        ensures
            status == 0 ==> out is Ok && final(self)@ == old(self)@,
            status != 0 ==> final(self)@ == None::<Seq<char>> && match out {
                Ok(_) => false,
                Err(Error::Mlx { message }) => message@ == match old(self)@ {
                    Some(text) => text,
                    None => status_message(status),
                },
                Err(_) => false,
            },
    {
        if status == 0 {
            return Ok(());
        }
        let message = match self.take_last_error() {
            Some(text) => text,
            None => {
                let mut chars = chars_of("call failed with status ");
                let mut digits = decimal_i64(status as i64);
                chars.append(&mut digits);
                string_of(&chars)
            },
        };
        Err(Error::Mlx { message })
    }
}

/// Rejects text that a C string cannot carry: `what` names it in the message,
/// which reads `"{what} contains a NUL"`.
pub fn reject_nul(text: &str, what: &str) -> (out: Result<(), Error>)
    ensures
        out is Ok <==> !text@.contains('\0'),
        out is Err ==> out->Err_0.is_invalid_with(what@ + " contains a NUL"@),
{
    let chars = chars_of(text);
    let mut i: usize = 0;
    while i < chars.len()
        invariant
            chars@ == text@,
            i <= chars@.len(),
            forall|j: int| 0 <= j < i ==> chars@[j] != '\0',
        decreases chars@.len() - i,
    {
        if chars[i] == '\0' {
            let mut message = chars_of(what);
            let mut tail = chars_of(" contains a NUL");
            message.append(&mut tail);
            return Err(Error::Invalid(string_of(&message)));
        }
        i = i + 1;
    }
    Ok(())
}

} // verus!
