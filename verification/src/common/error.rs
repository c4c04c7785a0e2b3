//! Single error type for the whole application.
//!
//! Subsystems do not define private error enums. Every failure carries a
//! category plus a human readable message, which is enough for a desktop
//! application and keeps the module boundaries thin.

use vstd::prelude::*;
use crate::number::{format_signed, signed_decimal};
use crate::text::{push_str};

verus! {

#[derive(Debug, Clone, Copy, PartialEq, Eq, Structural)]
pub enum Category {
    Platform,
    Config,
    Io,
    Vulkan,
    Audio,
    Font,
    Dsp,
    Other,
}

impl Category {
    pub open spec fn spec_as_str(self) -> Seq<char> {
        match self {
            Category::Platform => "platform"@,
            Category::Config => "config"@,
            Category::Io => "io"@,
            Category::Vulkan => "vulkan"@,
            Category::Audio => "audio"@,
            Category::Font => "font"@,
            Category::Dsp => "dsp"@,
            Category::Other => "other"@,
        }
    }

    pub fn as_str(self) -> (r: &'static str)
        ensures
            r@ == self.spec_as_str(),
    {
        match self {
            Category::Platform => "platform",
            Category::Config => "config",
            Category::Io => "io",
            Category::Vulkan => "vulkan",
            Category::Audio => "audio",
            Category::Font => "font",
            Category::Dsp => "dsp",
            Category::Other => "other",
        }
    }
}


#[derive(Debug, Clone)]
pub struct Error {
    pub category: Category,
    pub message: String,
    /// Win32 GetLastError or a Vulkan result code, 0 when not applicable.
    pub code: i64,
}

/// How an error is shown: the category in brackets, the message, and the
/// code when there is one.
pub open spec fn error_text(category: Category, message: Seq<char>, code: i64) -> Seq<char> {
    let head = seq!['['] + category.spec_as_str() + seq![']', ' '] + message;
    if code != 0 {
        head + seq![' ', '(', 'c', 'o', 'd', 'e', ' '] + signed_decimal(code as int) + seq![')']
    } else {
        head
    }
}

impl Error {
    pub fn new(category: Category, message: &str) -> (r: Self)
        ensures
            r.category == category,
            r.message@ == message@,
            r.code == 0,
    {
        Error { category, message: message.to_string(), code: 0 }
    }

    pub fn with_code(category: Category, message: &str, code: i64) -> (r: Self)
        ensures
            r.category == category,
            r.message@ == message@,
            r.code == code,
    {
        Error { category, message: message.to_string(), code }
    }

    pub fn platform(message: &str) -> (r: Self)
        ensures
            r.category == Category::Platform,
            r.message@ == message@,
            r.code == 0,
    {
        Error::new(Category::Platform, message)
    }

    pub fn config(message: &str) -> (r: Self)
        ensures
            r.category == Category::Config,
            r.message@ == message@,
            r.code == 0,
    {
        Error::new(Category::Config, message)
    }

    pub fn io(message: &str) -> (r: Self)
        ensures
            r.category == Category::Io,
            r.message@ == message@,
            r.code == 0,
    {
        Error::new(Category::Io, message)
    }

    pub fn vulkan(message: &str) -> (r: Self)
        ensures
            r.category == Category::Vulkan,
            r.message@ == message@,
            r.code == 0,
    {
        Error::new(Category::Vulkan, message)
    }

    pub fn audio(message: &str) -> (r: Self)
        ensures
            r.category == Category::Audio,
            r.message@ == message@,
            r.code == 0,
    {
        Error::new(Category::Audio, message)
    }

    pub fn font(message: &str) -> (r: Self)
        ensures
            r.category == Category::Font,
            r.message@ == message@,
            r.code == 0,
    {
        Error::new(Category::Font, message)
    }

    /// The error as it is shown to the operator.
    pub fn to_text(&self) -> (r: String)
        ensures
            r@ == error_text(self.category, self.message@, self.code),
    {
        let mut out = String::new();
        push_str(&mut out, "[");
        push_str(&mut out, self.category.as_str());
        push_str(&mut out, "] ");
        push_str(&mut out, self.message.as_str());
        let ghost head = out@;
        if self.code != 0 {
            push_str(&mut out, " (code ");
            let n = format_signed(self.code);
            push_str(&mut out, n.as_str());
            push_str(&mut out, ")");
        }
        proof {
            reveal_strlit("[");
            reveal_strlit("] ");
            reveal_strlit(" (code ");
            reveal_strlit(")");
        }
        assert(out@ =~= error_text(self.category, self.message@, self.code));
        out
    }
}

} // verus!
