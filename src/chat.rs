//! Chat components, the text that the protocol shows to players.

use vstd::prelude::*;

verus! {

/// A chat component: text, styling flags, an optional colour and optional
/// child components.
#[derive(Debug)]
pub struct ChatData {
    pub text: String,
    pub bold: bool,
    pub italic: bool,
    pub underlined: bool,
    pub strikethrough: bool,
    pub obfuscated: bool,
    pub color: Option<String>,
    pub extra: Option<Vec<ChatData>>,
}

impl ChatData {
    /// No styling flag is set and there are no children.
    pub open spec fn is_plain(&self) -> bool {
        &&& !self.bold
        &&& !self.italic
        &&& !self.underlined
        &&& !self.strikethrough
        &&& !self.obfuscated
        &&& self.extra is None
    }

    /// Unstyled, uncoloured text.
    pub fn new(text: String) -> (r: ChatData)
        ensures
            r.text@ == text@,
            r.is_plain(),
            r.color is None,
    {
        ChatData {
            text,
            bold: false,
            italic: false,
            underlined: false,
            strikethrough: false,
            obfuscated: false,
            color: None,
            extra: None,
        }
    }

    /// Unstyled text in the given colour.
    pub fn new_colored(text: String, color: String) -> (r: ChatData)
        ensures
            r.text@ == text@,
            r.is_plain(),
            r.color matches Some(c) && c@ == color@,
    {
        ChatData {
            text,
            bold: false,
            italic: false,
            underlined: false,
            strikethrough: false,
            obfuscated: false,
            color: Some(color),
            extra: None,
        }
    }
}

} // verus!
