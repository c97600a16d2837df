//! Errors of the markup layer.
use vstd::prelude::*;
use crate::text::push_str;

verus! {

pub enum CoreError {
    Render(String),
    Structure(String),
    ForbiddenRaw,
}

impl CoreError {
    /// The message of the error.
    pub open spec fn message_spec(&self) -> Seq<char> {
        match self {
            CoreError::Render(m) => "render error: "@ + m@,
            CoreError::Structure(m) => "invalid html structure: "@ + m@,
            CoreError::ForbiddenRaw => "forbidden raw html: use SafeHtml wrapper"@,
        }
    }

    /// The message of the error (what `Display` prints).
    pub fn to_string(&self) -> (s: String)
        ensures
            s@ == self.message_spec(),
    {
        let mut s = String::new();
        match self {
            CoreError::Render(m) => {
                s.append("render error: ");
                push_str(&mut s, m.as_str());
            },
            CoreError::Structure(m) => {
                s.append("invalid html structure: ");
                push_str(&mut s, m.as_str());
            },
            CoreError::ForbiddenRaw => {
                s.append("forbidden raw html: use SafeHtml wrapper");
            },
        }
        s
    }
}

} // verus!
