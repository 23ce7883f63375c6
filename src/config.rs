use vstd::prelude::*;
use vstd::std_specs::convert::IntoSpec;

verus! {

/// A secret whose printed form shows only its first few characters.
pub struct RedactedString(pub String);

/// How many leading characters of a secret are shown.
pub const SHOWN_CHARS: usize = 4;

/// The printed form of a secret: its first characters, then `***`.
pub open spec fn redacted_of(secret: Seq<char>) -> Seq<char> {
    let shown = if secret.len() < SHOWN_CHARS {
        secret.len() as int
    } else {
        SHOWN_CHARS as int
    };
    "RedactedString(\""@ + secret.subrange(0, shown) + "***\")"@
}

impl RedactedString {
    pub fn new<S: Into<String>>(inner: S) -> (r: RedactedString)
        ensures
            S::obeys_into_spec() ==> r.0 == inner.into_spec(),
    {
        RedactedString(inner.into())
    }

    /// The printed form, which hides all but the first characters.
    pub fn redacted(&self) -> (r: String)
        ensures
            r@ == redacted_of(self.0@),
    {
        let len = self.0.as_str().unicode_len();
        let shown = if len < SHOWN_CHARS {
            len
        } else {
            SHOWN_CHARS
        };
        let mut r = String::from_str("RedactedString(\"");
        r.append(self.0.as_str().substring_char(0, shown));
        r.append("***\")");
        r
    }
}

} // verus!
