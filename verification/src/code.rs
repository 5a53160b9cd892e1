//! Validated locale identifiers.

use vstd::prelude::*;

use crate::text::{chars_of, is_control, is_ctrl, is_whitespace, is_ws, string_of, trim, trimmed};

verus! {

/// The shape every locale identifier has: at least one character, and no
/// whitespace or control character anywhere.
pub open spec fn valid_code(v: Seq<char>) -> bool {
    &&& v.len() > 0
    &&& forall|i: int| 0 <= i < v.len() ==> !is_ws(#[trigger] v[i]) && !is_ctrl(v[i])
}

/// Validated locale identifier (e.g. `"en_US.UTF-8"`, `"C"`, `"POSIX"`).
///
/// Construction goes through [`LocaleCode::new`], which performs minimal
/// shape validation (non-empty, no whitespace, no control characters).
/// Stricter validation against the system's installed locales happens at
/// the point where the value is actually applied, not here.
#[derive(Debug, PartialEq, Eq, PartialOrd, Ord, Hash)]
pub struct LocaleCode(String);

impl View for LocaleCode {
    type V = Seq<char>;

    closed spec fn view(&self) -> Seq<char> {
        self.0@
    }
}

impl LocaleCode {
    #[verifier::type_invariant]
    closed spec fn wf(self) -> bool {
        valid_code(self.0@)
    }

    /// Whether `v` has the shape of a locale code.
    pub fn is_valid(v: &[char]) -> (b: bool)
        ensures
            b == valid_code(v@),
    {
        if v.len() == 0 {
            return false;
        }
        let mut i: usize = 0;
        while i < v.len()
            invariant
                i <= v@.len(),
                forall|j: int| 0 <= j < i ==> !is_ws(#[trigger] v@[j]) && !is_ctrl(v@[j]),
            decreases v@.len() - i,
        {
            if is_whitespace(v[i]) || is_control(v[i]) {
                return false;
            }
            i = i + 1;
        }
        true
    }

    /// The code for the characters `v`, trimmed, if they form one.
    pub fn from_chars(v: &[char]) -> (r: Option<Self>)
        ensures
            r is Some <==> valid_code(trim(v@)),
            r matches Some(c) ==> c@ == trim(v@),
    {
        let t = trimmed(v);
        if Self::is_valid(&t) {
            Some(LocaleCode(string_of(&t)))
        } else {
            None
        }
    }

    /// Construct a `LocaleCode` from a string, returning `None` if the value
    /// is empty after trimming or contains whitespace / control characters.
    pub fn new(value: &str) -> (r: Option<Self>)
        ensures
            r is Some <==> valid_code(trim(value@)),
            r matches Some(c) ==> c@ == trim(value@),
    {
        let v = chars_of(value);
        Self::from_chars(&v)
    }

    /// Borrow the underlying string.
    pub fn as_str(&self) -> (s: &str)
        ensures
            s@ == self@,
            valid_code(s@),
    {
        proof {
            use_type_invariant(self);
        }
        self.0.as_str()
    }

    /// The characters of the code.
    pub fn chars(&self) -> (v: Vec<char>)
        ensures
            v@ == self@,
            valid_code(v@),
    {
        proof {
            use_type_invariant(self);
        }
        chars_of(self.0.as_str())
    }

    /// A copy of the code as a plain string.
    pub fn to_string(&self) -> (s: String)
        ensures
            s@ == self@,
            valid_code(s@),
    {
        proof {
            use_type_invariant(self);
        }
        self.0.clone()
    }
}

impl Clone for LocaleCode {
    fn clone(&self) -> (r: Self)
        ensures
            r@ == self@,
    {
        proof {
            use_type_invariant(self);
        }
        LocaleCode(self.0.clone())
    }
}

} // verus!
