//! The names of participants.

use std::str::FromStr;
use vstd::prelude::*;

verus! {

/// What reading `text` as an `air` participant name and printing that name gives; `None`
/// where `text` is no such name.
pub uninterp spec fn orange_name_text(text: Seq<char>) -> Option<Seq<char>>;

/// `air::orange_name::OrangeName::from_str`, followed by the name's `Display`. The source
/// reads the text after `orange_name:` as a secp256k1 public key in hexadecimal and
/// prints a key as the lower-case hexadecimal of its compressed form, so what is printed
/// reads back as the same name and prints as itself.
#[verifier::external_body]
fn printed_name(text: &str) -> (printed: Option<String>)
    ensures
        printed matches Some(p) ==> orange_name_text(text@) == Some(p@) && orange_name_text(p@)
            == Some(p@),
        printed is None ==> orange_name_text(text@) is None,
{
    air::orange_name::OrangeName::from_str(text).ok().map(|name| name.to_string())
}

/// `str::strip_prefix` of std with a string as the pattern: the text behind `prefix`
/// where the text starts with it, and nothing where it does not.
#[verifier::external_body]
fn strip_prefix<'a>(text: &'a str, prefix: &str) -> (rest: Option<&'a str>)
    ensures
        match rest {
            Some(r) => prefix@.is_prefix_of(text@) && r@ == text@.skip(prefix@.len() as int),
            None => !prefix@.is_prefix_of(text@),
        },
{
    text.strip_prefix(prefix)
}

/// A participant's name, held as the text that `air` prints for it.
#[derive(Debug, PartialEq, Eq, Hash)]
pub struct OrangeName {
    text: String,
}

impl View for OrangeName {
    type V = Seq<char>;

    closed spec fn view(&self) -> Seq<char> {
        self.text@
    }
}

impl Clone for OrangeName {
    fn clone(&self) -> (copy: Self)
        ensures
            copy@ == self@,
    {
        proof {
            use_type_invariant(self);
        }
        OrangeName { text: self.text.clone() }
    }
}

impl OrangeName {
    /// A text is a name when it is what `air` prints for the name it reads from it.
    pub open spec fn is_name(text: Seq<char>) -> bool {
        orange_name_text(text) == Some(text)
    }

    /// Every name is held in its printed form.
    #[verifier::type_invariant]
    spec fn printed(self) -> bool {
        Self::is_name(self.text@)
    }

    /// The name that `text` spells, if it spells one. Upper-case digits and a key written
    /// in full are accepted and give the name in its printed form.
    pub fn parse(text: &str) -> (name: Option<OrangeName>)
        ensures
            name matches Some(n) ==> orange_name_text(text@) == Some(n@) && Self::is_name(n@),
            name is None <==> orange_name_text(text@) is None,
    {
        match printed_name(text) {
            Some(printed) => Some(OrangeName { text: printed }),
            None => None,
        }
    }

    /// The name as text: the text that `air` prints for it.
    pub fn as_str(&self) -> (text: &str)
        ensures
            text@ == self@,
            Self::is_name(text@),
    {
        proof {
            use_type_invariant(self);
        }
        self.text.as_str()
    }

    /// The text of a name without the scheme in front of it.
    pub open spec fn spec_short(text: Seq<char>) -> Seq<char> {
        if "orange_name:"@.is_prefix_of(text) {
            text.skip("orange_name:"@.len() as int)
        } else {
            text
        }
    }

    /// The text behind the scheme of the name, where the name starts with its scheme.
    pub fn stripped(&self) -> (rest: Option<String>)
        ensures
            match rest {
                Some(r) => "orange_name:"@.is_prefix_of(self@) && r@ == Self::spec_short(self@),
                None => !"orange_name:"@.is_prefix_of(self@),
            },
    {
        match strip_prefix(self.text.as_str(), "orange_name:") {
            Some(rest) => Some(rest.to_owned()),
            None => None,
        }
    }

    /// The name as lists show it: without the `orange_name:` in front.
    pub fn short(&self) -> (text: String)
        ensures
            text@ == Self::spec_short(self@),
    {
        match strip_prefix(self.text.as_str(), "orange_name:") {
            Some(rest) => rest.to_owned(),
            None => self.text.clone(),
        }
    }

    /// Whether two names are the same participant.
    pub fn same(&self, other: &OrangeName) -> (b: bool)
        ensures
            b == (self@ == other@),
    {
        self.text == other.text
    }
}

} // verus!
