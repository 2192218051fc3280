//! What a check reports when it fires.

use crate::typosquat::checks::CheckKind;
use vstd::prelude::*;

verus! {

/// One check that fired for the candidate against one reference package.
#[derive(Debug)]
pub struct Squat {
    /// The check that fired.
    pub check: CheckKind,
    /// The name of the reference package, as the cache holds it.
    pub package: String,
}

impl View for Squat {
    type V = (CheckKind, Seq<char>);

    open spec fn view(&self) -> (CheckKind, Seq<char>) {
        (self.check, self.package@)
    }
}

/// The views of a list of squats, in its order.
pub open spec fn squat_views(squats: Seq<Squat>) -> Seq<(CheckKind, Seq<char>)> {
    squats.map_values(|squat: Squat| squat@)
}

/// What a check says of the candidate, to be followed by ` for ` and the
/// name of the reference package.
pub open spec fn finding(check: CheckKind) -> Seq<char> {
    match check {
        CheckKind::OmittedCharacter => "omits one character and could be mistaken"@,
        CheckKind::RepeatedCharacter => "repeats one character and could be mistaken"@,
        CheckKind::SwappedCharacters => "swaps two characters and could be mistaken"@,
        CheckKind::SubstitutedCharacter => "changes one character and could be mistaken"@,
        CheckKind::Separator => "changes the separators and could be mistaken"@,
        CheckKind::Confusable => "uses look-alike characters and could be mistaken"@,
        CheckKind::Bitflip => "flips one bit and could be mistaken"@,
    }
}

/// The explanation of a squat, as a reader of the notification sees it.
pub open spec fn explanation_of(squat: (CheckKind, Seq<char>)) -> Seq<char> {
    finding(squat.0) + " for "@ + squat.1
}

fn finding_text(check: CheckKind) -> (text: &'static str)
    ensures
        text@ == finding(check),
{
    match check {
        CheckKind::OmittedCharacter => "omits one character and could be mistaken",
        CheckKind::RepeatedCharacter => "repeats one character and could be mistaken",
        CheckKind::SwappedCharacters => "swaps two characters and could be mistaken",
        CheckKind::SubstitutedCharacter => "changes one character and could be mistaken",
        CheckKind::Separator => "changes the separators and could be mistaken",
        CheckKind::Confusable => "uses look-alike characters and could be mistaken",
        CheckKind::Bitflip => "flips one bit and could be mistaken",
    }
}

/// Renders a finding through `typomania::checks::Squat::custom` and the
/// `Display` of the squat it returns, which writes the message, the word
/// `for` between two spaces, and the package name.
#[verifier::external_body]
fn custom_squat_text(message: &str, package: &str) -> (text: String)
    ensures
        text@ == message@ + " for "@ + package@,
{
    typomania::checks::Squat::custom(message, package).to_string()
}

impl Squat {
    /// The name of the package that may be squatted.
    pub fn package(&self) -> (name: &str)
        ensures
            name@ == self.package@,
    {
        self.package.as_str()
    }

    /// A sentence fragment that says what the candidate does to the name
    /// of the reference package.
    pub fn explanation(&self) -> (text: String)
        ensures
            text@ == explanation_of(self@),
    {
        custom_squat_text(finding_text(self.check), self.package.as_str())
    }
}

} // verus!
