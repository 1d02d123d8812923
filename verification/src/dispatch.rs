//! The front: from an item to its fragment and artifact, or to a diagnostic.

use crate::definition::{fragment, Definition};
use crate::store::{is_enabled, switch_enables, switch_view, write_to_file, Artifact};
use crate::types::{Failure, TranslationError, Wrapper};
use vstd::prelude::*;
use vstd::string::*;

verus! {

/// What the front is handed: a definition of a kind that can be rendered, or
/// an item of any other kind.
#[derive(Debug, PartialEq, Eq)]
pub enum Item {
    Supported(Definition),
    Unsupported,
}

/// What the front reports in place of a fragment.
#[derive(Debug, Clone, PartialEq, Eq)]
pub enum Diagnostic {
    /// The item is of a kind that is not rendered.
    UnsupportedItem,
    /// The definition named `definition` has a part without a translation.
    Translation { definition: String, cause: TranslationError },
}

/// What the front produces for a definition that renders: the fragment, and
/// the artifact to write where writing is enabled.
#[derive(Debug, Clone, PartialEq, Eq)]
pub struct Generated {
    pub fragment: String,
    pub artifact: Option<Artifact>,
}

/// The text of a digit.
pub open spec fn digit_text(d: nat) -> Seq<char> {
    if d == 0 {
        "0"@
    } else if d == 1 {
        "1"@
    } else if d == 2 {
        "2"@
    } else if d == 3 {
        "3"@
    } else if d == 4 {
        "4"@
    } else if d == 5 {
        "5"@
    } else if d == 6 {
        "6"@
    } else if d == 7 {
        "7"@
    } else if d == 8 {
        "8"@
    } else {
        "9"@
    }
}

/// The decimal text of a number, without leading zeros.
pub open spec fn decimal(n: nat) -> Seq<char>
    decreases n,
{
    if n < 10 {
        digit_text(n)
    } else {
        decimal(n / 10) + digit_text(n % 10)
    }
}

/// The message of a failure to translate.
pub open spec fn failure_message(failure: Failure) -> Seq<char> {
    match failure {
        Failure::UnsupportedShape { rendered } => "cannot translate type '"@ + rendered + "'"@,
        Failure::ArityViolation { wrapper, arity } => wrapper.host_name()
            + " has unsupported arity "@ + decimal(arity),
    }
}

/// The text of the digit `d`.
fn digit_str(d: usize) -> (text: &'static str)
    requires
        d < 10,
    ensures
        text@ == digit_text(d as nat),
{
    if d == 0 {
        "0"
    } else if d == 1 {
        "1"
    } else if d == 2 {
        "2"
    } else if d == 3 {
        "3"
    } else if d == 4 {
        "4"
    } else if d == 5 {
        "5"
    } else if d == 6 {
        "6"
    } else if d == 7 {
        "7"
    } else if d == 8 {
        "8"
    } else {
        "9"
    }
}

/// The decimal text of `n`.
pub fn decimal_text(n: usize) -> (text: String)
    ensures
        text@ == decimal(n as nat),
    decreases n,
{
    if n < 10 {
        String::from_str(digit_str(n))
    } else {
        let mut text = decimal_text(n / 10);
        text.append(digit_str(n % 10));
        text
    }
}

impl TranslationError {
    /// The message for a reader: `cannot translate type '..'`, with the type
    /// as written, or `.. has unsupported arity ..`, with the wrapper's name
    /// in the host language and the number of arguments found.
    pub fn message(&self) -> (text: String)
        ensures
            text@ == failure_message(self@),
    {
        match self {
            TranslationError::UnsupportedShape { rendered } => {
                let mut text = String::from_str("cannot translate type '");
                text.append(rendered.as_str());
                text.append("'");
                text
            },
            TranslationError::ArityViolation { wrapper, arity } => {
                let mut text = String::from_str(wrapper.host_name_str());
                text.append(" has unsupported arity ");
                let count = decimal_text(*arity);
                text.append(count.as_str());
                text
            },
        }
    }
}

impl Diagnostic {
    /// Whether this is the diagnostic of the failure `failure` in the
    /// definition named `name`.
    pub open spec fn reports(&self, name: Seq<char>, failure: Failure) -> bool {
        match self {
            Diagnostic::UnsupportedItem => false,
            Diagnostic::Translation { definition, cause } => definition@ == name && cause@
                == failure,
        }
    }

    /// The message of the diagnostic.
    pub open spec fn spec_message(&self) -> Seq<char> {
        match self {
            Diagnostic::UnsupportedItem => "unsupported item kind"@,
            Diagnostic::Translation { definition, cause } => failure_message(cause@),
        }
    }

    /// The message for a reader: `unsupported item kind`, or the message of
    /// the failure to translate.
    pub fn message(&self) -> (text: String)
        ensures
            text@ == self.spec_message(),
    {
        match self {
            Diagnostic::UnsupportedItem => String::from_str("unsupported item kind"),
            Diagnostic::Translation { definition, cause } => cause.message(),
        }
    }
}

/// Whether `res` is what the front owes for `item` under `switch`.
///
/// An item of another kind gets the diagnostic `UnsupportedItem`. A
/// definition with a part that has no translation gets the diagnostic of
/// its first failure, under its own name. Any other definition gets its
/// fragment, and with it its artifact exactly where the switch enables
/// writing.
pub open spec fn front_result(
    item: Item,
    switch: Option<Seq<char>>,
    res: Result<Generated, Diagnostic>,
) -> bool {
    match item {
        Item::Unsupported => res is Err && res->Err_0 is UnsupportedItem,
        Item::Supported(def) => match fragment(def) {
            Err(failure) => res is Err && res->Err_0.reports(def.spec_name(), failure),
            Ok(text) => {
                &&& res is Ok
                &&& res->Ok_0.fragment@ == text
                &&& res->Ok_0.artifact is Some <==> switch_enables(switch)
                &&& res->Ok_0.artifact is Some ==> res->Ok_0.artifact->Some_0.holds(text)
            },
        },
    }
}

/// Renders `item` and decides what is to be written for it. `switch` is the
/// value of the activation switch, or `None` where it is not set. Nothing
/// is written here: the caller writes the artifact, if there is one, into
/// the output directory.
pub fn witgen(item: &Item, switch: Option<&str>) -> (res: Result<Generated, Diagnostic>)
    ensures
        front_result(*item, switch_view(switch), res),
{
    match item {
        Item::Unsupported => Err(Diagnostic::UnsupportedItem),
        Item::Supported(def) => match def.format() {
            Err(cause) => Err(Diagnostic::Translation { definition: def.name().clone(), cause }),
            Ok(text) => {
                let artifact = write_to_file(is_enabled(switch), text.as_str());
                Ok(Generated { fragment: text, artifact })
            },
        },
    }
}

} // verus!
