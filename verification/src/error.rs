//! What can go wrong in a pass, and how it is told.

use crate::outside::{ascii_lowercase, lowercase, to_lowercase};
use vstd::prelude::*;
use vstd::string::StringExecFns;
use vstd::utf8::is_ascii_chars;

verus! {

/// An error of the cluster or of a database server, by its renderings.
#[derive(Debug)]
pub struct Failure {
    /// The error for users.
    pub message: String,
    /// The error for developers.
    pub debug: String,
}

/// The texts of a [`Failure`].
pub struct FailureView {
    pub message: Seq<char>,
    pub debug: Seq<char>,
}

impl View for Failure {
    type V = FailureView;

    open spec fn view(&self) -> FailureView {
        FailureView { message: self.message@, debug: self.debug@ }
    }
}

impl Clone for Failure {
    fn clone(&self) -> (res: Self)
        ensures
            res == *self,
    {
        Failure { message: self.message.clone(), debug: self.debug.clone() }
    }
}

/// What a pass, or the finalizer around it, ends with when it fails.
#[derive(Debug)]
pub enum Error {
    SerializationError(Failure),
    KubeError(Failure),
    FinalizerError(Box<FinalizerFailure>),
    IllegalDatabaseServer,
}

/// Why the finalizer of a resource failed.
#[derive(Debug)]
pub enum FinalizerFailure {
    ApplyFailed(Error),
    CleanupFailed(Error),
    AddFinalizer(Failure),
    RemoveFinalizer(Failure),
    UnnamedObject,
    InvalidFinalizer,
}

/// The texts of an [`Error`].
pub enum ErrorView {
    SerializationError(FailureView),
    KubeError(FailureView),
    FinalizerError(Box<FinalizerFailureView>),
    IllegalDatabaseServer,
}

/// The texts of a [`FinalizerFailure`].
pub enum FinalizerFailureView {
    ApplyFailed(ErrorView),
    CleanupFailed(ErrorView),
    AddFinalizer(FailureView),
    RemoveFinalizer(FailureView),
    UnnamedObject,
    InvalidFinalizer,
}

impl ErrorView {
    /// The error for users.
    pub open spec fn text(self) -> Seq<char>
        decreases self,
    {
        match self {
            ErrorView::SerializationError(failure) => "SerializationError: "@ + failure.message,
            ErrorView::KubeError(failure) => "Kubernetes API Error: "@ + failure.message,
            ErrorView::FinalizerError(failure) => "Finalizer Error: "@ + failure.text(),
            ErrorView::IllegalDatabaseServer => "IllegalDatabaseServer"@,
        }
    }

    /// The error as it is named in metrics, but for the case of its letters.
    pub open spec fn label(self) -> Seq<char>
        decreases self,
    {
        match self {
            ErrorView::SerializationError(failure) => "SerializationError("@ + failure.debug
                + ")"@,
            ErrorView::KubeError(failure) => "KubeError("@ + failure.debug + ")"@,
            ErrorView::FinalizerError(failure) => "FinalizerError("@ + failure.label() + ")"@,
            ErrorView::IllegalDatabaseServer => "IllegalDocument"@,
        }
    }
}

impl FinalizerFailureView {
    /// The failure for users.
    pub open spec fn text(self) -> Seq<char>
        decreases self,
    {
        match self {
            FinalizerFailureView::ApplyFailed(error) => "failed to apply object: "@
                + error.text(),
            FinalizerFailureView::CleanupFailed(error) => "failed to clean up object: "@
                + error.text(),
            FinalizerFailureView::AddFinalizer(failure) => "failed to add finalizer: "@
                + failure.message,
            FinalizerFailureView::RemoveFinalizer(failure) => "failed to remove finalizer: "@
                + failure.message,
            FinalizerFailureView::UnnamedObject => "object has no name"@,
            FinalizerFailureView::InvalidFinalizer => "invalid finalizer"@,
        }
    }

    /// The failure as it is named in metrics, but for the case of its letters.
    pub open spec fn label(self) -> Seq<char>
        decreases self,
    {
        match self {
            FinalizerFailureView::ApplyFailed(error) => "ApplyFailed("@ + error.label() + ")"@,
            FinalizerFailureView::CleanupFailed(error) => "CleanupFailed("@ + error.label()
                + ")"@,
            FinalizerFailureView::AddFinalizer(failure) => "AddFinalizer("@ + failure.debug
                + ")"@,
            FinalizerFailureView::RemoveFinalizer(failure) => "RemoveFinalizer("@
                + failure.debug + ")"@,
            FinalizerFailureView::UnnamedObject => "UnnamedObject"@,
            FinalizerFailureView::InvalidFinalizer => "InvalidFinalizer"@,
        }
    }
}

/// The value of the error label in metrics: the name of the error in lower case.
pub open spec fn is_metric_label(error: ErrorView, label: Seq<char>) -> bool {
    &&& label == lowercase(error.label())
    &&& is_ascii_chars(error.label()) ==> label == error.label().map_values(
        |c: char| ascii_lowercase(c),
    )
}

impl Error {
    /// The texts of the error.
    pub open spec fn view(&self) -> ErrorView
        decreases self,
    {
        match self {
            Error::SerializationError(failure) => ErrorView::SerializationError(failure@),
            Error::KubeError(failure) => ErrorView::KubeError(failure@),
            Error::FinalizerError(failure) => ErrorView::FinalizerError(Box::new(failure.view())),
            Error::IllegalDatabaseServer => ErrorView::IllegalDatabaseServer,
        }
    }

    /// The error for users.
    pub fn to_string(&self) -> (res: String)
        ensures
            res@ == self.view().text(),
        decreases self,
    {
        match self {
            Error::SerializationError(failure) => "SerializationError: ".to_owned().concat(
                failure.message.as_str(),
            ),
            Error::KubeError(failure) => "Kubernetes API Error: ".to_owned().concat(
                failure.message.as_str(),
            ),
            Error::FinalizerError(failure) => "Finalizer Error: ".to_owned().concat(
                failure.to_string().as_str(),
            ),
            Error::IllegalDatabaseServer => "IllegalDatabaseServer".to_owned(),
        }
    }

    /// The error as it is named in metrics, but for the case of its letters.
    fn label(&self) -> (res: String)
        ensures
            res@ == self.view().label(),
        decreases self,
    {
        match self {
            Error::SerializationError(failure) => "SerializationError(".to_owned().concat(
                failure.debug.as_str(),
            ).concat(")"),
            Error::KubeError(failure) => "KubeError(".to_owned().concat(
                failure.debug.as_str(),
            ).concat(")"),
            Error::FinalizerError(failure) => "FinalizerError(".to_owned().concat(
                failure.label().as_str(),
            ).concat(")"),
            Error::IllegalDatabaseServer => "IllegalDocument".to_owned(),
        }
    }

    /// The value of the error label in metrics: the name of the error in lower
    /// case.
    pub fn metric_label(&self) -> (res: String)
        ensures
            is_metric_label(self.view(), res@),
    {
        to_lowercase(self.label().as_str())
    }
}

impl FinalizerFailure {
    /// The texts of the failure.
    pub open spec fn view(&self) -> FinalizerFailureView
        decreases self,
    {
        match self {
            FinalizerFailure::ApplyFailed(error) => FinalizerFailureView::ApplyFailed(
                error.view(),
            ),
            FinalizerFailure::CleanupFailed(error) => FinalizerFailureView::CleanupFailed(
                error.view(),
            ),
            FinalizerFailure::AddFinalizer(failure) => FinalizerFailureView::AddFinalizer(
                failure@,
            ),
            FinalizerFailure::RemoveFinalizer(failure) => FinalizerFailureView::RemoveFinalizer(
                failure@,
            ),
            FinalizerFailure::UnnamedObject => FinalizerFailureView::UnnamedObject,
            FinalizerFailure::InvalidFinalizer => FinalizerFailureView::InvalidFinalizer,
        }
    }

    /// The failure for users.
    pub fn to_string(&self) -> (res: String)
        ensures
            res@ == self.view().text(),
        decreases self,
    {
        match self {
            FinalizerFailure::ApplyFailed(error) => "failed to apply object: ".to_owned().concat(
                error.to_string().as_str(),
            ),
            FinalizerFailure::CleanupFailed(
                error,
            ) => "failed to clean up object: ".to_owned().concat(error.to_string().as_str()),
            FinalizerFailure::AddFinalizer(
                failure,
            ) => "failed to add finalizer: ".to_owned().concat(failure.message.as_str()),
            FinalizerFailure::RemoveFinalizer(
                failure,
            ) => "failed to remove finalizer: ".to_owned().concat(failure.message.as_str()),
            FinalizerFailure::UnnamedObject => "object has no name".to_owned(),
            FinalizerFailure::InvalidFinalizer => "invalid finalizer".to_owned(),
        }
    }

    /// The failure as it is named in metrics, but for the case of its letters.
    fn label(&self) -> (res: String)
        ensures
            res@ == self.view().label(),
        decreases self,
    {
        match self {
            FinalizerFailure::ApplyFailed(error) => "ApplyFailed(".to_owned().concat(
                error.label().as_str(),
            ).concat(")"),
            FinalizerFailure::CleanupFailed(error) => "CleanupFailed(".to_owned().concat(
                error.label().as_str(),
            ).concat(")"),
            FinalizerFailure::AddFinalizer(failure) => "AddFinalizer(".to_owned().concat(
                failure.debug.as_str(),
            ).concat(")"),
            FinalizerFailure::RemoveFinalizer(failure) => "RemoveFinalizer(".to_owned().concat(
                failure.debug.as_str(),
            ).concat(")"),
            FinalizerFailure::UnnamedObject => "UnnamedObject".to_owned(),
            FinalizerFailure::InvalidFinalizer => "InvalidFinalizer".to_owned(),
        }
    }
}

/// The text of an error ends with the message of its failure, or with the text
/// of the error that it holds.
pub proof fn errors_are_told_to_the_end(error: Error, inner: Error, text: String, inner_text: String)
    requires
        call_ensures(Error::to_string, (&error,), text),
        call_ensures(Error::to_string, (&inner,), inner_text),
    ensures
        match error {
            Error::SerializationError(failure) => text@ == "SerializationError: "@
                + failure.message@,
            Error::KubeError(failure) => text@ == "Kubernetes API Error: "@ + failure.message@,
            Error::IllegalDatabaseServer => text@ == "IllegalDatabaseServer"@,
            Error::FinalizerError(failure) => match *failure {
                FinalizerFailure::ApplyFailed(held) => held == inner ==> text@
                    == "Finalizer Error: "@ + ("failed to apply object: "@ + inner_text@),
                FinalizerFailure::CleanupFailed(held) => held == inner ==> text@
                    == "Finalizer Error: "@ + ("failed to clean up object: "@ + inner_text@),
                FinalizerFailure::AddFinalizer(failure) => text@ == "Finalizer Error: "@ + (
                "failed to add finalizer: "@ + failure.message@),
                FinalizerFailure::RemoveFinalizer(failure) => text@ == "Finalizer Error: "@ + (
                "failed to remove finalizer: "@ + failure.message@),
                FinalizerFailure::UnnamedObject => text@ == "Finalizer Error: "@
                    + "object has no name"@,
                FinalizerFailure::InvalidFinalizer => text@ == "Finalizer Error: "@
                    + "invalid finalizer"@,
            },
        },
{
    reveal_with_fuel(ErrorView::text, 3);
    reveal_with_fuel(FinalizerFailureView::text, 3);
    reveal_with_fuel(Error::view, 3);
    reveal_with_fuel(FinalizerFailure::view, 3);
}

/// The letters of the first text are those of the second in lower case, one for
/// one.
pub open spec fn is_lower_case_of(lower: Seq<char>, text: Seq<char>) -> bool {
    &&& lower.len() == text.len()
    &&& forall|i: int| 0 <= i < text.len() ==> if 'A' <= text[i] <= 'Z' {
        #[trigger] lower[i] as u32 == text[i] as u32 + 32
    } else {
        lower[i] == text[i]
    }
}

/// The label of an error of ASCII letters is its name in lower case, with the
/// failure for developers in brackets.
pub proof fn labels_are_lower_case(error: Error, label: String)
    requires
        call_ensures(Error::metric_label, (&error,), label),
    ensures
        match error {
            Error::SerializationError(failure) => is_ascii_chars(failure.debug@)
                ==> is_lower_case_of(
                label@,
                "SerializationError("@ + failure.debug@ + ")"@,
            ),
            Error::KubeError(failure) => is_ascii_chars(failure.debug@) ==> is_lower_case_of(
                label@,
                "KubeError("@ + failure.debug@ + ")"@,
            ),
            Error::IllegalDatabaseServer => is_lower_case_of(label@, "IllegalDocument"@),
            Error::FinalizerError(failure) => match *failure {
                FinalizerFailure::AddFinalizer(failure) => is_ascii_chars(failure.debug@)
                    ==> is_lower_case_of(
                    label@,
                    "FinalizerError("@ + ("AddFinalizer("@ + failure.debug@ + ")"@) + ")"@,
                ),
                FinalizerFailure::RemoveFinalizer(failure) => is_ascii_chars(failure.debug@)
                    ==> is_lower_case_of(
                    label@,
                    "FinalizerError("@ + ("RemoveFinalizer("@ + failure.debug@ + ")"@) + ")"@,
                ),
                _ => true,
            },
        },
{
    reveal_with_fuel(ErrorView::label, 3);
    reveal_with_fuel(FinalizerFailureView::label, 3);
    reveal_with_fuel(Error::view, 3);
    reveal_with_fuel(FinalizerFailure::view, 3);
    reveal_strlit("SerializationError(");
    reveal_strlit("KubeError(");
    reveal_strlit("FinalizerError(");
    reveal_strlit("AddFinalizer(");
    reveal_strlit("RemoveFinalizer(");
    reveal_strlit("IllegalDocument");
    reveal_strlit(")");
}

/// The label of an error is made of its name and the failure for developers, as
/// they are, in lower case.
pub proof fn labels_hold_the_failure(error: Error, label: String)
    requires
        call_ensures(Error::metric_label, (&error,), label),
    ensures
        match error {
            Error::SerializationError(failure) => label@ == lowercase(
                "SerializationError("@ + failure.debug@ + ")"@,
            ),
            Error::KubeError(failure) => label@ == lowercase(
                "KubeError("@ + failure.debug@ + ")"@,
            ),
            _ => true,
        },
{
}

/// The label of the failure of a pass holds the label of what the pass failed
/// with, as far as the letters are ASCII.
pub proof fn labels_are_nested(
    inner: Error,
    applied: Error,
    cleaned: Error,
    inner_label: String,
    applied_label: String,
    cleaned_label: String,
)
    requires
        call_ensures(Error::metric_label, (&inner,), inner_label),
        call_ensures(Error::metric_label, (&applied,), applied_label),
        call_ensures(Error::metric_label, (&cleaned,), cleaned_label),
        applied == Error::FinalizerError(Box::new(FinalizerFailure::ApplyFailed(inner))),
        cleaned == Error::FinalizerError(Box::new(FinalizerFailure::CleanupFailed(inner))),
        is_ascii_chars(inner.view().label()),
    ensures
        applied_label@ == "finalizererror(applyfailed("@ + inner_label@ + "))"@,
        cleaned_label@ == "finalizererror(cleanupfailed("@ + inner_label@ + "))"@,
{
    reveal_with_fuel(ErrorView::label, 3);
    reveal_with_fuel(FinalizerFailureView::label, 3);
    reveal_with_fuel(Error::view, 3);
    reveal_with_fuel(FinalizerFailure::view, 3);
    reveal_strlit("FinalizerError(");
    reveal_strlit("ApplyFailed(");
    reveal_strlit("CleanupFailed(");
    reveal_strlit(")");
    reveal_strlit("finalizererror(applyfailed(");
    reveal_strlit("finalizererror(cleanupfailed(");
    reveal_strlit("))");
    assert(applied.view().label() == "FinalizerError("@ + ("ApplyFailed("@ + inner.view().label()
        + ")"@) + ")"@);
    assert(cleaned.view().label() == "FinalizerError("@ + ("CleanupFailed("@
        + inner.view().label() + ")"@) + ")"@);
    assert(applied_label@ =~= "finalizererror(applyfailed("@ + inner_label@ + "))"@);
    assert(cleaned_label@ =~= "finalizererror(cleanupfailed("@ + inner_label@ + "))"@);
}

} // verus!
