//! Why a derivation stops.

use vstd::prelude::*;
use vstd::string::*;

verus! {

/// Why a derivation stopped. Each failure carries the text it objects to.
#[derive(Debug, Clone, PartialEq, Eq)]
pub enum DeriveError {
    /// A list of source types that is no comma-separated list of type paths.
    MalformedTypeAnnotation(String),
    /// A directive key that is not known where it stands.
    UnrecognizedDirective(String),
    /// A directive whose value is not of the kind that its key asks for.
    TypeMismatch(String),
    /// An override for a type that the target does not name as a source.
    UnknownOverrideType(String),
    /// A declaration, an entry or a value of the wrong shape.
    StructuralViolation(String),
    /// A text that is no path to a function, no expression or no field name.
    MalformedExpression(String),
}

/// What a [`DeriveError`] stands for.
pub enum Failure {
    MalformedTypeAnnotation(Seq<char>),
    UnrecognizedDirective(Seq<char>),
    TypeMismatch(Seq<char>),
    UnknownOverrideType(Seq<char>),
    StructuralViolation(Seq<char>),
    MalformedExpression(Seq<char>),
}

impl DeepView for DeriveError {
    type V = Failure;

    open spec fn deep_view(&self) -> Failure {
        match self {
            DeriveError::MalformedTypeAnnotation(t) => Failure::MalformedTypeAnnotation(t@),
            DeriveError::UnrecognizedDirective(t) => Failure::UnrecognizedDirective(t@),
            DeriveError::TypeMismatch(t) => Failure::TypeMismatch(t@),
            DeriveError::UnknownOverrideType(t) => Failure::UnknownOverrideType(t@),
            DeriveError::StructuralViolation(t) => Failure::StructuralViolation(t@),
            DeriveError::MalformedExpression(t) => Failure::MalformedExpression(t@),
        }
    }
}

impl Failure {
    /// The text that the failure objects to.
    pub open spec fn subject(self) -> Seq<char> {
        match self {
            Failure::MalformedTypeAnnotation(t) => t,
            Failure::UnrecognizedDirective(t) => t,
            Failure::TypeMismatch(t) => t,
            Failure::UnknownOverrideType(t) => t,
            Failure::StructuralViolation(t) => t,
            Failure::MalformedExpression(t) => t,
        }
    }

    /// What the message says before it names the subject.
    pub open spec fn preamble(self) -> Seq<char> {
        match self {
            Failure::MalformedTypeAnnotation(_) => "not a list of type paths: "@,
            Failure::UnrecognizedDirective(_) => "unrecognised directive: "@,
            Failure::TypeMismatch(_) => "value of the wrong kind for: "@,
            Failure::UnknownOverrideType(_) => "type does not exist for override: "@,
            Failure::StructuralViolation(_) => "unexpected shape: "@,
            Failure::MalformedExpression(_) => "could not parse: "@,
        }
    }

    /// The message: the preamble, then the subject.
    pub open spec fn message(self) -> Seq<char> {
        self.preamble() + self.subject()
    }
}

impl DeriveError {
    /// The text that the failure objects to.
    pub fn subject(&self) -> (r: &String)
        ensures
            r@ == self.deep_view().subject(),
    {
        match self {
            DeriveError::MalformedTypeAnnotation(t) => t,
            DeriveError::UnrecognizedDirective(t) => t,
            DeriveError::TypeMismatch(t) => t,
            DeriveError::UnknownOverrideType(t) => t,
            DeriveError::StructuralViolation(t) => t,
            DeriveError::MalformedExpression(t) => t,
        }
    }

    /// A line for the reader: what went wrong, and on which text.
    pub fn message(&self) -> (r: String)
        ensures
            r@ == self.deep_view().message(),
    {
        let preamble = match self {
            DeriveError::MalformedTypeAnnotation(_) => "not a list of type paths: ",
            DeriveError::UnrecognizedDirective(_) => "unrecognised directive: ",
            DeriveError::TypeMismatch(_) => "value of the wrong kind for: ",
            DeriveError::UnknownOverrideType(_) => "type does not exist for override: ",
            DeriveError::StructuralViolation(_) => "unexpected shape: ",
            DeriveError::MalformedExpression(_) => "could not parse: ",
        };
        String::from_str(preamble).concat(self.subject().as_str())
    }
}

/// What a result stands for.
pub open spec fn outcome<T: DeepView>(result: Result<T, DeriveError>) -> Result<T::V, Failure> {
    match result {
        Ok(value) => Ok(value.deep_view()),
        Err(error) => Err(error.deep_view()),
    }
}

/// The failure that a result stands for, if it is one.
pub open spec fn failure_of<T>(result: Result<T, DeriveError>) -> Option<Failure> {
    match result {
        Ok(_) => None,
        Err(error) => Some(error.deep_view()),
    }
}

/// What a row of steps comes to: the results of all of them in their order,
/// or the failure of the first step that failed.
pub open spec fn gathered<T>(steps: Seq<Result<T, Failure>>) -> Result<Seq<T>, Failure>
    decreases steps.len(),
{
    if steps.len() == 0 {
        Ok(Seq::empty())
    } else {
        match gathered(steps.drop_last()) {
            Err(failure) => Err(failure),
            Ok(done) => match steps.last() {
                Err(failure) => Err(failure),
                Ok(result) => Ok(done.push(result)),
            },
        }
    }
}

/// Where the first steps of a row fail, the row fails as they do.
pub proof fn lemma_gathered_failure<T>(steps: Seq<Result<T, Failure>>, first: int)
    requires
        0 <= first <= steps.len(),
        gathered(steps.take(first)) is Err,
    ensures
        gathered(steps) == gathered(steps.take(first)),
    decreases steps.len(),
{
    if first == steps.len() {
        assert(steps.take(first) =~= steps);
    } else {
        assert(steps.drop_last().take(first) =~= steps.take(first));
        lemma_gathered_failure(steps.drop_last(), first);
    }
}

/// A row that succeeds has a result for each step, and each step has that
/// result.
pub proof fn lemma_gathered_success<T>(steps: Seq<Result<T, Failure>>)
    requires
        gathered(steps) is Ok,
    ensures
        gathered(steps)->Ok_0.len() == steps.len(),
        forall|i: int|
            0 <= i < steps.len() ==> #[trigger] steps[i] == Ok::<T, Failure>(
                gathered(steps)->Ok_0[i],
            ),
    decreases steps.len(),
{
    if steps.len() > 0 {
        lemma_gathered_success(steps.drop_last());
        assert forall|i: int| 0 <= i < steps.len() implies #[trigger] steps[i] == Ok::<
            T,
            Failure,
        >(gathered(steps)->Ok_0[i]) by {
            if i < steps.len() - 1 {
                assert(steps.drop_last()[i] == steps[i]);
            }
        }
    }
}

/// A row that fails has a first step that fails, and fails as that step does.
pub proof fn lemma_gathered_first_failure<T>(steps: Seq<Result<T, Failure>>) -> (first: int)
    requires
        gathered(steps) is Err,
    ensures
        0 <= first < steps.len(),
        steps[first] == Err::<T, Failure>(gathered(steps)->Err_0),
        forall|i: int| 0 <= i < first ==> (#[trigger] steps[i]) is Ok,
    decreases steps.len(),
{
    if gathered(steps.drop_last()) is Err {
        let first = lemma_gathered_first_failure(steps.drop_last());
        assert(steps.drop_last()[first] == steps[first]);
        assert forall|i: int| 0 <= i < first implies (#[trigger] steps[i]) is Ok by {
            assert(steps.drop_last()[i] == steps[i]);
        }
        first
    } else {
        lemma_gathered_success(steps.drop_last());
        assert forall|i: int| 0 <= i < steps.len() - 1 implies (#[trigger] steps[i]) is Ok by {
            assert(steps.drop_last()[i] == steps[i]);
        }
        steps.len() - 1
    }
}

} // verus!
