//! The problem description: what a failed deserialization hands back.
//!
//! The shapes follow RFC 7807. Each type has a view that replaces its strings
//! by character sequences; contracts are stated over those views.

use vstd::prelude::*;

verus! {

/// What was expected, or what was found, at a place in the document.
#[derive(Debug)]
pub struct ExpectedOrActual {
    /// The name of the type.
    pub ty: String,
    /// The format of the value.
    pub format: String,
}

/// The mathematical model of an `ExpectedOrActual`.
pub struct ExpectedOrActualView {
    pub ty: Seq<char>,
    pub format: Seq<char>,
}

impl View for ExpectedOrActual {
    type V = ExpectedOrActualView;

    open spec fn view(&self) -> ExpectedOrActualView {
        ExpectedOrActualView { ty: self.ty@, format: self.format@ }
    }
}

impl Clone for ExpectedOrActual {
    fn clone(&self) -> (r: Self)
        ensures
            r@ == self@,
    {
        ExpectedOrActual { ty: self.ty.clone(), format: self.format.clone() }
    }
}

/// One value of the document that did not validate.
#[derive(Debug)]
pub struct InvalidParam {
    /// The field name or array index of the value.
    pub name: String,
    /// Why the value did not validate.
    pub reason: Option<String>,
    /// What the target asked for.
    pub expected: ExpectedOrActual,
    /// What the document held.
    pub actual: ExpectedOrActual,
    /// The JSON Pointer of the place where the failure was recorded.
    pub pointer: String,
}

/// The mathematical model of an `InvalidParam`.
pub struct InvalidParamView {
    pub name: Seq<char>,
    pub reason: Option<Seq<char>>,
    pub expected: ExpectedOrActualView,
    pub actual: ExpectedOrActualView,
    pub pointer: Seq<char>,
}

/// The view of an optional string.
pub open spec fn text_view(s: Option<String>) -> Option<Seq<char>> {
    match s {
        Some(t) => Some(t@),
        None => None,
    }
}

/// A copy of an optional string.
pub fn clone_text(s: &Option<String>) -> (r: Option<String>)
    ensures
        text_view(r) == text_view(*s),
{
    match s {
        Some(t) => Some(t.clone()),
        None => None,
    }
}

impl View for InvalidParam {
    type V = InvalidParamView;

    open spec fn view(&self) -> InvalidParamView {
        InvalidParamView {
            name: self.name@,
            reason: text_view(self.reason),
            expected: self.expected@,
            actual: self.actual@,
            pointer: self.pointer@,
        }
    }
}

impl Clone for InvalidParam {
    fn clone(&self) -> (r: Self)
        ensures
            r@ == self@,
    {
        InvalidParam {
            name: self.name.clone(),
            reason: clone_text(&self.reason),
            expected: self.expected.clone(),
            actual: self.actual.clone(),
            pointer: self.pointer.clone(),
        }
    }
}

/// The views of a list of invalid parameters, in order.
pub open spec fn params_view(params: Seq<InvalidParam>) -> Seq<InvalidParamView> {
    params.map_values(|p: InvalidParam| p@)
}

/// A copy of a list of invalid parameters.
pub fn clone_params(params: &Vec<InvalidParam>) -> (r: Vec<InvalidParam>)
    ensures
        params_view(r@) == params_view(params@),
{
    let mut r: Vec<InvalidParam> = Vec::new();
    let mut i: usize = 0;
    while i < params.len()
        invariant
            i <= params.len(),
            r@.len() == i,
            forall|k: int| 0 <= k < i ==> r@[k]@ == params@[k]@,
        decreases params.len() - i,
    {
        r.push(params[i].clone());
        i += 1;
    }
    assert(params_view(r@) =~= params_view(params@));
    r
}

/// The problem description of a failed call.
#[derive(Debug)]
pub struct Error {
    /// A URI that identifies the kind of problem. Reserved.
    pub type_uri: Option<String>,
    /// A short summary of the problem.
    pub title: String,
    /// A sentence on a syntax error; absent for validation failures.
    pub detail: Option<String>,
    /// A URI that identifies this occurrence. Reserved.
    pub instance: Option<String>,
    /// Every value that did not validate, in the order of discovery.
    pub invalid_params: Vec<InvalidParam>,
    /// The status code of the response that carries this description.
    pub status: Option<u16>,
}

/// The mathematical model of an `Error`.
pub struct ErrorView {
    pub type_uri: Option<Seq<char>>,
    pub title: Seq<char>,
    pub detail: Option<Seq<char>>,
    pub instance: Option<Seq<char>>,
    pub invalid_params: Seq<InvalidParamView>,
    pub status: Option<u16>,
}

impl View for Error {
    type V = ErrorView;

    open spec fn view(&self) -> ErrorView {
        ErrorView {
            type_uri: text_view(self.type_uri),
            title: self.title@,
            detail: text_view(self.detail),
            instance: text_view(self.instance),
            invalid_params: params_view(self.invalid_params@),
            status: self.status,
        }
    }
}

impl Clone for Error {
    fn clone(&self) -> (r: Self)
        ensures
            r@ == self@,
    {
        Error {
            type_uri: clone_text(&self.type_uri),
            title: self.title.clone(),
            detail: clone_text(&self.detail),
            instance: clone_text(&self.instance),
            invalid_params: clone_params(&self.invalid_params),
            status: self.status,
        }
    }
}

/// The title of every problem description that this crate builds.
pub open spec fn problem_title() -> Seq<char> {
    "Your request parameters didn't validate."@
}

/// The status code of every problem description that this crate builds.
pub open spec fn problem_status() -> u16 {
    400
}

/// The description of a document in which the `params` did not validate.
pub open spec fn validation_problem(params: Seq<InvalidParamView>) -> ErrorView {
    ErrorView {
        type_uri: None,
        title: problem_title(),
        detail: None,
        instance: None,
        invalid_params: params,
        status: Some(problem_status()),
    }
}

/// The description of a failure on which `detail` is all that is known.
pub open spec fn detail_problem(detail: Seq<char>) -> ErrorView {
    ErrorView {
        type_uri: None,
        title: problem_title(),
        detail: Some(detail),
        instance: None,
        invalid_params: Seq::empty(),
        status: Some(problem_status()),
    }
}

/// Builds the description of a failure on which `detail` is all that is known.
pub fn detail_error(detail: String) -> (e: Error)
    ensures
        e@ == detail_problem(detail@),
{
    let e = Error {
        type_uri: None,
        title: String::from_str("Your request parameters didn't validate."),
        detail: Some(detail),
        instance: None,
        invalid_params: Vec::new(),
        status: Some(400),
    };
    assert(e@.invalid_params =~= Seq::empty());
    e
}

/// The result of a deserialization: the converted value, or the description
/// of everything that kept it from being converted.
#[derive(Debug)]
pub enum Result<T> {
    /// The converted value.
    Valid(T),
    /// What kept the value from being converted.
    Invalid(Error),
}

impl<T> Result<T> {
    /// Whether the value was converted.
    pub fn is_ok(&self) -> (b: bool)
        ensures
            b == (self is Valid),
    {
        match self {
            Result::Valid(_) => true,
            Result::Invalid(_) => false,
        }
    }

    /// Whether the call failed.
    pub fn is_err(&self) -> (b: bool)
        ensures
            b == (self is Invalid),
    {
        match self {
            Result::Valid(_) => false,
            Result::Invalid(_) => true,
        }
    }

    /// The same result, holding a reference to the value or a copy of the
    /// description.
    pub fn as_ref(&self) -> (r: Result<&T>)
        ensures
            match (self, r) {
                (Result::Valid(t), Result::Valid(u)) => *u == *t,
                (Result::Invalid(e), Result::Invalid(f)) => f@ == e@,
                _ => false,
            },
    {
        match self {
            Result::Valid(t) => Result::Valid(t),
            Result::Invalid(e) => Result::Invalid(e.clone()),
        }
    }

    /// The converted value.
    pub fn unwrap(self) -> (t: T)
        requires
            self is Valid,
        ensures
            self == Result::<T>::Valid(t),
    {
        match self {
            Result::Valid(t) => t,
            Result::Invalid(_) => unreached(),
        }
    }

    /// The problem description.
    pub fn unwrap_err(self) -> (e: Error)
        requires
            self is Invalid,
        ensures
            self == Result::<T>::Invalid(e),
    {
        match self {
            Result::Valid(_) => unreached(),
            Result::Invalid(e) => e,
        }
    }
}

} // verus!
