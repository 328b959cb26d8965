//! Diagnostics. Every failure is fatal to the build and names the declaration
//! at fault.

use vstd::prelude::*;

verus! {

/// What went wrong. Each kind has a stable numeric code, see [`ErrorKind::code`].
#[derive(Clone, Copy, Debug, PartialEq, Eq, Structural)]
pub enum ErrorKind {
    /// A method differs from the signature that the behavior module declares
    /// for it: in a facade, or where a composed object provides it.
    SignatureMismatch,
    /// A composed object includes a behavior module that was never recorded.
    UnknownModule,
    /// A declaration has a shape the generator does not support: a storage
    /// fragment that is not a struct, names a field twice or tags a field
    /// without a name; a modifier that takes a receiver, its handle by value
    /// or an extra parameter by reference.
    UnsupportedShape,
    /// A modifier named on a method has no declaration in scope.
    UnresolvedModifier,
    /// A modifier's return type differs from that of the method it wraps.
    ReturnTypeMismatch,
    /// Two storage fragments of one composed object share a declared name.
    DuplicateFragment,
}

impl ErrorKind {
    /// The code of this kind as a number.
    pub open spec fn spec_code(self) -> u32 {
        match self {
            ErrorKind::SignatureMismatch => 1,
            ErrorKind::UnknownModule => 2,
            ErrorKind::UnsupportedShape => 3,
            ErrorKind::UnresolvedModifier => 4,
            ErrorKind::ReturnTypeMismatch => 5,
            ErrorKind::DuplicateFragment => 6,
        }
    }

    /// The stable code by which tooling classifies a failure.
    pub fn code(self) -> (c: u32)
        ensures
            c == self.spec_code(),
    {
        match self {
            ErrorKind::SignatureMismatch => 1,
            ErrorKind::UnknownModule => 2,
            ErrorKind::UnsupportedShape => 3,
            ErrorKind::UnresolvedModifier => 4,
            ErrorKind::ReturnTypeMismatch => 5,
            ErrorKind::DuplicateFragment => 6,
        }
    }

    /// The kind that carries the code `c`, if any.
    pub fn from_code(c: u32) -> (k: Option<ErrorKind>)
        ensures
            match k {
                Some(kind) => kind.spec_code() == c,
                None => forall|kind: ErrorKind| kind.spec_code() != c,
            },
    {
        if c == 1 {
            Some(ErrorKind::SignatureMismatch)
        } else if c == 2 {
            Some(ErrorKind::UnknownModule)
        } else if c == 3 {
            Some(ErrorKind::UnsupportedShape)
        } else if c == 4 {
            Some(ErrorKind::UnresolvedModifier)
        } else if c == 5 {
            Some(ErrorKind::ReturnTypeMismatch)
        } else if c == 6 {
            Some(ErrorKind::DuplicateFragment)
        } else {
            None
        }
    }
}

/// A failed expansion: the kind of failure and the name of the declaration
/// (method, module, fragment or modifier) that caused it.
#[derive(Debug)]
pub struct GenError {
    pub kind: ErrorKind,
    pub name: String,
}

/// The mathematical content of a [`GenError`].
pub ghost struct GenErrorView {
    pub kind: ErrorKind,
    pub name: Seq<char>,
}

impl View for GenError {
    type V = GenErrorView;

    open spec fn view(&self) -> GenErrorView {
        GenErrorView { kind: self.kind, name: self.name@ }
    }
}

impl GenError {
    /// An error of the given kind about the declaration called `name`.
    pub fn new(kind: ErrorKind, name: &str) -> (e: GenError)
        ensures
            e@ == (GenErrorView { kind, name: name@ }),
    {
        GenError { kind, name: name.to_owned() }
    }

    /// The stable code of this error's kind.
    pub fn code(&self) -> (c: u32)
        ensures
            c == self@.kind.spec_code(),
    {
        self.kind.code()
    }
}

/// Whether `faults` has its first fault at position `i`, and that fault is
/// `e`.
pub open spec fn first_fault_at(faults: Seq<Option<GenErrorView>>, i: int, e: GenErrorView) -> bool {
    &&& 0 <= i < faults.len()
    &&& faults[i] == Some(e)
    &&& forall|j: int| 0 <= j < i ==> faults[j] is None
}

/// Whether the first fault in `faults` is `e`.
pub open spec fn fails_with(faults: Seq<Option<GenErrorView>>, e: GenErrorView) -> bool {
    exists|i: int| first_fault_at(faults, i, e)
}

/// Whether there is no fault in `faults`.
pub open spec fn faultless(faults: Seq<Option<GenErrorView>>) -> bool {
    forall|i: int| 0 <= i < faults.len() ==> faults[i] is None
}

/// Two kinds with the same code are the same kind.
pub proof fn lemma_codes_distinct(a: ErrorKind, b: ErrorKind)
    ensures
        a.spec_code() == b.spec_code() <==> a == b,
{
}

} // verus!
