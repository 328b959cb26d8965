//! The modifier-chain compiler.
//!
//! A method may name an ordered list of modifiers. The compiler rewrites the
//! method's body into one nested call: the first modifier wraps the second,
//! the second the third, and the last wraps the method's own body. Every modifier
//! receives the handle of the composed object, a thunk that runs what it
//! wraps, and its own copies of the arguments written at its invocation.

use vstd::prelude::*;
use crate::decl::{clone_strings, views, Receiver, Signature, SignatureView};
use crate::error::{ErrorKind, GenError};

verus! {

/// How a parameter is handed over.
#[derive(Clone, Copy, Debug, PartialEq, Eq, Structural)]
pub enum Passing {
    /// By value.
    Value,
    /// By shared reference.
    Reference,
    /// By mutable reference.
    MutableReference,
}

impl Passing {
    /// Whether the parameter is handed over by a reference of either kind.
    pub open spec fn spec_by_reference(self) -> bool {
        self is Reference || self is MutableReference
    }

    /// Whether the parameter is handed over by a reference of either kind.
    #[verifier::when_used_as_spec(spec_by_reference)]
    pub fn by_reference(self) -> (r: bool)
        ensures
            r == self.spec_by_reference(),
    {
        match self {
            Passing::Value => false,
            _ => true,
        }
    }
}

/// A parameter of a modifier after the handle and the thunk.
#[derive(Debug, PartialEq, Eq)]
pub struct ExtraParam {
    pub name: String,
    pub ty: String,
    pub passing: Passing,
}

/// The mathematical content of an [`ExtraParam`].
pub ghost struct ExtraParamView {
    pub name: Seq<char>,
    pub ty: Seq<char>,
    pub passing: Passing,
}

impl View for ExtraParam {
    type V = ExtraParamView;

    open spec fn view(&self) -> ExtraParamView {
        ExtraParamView { name: self.name@, ty: self.ty@, passing: self.passing }
    }
}

/// The declaration of a modifier: a free function that takes a handle of the
/// composed object, a thunk for what it wraps, and extra parameters.
#[derive(Debug, PartialEq, Eq)]
pub struct ModifierDecl {
    pub name: String,
    /// The function's own receiver; a modifier has none.
    pub receiver: Receiver,
    /// How the handle of the composed object is taken.
    pub instance: Passing,
    /// The return type of the thunk.
    pub thunk_ret: String,
    pub extras: Vec<ExtraParam>,
    /// The return type of the modifier itself.
    pub ret: String,
}

/// The mathematical content of a [`ModifierDecl`].
pub ghost struct ModifierDeclView {
    pub name: Seq<char>,
    pub receiver: Receiver,
    pub instance: Passing,
    pub thunk_ret: Seq<char>,
    pub extras: Seq<ExtraParamView>,
    pub ret: Seq<char>,
}

impl View for ModifierDecl {
    type V = ModifierDeclView;

    open spec fn view(&self) -> ModifierDeclView {
        ModifierDeclView {
            name: self.name@,
            receiver: self.receiver,
            instance: self.instance,
            thunk_ret: self.thunk_ret@,
            extras: views(self.extras@),
            ret: self.ret@,
        }
    }
}

impl ModifierDeclView {
    /// Whether the declaration has the form of a modifier: no receiver, the
    /// handle taken by reference, every extra parameter taken by value.
    pub open spec fn well_shaped(self) -> bool {
        &&& self.receiver is Static
        &&& self.instance.by_reference()
        &&& forall|i: int| 0 <= i < self.extras.len() ==> self.extras[i].passing is Value
    }

    /// What is wrong with the declaration, if anything. The shape is judged
    /// before the return type.
    pub open spec fn fault(self) -> Option<ErrorKind> {
        if !self.well_shaped() {
            Some(ErrorKind::UnsupportedShape)
        } else if self.thunk_ret != self.ret {
            Some(ErrorKind::ReturnTypeMismatch)
        } else {
            None
        }
    }
}

/// Checks that a free function can serve as a modifier.
///
/// It must have no receiver, take the handle of the composed object by
/// reference and every extra parameter by value, and return what its thunk
/// returns. The error names the modifier.
pub fn modifier_definition(decl: &ModifierDecl) -> (r: Result<(), GenError>)
    ensures
        match r {
            Ok(_) => decl@.fault() is None,
            Err(e) => decl@.fault() == Some(e@.kind) && e@.name == decl@.name,
        },
{
    let no_receiver = match decl.receiver {
        Receiver::Static => true,
        _ => false,
    };
    if !no_receiver || !decl.instance.by_reference() {
        return Err(GenError::new(ErrorKind::UnsupportedShape, decl.name.as_str()));
    }
    let mut i: usize = 0;
    while i < decl.extras.len()
        invariant
            i <= decl.extras.len(),
            forall|k: int| 0 <= k < i ==> decl.extras[k].passing is Value,
        decreases decl.extras.len() - i,
    {
        if decl.extras[i].passing.by_reference() {
            assert(!(views(decl.extras@)[i as int].passing is Value));
            return Err(GenError::new(ErrorKind::UnsupportedShape, decl.name.as_str()));
        }
        i = i + 1;
    }
    if decl.thunk_ret != decl.ret {
        return Err(GenError::new(ErrorKind::ReturnTypeMismatch, decl.name.as_str()));
    }
    Ok(())
}

/// One entry of a method's modifier list: the modifier's name and the
/// argument expressions written after it.
#[derive(Debug, PartialEq, Eq)]
pub struct Invocation {
    pub modifier: String,
    pub args: Vec<String>,
}

/// The mathematical content of an [`Invocation`].
pub ghost struct InvocationView {
    pub modifier: Seq<char>,
    pub args: Seq<Seq<char>>,
}

impl View for Invocation {
    type V = InvocationView;

    open spec fn view(&self) -> InvocationView {
        InvocationView { modifier: self.modifier@, args: views(self.args@) }
    }
}

/// A rewritten method body.
#[derive(Debug, PartialEq, Eq)]
pub enum Chain {
    /// The body as the method's author wrote it.
    Body(String),
    /// A call of `modifier` with the handle of the composed object, a thunk
    /// that runs `inner` on the handle it is given, and a clone of each of
    /// `args`, taken where the call is assembled.
    Wrap { modifier: String, args: Vec<String>, inner: Box<Chain> },
}

/// The mathematical content of a [`Chain`].
pub ghost enum ChainView {
    Body(Seq<char>),
    Wrap { modifier: Seq<char>, args: Seq<Seq<char>>, inner: Box<ChainView> },
}

/// The content of a chain, stage by stage.
pub open spec fn chain_view(chain: Chain) -> ChainView
    decreases chain,
{
    match chain {
        Chain::Body(body) => ChainView::Body(body@),
        Chain::Wrap { modifier, args, inner } => ChainView::Wrap {
            modifier: modifier@,
            args: views(args@),
            inner: Box::new(chain_view(*inner)),
        },
    }
}

impl View for Chain {
    type V = ChainView;

    open spec fn view(&self) -> ChainView {
        chain_view(*self)
    }
}

/// The chain for the invocations from position `from` on: the invocation at
/// `from` wraps the chain for those after it, and past the last one stands
/// the body.
pub open spec fn nest_from(invocations: Seq<InvocationView>, from: int, body: Seq<char>) -> ChainView
    decreases invocations.len() - from,
{
    if 0 <= from < invocations.len() {
        ChainView::Wrap {
            modifier: invocations[from].modifier,
            args: invocations[from].args,
            inner: Box::new(nest_from(invocations, from + 1, body)),
        }
    } else {
        ChainView::Body(body)
    }
}

/// The chain for a whole modifier list: `m1(.., |..| m2(.., |..| body))`.
pub open spec fn nest(invocations: Seq<InvocationView>, body: Seq<char>) -> ChainView {
    nest_from(invocations, 0, body)
}

/// Whether `index` is the first declaration in `scope` called `name`.
pub open spec fn declares(scope: Seq<ModifierDeclView>, name: Seq<char>, index: int) -> bool {
    &&& 0 <= index < scope.len()
    &&& scope[index].name == name
    &&& forall|j: int| 0 <= j < index ==> scope[j].name != name
}

/// What is wrong with naming `modifier` on a method that returns `ret`, if
/// anything: no declaration in scope has that name, or the first that has it
/// returns another type.
pub open spec fn invocation_fault(
    scope: Seq<ModifierDeclView>,
    ret: Seq<char>,
    modifier: Seq<char>,
) -> Option<ErrorKind> {
    if forall|k: int| 0 <= k < scope.len() ==> scope[k].name != modifier {
        Some(ErrorKind::UnresolvedModifier)
    } else if scope[choose|k: int| declares(scope, modifier, k)].ret != ret {
        Some(ErrorKind::ReturnTypeMismatch)
    } else {
        None
    }
}

/// The first declaration in `scope` called `name`.
fn find_modifier(scope: &Vec<ModifierDecl>, name: &String) -> (r: Option<usize>)
    ensures
        match r {
            Some(k) => declares(views(scope@), name@, k as int),
            None => forall|k: int| 0 <= k < scope.len() ==> views(scope@)[k].name != name@,
        },
{
    let mut i: usize = 0;
    while i < scope.len()
        invariant
            i <= scope.len(),
            forall|k: int| 0 <= k < i ==> views(scope@)[k].name != name@,
        decreases scope.len() - i,
    {
        if scope[i].name == *name {
            return Some(i);
        }
        i = i + 1;
    }
    None
}

/// Judges one invocation against the declarations in scope.
fn check_invocation(scope: &Vec<ModifierDecl>, ret: &String, invocation: &Invocation) -> (r:
    Option<ErrorKind>)
    ensures
        r == invocation_fault(views(scope@), ret@, invocation@.modifier),
{
    match find_modifier(scope, &invocation.modifier) {
        None => Some(ErrorKind::UnresolvedModifier),
        Some(k) => {
            proof {
                let s = views(scope@);
                let name = invocation@.modifier;
                let c = choose|c: int| declares(s, name, c);
                assert(declares(s, name, k as int));
                assert(c == k) by {
                    if c < k {
                        assert(s[c].name != name);
                    }
                    if k < c {
                        assert(s[k as int].name != name);
                    }
                }
            }
            if scope[k].ret != *ret {
                Some(ErrorKind::ReturnTypeMismatch)
            } else {
                None
            }
        },
    }
}

/// A method whose body has been rewritten into a modifier chain.
#[derive(Debug, PartialEq)]
pub struct Wrapped {
    /// The method's signature, unchanged.
    pub sig: Signature,
    pub chain: Chain,
}

/// The mathematical content of a [`Wrapped`] method.
pub ghost struct WrappedView {
    pub sig: SignatureView,
    pub chain: ChainView,
}

impl View for Wrapped {
    type V = WrappedView;

    open spec fn view(&self) -> WrappedView {
        WrappedView { sig: self.sig@, chain: self.chain@ }
    }
}

/// Compiles the modifier list of a method into one nested call.
///
/// `invocations` is the list in declared order, `sig` and `body` are the
/// method, and `scope` holds the modifier declarations that the method can
/// see. On success the signature is unchanged and the body is the chain in
/// which each modifier wraps those after it, with its own arguments. The
/// compilation fails at the first invocation, in declared order, whose
/// modifier is not in scope or does not return what the method returns, and
/// the error names that modifier.
pub fn modifiers(
    invocations: &Vec<Invocation>,
    sig: &Signature,
    body: &str,
    scope: &Vec<ModifierDecl>,
) -> (r: Result<Wrapped, GenError>)
    ensures
        match r {
            Ok(w) => {
                &&& forall|i: int|
                    0 <= i < invocations.len() ==> invocation_fault(
                        views(scope@),
                        sig@.ret,
                        #[trigger] views(invocations@)[i].modifier,
                    ) is None
                &&& w@ == WrappedView { sig: sig@, chain: nest(views(invocations@), body@) }
            },
            Err(e) => exists|i: int|
                {
                    &&& 0 <= i < invocations.len()
                    &&& invocation_fault(
                        views(scope@),
                        sig@.ret,
                        #[trigger] views(invocations@)[i].modifier,
                    ) == Some(e@.kind)
                    &&& e@.name == views(invocations@)[i].modifier
                    &&& forall|j: int|
                        0 <= j < i ==> invocation_fault(
                            views(scope@),
                            sig@.ret,
                            #[trigger] views(invocations@)[j].modifier,
                        ) is None
                },
        },
{
    let mut i: usize = 0;
    while i < invocations.len()
        invariant
            i <= invocations.len(),
            forall|j: int|
                0 <= j < i ==> invocation_fault(
                    views(scope@),
                    sig@.ret,
                    #[trigger] views(invocations@)[j].modifier,
                ) is None,
        decreases invocations.len() - i,
    {
        match check_invocation(scope, &sig.ret, &invocations[i]) {
            Some(kind) => {
                let e = GenError::new(kind, invocations[i].modifier.as_str());
                assert(views(invocations@)[i as int].modifier == invocations[i as int]@.modifier);
                return Err(e);
            },
            None => {
                assert(views(invocations@)[i as int].modifier == invocations[i as int]@.modifier);
            },
        }
        i = i + 1;
    }
    let mut chain = Chain::Body(body.to_owned());
    let mut k: usize = invocations.len();
    while k > 0
        invariant
            k <= invocations.len(),
            chain@ == nest_from(views(invocations@), k as int, body@),
        decreases k,
    {
        k = k - 1;
        chain = Chain::Wrap {
            modifier: invocations[k].modifier.clone(),
            args: clone_strings(&invocations[k].args),
            inner: Box::new(chain),
        };
    }
    Ok(Wrapped { sig: sig.clone(), chain })
}

} // verus!
