//! The declarations the generator reads and writes, as plain data.
//!
//! Names and type texts are strings that the generator never looks into: a
//! type is carried from a declaration to what is generated from it unchanged.

use vstd::prelude::*;
use vstd::std_specs::cmp::PartialEqSpecImpl;

verus! {

/// The views of the elements of a sequence, in order.
pub open spec fn views<T: View>(s: Seq<T>) -> Seq<T::V> {
    Seq::new(s.len(), |i: int| s[i]@)
}

/// Whether two string slices hold the same text.
pub fn same_text(a: &str, b: &str) -> (r: bool)
    ensures
        r == (a@ == b@),
{
    a.to_owned() == b.to_owned()
}

/// How a method takes the object it is called on.
#[derive(Clone, Copy, Debug, PartialEq, Eq, Structural)]
pub enum Receiver {
    /// No receiver: a free or associated function.
    Static,
    /// `self`
    Value,
    /// `&self`
    Shared,
    /// `&mut self`
    Mutable,
}

/// A named, typed parameter.
#[derive(Debug)]
pub struct Param {
    pub name: String,
    pub ty: String,
}

/// The mathematical content of a [`Param`].
pub ghost struct ParamView {
    pub name: Seq<char>,
    pub ty: Seq<char>,
}

impl View for Param {
    type V = ParamView;

    open spec fn view(&self) -> ParamView {
        ParamView { name: self.name@, ty: self.ty@ }
    }
}

impl Clone for Param {
    fn clone(&self) -> (r: Param)
        ensures
            r@ == self@,
    {
        Param { name: self.name.clone(), ty: self.ty.clone() }
    }
}

impl PartialEq for Param {
    fn eq(&self, other: &Param) -> (r: bool) {
        self.name == other.name && self.ty == other.ty
    }
}

impl PartialEqSpecImpl for Param {
    open spec fn obeys_eq_spec() -> bool {
        true
    }

    open spec fn eq_spec(&self, other: &Param) -> bool {
        self@ == other@
    }
}

/// A method signature: its name, receiver, parameters after the receiver, and
/// return type. The empty text stands for a method that returns nothing.
#[derive(Debug)]
pub struct Signature {
    pub name: String,
    pub receiver: Receiver,
    pub params: Vec<Param>,
    pub ret: String,
}

/// The mathematical content of a [`Signature`].
pub ghost struct SignatureView {
    pub name: Seq<char>,
    pub receiver: Receiver,
    pub params: Seq<ParamView>,
    pub ret: Seq<char>,
}

impl View for Signature {
    type V = SignatureView;

    open spec fn view(&self) -> SignatureView {
        SignatureView {
            name: self.name@,
            receiver: self.receiver,
            params: views(self.params@),
            ret: self.ret@,
        }
    }
}

/// A copy of a list of parameters.
pub fn clone_params(params: &Vec<Param>) -> (r: Vec<Param>)
    ensures
        views(r@) == views(params@),
{
    let mut out: Vec<Param> = Vec::new();
    let mut i: usize = 0;
    while i < params.len()
        invariant
            i <= params.len(),
            out.len() == i,
            forall|k: int| 0 <= k < i ==> out[k]@ == params[k]@,
        decreases params.len() - i,
    {
        out.push(params[i].clone());
        i = i + 1;
    }
    assert(views(out@) =~= views(params@));
    out
}

/// Whether two lists of parameters agree in length, names and types.
pub fn same_params(a: &Vec<Param>, b: &Vec<Param>) -> (r: bool)
    ensures
        r == (views(a@) == views(b@)),
{
    if a.len() != b.len() {
        assert(views(a@).len() != views(b@).len());
        return false;
    }
    let mut i: usize = 0;
    while i < a.len()
        invariant
            i <= a.len(),
            a.len() == b.len(),
            forall|k: int| 0 <= k < i ==> a[k]@ == b[k]@,
        decreases a.len() - i,
    {
        if a[i] != b[i] {
            assert(views(a@)[i as int] != views(b@)[i as int]);
            return false;
        }
        i = i + 1;
    }
    assert(views(a@) =~= views(b@));
    true
}

impl Clone for Signature {
    fn clone(&self) -> (r: Signature)
        ensures
            r@ == self@,
    {
        Signature {
            name: self.name.clone(),
            receiver: self.receiver,
            params: clone_params(&self.params),
            ret: self.ret.clone(),
        }
    }
}

impl PartialEq for Signature {
    fn eq(&self, other: &Signature) -> (r: bool) {
        let same_receiver = match (self.receiver, other.receiver) {
            (Receiver::Static, Receiver::Static) => true,
            (Receiver::Value, Receiver::Value) => true,
            (Receiver::Shared, Receiver::Shared) => true,
            (Receiver::Mutable, Receiver::Mutable) => true,
            _ => false,
        };
        self.name == other.name && same_receiver && same_params(&self.params, &other.params)
            && self.ret == other.ret
    }
}

impl PartialEqSpecImpl for Signature {
    open spec fn obeys_eq_spec() -> bool {
        true
    }

    open spec fn eq_spec(&self, other: &Signature) -> bool {
        self@ == other@
    }
}

/// A copy of a list of strings.
pub fn clone_strings(items: &Vec<String>) -> (r: Vec<String>)
    ensures
        views(r@) == views(items@),
{
    let mut out: Vec<String> = Vec::new();
    let mut i: usize = 0;
    while i < items.len()
        invariant
            i <= items.len(),
            out.len() == i,
            forall|k: int| 0 <= k < i ==> out[k]@ == items[k]@,
        decreases items.len() - i,
    {
        out.push(items[i].clone());
        i = i + 1;
    }
    assert(views(out@) =~= views(items@));
    out
}

/// Whether `text` is one of `items`.
pub fn contains_text(items: &Vec<String>, text: &str) -> (r: bool)
    ensures
        r == views(items@).contains(text@),
{
    let mut i: usize = 0;
    while i < items.len()
        invariant
            i <= items.len(),
            forall|k: int| 0 <= k < i ==> views(items@)[k] != text@,
        decreases items.len() - i,
    {
        if same_text(items[i].as_str(), text) {
            assert(views(items@)[i as int] == text@);
            return true;
        }
        i = i + 1;
    }
    false
}

} // verus!
