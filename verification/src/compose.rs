//! Composition: one object out of the behavior modules it includes.
//!
//! A composed object names the behavior modules it implements, the methods
//! it provides in place of their defaults, and storage fragments of its own.
//! Composing it checks the object against the records of its modules and
//! lays out its storage.

use vstd::prelude::*;
use crate::behavior::{
    is_recorded, lookup_of, Facade, FacadeView, ModuleRecordView, Registry,
};
use crate::decl::{contains_text, views, Signature, SignatureView};
use crate::error::{fails_with, faultless, first_fault_at, ErrorKind, GenError, GenErrorView};
use crate::fragment::{Fragment, FragmentView};
use crate::storage::{fragment_fault, layout_of, merge, Layout, RegisteredView};

verus! {

/// A method that a composed object provides in place of a module's own.
#[derive(Debug, PartialEq)]
pub struct Override {
    /// The behavior module whose method is replaced.
    pub module: String,
    /// The signature under which the replacement is written.
    pub sig: Signature,
}

/// The mathematical content of an [`Override`].
pub ghost struct OverrideView {
    pub module: Seq<char>,
    pub sig: SignatureView,
}

impl View for Override {
    type V = OverrideView;

    open spec fn view(&self) -> OverrideView {
        OverrideView { module: self.module@, sig: self.sig@ }
    }
}

/// A composed object as declared.
#[derive(Debug, PartialEq)]
pub struct ComposedObject {
    pub name: String,
    /// The behavior modules the object implements, by name.
    pub modules: Vec<String>,
    pub overrides: Vec<Override>,
    /// Storage fragments of the object's own, beside those of its modules.
    pub fragments: Vec<Fragment>,
}

/// The mathematical content of a [`ComposedObject`].
pub ghost struct ComposedObjectView {
    pub name: Seq<char>,
    pub modules: Seq<Seq<char>>,
    pub overrides: Seq<OverrideView>,
    pub fragments: Seq<FragmentView>,
}

impl View for ComposedObject {
    type V = ComposedObjectView;

    open spec fn view(&self) -> ComposedObjectView {
        ComposedObjectView {
            name: self.name@,
            modules: views(self.modules@),
            overrides: views(self.overrides@),
            fragments: views(self.fragments@),
        }
    }
}

/// What composing an object yields.
#[derive(Debug, PartialEq)]
pub struct Composition {
    pub object: String,
    /// For each module of the object, in order, the facade that the object
    /// implements for callers from outside.
    pub facades: Vec<Facade>,
    /// The storage of the object.
    pub layout: Layout,
}

/// The mathematical content of a [`Composition`].
pub ghost struct CompositionView {
    pub object: Seq<char>,
    pub facades: Seq<FacadeView>,
    pub layout: Seq<RegisteredView>,
}

impl View for Composition {
    type V = CompositionView;

    open spec fn view(&self) -> CompositionView {
        CompositionView {
            object: self.object@,
            facades: views(self.facades@),
            layout: self.layout@,
        }
    }
}

/// What is wrong with including the module called `name`, if anything: it
/// has no record.
pub open spec fn module_fault(registry: Seq<ModuleRecordView>, name: Seq<char>) -> Option<
    GenErrorView,
> {
    if is_recorded(registry, name) {
        None
    } else {
        Some(GenErrorView { kind: ErrorKind::UnknownModule, name })
    }
}

/// What is wrong with an override, if anything: its module is not one that
/// the object includes, or has no record; or the module has no method with
/// the signature of the override.
pub open spec fn override_fault(
    registry: Seq<ModuleRecordView>,
    modules: Seq<Seq<char>>,
    o: OverrideView,
) -> Option<GenErrorView> {
    if !modules.contains(o.module) || !is_recorded(registry, o.module) {
        Some(GenErrorView { kind: ErrorKind::UnknownModule, name: o.module })
    } else if !lookup_of(registry, o.module).has_signature(o.sig) {
        Some(GenErrorView { kind: ErrorKind::SignatureMismatch, name: o.sig.name })
    } else {
        None
    }
}

/// What is wrong with the fragment at position `j`, if anything, as an
/// error that names the fragment.
pub open spec fn storage_fault(fragments: Seq<FragmentView>, j: int) -> Option<GenErrorView> {
    match fragment_fault(fragments, j) {
        Some(kind) => Some(GenErrorView { kind, name: fragments[j].name }),
        None => None,
    }
}

/// The fragments that the modules called `modules` bring along, in order.
pub open spec fn contributed(registry: Seq<ModuleRecordView>, modules: Seq<Seq<char>>) -> Seq<
    FragmentView,
>
    decreases modules.len(),
{
    if modules.len() == 0 {
        Seq::empty()
    } else {
        let before = contributed(registry, modules.drop_last());
        match lookup_of(registry, modules.last()).fragment {
            Some(f) => before.push(f),
            None => before,
        }
    }
}

/// All fragments of an object: those of its modules, then its own.
pub open spec fn fragments_of(
    object: ComposedObjectView,
    registry: Seq<ModuleRecordView>,
) -> Seq<FragmentView> {
    contributed(registry, object.modules) + object.fragments
}

/// The faults of the included modules, one entry per module.
pub open spec fn module_faults(
    object: ComposedObjectView,
    registry: Seq<ModuleRecordView>,
) -> Seq<Option<GenErrorView>> {
    Seq::new(object.modules.len(), |i: int| module_fault(registry, object.modules[i]))
}

/// The faults of the overrides, one entry per override.
pub open spec fn override_faults(
    object: ComposedObjectView,
    registry: Seq<ModuleRecordView>,
) -> Seq<Option<GenErrorView>> {
    Seq::new(
        object.overrides.len(),
        |k: int| override_fault(registry, object.modules, object.overrides[k]),
    )
}

/// The faults of the fragments, one entry per fragment.
pub open spec fn storage_faults(fragments: Seq<FragmentView>) -> Seq<Option<GenErrorView>> {
    Seq::new(fragments.len(), |j: int| storage_fault(fragments, j))
}

/// What composing a faultless object yields.
pub open spec fn composition_of(
    object: ComposedObjectView,
    registry: Seq<ModuleRecordView>,
) -> CompositionView {
    CompositionView {
        object: object.name,
        facades: Seq::new(
            object.modules.len(),
            |i: int|
                FacadeView {
                    module: object.modules[i],
                    methods: lookup_of(registry, object.modules[i]).external_signatures(),
                },
        ),
        layout: layout_of(fragments_of(object, registry)),
    }
}

/// Composes an object from the behavior modules it includes.
///
/// The object is checked in three passes, each in declaration order: every
/// included module must have a record; every override must belong to an
/// included module and repeat the signature of one of its methods; and the
/// fragments of the modules and of the object itself must merge into one
/// layout, which two fragments of one name never do. The first fault of the
/// first pass that has one is returned. A faultless object yields the
/// facade of each of its modules and its storage layout.
pub fn contract(object: &ComposedObject, registry: &Registry) -> (r: Result<Composition, GenError>)
    ensures
        match r {
            Ok(c) => {
                &&& faultless(module_faults(object@, registry@))
                &&& faultless(override_faults(object@, registry@))
                &&& faultless(storage_faults(fragments_of(object@, registry@)))
                &&& c@ == composition_of(object@, registry@)
            },
            Err(e) => {
                ||| fails_with(module_faults(object@, registry@), e@)
                ||| faultless(module_faults(object@, registry@)) && fails_with(
                    override_faults(object@, registry@),
                    e@,
                )
                ||| faultless(module_faults(object@, registry@)) && faultless(
                    override_faults(object@, registry@),
                ) && fails_with(storage_faults(fragments_of(object@, registry@)), e@)
            },
        },
{
    let ghost names = views(object.modules@);
    let mut facades: Vec<Facade> = Vec::new();
    let mut fragments: Vec<Fragment> = Vec::new();
    let mut i: usize = 0;
    while i < object.modules.len()
        invariant
            i <= object.modules.len(),
            names == object@.modules,
            facades.len() == i,
            forall|k: int| 0 <= k < i ==> module_faults(object@, registry@)[k] is None,
            forall|k: int|
                0 <= k < i ==> facades[k]@ == (FacadeView {
                    module: names[k],
                    methods: lookup_of(registry@, names[k]).external_signatures(),
                }),
            views(fragments@) == contributed(registry@, names.take(i as int)),
        decreases object.modules.len() - i,
    {
        let record = match registry.lookup(object.modules[i].as_str()) {
            Some(record) => record,
            None => {
                let e = GenError::new(ErrorKind::UnknownModule, object.modules[i].as_str());
                assert(first_fault_at(module_faults(object@, registry@), i as int, e@));
                return Err(e);
            },
        };
        proof {
            crate::behavior::lemma_lookup_has_name(registry@, names[i as int]);
            assert(names.take(i + 1).drop_last() =~= names.take(i as int));
        }
        facades.push(record.facade());
        if let Some(fragment) = &record.fragment {
            let ghost before = views(fragments@);
            fragments.push(fragment.clone());
            assert(views(fragments@) =~= before.push(fragment@));
        }
        i = i + 1;
    }
    assert(names.take(i as int) =~= names);
    let mut k: usize = 0;
    while k < object.overrides.len()
        invariant
            k <= object.overrides.len(),
            names == object@.modules,
            faultless(module_faults(object@, registry@)),
            forall|j: int| 0 <= j < k ==> override_faults(object@, registry@)[j] is None,
        decreases object.overrides.len() - k,
    {
        let o = &object.overrides[k];
        let known = if contains_text(&object.modules, o.module.as_str()) {
            registry.lookup(o.module.as_str())
        } else {
            None
        };
        match known {
            None => {
                let e = GenError::new(ErrorKind::UnknownModule, o.module.as_str());
                assert(first_fault_at(override_faults(object@, registry@), k as int, e@));
                return Err(e);
            },
            Some(record) => {
                if !record.has_signature(&o.sig) {
                    let e = GenError::new(ErrorKind::SignatureMismatch, o.sig.name.as_str());
                    assert(first_fault_at(override_faults(object@, registry@), k as int, e@));
                    return Err(e);
                }
            },
        }
        k = k + 1;
    }
    let mut j: usize = 0;
    let ghost brought = views(fragments@);
    while j < object.fragments.len()
        invariant
            j <= object.fragments.len(),
            views(fragments@) == brought + object@.fragments.take(j as int),
        decreases object.fragments.len() - j,
    {
        let ghost before = views(fragments@);
        fragments.push(object.fragments[j].clone());
        assert(views(fragments@) =~= before.push(object.fragments[j as int]@));
        assert(object@.fragments.take(j + 1) =~= object@.fragments.take(j as int).push(
            object.fragments[j as int]@,
        ));
        assert(views(fragments@) =~= brought + object@.fragments.take(j + 1));
        j = j + 1;
    }
    assert(object@.fragments.take(j as int) =~= object@.fragments);
    let ghost all = fragments_of(object@, registry@);
    assert(views(fragments@) == all);
    match merge(&fragments) {
        Err(e) => {
            proof {
                let j = choose|j: int|
                    {
                        &&& 0 <= j < all.len()
                        &&& #[trigger] fragment_fault(all, j) == Some(e@.kind)
                        &&& e@.name == all[j].name
                        &&& forall|k: int| 0 <= k < j ==> fragment_fault(all, k) is None
                    };
                assert(first_fault_at(storage_faults(all), j, e@));
            }
            Err(e)
        },
        Ok(layout) => {
            let c = Composition { object: object.name.clone(), facades, layout };
            assert(c@.facades =~= composition_of(object@, registry@).facades);
            Ok(c)
        },
    }
}

} // verus!
