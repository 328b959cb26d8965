//! The behavior-definition splitter.
//!
//! A behavior module is declared once. The splitter turns the declaration
//! into an internal trait that carries every method with its default body,
//! and an external facade that exposes the externally callable methods
//! alone, without bodies, for callers that hold only a handle. It also
//! yields the record by which a composed object later finds the module.

use vstd::prelude::*;
use crate::decl::{same_text, views, Signature, SignatureView};
use crate::error::{fails_with, faultless, first_fault_at, ErrorKind, GenError, GenErrorView};
use crate::fragment::{Fragment, FragmentView};

verus! {

/// A method of a behavior module.
#[derive(Debug, PartialEq)]
pub struct Method {
    pub sig: Signature,
    /// Whether the method can be called from outside the composed object.
    pub external: bool,
    /// The default body; an abstract method has none.
    pub body: Option<String>,
}

/// The mathematical content of a [`Method`].
pub ghost struct MethodView {
    pub sig: SignatureView,
    pub external: bool,
    pub body: Option<Seq<char>>,
}

impl View for Method {
    type V = MethodView;

    open spec fn view(&self) -> MethodView {
        MethodView {
            sig: self.sig@,
            external: self.external,
            body: match self.body {
                Some(b) => Some(b@),
                None => None,
            },
        }
    }
}

impl Clone for Method {
    fn clone(&self) -> (r: Method)
        ensures
            r@ == self@,
    {
        let body = match &self.body {
            Some(b) => Some(b.clone()),
            None => None,
        };
        Method { sig: self.sig.clone(), external: self.external, body }
    }
}

/// A behavior module as declared: methods, and at most one storage fragment.
#[derive(Debug, PartialEq)]
pub struct BehaviorModule {
    pub name: String,
    pub methods: Vec<Method>,
    pub fragment: Option<Fragment>,
}

/// The mathematical content of a [`BehaviorModule`].
pub ghost struct BehaviorModuleView {
    pub name: Seq<char>,
    pub methods: Seq<MethodView>,
    pub fragment: Option<FragmentView>,
}

impl View for BehaviorModule {
    type V = BehaviorModuleView;

    open spec fn view(&self) -> BehaviorModuleView {
        BehaviorModuleView {
            name: self.name@,
            methods: views(self.methods@),
            fragment: match self.fragment {
                Some(f) => Some(f@),
                None => None,
            },
        }
    }
}

/// The internal trait of a behavior module: every method, with its body.
#[derive(Debug, PartialEq)]
pub struct InternalTrait {
    pub name: String,
    pub methods: Vec<Method>,
}

/// The mathematical content of an [`InternalTrait`].
pub ghost struct InternalTraitView {
    pub name: Seq<char>,
    pub methods: Seq<MethodView>,
}

impl View for InternalTrait {
    type V = InternalTraitView;

    open spec fn view(&self) -> InternalTraitView {
        InternalTraitView { name: self.name@, methods: views(self.methods@) }
    }
}

/// The external facade of a behavior module: the signatures of its
/// externally callable methods.
#[derive(Debug, PartialEq)]
pub struct Facade {
    /// The behavior module behind the facade.
    pub module: String,
    pub methods: Vec<Signature>,
}

/// The mathematical content of a [`Facade`].
pub ghost struct FacadeView {
    pub module: Seq<char>,
    pub methods: Seq<SignatureView>,
}

impl View for Facade {
    type V = FacadeView;

    open spec fn view(&self) -> FacadeView {
        FacadeView { module: self.module@, methods: views(self.methods@) }
    }
}

/// What is recorded of one method.
#[derive(Debug, PartialEq)]
pub struct Recorded {
    pub sig: Signature,
    pub external: bool,
}

/// The mathematical content of a [`Recorded`] method.
pub ghost struct RecordedView {
    pub sig: SignatureView,
    pub external: bool,
}

impl View for Recorded {
    type V = RecordedView;

    open spec fn view(&self) -> RecordedView {
        RecordedView { sig: self.sig@, external: self.external }
    }
}

/// What a build keeps of a behavior module for the composed objects that
/// include it: the method signatures and the storage fragment.
#[derive(Debug, PartialEq)]
pub struct ModuleRecord {
    pub name: String,
    pub methods: Vec<Recorded>,
    pub fragment: Option<Fragment>,
}

/// The mathematical content of a [`ModuleRecord`].
pub ghost struct ModuleRecordView {
    pub name: Seq<char>,
    pub methods: Seq<RecordedView>,
    pub fragment: Option<FragmentView>,
}

impl View for ModuleRecord {
    type V = ModuleRecordView;

    open spec fn view(&self) -> ModuleRecordView {
        ModuleRecordView {
            name: self.name@,
            methods: views(self.methods@),
            fragment: match self.fragment {
                Some(f) => Some(f@),
                None => None,
            },
        }
    }
}

impl ModuleRecordView {
    /// Whether the module has a method with exactly this signature.
    pub open spec fn has_signature(self, sig: SignatureView) -> bool {
        exists|i: int| 0 <= i < self.methods.len() && self.methods[i].sig == sig
    }

    /// The signatures of the methods that are callable from outside, in
    /// declaration order.
    pub open spec fn external_signatures(self) -> Seq<SignatureView> {
        self.methods.filter(|m: RecordedView| m.external).map_values(|m: RecordedView| m.sig)
    }
}

impl ModuleRecord {
    /// Whether the module has a method with exactly this signature.
    pub fn has_signature(&self, sig: &Signature) -> (r: bool)
        ensures
            r == self@.has_signature(sig@),
    {
        let mut i: usize = 0;
        while i < self.methods.len()
            invariant
                i <= self.methods.len(),
                forall|k: int| 0 <= k < i ==> views(self.methods@)[k].sig != sig@,
            decreases self.methods.len() - i,
        {
            if self.methods[i].sig == *sig {
                assert(views(self.methods@)[i as int].sig == sig@);
                return true;
            }
            i = i + 1;
        }
        false
    }

    /// The facade of the recorded module.
    pub fn facade(&self) -> (f: Facade)
        ensures
            f@ == (FacadeView { module: self@.name, methods: self@.external_signatures() }),
    {
        let ghost pred = |m: RecordedView| m.external;
        let ghost all = views(self.methods@);
        let mut methods: Vec<Signature> = Vec::new();
        let mut i: usize = 0;
        while i < self.methods.len()
            invariant
                i <= self.methods.len(),
                all == views(self.methods@),
                pred == |m: RecordedView| m.external,
                views(methods@) == all.take(i as int).filter(pred).map_values(
                    |m: RecordedView| m.sig,
                ),
            decreases self.methods.len() - i,
        {
            proof {
                assert(all.take(i + 1) =~= all.take(i as int).push(all[i as int]));
                all.take(i as int).lemma_filter_push(all[i as int], pred);
            }
            if self.methods[i].external {
                let ghost before = views(methods@);
                methods.push(self.methods[i].sig.clone());
                assert(views(methods@) =~= before.push(all[i as int].sig));
                assert(views(methods@) =~= all.take(i + 1).filter(pred).map_values(
                    |m: RecordedView| m.sig,
                ));
            }
            i = i + 1;
        }
        assert(all.take(i as int) =~= all);
        Facade { module: self.name.clone(), methods }
    }
}

/// What the splitter makes of one behavior module.
#[derive(Debug, PartialEq)]
pub struct Split {
    pub internal: InternalTrait,
    pub external: Facade,
    pub record: ModuleRecord,
}

/// The mathematical content of a [`Split`].
pub ghost struct SplitView {
    pub internal: InternalTraitView,
    pub external: FacadeView,
    pub record: ModuleRecordView,
}

impl View for Split {
    type V = SplitView;

    open spec fn view(&self) -> SplitView {
        SplitView { internal: self.internal@, external: self.external@, record: self.record@ }
    }
}

/// The record of a module: every method's signature with its visibility,
/// and the module's fragment.
pub open spec fn record_of(module: BehaviorModuleView) -> ModuleRecordView {
    ModuleRecordView {
        name: module.name,
        methods: module.methods.map_values(
            |m: MethodView| RecordedView { sig: m.sig, external: m.external },
        ),
        fragment: module.fragment,
    }
}

/// What the splitter makes of `module`: the internal trait has all methods
/// as declared, the facade has the signatures of the external ones.
pub open spec fn split_of(module: BehaviorModuleView) -> SplitView {
    SplitView {
        internal: InternalTraitView { name: module.name, methods: module.methods },
        external: FacadeView {
            module: module.name,
            methods: record_of(module).external_signatures(),
        },
        record: record_of(module),
    }
}

/// Splits a behavior module into its internal trait and its external
/// facade, and makes the record that the build keeps of it.
pub fn trait_definition(module: &BehaviorModule) -> (s: Split)
    ensures
        s@ == split_of(module@),
{
    let mut methods: Vec<Method> = Vec::new();
    let mut recorded: Vec<Recorded> = Vec::new();
    let mut i: usize = 0;
    while i < module.methods.len()
        invariant
            i <= module.methods.len(),
            methods.len() == i,
            recorded.len() == i,
            forall|k: int| 0 <= k < i ==> methods[k]@ == module.methods[k]@,
            forall|k: int|
                0 <= k < i ==> recorded[k]@ == (RecordedView {
                    sig: module.methods[k]@.sig,
                    external: module.methods[k]@.external,
                }),
        decreases module.methods.len() - i,
    {
        let method = &module.methods[i];
        methods.push(method.clone());
        recorded.push(Recorded { sig: method.sig.clone(), external: method.external });
        i = i + 1;
    }
    let fragment = match &module.fragment {
        Some(f) => Some(f.clone()),
        None => None,
    };
    let record = ModuleRecord { name: module.name.clone(), methods: recorded, fragment };
    assert(record@.methods =~= record_of(module@).methods);
    let internal = InternalTrait { name: module.name.clone(), methods };
    assert(internal@.methods =~= module@.methods);
    let external = record.facade();
    Split { internal, external, record }
}

/// The error for a method on which a trait and a facade disagree.
pub open spec fn mismatch(sig: SignatureView) -> GenErrorView {
    GenErrorView { kind: ErrorKind::SignatureMismatch, name: sig.name }
}

impl InternalTraitView {
    /// Whether the trait has an external method with exactly this signature.
    pub open spec fn exposes(self, sig: SignatureView) -> bool {
        exists|i: int|
            0 <= i < self.methods.len() && self.methods[i].external && self.methods[i].sig == sig
    }

    /// For each method of the trait, what is wrong with it in view of
    /// `facade`, if anything: it is external, and the facade does not have
    /// it under the same signature.
    pub open spec fn missing_from(self, facade: FacadeView) -> Seq<Option<GenErrorView>> {
        Seq::new(
            self.methods.len(),
            |i: int|
                if self.methods[i].external && !facade.methods.contains(self.methods[i].sig) {
                    Some(mismatch(self.methods[i].sig))
                } else {
                    None
                },
        )
    }

    /// For each method of `facade`, what is wrong with it in view of the
    /// trait, if anything: the trait has no external method of that
    /// signature.
    pub open spec fn unknown_in(self, facade: FacadeView) -> Seq<Option<GenErrorView>> {
        Seq::new(
            facade.methods.len(),
            |k: int|
                if !self.exposes(facade.methods[k]) {
                    Some(mismatch(facade.methods[k]))
                } else {
                    None
                },
        )
    }
}

impl InternalTrait {
    /// Whether the trait has an external method with exactly this signature.
    pub fn exposes(&self, sig: &Signature) -> (r: bool)
        ensures
            r == self@.exposes(sig@),
    {
        let mut i: usize = 0;
        while i < self.methods.len()
            invariant
                i <= self.methods.len(),
                forall|k: int|
                    0 <= k < i ==> !(self@.methods[k].external && self@.methods[k].sig == sig@),
            decreases self.methods.len() - i,
        {
            if self.methods[i].external && self.methods[i].sig == *sig {
                assert(self@.methods[i as int].external && self@.methods[i as int].sig == sig@);
                return true;
            }
            i = i + 1;
        }
        false
    }
}

impl Facade {
    /// Whether the facade has a method with exactly this signature.
    pub fn has(&self, sig: &Signature) -> (r: bool)
        ensures
            r == self@.methods.contains(sig@),
    {
        let mut i: usize = 0;
        while i < self.methods.len()
            invariant
                i <= self.methods.len(),
                forall|k: int| 0 <= k < i ==> self@.methods[k] != sig@,
            decreases self.methods.len() - i,
        {
            if self.methods[i] == *sig {
                assert(self@.methods[i as int] == sig@);
                return true;
            }
            i = i + 1;
        }
        false
    }
}

/// Checks that an internal trait and an external facade are compatible:
/// every external method of the trait is in the facade under the same
/// signature, and the facade has no other method.
///
/// The methods of the trait are judged first, then those of the facade,
/// each in declaration order. The error names the first method at fault.
pub fn check_facade(internal: &InternalTrait, facade: &Facade) -> (r: Result<(), GenError>)
    ensures
        match r {
            Ok(_) => faultless(internal@.missing_from(facade@)) && faultless(
                internal@.unknown_in(facade@),
            ),
            Err(e) => {
                ||| fails_with(internal@.missing_from(facade@), e@)
                ||| faultless(internal@.missing_from(facade@)) && fails_with(
                    internal@.unknown_in(facade@),
                    e@,
                )
            },
        },
{
    let mut i: usize = 0;
    while i < internal.methods.len()
        invariant
            i <= internal.methods.len(),
            forall|k: int| 0 <= k < i ==> internal@.missing_from(facade@)[k] is None,
        decreases internal.methods.len() - i,
    {
        let method = &internal.methods[i];
        if method.external && !facade.has(&method.sig) {
            let e = GenError::new(ErrorKind::SignatureMismatch, method.sig.name.as_str());
            assert(first_fault_at(internal@.missing_from(facade@), i as int, e@));
            return Err(e);
        }
        i = i + 1;
    }
    let mut k: usize = 0;
    while k < facade.methods.len()
        invariant
            k <= facade.methods.len(),
            faultless(internal@.missing_from(facade@)),
            forall|j: int| 0 <= j < k ==> internal@.unknown_in(facade@)[j] is None,
        decreases facade.methods.len() - k,
    {
        if !internal.exposes(&facade.methods[k]) {
            let e = GenError::new(ErrorKind::SignatureMismatch, facade.methods[k].name.as_str());
            assert(first_fault_at(internal@.unknown_in(facade@), k as int, e@));
            return Err(e);
        }
        k = k + 1;
    }
    Ok(())
}

/// What the splitter makes of a module is compatible: checking the internal
/// trait against the facade finds no fault.
pub proof fn lemma_split_is_compatible(module: BehaviorModuleView)
    ensures
        faultless(split_of(module).internal.missing_from(split_of(module).external)),
        faultless(split_of(module).internal.unknown_in(split_of(module).external)),
{
    let split = split_of(module);
    assert forall|i: int| 0 <= i < module.methods.len() implies split.internal.missing_from(
        split.external,
    )[i] is None by {
        if module.methods[i].external {
            lemma_facade_has_external_methods(module, i);
        }
    }
    assert forall|k: int| 0 <= k < split.external.methods.len() implies split.internal.unknown_in(
        split.external,
    )[k] is None by {
        lemma_facade_has_only_external_methods(module, k);
    }
}

/// The internal trait and the facade agree on every external method: each
/// external method of the module is in the facade under the signature it
/// was declared with.
pub proof fn lemma_facade_has_external_methods(module: BehaviorModuleView, i: int)
    requires
        0 <= i < module.methods.len(),
        module.methods[i].external,
    ensures
        split_of(module).internal.methods[i].sig == module.methods[i].sig,
        split_of(module).external.methods.contains(module.methods[i].sig),
{
    let recorded = record_of(module).methods;
    let pred = |m: RecordedView| m.external;
    recorded.lemma_filter_contains(pred, i);
    let kept = recorded.filter(pred);
    let k = choose|k: int| 0 <= k < kept.len() && kept[k] == recorded[i];
    assert(split_of(module).external.methods[k] == module.methods[i].sig);
}

/// The facade exposes nothing else: each of its signatures is that of an
/// external method of the module.
pub proof fn lemma_facade_has_only_external_methods(module: BehaviorModuleView, k: int)
    requires
        0 <= k < split_of(module).external.methods.len(),
    ensures
        exists|i: int|
            0 <= i < module.methods.len() && module.methods[i].external
                && #[trigger] module.methods[i].sig == split_of(module).external.methods[k],
{
    let recorded = record_of(module).methods;
    let pred = |m: RecordedView| m.external;
    let kept = recorded.filter(pred);
    recorded.lemma_filter_pred(pred, k);
    assert(kept.contains(kept[k]));
    recorded.lemma_filter_contains_rev(pred, kept[k]);
    let i = choose|i: int| 0 <= i < recorded.len() && recorded[i] == kept[k];
    assert(module.methods[i].external && module.methods[i].sig == split_of(
        module,
    ).external.methods[k]);
}

/// The records of the behavior modules of one build.
///
/// Records are only ever added, and a module is recorded once: a second
/// record under a name already present is refused.
pub struct Registry {
    records: Vec<ModuleRecord>,
}

impl View for Registry {
    type V = Seq<ModuleRecordView>;

    closed spec fn view(&self) -> Seq<ModuleRecordView> {
        views(self.records@)
    }
}

/// Whether `index` is the first record in `registry` under `name`.
pub open spec fn recorded_at(registry: Seq<ModuleRecordView>, name: Seq<char>, index: int) -> bool {
    &&& 0 <= index < registry.len()
    &&& registry[index].name == name
    &&& forall|j: int| 0 <= j < index ==> registry[j].name != name
}

/// Whether a module called `name` has been recorded.
pub open spec fn is_recorded(registry: Seq<ModuleRecordView>, name: Seq<char>) -> bool {
    exists|k: int| 0 <= k < registry.len() && registry[k].name == name
}

/// The record of the module called `name`.
pub open spec fn lookup_of(registry: Seq<ModuleRecordView>, name: Seq<char>) -> ModuleRecordView
    recommends
        is_recorded(registry, name),
{
    registry[choose|k: int| recorded_at(registry, name, k)]
}

impl Registry {
    /// A registry without records.
    pub fn new() -> (r: Registry)
        ensures
            r@ == Seq::<ModuleRecordView>::empty(),
    {
        let r = Registry { records: Vec::new() };
        assert(r@ =~= Seq::<ModuleRecordView>::empty());
        r
    }

    fn position(&self, name: &str) -> (r: Option<usize>)
        ensures
            match r {
                Some(k) => k < self.records.len() && recorded_at(self@, name@, k as int),
                None => !is_recorded(self@, name@),
            },
    {
        let mut i: usize = 0;
        while i < self.records.len()
            invariant
                i <= self.records.len(),
                forall|k: int| 0 <= k < i ==> self@[k].name != name@,
            decreases self.records.len() - i,
        {
            if same_text(self.records[i].name.as_str(), name) {
                return Some(i);
            }
            i = i + 1;
        }
        None
    }

    /// The record of the module called `name`, if it has been recorded.
    pub fn lookup(&self, name: &str) -> (r: Option<&ModuleRecord>)
        ensures
            match r {
                Some(record) => is_recorded(self@, name@) && record@ == lookup_of(self@, name@),
                None => !is_recorded(self@, name@),
            },
    {
        match self.position(name) {
            Some(k) => {
                proof {
                    let c = choose|c: int| recorded_at(self@, name@, c);
                    assert(recorded_at(self@, name@, k as int));
                    assert(c == k) by {
                        if c < k {
                            assert(self@[c].name != name@);
                        }
                        if k < c {
                            assert(self@[k as int].name == name@);
                        }
                    }
                }
                Some(&self.records[k])
            },
            None => None,
        }
    }

    /// Adds a record, unless one under the same name is present. Reports
    /// whether the record was added.
    pub fn record(&mut self, record: ModuleRecord) -> (added: bool)
        ensures
            added == !is_recorded(old(self)@, record@.name),
            final(self)@ == if added {
                old(self)@.push(record@)
            } else {
                old(self)@
            },
    {
        match self.position(record.name.as_str()) {
            Some(_) => false,
            None => {
                let ghost before = self@;
                self.records.push(record);
                assert(self@ =~= before.push(record@));
                true
            },
        }
    }
}

/// Recording a module makes it found under its name, with the record that
/// was made of it, and changes what is found under no other name.
pub proof fn lemma_record_then_lookup(
    registry: Seq<ModuleRecordView>,
    record: ModuleRecordView,
    other: Seq<char>,
)
    requires
        !is_recorded(registry, record.name),
    ensures
        is_recorded(registry.push(record), record.name),
        lookup_of(registry.push(record), record.name) == record,
        other != record.name ==> is_recorded(registry.push(record), other) == is_recorded(
            registry,
            other,
        ),
        other != record.name && is_recorded(registry, other) ==> lookup_of(
            registry.push(record),
            other,
        ) == lookup_of(registry, other),
{
    let after = registry.push(record);
    let last = registry.len() as int;
    assert(after[last] == record);
    assert(recorded_at(after, record.name, last)) by {
        assert forall|j: int| 0 <= j < last implies after[j].name != record.name by {
            assert(after[j] == registry[j]);
        }
    }
    let c = choose|c: int| recorded_at(after, record.name, c);
    assert(c == last) by {
        if c < last {
            assert(after[c] == registry[c]);
        }
    }
    if other != record.name {
        if is_recorded(registry, other) {
            let w = choose|k: int| 0 <= k < registry.len() && registry[k].name == other;
            assert(after[w] == registry[w]);
            lemma_first_record(registry, other, w);
            let f = choose|k: int| recorded_at(registry, other, k);
            assert(recorded_at(after, other, f)) by {
                assert(after[f] == registry[f]);
                assert forall|j: int| 0 <= j < f implies after[j].name != other by {
                    assert(after[j] == registry[j]);
                }
            }
            let g = choose|k: int| recorded_at(after, other, k);
            assert(g == f) by {
                if g < f {
                    assert(after[g] == registry[g]);
                }
            }
        }
        if is_recorded(after, other) {
            let w = choose|k: int| 0 <= k < after.len() && after[k].name == other;
            assert(w < last);
            assert(after[w] == registry[w]);
        }
    }
}

/// What is found under a name carries that name.
pub proof fn lemma_lookup_has_name(registry: Seq<ModuleRecordView>, name: Seq<char>)
    requires
        is_recorded(registry, name),
    ensures
        lookup_of(registry, name).name == name,
{
    let w = choose|k: int| 0 <= k < registry.len() && registry[k].name == name;
    lemma_first_record(registry, name, w);
}

/// A name that is recorded somewhere has a first record.
pub proof fn lemma_first_record(registry: Seq<ModuleRecordView>, name: Seq<char>, index: int)
    requires
        0 <= index < registry.len(),
        registry[index].name == name,
    ensures
        exists|k: int| recorded_at(registry, name, k),
    decreases index,
{
    if exists|j: int| 0 <= j < index && registry[j].name == name {
        let j = choose|j: int| 0 <= j < index && registry[j].name == name;
        lemma_first_record(registry, name, j);
    } else {
        assert(recorded_at(registry, name, index));
    }
}

} // verus!
