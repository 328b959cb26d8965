//! The accessor generator: getters and setters for the tagged fields of a
//! storage fragment.
//!
//! A generated accessor is a passthrough. A getter returns a copy of the
//! field, a setter overwrites it, and neither validates anything.

use vstd::prelude::*;
use vstd::string::StringExecFns;
use crate::decl::{views, Param, ParamView, Receiver, Signature, SignatureView};
use crate::error::{ErrorKind, GenError, GenErrorView};
use crate::fragment::{Access, Field, FieldView, Fragment, FragmentView, Shape, Tag, TagView};

verus! {

/// The tags that stay on a field once the accessor tags are consumed.
pub open spec fn kept_tag() -> spec_fn(TagView) -> bool {
    |t: TagView| !t.is_accessor()
}

/// A field without its accessor tags; everything else is unchanged.
pub open spec fn stripped(f: FieldView) -> FieldView {
    FieldView { name: f.name, ty: f.ty, tags: f.tags.filter(kept_tag()) }
}

/// The fields that request `access`, in declaration order.
pub open spec fn tagged_fields(fields: Seq<FieldView>, access: Access) -> Seq<FieldView> {
    fields.filter(|f: FieldView| f.grants(access))
}

/// The error for a fragment the generator cannot work on.
pub open spec fn unsupported(fragment: FragmentView) -> GenErrorView {
    GenErrorView { kind: ErrorKind::UnsupportedShape, name: fragment.name }
}

/// Removes the accessor tags from `field` and returns a copy of what is left.
pub fn consume_attrs(field: &mut Field) -> (r: Field)
    ensures
        final(field)@ == stripped(old(field)@),
        r@ == final(field)@,
{
    let mut kept: Vec<Tag> = Vec::new();
    let mut i: usize = 0;
    while i < field.tags.len()
        invariant
            i <= field.tags.len(),
            *field == *old(field),
            views(kept@) == views(field.tags@).take(i as int).filter(kept_tag()),
        decreases field.tags.len() - i,
    {
        proof {
            let all = views(field.tags@);
            assert(all.take(i + 1) =~= all.take(i as int).push(all[i as int]));
            all.take(i as int).lemma_filter_push(all[i as int], kept_tag());
        }
        if !field.tags[i].is_accessor() {
            let ghost before = views(kept@);
            kept.push(field.tags[i].clone());
            assert(views(kept@) =~= before.push(field.tags[i as int]@));
        }
        i = i + 1;
    }
    proof {
        let all = views(field.tags@);
        assert(all.take(i as int) =~= all);
    }
    field.tags = kept;
    field.clone()
}

/// The fields of `fragment` that carry the tag requesting `access`.
fn extract_tagged(fragment: &Fragment, access: Access) -> (r: Result<Vec<Field>, GenError>)
    ensures
        match r {
            Ok(fields) => fragment@.shape.is_struct() && views(fields@) == tagged_fields(
                fragment@.fields,
                access,
            ),
            Err(e) => !fragment@.shape.is_struct() && e@ == unsupported(fragment@),
        },
{
    if !fragment.shape.is_struct() {
        return Err(GenError::new(ErrorKind::UnsupportedShape, fragment.name.as_str()));
    }
    let ghost pred = |f: FieldView| f.grants(access);
    let mut out: Vec<Field> = Vec::new();
    let mut i: usize = 0;
    while i < fragment.fields.len()
        invariant
            i <= fragment.fields.len(),
            pred == |f: FieldView| f.grants(access),
            views(out@) == views(fragment.fields@).take(i as int).filter(pred),
        decreases fragment.fields.len() - i,
    {
        proof {
            let all = views(fragment.fields@);
            assert(all.take(i + 1) =~= all.take(i as int).push(all[i as int]));
            all.take(i as int).lemma_filter_push(all[i as int], pred);
        }
        if fragment.fields[i].grants(access) {
            let ghost before = views(out@);
            out.push(fragment.fields[i].clone());
            assert(views(out@) =~= before.push(fragment.fields[i as int]@));
        }
        i = i + 1;
    }
    proof {
        let all = views(fragment.fields@);
        assert(all.take(i as int) =~= all);
    }
    Ok(out)
}

/// The fields tagged as readable, in declaration order. Fails on a fragment
/// that is not a struct.
pub fn extract_get_fields(fragment: &Fragment) -> (r: Result<Vec<Field>, GenError>)
    ensures
        match r {
            Ok(fields) => fragment@.shape.is_struct() && views(fields@) == tagged_fields(
                fragment@.fields,
                Access::Read,
            ),
            Err(e) => !fragment@.shape.is_struct() && e@ == unsupported(fragment@),
        },
{
    extract_tagged(fragment, Access::Read)
}

/// The fields tagged as writable, in declaration order. Fails on a fragment
/// that is not a struct.
pub fn extract_set_fields(fragment: &Fragment) -> (r: Result<Vec<Field>, GenError>)
    ensures
        match r {
            Ok(fields) => fragment@.shape.is_struct() && views(fields@) == tagged_fields(
                fragment@.fields,
                Access::Write,
            ),
            Err(e) => !fragment@.shape.is_struct() && e@ == unsupported(fragment@),
        },
{
    extract_tagged(fragment, Access::Write)
}

/// The struct that replaces a fragment's declaration: the same fields, with
/// the accessor tags consumed.
#[derive(Debug, PartialEq, Eq)]
pub struct StructDecl {
    pub name: String,
    /// Whether the fields are written in round brackets, without names.
    pub tuple: bool,
    pub fields: Vec<Field>,
}

/// The mathematical content of a [`StructDecl`].
pub ghost struct StructDeclView {
    pub name: Seq<char>,
    pub tuple: bool,
    pub fields: Seq<FieldView>,
}

impl View for StructDecl {
    type V = StructDeclView;

    open spec fn view(&self) -> StructDeclView {
        StructDeclView { name: self.name@, tuple: self.tuple, fields: views(self.fields@) }
    }
}

/// The struct generated for a fragment.
pub open spec fn struct_of(fragment: FragmentView) -> StructDeclView {
    StructDeclView {
        name: fragment.name,
        tuple: fragment.shape is Tuple,
        fields: fragment.fields.map_values(|f: FieldView| stripped(f)),
    }
}

/// Re-emits the fragment's struct with the accessor tags removed from every
/// field. Fails on a fragment that is not a struct.
pub fn generate_struct(fragment: &Fragment) -> (r: Result<StructDecl, GenError>)
    ensures
        match r {
            Ok(item) => fragment@.shape.is_struct() && item@ == struct_of(fragment@),
            Err(e) => !fragment@.shape.is_struct() && e@ == unsupported(fragment@),
        },
{
    if !fragment.shape.is_struct() {
        return Err(GenError::new(ErrorKind::UnsupportedShape, fragment.name.as_str()));
    }
    let mut fields: Vec<Field> = Vec::new();
    let mut i: usize = 0;
    while i < fragment.fields.len()
        invariant
            i <= fragment.fields.len(),
            fields.len() == i,
            forall|k: int| 0 <= k < i ==> fields[k]@ == stripped(fragment.fields[k]@),
        decreases fragment.fields.len() - i,
    {
        let mut field = fragment.fields[i].clone();
        fields.push(consume_attrs(&mut field));
        i = i + 1;
    }
    let tuple = match fragment.shape {
        Shape::Tuple => true,
        _ => false,
    };
    let item = StructDecl { name: fragment.name.clone(), tuple, fields };
    assert(item@.fields =~= struct_of(fragment@).fields);
    Ok(item)
}

/// A generated accessor method. It is callable from outside the composed
/// object and does nothing but read or overwrite its field.
#[derive(Debug, PartialEq)]
pub struct Accessor {
    /// Whether the method reads the field or overwrites it.
    pub access: Access,
    /// The field the method reaches.
    pub field: String,
    pub sig: Signature,
    /// Whether the method can be called from outside the composed object.
    /// Every generated accessor can.
    pub external: bool,
}

/// The mathematical content of an [`Accessor`].
pub ghost struct AccessorView {
    pub access: Access,
    pub field: Seq<char>,
    pub sig: SignatureView,
    pub external: bool,
}

impl View for Accessor {
    type V = AccessorView;

    open spec fn view(&self) -> AccessorView {
        AccessorView {
            access: self.access,
            field: self.field@,
            sig: self.sig@,
            external: self.external,
        }
    }
}

/// The accessor generated for a field called `name` of type `ty`.
///
/// The getter `get_<name>` takes `&self` and returns `ty`. The setter
/// `set_<name>` takes `&mut self` and one argument `value` of type `ty`, and
/// returns nothing. Both can be called from outside.
pub open spec fn accessor_of(name: Seq<char>, ty: Seq<char>, access: Access) -> AccessorView {
    match access {
        Access::Read => AccessorView {
            access,
            field: name,
            sig: SignatureView {
                name: "get_"@ + name,
                receiver: Receiver::Shared,
                params: Seq::empty(),
                ret: ty,
            },
            external: true,
        },
        Access::Write => AccessorView {
            access,
            field: name,
            sig: SignatureView {
                name: "set_"@ + name,
                receiver: Receiver::Mutable,
                params: seq![ParamView { name: "value"@, ty }],
                ret: Seq::empty(),
            },
            external: true,
        },
    }
}

/// The accessors of the fields that request `access`, in declaration order.
pub open spec fn accessors_for(fields: Seq<FieldView>, access: Access) -> Seq<AccessorView> {
    tagged_fields(fields, access).map_values(
        |f: FieldView| accessor_of(f.name.unwrap(), f.ty, access),
    )
}

/// Whether some field requests `access` but has no name to call the
/// accessor after.
pub open spec fn nameless(fields: Seq<FieldView>, access: Access) -> bool {
    exists|i: int| 0 <= i < fields.len() && fields[i].name is None && fields[i].grants(access)
}

/// The trait that carries the generated accessors of one fragment.
#[derive(Debug, PartialEq)]
pub struct AccessorTrait {
    pub name: String,
    /// The fragment whose storage the trait's implementors must provide.
    pub storage: String,
    /// All getters, then all setters.
    pub methods: Vec<Accessor>,
}

/// The mathematical content of an [`AccessorTrait`].
pub ghost struct AccessorTraitView {
    pub name: Seq<char>,
    pub storage: Seq<char>,
    pub methods: Seq<AccessorView>,
}

impl View for AccessorTrait {
    type V = AccessorTraitView;

    open spec fn view(&self) -> AccessorTraitView {
        AccessorTraitView {
            name: self.name@,
            storage: self.storage@,
            methods: views(self.methods@),
        }
    }
}

/// What the accessor generator emits for one fragment.
#[derive(Debug, PartialEq)]
pub struct Accessors {
    /// The fragment's struct, accessor tags consumed.
    pub item: StructDecl,
    /// The trait with the generated methods.
    pub trait_decl: AccessorTrait,
}

/// The mathematical content of [`Accessors`].
pub ghost struct AccessorsView {
    pub item: StructDeclView,
    pub trait_decl: AccessorTraitView,
}

impl View for Accessors {
    type V = AccessorsView;

    open spec fn view(&self) -> AccessorsView {
        AccessorsView { item: self.item@, trait_decl: self.trait_decl@ }
    }
}

/// What the generator emits for `fragment` under the trait name `trait_name`.
pub open spec fn accessors_of(trait_name: Seq<char>, fragment: FragmentView) -> AccessorsView {
    AccessorsView {
        item: struct_of(fragment),
        trait_decl: AccessorTraitView {
            name: trait_name,
            storage: fragment.name,
            methods: accessors_for(fragment.fields, Access::Read) + accessors_for(
                fragment.fields,
                Access::Write,
            ),
        },
    }
}

/// Whether the generator accepts the fragment: it is a struct, and every
/// field that requests an accessor has a name.
pub open spec fn accepts(fragment: FragmentView) -> bool {
    &&& fragment.shape.is_struct()
    &&& !nameless(fragment.fields, Access::Read)
    &&& !nameless(fragment.fields, Access::Write)
}

/// A nameless field is among those that request `access` exactly if it is
/// among the fields and requests it.
proof fn lemma_nameless_tagged(fields: Seq<FieldView>, access: Access)
    ensures
        nameless(fields, access) <==> exists|k: int|
            0 <= k < tagged_fields(fields, access).len() && tagged_fields(
                fields,
                access,
            )[k].name is None,
{
    let pred = |f: FieldView| f.grants(access);
    let tagged = fields.filter(pred);
    if nameless(fields, access) {
        let i = choose|i: int|
            0 <= i < fields.len() && fields[i].name is None && fields[i].grants(access);
        fields.lemma_filter_contains(pred, i);
        let k = choose|k: int| 0 <= k < tagged.len() && tagged[k] == fields[i];
        assert(tagged[k].name is None);
    }
    if exists|k: int| 0 <= k < tagged.len() && tagged[k].name is None {
        let k = choose|k: int| 0 <= k < tagged.len() && tagged[k].name is None;
        fields.lemma_filter_pred(pred, k);
        assert(tagged.contains(tagged[k]));
        fields.lemma_filter_contains_rev(pred, tagged[k]);
        let i = choose|i: int| 0 <= i < fields.len() && fields[i] == tagged[k];
        assert(fields[i].name is None && fields[i].grants(access));
    }
}

/// The accessor for one field, or nothing if the field has no name.
fn accessor_for(field: &Field, access: Access) -> (r: Option<Accessor>)
    ensures
        match r {
            Some(a) => field@.name is Some && a@ == accessor_of(
                field@.name.unwrap(),
                field@.ty,
                access,
            ),
            None => field@.name is None,
        },
{
    match &field.name {
        None => None,
        Some(name) => {
            let sig = match access {
                Access::Read => Signature {
                    name: String::from_str("get_").concat(name.as_str()),
                    receiver: Receiver::Shared,
                    params: Vec::new(),
                    ret: field.ty.clone(),
                },
                Access::Write => {
                    let mut params: Vec<Param> = Vec::new();
                    params.push(Param { name: String::from_str("value"), ty: field.ty.clone() });
                    Signature {
                        name: String::from_str("set_").concat(name.as_str()),
                        receiver: Receiver::Mutable,
                        params,
                        ret: String::new(),
                    }
                },
            };
            let accessor = Accessor { access, field: name.clone(), sig, external: true };
            assert(accessor@.sig.params =~= accessor_of(
                field@.name.unwrap(),
                field@.ty,
                access,
            ).sig.params);
            Some(accessor)
        },
    }
}

/// Appends to `methods` the accessors of `fields`, all of which request
/// `access`. Stops at the first field without a name and reports `false`.
fn push_accessors(fields: &Vec<Field>, access: Access, methods: &mut Vec<Accessor>) -> (ok: bool)
    ensures
        ok <==> forall|k: int| 0 <= k < fields.len() ==> fields[k]@.name is Some,
        ok ==> views(final(methods)@) == views(old(methods)@) + views(fields@).map_values(
            |f: FieldView| accessor_of(f.name.unwrap(), f.ty, access),
        ),
{
    let ghost before = views(methods@);
    let mut i: usize = 0;
    while i < fields.len()
        invariant
            i <= fields.len(),
            before == views(old(methods)@),
            methods.len() == before.len() + i,
            forall|k: int| 0 <= k < before.len() ==> methods[k]@ == before[k],
            forall|k: int|
                0 <= k < i ==> fields[k]@.name is Some && methods[before.len() + k]@
                    == accessor_of(fields[k]@.name.unwrap(), fields[k]@.ty, access),
        decreases fields.len() - i,
    {
        match accessor_for(&fields[i], access) {
            None => {
                return false;
            },
            Some(accessor) => {
                methods.push(accessor);
            },
        }
        i = i + 1;
    }
    assert(views(methods@) =~= before + views(fields@).map_values(
        |f: FieldView| accessor_of(f.name.unwrap(), f.ty, access),
    ));
    true
}

/// Generates the accessors of a storage fragment.
///
/// The result holds the fragment's struct with the accessor tags consumed,
/// and a trait `trait_name` with one getter per readable field followed by
/// one setter per writable field, each in declaration order. A fragment that
/// is not a struct, or that tags a field without a name, is refused with an
/// error that names the fragment.
pub fn accessors(trait_name: &str, fragment: &Fragment) -> (r: Result<Accessors, GenError>)
    ensures
        match r {
            Ok(out) => accepts(fragment@) && out@ == accessors_of(trait_name@, fragment@),
            Err(e) => !accepts(fragment@) && e@ == unsupported(fragment@),
        },
{
    let item = match generate_struct(fragment) {
        Ok(item) => item,
        Err(e) => {
            return Err(e);
        },
    };
    let getters = match extract_get_fields(fragment) {
        Ok(fields) => fields,
        Err(e) => {
            return Err(e);
        },
    };
    let setters = match extract_set_fields(fragment) {
        Ok(fields) => fields,
        Err(e) => {
            return Err(e);
        },
    };
    proof {
        lemma_nameless_tagged(fragment@.fields, Access::Read);
        lemma_nameless_tagged(fragment@.fields, Access::Write);
    }
    let mut methods: Vec<Accessor> = Vec::new();
    if !push_accessors(&getters, Access::Read, &mut methods) {
        let ghost k = choose|k: int| 0 <= k < getters.len() && getters[k]@.name is None;
        assert(views(getters@)[k].name is None);
        return Err(GenError::new(ErrorKind::UnsupportedShape, fragment.name.as_str()));
    }
    assert(forall|k: int|
        0 <= k < views(getters@).len() ==> views(getters@)[k] == getters[k]@);
    if !push_accessors(&setters, Access::Write, &mut methods) {
        let ghost k = choose|k: int| 0 <= k < setters.len() && setters[k]@.name is None;
        assert(views(setters@)[k].name is None);
        return Err(GenError::new(ErrorKind::UnsupportedShape, fragment.name.as_str()));
    }
    assert(forall|k: int|
        0 <= k < views(setters@).len() ==> views(setters@)[k] == setters[k]@);
    let trait_decl = AccessorTrait {
        name: trait_name.to_owned(),
        storage: fragment.name.clone(),
        methods,
    };
    assert(trait_decl@.methods =~= accessors_of(trait_name@, fragment@).trait_decl.methods);
    Ok(Accessors { item, trait_decl })
}

} // verus!
