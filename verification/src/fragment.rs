//! Storage fragments: the named blocks of typed fields that behavior modules
//! contribute to a composed object.

use vstd::prelude::*;
use crate::decl::{same_text, views};

verus! {

/// A tag attached to a field of a storage fragment.
///
/// The generator recognises a small fixed vocabulary; every other attribute
/// is carried through untouched.
#[derive(Debug, PartialEq, Eq)]
pub enum Tag {
    /// The field gets a generated getter. Written `get`.
    Readable,
    /// The field gets a generated setter. Written `set`.
    Writable,
    /// The field is unset until first written. Written `lazy`.
    Lazy,
    /// Any other attribute, by its name.
    Other(String),
}

/// The mathematical content of a [`Tag`].
pub ghost enum TagView {
    Readable,
    Writable,
    Lazy,
    Other(Seq<char>),
}

impl TagView {
    /// Whether the tag asks for a generated accessor.
    pub open spec fn is_accessor(self) -> bool {
        self is Readable || self is Writable
    }

    /// The tag that an attribute of the given name stands for.
    pub open spec fn of_name(name: Seq<char>) -> TagView {
        if name == "get"@ {
            TagView::Readable
        } else if name == "set"@ {
            TagView::Writable
        } else if name == "lazy"@ {
            TagView::Lazy
        } else {
            TagView::Other(name)
        }
    }
}

impl View for Tag {
    type V = TagView;

    open spec fn view(&self) -> TagView {
        match self {
            Tag::Readable => TagView::Readable,
            Tag::Writable => TagView::Writable,
            Tag::Lazy => TagView::Lazy,
            Tag::Other(name) => TagView::Other(name@),
        }
    }
}

impl Clone for Tag {
    fn clone(&self) -> (r: Tag)
        ensures
            r@ == self@,
    {
        match self {
            Tag::Readable => Tag::Readable,
            Tag::Writable => Tag::Writable,
            Tag::Lazy => Tag::Lazy,
            Tag::Other(name) => Tag::Other(name.clone()),
        }
    }
}

impl Tag {
    /// Recognises an attribute by its name.
    pub fn parse(name: &str) -> (t: Tag)
        ensures
            t@ == TagView::of_name(name@),
    {
        if same_text(name, "get") {
            Tag::Readable
        } else if same_text(name, "set") {
            Tag::Writable
        } else if same_text(name, "lazy") {
            Tag::Lazy
        } else {
            Tag::Other(name.to_owned())
        }
    }

    /// Whether the tag asks for a generated accessor.
    pub fn is_accessor(&self) -> (r: bool)
        ensures
            r == self@.is_accessor(),
    {
        match self {
            Tag::Readable => true,
            Tag::Writable => true,
            _ => false,
        }
    }
}

/// The two ways a generated accessor reaches a field.
#[derive(Clone, Copy, Debug, PartialEq, Eq, Structural)]
pub enum Access {
    Read,
    Write,
}

impl Access {
    /// The tag that requests this kind of access.
    pub open spec fn tag(self) -> TagView {
        match self {
            Access::Read => TagView::Readable,
            Access::Write => TagView::Writable,
        }
    }
}

/// One field of a storage fragment. A field of a tuple struct has no name.
#[derive(Debug, PartialEq, Eq)]
pub struct Field {
    pub name: Option<String>,
    pub ty: String,
    pub tags: Vec<Tag>,
}

/// The mathematical content of a [`Field`].
pub ghost struct FieldView {
    pub name: Option<Seq<char>>,
    pub ty: Seq<char>,
    pub tags: Seq<TagView>,
}

impl FieldView {
    /// Whether the field carries the tag that requests `access`.
    pub open spec fn grants(self, access: Access) -> bool {
        self.tags.contains(access.tag())
    }

    /// Whether the field is tagged as lazily initialised.
    pub open spec fn lazy(self) -> bool {
        self.tags.contains(TagView::Lazy)
    }
}

impl View for Field {
    type V = FieldView;

    open spec fn view(&self) -> FieldView {
        FieldView {
            name: match self.name {
                Some(n) => Some(n@),
                None => None,
            },
            ty: self.ty@,
            tags: views(self.tags@),
        }
    }
}

/// A copy of a list of tags.
pub fn clone_tags(tags: &Vec<Tag>) -> (r: Vec<Tag>)
    ensures
        views(r@) == views(tags@),
{
    let mut out: Vec<Tag> = Vec::new();
    let mut i: usize = 0;
    while i < tags.len()
        invariant
            i <= tags.len(),
            out.len() == i,
            forall|k: int| 0 <= k < i ==> out[k]@ == tags[k]@,
        decreases tags.len() - i,
    {
        out.push(tags[i].clone());
        i = i + 1;
    }
    assert(views(out@) =~= views(tags@));
    out
}

impl Clone for Field {
    fn clone(&self) -> (r: Field)
        ensures
            r@ == self@,
    {
        let name = match &self.name {
            Some(n) => Some(n.clone()),
            None => None,
        };
        Field { name, ty: self.ty.clone(), tags: clone_tags(&self.tags) }
    }
}

impl Field {
    /// Whether the field carries the tag that requests `access`.
    pub fn grants(&self, access: Access) -> (r: bool)
        ensures
            r == self@.grants(access),
    {
        let mut i: usize = 0;
        while i < self.tags.len()
            invariant
                i <= self.tags.len(),
                forall|k: int| 0 <= k < i ==> self.tags[k]@ != access.tag(),
            decreases self.tags.len() - i,
        {
            let hit = match (&self.tags[i], access) {
                (Tag::Readable, Access::Read) => true,
                (Tag::Writable, Access::Write) => true,
                _ => false,
            };
            if hit {
                assert(views(self.tags@)[i as int] == access.tag());
                return true;
            }
            i = i + 1;
        }
        assert(forall|k: int|
            0 <= k < views(self.tags@).len() ==> views(self.tags@)[k] == self.tags[k]@);
        false
    }

    /// Whether the field is tagged as lazily initialised.
    pub fn is_lazy(&self) -> (r: bool)
        ensures
            r == self@.lazy(),
    {
        let mut i: usize = 0;
        while i < self.tags.len()
            invariant
                i <= self.tags.len(),
                forall|k: int| 0 <= k < i ==> self.tags[k]@ != TagView::Lazy,
            decreases self.tags.len() - i,
        {
            if let Tag::Lazy = &self.tags[i] {
                assert(views(self.tags@)[i as int] == TagView::Lazy);
                return true;
            }
            i = i + 1;
        }
        assert(forall|k: int|
            0 <= k < views(self.tags@).len() ==> views(self.tags@)[k] == self.tags[k]@);
        false
    }
}

/// The shape of the item a storage fragment was declared as.
#[derive(Clone, Copy, Debug, PartialEq, Eq, Structural)]
pub enum Shape {
    /// A struct with named fields.
    Named,
    /// A tuple struct.
    Tuple,
    /// A struct without fields.
    Unit,
    /// An enum.
    Enum,
    /// A union.
    Union,
}

impl Shape {
    /// Only structs can be storage fragments.
    pub open spec fn spec_is_struct(self) -> bool {
        self is Named || self is Tuple || self is Unit
    }

    /// Whether the shape is one of the struct shapes.
    #[verifier::when_used_as_spec(spec_is_struct)]
    pub fn is_struct(self) -> (r: bool)
        ensures
            r == self.spec_is_struct(),
    {
        match self {
            Shape::Named => true,
            Shape::Tuple => true,
            Shape::Unit => true,
            _ => false,
        }
    }
}

/// A storage fragment as declared.
#[derive(Debug, PartialEq, Eq)]
pub struct Fragment {
    pub name: String,
    pub shape: Shape,
    pub fields: Vec<Field>,
}

/// The mathematical content of a [`Fragment`].
pub ghost struct FragmentView {
    pub name: Seq<char>,
    pub shape: Shape,
    pub fields: Seq<FieldView>,
}

impl View for Fragment {
    type V = FragmentView;

    open spec fn view(&self) -> FragmentView {
        FragmentView { name: self.name@, shape: self.shape, fields: views(self.fields@) }
    }
}

impl FragmentView {
    /// Whether no two fields of the fragment have the same name.
    pub open spec fn distinct_fields(self) -> bool {
        forall|i: int, j: int|
            0 <= i < j < self.fields.len() && self.fields[j].name is Some ==> self.fields[i].name
                != self.fields[j].name
    }

    /// Whether the fragment can be laid out in storage: it is a struct, and
    /// its field names are unique.
    pub open spec fn well_formed(self) -> bool {
        self.shape.is_struct() && self.distinct_fields()
    }
}

impl Fragment {
    /// Whether no two fields of the fragment have the same name.
    pub fn has_distinct_fields(&self) -> (r: bool)
        ensures
            r == self@.distinct_fields(),
    {
        let mut j: usize = 0;
        while j < self.fields.len()
            invariant
                j <= self.fields.len(),
                forall|a: int, b: int|
                    0 <= a < b < j && self@.fields[b].name is Some ==> self@.fields[a].name
                        != self@.fields[b].name,
            decreases self.fields.len() - j,
        {
            if let Some(name) = &self.fields[j].name {
                let mut i: usize = 0;
                while i < j
                    invariant
                        i <= j < self.fields.len(),
                        self.fields[j as int].name == Some(*name),
                        forall|a: int|
                            0 <= a < i ==> self@.fields[a].name != self@.fields[j as int].name,
                    decreases j - i,
                {
                    let same = match &self.fields[i].name {
                        Some(other) => same_text(other.as_str(), name.as_str()),
                        None => false,
                    };
                    if same {
                        assert(self@.fields[i as int].name == self@.fields[j as int].name);
                        return false;
                    }
                    i = i + 1;
                }
            }
            j = j + 1;
        }
        true
    }

    /// Whether the fragment can be laid out in storage.
    pub fn is_well_formed(&self) -> (r: bool)
        ensures
            r == self@.well_formed(),
    {
        self.shape.is_struct() && self.has_distinct_fields()
    }
}

/// A copy of a list of fields.
pub fn clone_fields(fields: &Vec<Field>) -> (r: Vec<Field>)
    ensures
        views(r@) == views(fields@),
{
    let mut out: Vec<Field> = Vec::new();
    let mut i: usize = 0;
    while i < fields.len()
        invariant
            i <= fields.len(),
            out.len() == i,
            forall|k: int| 0 <= k < i ==> out[k]@ == fields[k]@,
        decreases fields.len() - i,
    {
        out.push(fields[i].clone());
        i = i + 1;
    }
    assert(views(out@) =~= views(fields@));
    out
}

impl Clone for Fragment {
    fn clone(&self) -> (r: Fragment)
        ensures
            r@ == self@,
    {
        Fragment {
            name: self.name.clone(),
            shape: self.shape,
            fields: clone_fields(&self.fields),
        }
    }
}

} // verus!
