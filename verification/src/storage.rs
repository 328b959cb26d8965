//! The storage-fragment registrar.
//!
//! Every fragment gets a storage key derived from its declared name alone,
//! and every field a slot addressed by that key and the field's position.
//! The fragments of one composed object are merged into a layout, in which
//! no declared name may occur twice.

use sha2::{Digest, Sha256};
use vstd::prelude::*;
use crate::decl::{same_text, views};
use crate::error::{ErrorKind, GenError};
use crate::fragment::{FieldView, Fragment, FragmentView};

verus! {

/// The SHA-256 digest of a byte string.
pub uninterp spec fn sha256(data: Seq<u8>) -> Seq<u8>;

/// Calls `sha2::Sha256::digest` and copies the digest out.
///
/// Trusted: the result is the SHA-256 digest of `data`, a function of the
/// bytes alone, and it is 32 bytes long, the output size that `sha2` fixes
/// for `Sha256`.
#[verifier::external_body]
fn sha256_digest(data: &[u8]) -> (out: Vec<u8>)
    ensures
        out@ == sha256(data@),
        out@.len() == 32,
{
    Sha256::digest(data).to_vec()
}

/// The first eight bytes of a digest, read as a big-endian number.
pub open spec fn key_of(digest: Seq<u8>) -> int
    recommends
        digest.len() >= 8,
{
    digest[0] * 0x0100_0000_0000_0000 + digest[1] * 0x0001_0000_0000_0000 + digest[2]
        * 0x0000_0100_0000_0000 + digest[3] * 0x0000_0001_0000_0000 + digest[4] * 0x0100_0000
        + digest[5] * 0x0001_0000 + digest[6] * 0x0100 + digest[7]
}

/// The storage key of a fragment called `name`: the digest of the name's
/// UTF-8 bytes, cut to its first eight bytes.
pub open spec fn storage_key_of(name: Seq<char>) -> int {
    key_of(sha256(vstd::utf8::encode_utf8(name)))
}

/// The key that a digest of at least eight bytes is cut to.
fn leading_key(digest: &[u8]) -> (key: u64)
    requires
        digest@.len() >= 8,
    ensures
        key == key_of(digest@),
{
    (digest[0] as u64) * 0x0100_0000_0000_0000 + (digest[1] as u64) * 0x0001_0000_0000_0000 + (
    digest[2] as u64) * 0x0000_0100_0000_0000 + (digest[3] as u64) * 0x0000_0001_0000_0000 + (
    digest[4] as u64) * 0x0100_0000 + (digest[5] as u64) * 0x0001_0000 + (digest[6] as u64)
        * 0x0100 + (digest[7] as u64)
}

/// Cuts a digest to a storage key. A digest of fewer than eight bytes has
/// no key.
pub fn key_of_digest(digest: &[u8]) -> (r: Option<u64>)
    ensures
        match r {
            Some(key) => digest@.len() >= 8 && key == key_of(digest@),
            None => digest@.len() < 8,
        },
{
    if digest.len() < 8 {
        None
    } else {
        Some(leading_key(digest))
    }
}

/// The storage key of the fragment called `name`.
///
/// The key depends on the name and on nothing else. Two different names
/// share a key only if their digests agree in the first eight bytes, which
/// is not detected.
pub fn storage_key(name: &str) -> (key: u64)
    ensures
        key == storage_key_of(name@),
{
    let digest = sha256_digest(name.as_bytes());
    leading_key(digest.as_slice())
}

/// The first `count` bytes of a digest, read as a big-endian number.
spec fn leading(digest: Seq<u8>, count: int) -> int
    decreases count,
{
    if count <= 0 {
        0
    } else {
        leading(digest, count - 1) * 256 + digest[count - 1]
    }
}

/// A number determines its last byte and what stands before it.
proof fn lemma_split_last_byte(high_a: int, low_a: u8, high_b: int, low_b: u8)
    requires
        high_a * 256 + low_a == high_b * 256 + low_b,
    ensures
        high_a == high_b,
        low_a == low_b,
{
}

/// Cutting a digest to a key loses nothing of its first eight bytes: two
/// digests with the same key agree in them.
pub proof fn lemma_key_of_injective(a: Seq<u8>, b: Seq<u8>)
    requires
        a.len() >= 8,
        b.len() >= 8,
        key_of(a) == key_of(b),
    ensures
        a.take(8) == b.take(8),
{
    reveal_with_fuel(leading, 9);
    assert(key_of(a) == leading(a, 8));
    assert(key_of(b) == leading(b, 8));
    lemma_split_last_byte(leading(a, 7), a[7], leading(b, 7), b[7]);
    lemma_split_last_byte(leading(a, 6), a[6], leading(b, 6), b[6]);
    lemma_split_last_byte(leading(a, 5), a[5], leading(b, 5), b[5]);
    lemma_split_last_byte(leading(a, 4), a[4], leading(b, 4), b[4]);
    lemma_split_last_byte(leading(a, 3), a[3], leading(b, 3), b[3]);
    lemma_split_last_byte(leading(a, 2), a[2], leading(b, 2), b[2]);
    lemma_split_last_byte(leading(a, 1), a[1], leading(b, 1), b[1]);
    assert(a.take(8) =~= b.take(8));
}

/// Two names get different keys unless their digests agree in the first
/// eight bytes.
pub proof fn lemma_storage_keys_differ(a: Seq<char>, b: Seq<char>)
    requires
        sha256(vstd::utf8::encode_utf8(a)).len() >= 8,
        sha256(vstd::utf8::encode_utf8(b)).len() >= 8,
        sha256(vstd::utf8::encode_utf8(a)).take(8) != sha256(vstd::utf8::encode_utf8(b)).take(8),
    ensures
        storage_key_of(a) != storage_key_of(b),
{
    if storage_key_of(a) == storage_key_of(b) {
        lemma_key_of_injective(
            sha256(vstd::utf8::encode_utf8(a)),
            sha256(vstd::utf8::encode_utf8(b)),
        );
    }
}

/// The same name always gets the same key.
pub proof fn lemma_storage_key_deterministic(a: Seq<char>, b: Seq<char>)
    requires
        a == b,
    ensures
        storage_key_of(a) == storage_key_of(b),
{
}

/// The address of one field: the key of its fragment and the field's
/// position among the fragment's fields.
#[derive(Clone, Copy, Debug, PartialEq, Eq, Structural)]
pub struct Slot {
    pub key: u64,
    pub offset: u64,
}

/// A field as it is laid out in storage.
#[derive(Debug, PartialEq, Eq)]
pub struct SlotDecl {
    /// The field's name; a field of a tuple struct has none.
    pub field: Option<String>,
    pub ty: String,
    pub slot: Slot,
    /// Whether the slot stays unset until it is first written, and reads as
    /// the default value of its type until then.
    pub lazy: bool,
}

/// The mathematical content of a [`SlotDecl`].
pub ghost struct SlotDeclView {
    pub field: Option<Seq<char>>,
    pub ty: Seq<char>,
    pub slot: Slot,
    pub lazy: bool,
}

impl View for SlotDecl {
    type V = SlotDeclView;

    open spec fn view(&self) -> SlotDeclView {
        SlotDeclView {
            field: match self.field {
                Some(n) => Some(n@),
                None => None,
            },
            ty: self.ty@,
            slot: self.slot,
            lazy: self.lazy,
        }
    }
}

/// A fragment with its storage key and the slots of its fields.
#[derive(Debug, PartialEq, Eq)]
pub struct Registered {
    pub name: String,
    pub key: u64,
    pub slots: Vec<SlotDecl>,
}

/// The mathematical content of a [`Registered`] fragment.
pub ghost struct RegisteredView {
    pub name: Seq<char>,
    pub key: u64,
    pub slots: Seq<SlotDeclView>,
}

impl View for Registered {
    type V = RegisteredView;

    open spec fn view(&self) -> RegisteredView {
        RegisteredView { name: self.name@, key: self.key, slots: views(self.slots@) }
    }
}

/// The slot of the field at position `offset` of a fragment with key `key`.
pub open spec fn slot_decl_of(field: FieldView, key: u64, offset: int) -> SlotDeclView {
    SlotDeclView {
        field: field.name,
        ty: field.ty,
        slot: Slot { key, offset: offset as u64 },
        lazy: field.lazy(),
    }
}

/// A fragment as the registrar lays it out: keyed by its name, one slot per
/// field, in declaration order.
pub open spec fn registered_of(fragment: FragmentView) -> RegisteredView {
    RegisteredView {
        name: fragment.name,
        key: storage_key_of(fragment.name) as u64,
        slots: Seq::new(
            fragment.fields.len(),
            |i: int| slot_decl_of(fragment.fields[i], storage_key_of(fragment.name) as u64, i),
        ),
    }
}

/// Assigns a fragment its storage key and its fields their slots. Fails on
/// a fragment that is not a struct or has two fields of one name, with an
/// error that names the fragment.
pub fn register(fragment: &Fragment) -> (r: Result<Registered, GenError>)
    ensures
        match r {
            Ok(reg) => fragment@.well_formed() && reg@ == registered_of(fragment@),
            Err(e) => !fragment@.well_formed() && e@.kind == ErrorKind::UnsupportedShape
                && e@.name == fragment@.name,
        },
{
    if !fragment.is_well_formed() {
        return Err(GenError::new(ErrorKind::UnsupportedShape, fragment.name.as_str()));
    }
    let key = storage_key(fragment.name.as_str());
    let mut slots: Vec<SlotDecl> = Vec::new();
    let mut i: usize = 0;
    while i < fragment.fields.len()
        invariant
            i <= fragment.fields.len(),
            slots.len() == i,
            key == storage_key_of(fragment@.name),
            forall|k: int|
                0 <= k < i ==> slots[k]@ == slot_decl_of(fragment.fields[k]@, key, k),
        decreases fragment.fields.len() - i,
    {
        let field = &fragment.fields[i];
        let name = match &field.name {
            Some(n) => Some(n.clone()),
            None => None,
        };
        slots.push(
            SlotDecl {
                field: name,
                ty: field.ty.clone(),
                slot: Slot { key, offset: i as u64 },
                lazy: field.is_lazy(),
            },
        );
        i = i + 1;
    }
    let reg = Registered { name: fragment.name.clone(), key, slots };
    assert(reg@.slots =~= registered_of(fragment@).slots);
    Ok(reg)
}

/// Whether `index` is the first slot of `reg` that belongs to a field called
/// `field`.
pub open spec fn holds_field(reg: RegisteredView, field: Seq<char>, index: int) -> bool {
    &&& 0 <= index < reg.slots.len()
    &&& reg.slots[index].field == Some(field)
    &&& forall|j: int| 0 <= j < index ==> reg.slots[j].field != Some(field)
}

/// The slot through which every access to the field called `field` goes:
/// that of the first field of that name, if there is one.
pub open spec fn slot_for(reg: RegisteredView, field: Seq<char>) -> Option<Slot> {
    if exists|i: int| holds_field(reg, field, i) {
        Some(reg.slots[choose|i: int| holds_field(reg, field, i)].slot)
    } else {
        None
    }
}

impl Registered {
    /// The slot of the field called `field`, if the fragment has one.
    pub fn slot_of(&self, field: &str) -> (r: Option<Slot>)
        ensures
            r == slot_for(self@, field@),
    {
        let mut i: usize = 0;
        while i < self.slots.len()
            invariant
                i <= self.slots.len(),
                forall|j: int| 0 <= j < i ==> views(self.slots@)[j].field != Some(field@),
            decreases self.slots.len() - i,
        {
            let hit = match &self.slots[i].field {
                Some(name) => same_text(name.as_str(), field),
                None => false,
            };
            if hit {
                proof {
                    assert(holds_field(self@, field@, i as int));
                    let c = choose|c: int| holds_field(self@, field@, c);
                    assert(c == i) by {
                        if c < i {
                            assert(views(self.slots@)[c].field != Some(field@));
                        }
                        if i < c {
                            assert(self@.slots[i as int].field == Some(field@));
                        }
                    }
                }
                return Some(self.slots[i].slot);
            }
            i = i + 1;
        }
        None
    }
}

/// The storage of a composed object: its fragments, each with key and slots.
#[derive(Debug, PartialEq, Eq)]
pub struct Layout {
    pub fragments: Vec<Registered>,
}

impl View for Layout {
    type V = Seq<RegisteredView>;

    open spec fn view(&self) -> Seq<RegisteredView> {
        views(self.fragments@)
    }
}

/// What is wrong with the fragment at position `j` of a list, if anything:
/// it cannot be laid out, or a fragment before it has the same declared
/// name.
pub open spec fn fragment_fault(fragments: Seq<FragmentView>, j: int) -> Option<ErrorKind> {
    if !fragments[j].well_formed() {
        Some(ErrorKind::UnsupportedShape)
    } else if exists|i: int| 0 <= i < j && fragments[i].name == fragments[j].name {
        Some(ErrorKind::DuplicateFragment)
    } else {
        None
    }
}

/// The layout of a list of fragments.
pub open spec fn layout_of(fragments: Seq<FragmentView>) -> Seq<RegisteredView> {
    Seq::new(fragments.len(), |j: int| registered_of(fragments[j]))
}

/// Whether a fragment before position `j` has the name of the one at `j`.
fn named_before(fragments: &Vec<Fragment>, j: usize) -> (r: bool)
    requires
        j < fragments.len(),
    ensures
        r == exists|i: int|
            0 <= i < j && views(fragments@)[i].name == views(fragments@)[j as int].name,
{
    let mut i: usize = 0;
    while i < j
        invariant
            i <= j < fragments.len(),
            forall|k: int| 0 <= k < i ==> views(fragments@)[k].name != views(fragments@)[j as int].name,
        decreases j - i,
    {
        if fragments[i].name == fragments[j].name {
            assert(views(fragments@)[i as int].name == views(fragments@)[j as int].name);
            return true;
        }
        i = i + 1;
    }
    false
}

/// Merges the fragments of one composed object into a layout.
///
/// Every fragment is registered, in the order given. The merge fails at the
/// first fragment that cannot be laid out or whose declared name an earlier
/// fragment already has; the error names that fragment. Two fragments of
/// one name are never merged into one.
pub fn merge(fragments: &Vec<Fragment>) -> (r: Result<Layout, GenError>)
    ensures
        match r {
            Ok(layout) => {
                &&& forall|j: int|
                    0 <= j < fragments.len() ==> fragment_fault(views(fragments@), j) is None
                &&& layout@ == layout_of(views(fragments@))
            },
            Err(e) => exists|j: int|
                {
                    &&& 0 <= j < fragments.len()
                    &&& #[trigger] fragment_fault(views(fragments@), j) == Some(e@.kind)
                    &&& e@.name == views(fragments@)[j].name
                    &&& forall|k: int| 0 <= k < j ==> fragment_fault(views(fragments@), k) is None
                },
        },
{
    let mut out: Vec<Registered> = Vec::new();
    let mut j: usize = 0;
    while j < fragments.len()
        invariant
            j <= fragments.len(),
            out.len() == j,
            forall|k: int| 0 <= k < j ==> fragment_fault(views(fragments@), k) is None,
            forall|k: int| 0 <= k < j ==> out[k]@ == registered_of(fragments[k]@),
        decreases fragments.len() - j,
    {
        let reg = match register(&fragments[j]) {
            Ok(reg) => reg,
            Err(e) => {
                assert(fragment_fault(views(fragments@), j as int) == Some(e@.kind));
                return Err(e);
            },
        };
        if named_before(fragments, j) {
            let e = GenError::new(ErrorKind::DuplicateFragment, fragments[j].name.as_str());
            assert(fragment_fault(views(fragments@), j as int) == Some(e@.kind));
            return Err(e);
        }
        assert(fragment_fault(views(fragments@), j as int) is None);
        out.push(reg);
        j = j + 1;
    }
    let layout = Layout { fragments: out };
    assert(layout@ =~= layout_of(views(fragments@)));
    Ok(layout)
}

/// In a list that merges, no two fragments have the same declared name.
pub proof fn lemma_merged_names_distinct(fragments: Seq<FragmentView>, i: int, j: int)
    requires
        forall|k: int| 0 <= k < fragments.len() ==> fragment_fault(fragments, k) is None,
        0 <= i < j < fragments.len(),
    ensures
        fragments[i].name != fragments[j].name,
{
    assert(fragment_fault(fragments, j) is None);
}

/// Within one fragment, two different fields never share a slot.
pub proof fn lemma_slots_of_fragment_distinct(fragment: FragmentView, a: int, b: int)
    requires
        0 <= a < fragment.fields.len(),
        0 <= b < fragment.fields.len(),
        fragment.fields.len() <= u64::MAX,
        a != b,
    ensures
        registered_of(fragment).slots[a].slot != registered_of(fragment).slots[b].slot,
{
}

/// Fragments with different keys share no slot.
pub proof fn lemma_slots_of_layout_distinct(
    fragments: Seq<FragmentView>,
    i: int,
    a: int,
    j: int,
    b: int,
)
    requires
        0 <= i < fragments.len(),
        0 <= j < fragments.len(),
        0 <= a < fragments[i].fields.len(),
        0 <= b < fragments[j].fields.len(),
        layout_of(fragments)[i].key != layout_of(fragments)[j].key,
    ensures
        layout_of(fragments)[i].slots[a].slot != layout_of(fragments)[j].slots[b].slot,
{
}

} // verus!
