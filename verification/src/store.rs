//! A reference model of slot-addressed storage, and of what the generated
//! accessors do to it.
//!
//! A slot is unset until it is first written. A generated setter overwrites
//! the slot of its field and does nothing else; a generated getter returns
//! what the slot of its field holds.

use std::collections::HashMap;
use vstd::prelude::*;
use crate::accessors::{accessor_of, accessors_for, Accessor, AccessorView};
use crate::fragment::{Access, FieldView, FragmentView};
use crate::storage::{holds_field, registered_of, slot_for, Registered, RegisteredView, Slot};

verus! {

broadcast use vstd::std_specs::hash::group_hash_axioms;

/// A slot as one number: the key in the upper half, the offset in the lower.
pub open spec fn packed(slot: Slot) -> u128 {
    (slot.key * 0x1_0000_0000_0000_0000 + slot.offset) as u128
}

/// Values by the slot that holds them.
pub struct Store<V> {
    cells: HashMap<u128, V>,
}

impl<V> View for Store<V> {
    type V = Map<Slot, V>;

    closed spec fn view(&self) -> Map<Slot, V> {
        Map::new(|s: Slot| self.cells@.contains_key(packed(s)), |s: Slot| self.cells@[packed(s)])
    }
}

fn pack(slot: Slot) -> (r: u128)
    ensures
        r == packed(slot),
{
    (slot.key as u128) * 0x1_0000_0000_0000_0000 + (slot.offset as u128)
}

impl<V> Store<V> {
    /// A store in which every slot is unset.
    pub fn new() -> (s: Store<V>)
        ensures
            s@ == Map::<Slot, V>::empty(),
    {
        let s = Store { cells: HashMap::new() };
        assert(s@ =~= Map::<Slot, V>::empty());
        s
    }

    /// Overwrites `slot` with `value`. No other slot changes.
    pub fn write(&mut self, slot: Slot, value: V)
        ensures
            final(self)@ == old(self)@.insert(slot, value),
    {
        let ghost before = self@;
        self.cells.insert(pack(slot), value);
        assert forall|s: Slot| s != slot implies packed(s) != packed(slot) by {
            if s.key == slot.key {
                assert(s.offset != slot.offset);
            }
        }
        assert(self@ =~= before.insert(slot, value));
    }

    /// What `slot` holds, or nothing while it is unset.
    pub fn read(&self, slot: Slot) -> (r: Option<&V>)
        ensures
            match r {
                Some(v) => self@.contains_key(slot) && *v == self@[slot],
                None => !self@.contains_key(slot),
            },
    {
        let key = pack(slot);
        self.cells.get(&key)
    }

    /// What `slot` holds, or `default` while it is unset: a lazy field
    /// reads as its default until it is first written.
    pub fn read_or<'a>(&'a self, slot: Slot, default: &'a V) -> (r: &'a V)
        ensures
            *r == if self@.contains_key(slot) {
                self@[slot]
            } else {
                *default
            },
    {
        match self.read(slot) {
            Some(value) => value,
            None => default,
        }
    }
}

/// Storage after a call of the generated setter `accessor` with `value`:
/// the slot of the accessor's field holds `value`, all else is as before.
/// What is not a setter of a field of the fragment leaves storage alone.
pub open spec fn after_set<V>(
    store: Map<Slot, V>,
    reg: RegisteredView,
    accessor: AccessorView,
    value: V,
) -> Map<Slot, V> {
    match slot_for(reg, accessor.field) {
        Some(slot) => if accessor.access is Write {
            store.insert(slot, value)
        } else {
            store
        },
        None => store,
    }
}

/// What a call of the generated getter `accessor` returns: the value in the
/// slot of the accessor's field. Nothing, if the slot is unset or the
/// accessor is not a getter of a field of the fragment.
pub open spec fn result_of_get<V>(
    store: Map<Slot, V>,
    reg: RegisteredView,
    accessor: AccessorView,
) -> Option<V> {
    match slot_for(reg, accessor.field) {
        Some(slot) => if accessor.access is Read && store.contains_key(slot) {
            Some(store[slot])
        } else {
            None
        },
        None => None,
    }
}

/// Runs a generated setter on `store`. Reports whether `accessor` is a
/// setter of a field of `reg`; if not, nothing is written.
pub fn call_setter<V>(store: &mut Store<V>, reg: &Registered, accessor: &Accessor, value: V) -> (done:
    bool)
    ensures
        final(store)@ == after_set(old(store)@, reg@, accessor@, value),
        done == (accessor@.access is Write && slot_for(reg@, accessor@.field) is Some),
{
    match accessor.access {
        Access::Write => match reg.slot_of(accessor.field.as_str()) {
            Some(slot) => {
                store.write(slot, value);
                true
            },
            None => false,
        },
        Access::Read => false,
    }
}

/// Runs a generated getter on `store`.
pub fn call_getter<'a, V>(store: &'a Store<V>, reg: &Registered, accessor: &Accessor) -> (r: Option<
    &'a V,
>)
    ensures
        match r {
            Some(v) => result_of_get(store@, reg@, accessor@) == Some(*v),
            None => result_of_get(store@, reg@, accessor@) is None,
        },
{
    match accessor.access {
        Access::Read => match reg.slot_of(accessor.field.as_str()) {
            Some(slot) => store.read(slot),
            None => None,
        },
        Access::Write => None,
    }
}

/// A fragment that has a field called `field` has a first one.
proof fn lemma_named_field_has_slot(reg: RegisteredView, field: Seq<char>, index: int)
    requires
        0 <= index < reg.slots.len(),
        reg.slots[index].field == Some(field),
    ensures
        exists|i: int| holds_field(reg, field, i),
    decreases index,
{
    if exists|j: int| 0 <= j < index && reg.slots[j].field == Some(field) {
        let j = choose|j: int| 0 <= j < index && reg.slots[j].field == Some(field);
        lemma_named_field_has_slot(reg, field, j);
    } else {
        assert(holds_field(reg, field, index));
    }
}

/// The accessor of a named field that requests `access` is among those
/// generated for the fragment.
proof fn lemma_accessor_generated(fields: Seq<FieldView>, index: int, access: Access)
    requires
        0 <= index < fields.len(),
        fields[index].name is Some,
        fields[index].grants(access),
    ensures
        accessors_for(fields, access).contains(
            accessor_of(fields[index].name.unwrap(), fields[index].ty, access),
        ),
{
    let pred = |f: FieldView| f.grants(access);
    let tagged = fields.filter(pred);
    fields.lemma_filter_contains(pred, index);
    let k = choose|k: int| 0 <= k < tagged.len() && tagged[k] == fields[index];
    assert(accessors_for(fields, access)[k] == accessor_of(
        fields[index].name.unwrap(),
        fields[index].ty,
        access,
    ));
}

/// For a named field tagged both readable and writable, the generator emits
/// a getter and a setter, and a call of the setter with any value followed
/// by a call of the getter returns that value, whatever storage held before.
pub proof fn lemma_set_then_get<V>(
    fragment: FragmentView,
    index: int,
    store: Map<Slot, V>,
    value: V,
)
    requires
        0 <= index < fragment.fields.len(),
        fragment.fields[index].name is Some,
        fragment.fields[index].grants(Access::Read),
        fragment.fields[index].grants(Access::Write),
    ensures
        ({
            let field = fragment.fields[index];
            let getter = accessor_of(field.name.unwrap(), field.ty, Access::Read);
            let setter = accessor_of(field.name.unwrap(), field.ty, Access::Write);
            let reg = registered_of(fragment);
            &&& accessors_for(fragment.fields, Access::Read).contains(getter)
            &&& accessors_for(fragment.fields, Access::Write).contains(setter)
            &&& result_of_get(after_set(store, reg, setter, value), reg, getter) == Some(value)
        }),
{
    let field = fragment.fields[index];
    let reg = registered_of(fragment);
    lemma_accessor_generated(fragment.fields, index, Access::Read);
    lemma_accessor_generated(fragment.fields, index, Access::Write);
    lemma_named_field_has_slot(reg, field.name.unwrap(), index);
}

/// A call of a generated setter changes the slot of its own field and no
/// other: a getter of a field with another slot returns what it returned
/// before.
pub proof fn lemma_set_leaves_other_fields<V>(
    reg: RegisteredView,
    setter: AccessorView,
    getter: AccessorView,
    store: Map<Slot, V>,
    value: V,
)
    requires
        slot_for(reg, setter.field) != slot_for(reg, getter.field),
    ensures
        result_of_get(after_set(store, reg, setter, value), reg, getter) == result_of_get(
            store,
            reg,
            getter,
        ),
{
}

} // verus!
