use vstd::prelude::*;

verus! {

/// The kind of a replicated field of a struct.
#[derive(PartialEq, Eq, Structural, Clone, Copy, Debug)]
pub enum PropertyKind {
    /// A field that holds a value: `Property`.
    Normal,
    /// A field that refers to entities: `EntityProperty` or
    /// `VecDequeEntityProperty`.
    Entity,
}

/// The bytes of the type name `Property`.
pub open spec fn property_name() -> Seq<u8> {
    seq![80u8, 114, 111, 112, 101, 114, 116, 121]
}

/// The bytes of the type name `EntityProperty`.
pub open spec fn entity_property_name() -> Seq<u8> {
    seq![69u8, 110, 116, 105, 116, 121] + property_name()
}

/// The bytes of the type name `VecDequeEntityProperty`.
pub open spec fn vec_deque_entity_property_name() -> Seq<u8> {
    seq![86u8, 101, 99, 68, 101, 113, 117, 101] + entity_property_name()
}

/// The bytes of the prefix `unnamed_field_`.
pub open spec fn unnamed_field_prefix() -> Seq<u8> {
    seq![117u8, 110, 110, 97, 109, 101, 100, 95, 102, 105, 101, 108, 100, 95]
}

/// The kind of a field whose type has the name `name_of_type`, if the field is
/// a replicated one.
pub open spec fn kind_of(name_of_type: Seq<u8>) -> Option<PropertyKind> {
    if name_of_type == entity_property_name() || name_of_type == vec_deque_entity_property_name() {
        Some(PropertyKind::Entity)
    } else if name_of_type == property_name() {
        Some(PropertyKind::Normal)
    } else {
        None
    }
}

/// The decimal digits of a number, as bytes.
pub open spec fn decimal(number: nat) -> Seq<u8>
    decreases number,
{
    if number < 10 {
        seq![(48 + number) as u8]
    } else {
        decimal(number / 10).push((48 + number % 10) as u8)
    }
}

/// The number of bytes of a diff mask for `properties` properties: one bit
/// for each, in whole bytes.
pub open spec fn mask_bytes(properties: nat) -> nat {
    if properties == 0 {
        0
    } else {
        ((properties - 1) / 8 + 1) as nat
    }
}

/// Whether `bytes` at position `at` holds `word`.
fn holds(bytes: &[u8], at: usize, word: &[u8]) -> (same: bool)
    requires
        at <= bytes@.len(),
    ensures
        same == (at + word@.len() <= bytes@.len() && bytes@.subrange(
            at as int,
            at + word@.len(),
        ) == word@),
{
    if word.len() > bytes.len() - at {
        return false;
    }
    let mut i: usize = 0;
    while i < word.len()
        invariant
            i <= word@.len(),
            at + word@.len() <= bytes@.len(),
            bytes@.len() <= usize::MAX,
            forall|j: int| 0 <= j < i ==> bytes@[at + j] == word@[j],
        decreases word@.len() - i,
    {
        if bytes[at + i] != word[i] {
            assert(bytes@.subrange(at as int, at + word@.len())[i as int] != word@[i as int]);
            return false;
        }
        i += 1;
    }
    assert(bytes@.subrange(at as int, at + word@.len()) =~= word@);
    true
}

/// The kind of a field of a struct, by the name of the field's type.
/// Fields of other types are not replicated.
pub fn classify(name_of_type: &[u8]) -> (kind: Option<PropertyKind>)
    ensures
        kind == kind_of(name_of_type@),
{
    let property: [u8; 8] = [80, 114, 111, 112, 101, 114, 116, 121];
    let entity: [u8; 6] = [69, 110, 116, 105, 116, 121];
    let vec_deque: [u8; 8] = [86, 101, 99, 68, 101, 113, 117, 101];
    let size = name_of_type.len();
    assert(property@ =~= property_name());
    assert(name_of_type@.subrange(0, size as int) =~= name_of_type@);
    if size == 8 {
        if holds(name_of_type, 0, property.as_slice()) {
            Some(PropertyKind::Normal)
        } else {
            None
        }
    } else if size == 14 {
        if holds(name_of_type, 0, entity.as_slice()) && holds(name_of_type, 6, property.as_slice()) {
            assert(name_of_type@ =~= entity_property_name());
            Some(PropertyKind::Entity)
        } else {
            assert(entity_property_name().subrange(0, 6) =~= entity@);
            assert(entity_property_name().subrange(6, 14) =~= property@);
            None
        }
    } else if size == 22 {
        if holds(name_of_type, 0, vec_deque.as_slice()) && holds(name_of_type, 8, entity.as_slice())
            && holds(name_of_type, 14, property.as_slice()) {
            assert(name_of_type@ =~= vec_deque_entity_property_name());
            Some(PropertyKind::Entity)
        } else {
            assert(vec_deque_entity_property_name().subrange(0, 8) =~= vec_deque@);
            assert(vec_deque_entity_property_name().subrange(8, 14) =~= entity@);
            assert(vec_deque_entity_property_name().subrange(14, 22) =~= property@);
            None
        }
    } else {
        None
    }
}

/// The number of bytes of the diff mask of a replicate with
/// `properties_number` properties, or nothing where that takes more than
/// 255 bytes.
pub fn diff_mask_size(properties_number: usize) -> (size: Option<u8>)
    ensures
        size == (if mask_bytes(properties_number as nat) <= 255 {
            Some(mask_bytes(properties_number as nat) as u8)
        } else {
            None
        }),
{
    if properties_number == 0 {
        Some(0)
    } else {
        let bytes: usize = (properties_number - 1) / 8 + 1;
        if bytes <= 255 {
            Some(bytes as u8)
        } else {
            None
        }
    }
}

/// Whether one of the fields refers to entities.
pub fn has_entity_properties(kinds: &[PropertyKind]) -> (has: bool)
    ensures
        has == kinds@.contains(PropertyKind::Entity),
{
    let mut i: usize = 0;
    while i < kinds.len()
        invariant
            i <= kinds@.len(),
            forall|j: int| 0 <= j < i ==> kinds@[j] != PropertyKind::Entity,
        decreases kinds@.len() - i,
    {
        if kinds[i] == PropertyKind::Entity {
            return true;
        }
        i += 1;
    }
    false
}

/// Appends the decimal digits of a number to `out`.
fn push_decimal(out: &mut Vec<u8>, number: usize)
    ensures
        final(out)@ == old(out)@ + decimal(number as nat),
    decreases number,
{
    if number < 10 {
        out.push(48 + number as u8);
        assert(out@ =~= old(out)@ + decimal(number as nat));
    } else {
        push_decimal(out, number / 10);
        out.push(48 + (number % 10) as u8);
        assert(out@ =~= old(out)@ + decimal(number as nat));
    }
}

/// The name that stands for the field at position `index` of a struct
/// whose fields have no names: `unnamed_field_` and the position.
pub fn get_variable_name_for_unnamed_field(index: usize) -> (name: Vec<u8>)
    ensures
        name@ == unnamed_field_prefix() + decimal(index as nat),
{
    let prefix: [u8; 14] = [117, 110, 110, 97, 109, 101, 100, 95, 102, 105, 101, 108, 100, 95];
    let mut name: Vec<u8> = Vec::new();
    let mut i: usize = 0;
    while i < 14
        invariant
            i <= 14,
            name@ == prefix@.subrange(0, i as int),
        decreases 14 - i,
    {
        name.push(prefix[i]);
        i += 1;
        assert(name@ =~= prefix@.subrange(0, i as int));
    }
    assert(name@ =~= unnamed_field_prefix());
    push_decimal(&mut name, index);
    name
}

} // verus!
