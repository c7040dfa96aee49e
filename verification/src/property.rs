//! Reading, writing and deleting the properties of objects on the heap.
//! Objects hold data properties only; a lookup follows the prototype chain.

use crate::error::JsError;
use crate::error::JsNativeError;
use crate::error::JsNativeErrorKind;
use crate::error::JsResult;
use crate::heap::lemma_wf_carries;
use crate::heap::Heap;
use crate::object::Attributes;
use crate::object::Property;
use crate::object::PropertyKey;
use crate::object::PropertyKeyView;
use crate::value::JsObject;
use crate::value::JsValue;
use vstd::prelude::*;
use vstd::string::*;

verus! {

/// The message of the error raised when a strict write cannot be made.
pub open spec fn read_only_message() -> Seq<char> {
    "cannot assign to read only property"@
}

/// The attributes of a property created by an assignment.
pub open spec fn default_attributes() -> Attributes {
    Attributes { writable: true, enumerable: true, configurable: true }
}

impl Heap {
    /// Where a lookup of `key` that starts at `object` finds a property:
    /// the object on the prototype chain that holds it, and its position
    /// there.
    pub open spec fn find_in_chain(self, object: JsObject, key: PropertyKeyView) -> Option<
        (JsObject, int),
    >
        decreases object.index,
    {
        if !self.has_object(object) {
            None
        } else {
            match self.object(object).own_property(key) {
                Some(i) => Some((object, i)),
                None => match self.object(object).prototype {
                    Some(p) => if p.index < object.index {
                        self.find_in_chain(p, key)
                    } else {
                        None
                    },
                    None => None,
                },
            }
        }
    }

    /// The property that a lookup finds is an own property of the object
    /// that holds it, and that object is the start of the lookup or older.
    /// A lookup that finds none means that the start has no own property with
    /// the key.
    pub proof fn lemma_find_in_chain(self, object: JsObject, key: PropertyKeyView)
        ensures
            match self.find_in_chain(object, key) {
                Some((owner, i)) => self.has_object(owner) && owner.index <= object.index
                    && self.object(owner).own_property(key) == Some(i) && (owner.index
                    == object.index <==> self.object(object).own_property(key) is Some),
                None => self.has_object(object) ==> self.object(object).own_property(key) is None,
            },
        decreases object.index,
    {
        if self.has_object(object) {
            if self.object(object).own_property(key) is None {
                if let Some(p) = self.object(object).prototype {
                    if p.index < object.index {
                        self.lemma_find_in_chain(p, key);
                    }
                }
            }
        }
    }

    /// `HasProperty`: whether a lookup of `key` that starts at `object`
    /// finds a property.
    pub open spec fn spec_has_property(self, object: JsObject, key: PropertyKeyView) -> bool {
        self.find_in_chain(object, key) is Some
    }

    /// `Get`: the value of the property that a lookup finds, `undefined`
    /// where it finds none.
    pub open spec fn spec_get(self, object: JsObject, key: PropertyKeyView) -> JsValue {
        match self.find_in_chain(object, key) {
            Some((owner, i)) => self.object(owner).properties@[i].value,
            None => JsValue::Undefined,
        }
    }

    /// Whether this heap differs from `old` in the properties of one object
    /// at most.
    pub open spec fn changed_object(self, old: Heap, object: JsObject) -> bool {
        &&& self.same_but_objects(old)
        &&& self.objects@.len() == old.objects@.len()
        &&& forall|i: int|
            0 <= i < old.objects@.len() && i != object.index ==> (#[trigger] self.objects@[i])
                == old.objects@[i]
        &&& self.object(object).prototype == old.object(object).prototype
        &&& self.object(object).data == old.object(object).data
    }

    /// Where a lookup of `key` that starts at `object` finds a property.
    pub fn locate(&self, object: &JsObject, key: &PropertyKey) -> (found: Option<(JsObject, usize)>)
        requires
            self.wf(),
            self.has_object(*object),
        ensures
            match found {
                Some((owner, i)) => self.find_in_chain(*object, key@) == Some((owner, i as int))
                    && self.has_object(owner) && i < self.object(owner).properties@.len()
                    && self.object(owner).properties@[i as int].key@ == key@,
                None => self.find_in_chain(*object, key@) is None,
            },
    {
        let mut current = *object;
        loop
            invariant
                self.wf(),
                self.has_object(current),
                self.find_in_chain(*object, key@) == self.find_in_chain(current, key@),
            decreases current.index,
        {
            match self.objects[current.index].find_own_property(key) {
                Some(i) => {
                    return Some((current, i));
                },
                None => {
                    match self.objects[current.index].prototype {
                        Some(p) => {
                            assert(p.index < current.index);
                            current = p;
                        },
                        None => {
                            return None;
                        },
                    }
                },
            }
        }
    }

    /// `HasProperty`.
    pub fn has_property(&self, object: &JsObject, key: &PropertyKey) -> (found: bool)
        requires
            self.wf(),
            self.has_object(*object),
        ensures
            found == self.spec_has_property(*object, key@),
    {
        self.locate(object, key).is_some()
    }

    /// `Get`.
    pub fn get(&self, object: &JsObject, key: &PropertyKey) -> (value: JsValue)
        requires
            self.wf(),
            self.has_object(*object),
        ensures
            value == self.spec_get(*object, key@),
    {
        match self.locate(object, key) {
            Some((owner, i)) => self.objects[owner.index].properties[i].value,
            None => JsValue::Undefined,
        }
    }

    /// Whether an assignment to `key` on `object` is allowed: it is unless
    /// the lookup finds a property that is not writable.
    pub open spec fn can_set(self, object: JsObject, key: PropertyKeyView) -> bool {
        match self.find_in_chain(object, key) {
            Some((owner, i)) => self.object(owner).properties@[i].attributes.writable,
            None => true,
        }
    }

    /// `Set`: assigns to the property `key` of `object`. An own property
    /// that is writable gets the value; where the object has no such
    /// property and none that is read-only is inherited, a new own property
    /// is appended. Otherwise nothing changes, and the result is `false`,
    /// or a `TypeError` in strict mode.
    pub fn set(&mut self, object: &JsObject, key: PropertyKey, value: JsValue, strict: bool) -> (result:
        JsResult<bool>)
        requires
            old(self).wf(),
            old(self).has_object(*object),
        ensures
            final(self).changed_object(*old(self), *object),
            final(self).extends(*old(self)),
            final(self).wf(),
            match result {
                Ok(done) => done == old(self).can_set(*object, key@) && (!done ==> !strict),
                Err(err) => strict && !old(self).can_set(*object, key@) && err.is_native(
                    JsNativeErrorKind::Type,
                    read_only_message(),
                ),
            },
            !old(self).can_set(*object, key@) ==> *final(self) == *old(self),
            old(self).can_set(*object, key@) ==> match old(self).object(*object).own_property(
                key@,
            ) {
                Some(i) => final(self).object(*object).properties@ == old(self).object(
                    *object,
                ).properties@.update(
                    i,
                    Property { value, ..old(self).object(*object).properties@[i] },
                ),
                None => final(self).object(*object).properties@ == old(self).object(
                    *object,
                ).properties@.push(Property { key, value, attributes: default_attributes() }),
            },
    {
        match self.locate(object, &key) {
            Some((owner, i)) => {
                if !self.objects[owner.index].properties[i].attributes.writable {
                    if strict {
                        return Err(
                            JsError::Native(
                                JsNativeError::typ().with_message(
                                    String::from_str("cannot assign to read only property"),
                                ),
                            ),
                        );
                    }
                    return Ok(false);
                }
                if owner.index == object.index {
                    self.objects[object.index].properties[i].value = value;
                    proof {
                        old(self).lemma_find_in_chain(*object, key@);
                        assert(owner == *object);
                        lemma_wf_carries(*self, *old(self));
                    }
                    return Ok(true);
                }
            },
            None => {},
        }
        proof {
            old(self).lemma_find_in_chain(*object, key@);
        }
        self.objects[object.index].properties.push(
            Property {
                key,
                value,
                attributes: Attributes { writable: true, enumerable: true, configurable: true },
            },
        );
        proof {
            lemma_wf_carries(*self, *old(self));
        }
        Ok(true)
    }

    /// `[[Delete]]`: removes the own property `key` of `object` if it is
    /// configurable. Returns `false`, and changes nothing, exactly when the
    /// object has such a property and it is not configurable.
    pub fn delete(&mut self, object: &JsObject, key: &PropertyKey) -> (deleted: bool)
        requires
            old(self).wf(),
            old(self).has_object(*object),
        ensures
            final(self).changed_object(*old(self), *object),
            final(self).extends(*old(self)),
            final(self).wf(),
            match old(self).object(*object).own_property(key@) {
                Some(i) => deleted == old(self).object(
                    *object,
                ).properties@[i].attributes.configurable && (deleted ==> final(self).object(
                    *object,
                ).properties@ == old(self).object(*object).properties@.remove(i)) && (!deleted
                    ==> *final(self) == *old(self)),
                None => deleted && *final(self) == *old(self),
            },
    {
        match self.objects[object.index].find_own_property(key) {
            Some(i) => {
                if self.objects[object.index].properties[i].attributes.configurable {
                    self.objects[object.index].properties.remove(i);
                    proof {
                        lemma_wf_carries(*self, *old(self));
                    }
                    true
                } else {
                    false
                }
            },
            None => true,
        }
    }

    /// Appends an own property to an object that has none with that key.
    pub fn add_property(
        &mut self,
        object: &JsObject,
        key: PropertyKey,
        value: JsValue,
        attributes: Attributes,
    )
        requires
            old(self).wf(),
            old(self).has_object(*object),
            old(self).object(*object).own_property(key@) is None,
        ensures
            final(self).changed_object(*old(self), *object),
            final(self).extends(*old(self)),
            final(self).wf(),
            final(self).object(*object).properties@ == old(self).object(*object).properties@.push(
                Property { key, value, attributes },
            ),
    {
        self.objects[object.index].properties.push(Property { key, value, attributes });
        proof {
            lemma_wf_carries(*self, *old(self));
        }
    }
}

} // verus!
