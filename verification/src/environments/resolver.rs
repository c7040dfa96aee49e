//! Resolving binding locators at runtime, and reading, writing and deleting
//! the bindings that they name.

use crate::context::Context;
use crate::environments::runtime::BindingLocator;
use crate::environments::runtime::Environment;
use crate::error::JsError;
use crate::error::JsNativeError;
use crate::error::JsNativeErrorKind;
use crate::error::JsResult;
use crate::heap::Heap;
use crate::interner::interner_strings;
use crate::interner::resolve_name;
use crate::interner::interner_texts;
use crate::interner::Identifier;
use crate::object::PropertyKey;
use crate::object::PropertyKeyView;
use crate::property::read_only_message;
use crate::value::JsObject;
use crate::value::JsSymbol;
use crate::value::JsValue;
use vstd::prelude::*;
use vstd::string::*;

verus! {

/// The message of the error raised when a binding is read that holds no
/// value, for the printed name of the binding.
pub open spec fn uninitialized_binding_message(name: Seq<char>) -> Seq<char> {
    name + " is not initialized"@
}

impl Heap {
    /// `ToBoolean`.
    pub open spec fn spec_to_boolean(self, value: JsValue) -> bool {
        match value {
            JsValue::Null => false,
            JsValue::Undefined => false,
            JsValue::Boolean(b) => b,
            JsValue::String(s) => self.has_string(s) && self.strings@[s.index as int]@.len() > 0,
            JsValue::Rational(bits) => !(bits == 0 || bits == 0x8000_0000_0000_0000u64 || (bits
                & 0x7ff0_0000_0000_0000u64 == 0x7ff0_0000_0000_0000u64 && bits
                & 0x000f_ffff_ffff_ffffu64 != 0)),
            JsValue::Integer(i) => i != 0,
            JsValue::Object(_) => true,
            JsValue::Symbol(_) => true,
        }
    }

    /// `ToBoolean`: `undefined`, `null`, `false`, zero, not-a-number and the
    /// empty string are false; every other value is true.
    pub fn to_boolean(&self, value: &JsValue) -> (b: bool)
        ensures
            b == self.spec_to_boolean(*value),
    {
        match value {
            JsValue::Null => false,
            JsValue::Undefined => false,
            JsValue::Boolean(b) => *b,
            JsValue::String(s) => s.index < self.strings.len() && self.strings[s.index].len() > 0,
            JsValue::Rational(bits) => !(*bits == 0 || *bits == 0x8000_0000_0000_0000u64 || (*bits
                & 0x7ff0_0000_0000_0000u64 == 0x7ff0_0000_0000_0000u64 && *bits
                & 0x000f_ffff_ffff_ffffu64 != 0)),
            JsValue::Integer(i) => *i != 0,
            JsValue::Object(_) => true,
            JsValue::Symbol(_) => true,
        }
    }

    /// Whether an object environment hides the name `key` from a `with`
    /// statement: the object's `@@unscopables` property is an object that
    /// has a true property of that name.
    pub open spec fn unscopable(self, object: JsObject, key: PropertyKeyView) -> bool {
        match self.spec_get(object, PropertyKeyView::Symbol(JsSymbol::spec_unscopables())) {
            JsValue::Object(unscopables) => self.has_object(unscopables) && self.spec_to_boolean(
                self.spec_get(unscopables, key),
            ),
            _ => false,
        }
    }

    /// Whether the object environment of a `with` statement binds the name
    /// `key`: the object has the property and does not hide it.
    pub open spec fn binds(self, object: JsObject, key: PropertyKeyView) -> bool {
        self.spec_has_property(object, key) && !self.unscopable(object, key)
    }

    /// Whether the object environment of a `with` statement binds a name.
    pub fn object_binds(&self, object: &JsObject, key: &PropertyKey) -> (b: bool)
        requires
            self.wf(),
            self.has_object(*object),
        ensures
            b == self.binds(*object, key@),
    {
        if self.has_property(object, key) {
            if let JsValue::Object(unscopables) = self.get(
                object,
                &PropertyKey::Symbol(JsSymbol::unscopables()),
            ) {
                if self.contains_object(&unscopables) {
                    let hidden = self.get(&unscopables, key);
                    if self.to_boolean(&hidden) {
                        return false;
                    }
                }
            }
            true
        } else {
            false
        }
    }

    /// Where a locator points once the environments from index `index` down
    /// to the locator's own environment were asked, innermost first:
    /// - a poisoned declarative environment of a function scope that
    ///   declares the name retargets the locator to that declaration;
    /// - a declarative environment that is neither poisoned nor inside a
    ///   `with` ends the search: the locator stays as it is;
    /// - an object environment that binds the name retargets the locator to
    ///   itself;
    /// - any other environment passes the question on.
    pub open spec fn resolved(
        self,
        stack: Seq<Environment>,
        locator: BindingLocator,
        key: PropertyKeyView,
        index: int,
    ) -> BindingLocator
        decreases index + 1,
    {
        if index < locator.environment_index || index < 0 || index >= stack.len() {
            locator
        } else {
            match stack[index] {
                Environment::Declarative(env) => if self.environment(env).poisoned {
                    if self.compile_of(env).function_scope && self.compile_of(env).lookup(
                        locator.name.index(),
                    ) is Some {
                        BindingLocator {
                            environment_index: self.compile_of(env).environment_index,
                            binding_index: self.compile_of(env).lookup(
                                locator.name.index(),
                            ).unwrap() as usize,
                            global: false,
                            ..locator
                        }
                    } else {
                        self.resolved(stack, locator, key, index - 1)
                    }
                } else if !self.environment(env).with {
                    locator
                } else {
                    self.resolved(stack, locator, key, index - 1)
                },
                Environment::Object(object) => if self.binds(object, key) {
                    BindingLocator { environment_index: index as usize, global: false, ..locator }
                } else {
                    self.resolved(stack, locator, key, index - 1)
                },
            }
        }
    }
}

impl Heap {
    /// Whether the environment is a declarative one that is neither
    /// poisoned nor inside a `with`: below it the compiler's locators hold.
    pub open spec fn undisturbed(self, env: Environment) -> bool {
        env matches Environment::Declarative(e) && !self.environment(e).poisoned
            && !self.environment(e).with
    }

    /// Whether the search of [`Heap::resolved`] asks an object environment,
    /// for which it needs the text of the locator's name.
    pub open spec fn asks_object(
        self,
        stack: Seq<Environment>,
        locator: BindingLocator,
        index: int,
    ) -> bool
        decreases index + 1,
    {
        if index < locator.environment_index || index < 0 || index >= stack.len() {
            false
        } else {
            match stack[index] {
                Environment::Declarative(env) => if self.environment(env).poisoned {
                    if self.compile_of(env).function_scope && self.compile_of(env).lookup(
                        locator.name.index(),
                    ) is Some {
                        false
                    } else {
                        self.asks_object(stack, locator, index - 1)
                    }
                } else if !self.environment(env).with {
                    false
                } else {
                    self.asks_object(stack, locator, index - 1)
                },
                Environment::Object(_) => true,
            }
        }
    }
}

impl Context {
    /// The property key of a name: its UTF-16 code units in the interner.
    pub open spec fn name_key(self, name: Identifier) -> PropertyKeyView {
        PropertyKeyView::String(interner_strings(self.interner)[name.index()])
    }

    /// Whether the interner holds the name.
    pub open spec fn knows(self, name: Identifier) -> bool {
        interner_strings(self.interner).contains_key(name.index())
    }

    /// The property key of a name.
    pub fn binding_key(&self, name: Identifier) -> (key: PropertyKey)
        requires
            self.knows(name),
        ensures
            key@ == self.name_key(name),
    {
        match resolve_name(&self.interner, name.sym()) {
            Some(resolved) => PropertyKey::String(resolved.utf16),
            None => vstd::pervasive::unreached(),
        }
    }

    /// Whether the locator names a binding that can be read and written:
    /// it is global, or its environment is on the stack and, if that is a
    /// declarative environment, has a binding with the locator's index.
    pub open spec fn addressable(self, locator: BindingLocator) -> bool {
        locator.global || (locator.environment_index < self.vm.environments.stack@.len()
            && match self.vm.environments.stack@[locator.environment_index as int] {
            Environment::Declarative(env) => locator.binding_index < self.heap.environment(
                env,
            ).bindings@.len(),
            Environment::Object(_) => true,
        })
    }

    /// The environment at the given index of the stack, which must have
    /// one.
    pub fn environment_expect(&self, index: usize) -> (env: &Environment)
        requires
            index < self.vm.environments.stack@.len(),
        ensures
            *env == self.vm.environments.stack@[index as int],
    {
        &self.vm.environments.stack[index]
    }

    /// Retargets a locator to the binding that it names at runtime: a
    /// binding that a direct `eval` added to a function scope or that a
    /// `with` statement provides shadows the binding that the compiler
    /// found. See [`Heap::resolved`]. Where the search asks an object
    /// environment, the interner must hold the locator's name.
    pub fn find_runtime_binding(&mut self, locator: &mut BindingLocator) -> (result: JsResult<()>)
        requires
            old(self).wf(),
            old(self).heap.asks_object(
                old(self).vm.environments.stack@,
                *old(locator),
                old(self).vm.environments.stack@.len() - 1,
            ) ==> old(self).knows(old(locator).name),
        ensures
            result is Ok,
            *final(self) == *old(self),
            *final(locator) == old(self).heap.resolved(
                old(self).vm.environments.stack@,
                *old(locator),
                old(self).name_key(old(locator).name),
                old(self).vm.environments.stack@.len() - 1,
            ),
            old(self).heap.undisturbed(old(self).vm.environments.stack@.last()) ==> *final(locator)
                == *old(locator),
            final(locator).name == old(locator).name,
            final(locator).mutate_immutable == old(locator).mutate_immutable,
            final(locator).silent == old(locator).silent,
    {
        let ghost stack = self.vm.environments.stack@;
        let ghost start = *locator;
        let ghost key_view = self.name_key(locator.name);
        let current = self.vm.environments.current();
        if let Some(env) = current.as_declarative() {
            let environment = self.heap.environment_of(&env);
            if !environment.with && !environment.poisoned {
                return Ok(());
            }
        }
        let mut env_index: usize = self.vm.environments.len();
        while env_index > locator.environment_index
            invariant
                self.wf(),
                *self == *old(self),
                stack == self.vm.environments.stack@,
                *locator == start,
                start == *old(locator),
                key_view == old(self).name_key(start.name),
                env_index <= stack.len(),
                self.heap.asks_object(stack, start, stack.len() - 1) ==> self.knows(start.name),
                self.knows(start.name) || self.heap.asks_object(stack, start, stack.len() - 1)
                    == self.heap.asks_object(stack, start, env_index - 1),
                self.heap.resolved(stack, start, key_view, stack.len() - 1) == self.heap.resolved(
                    stack,
                    start,
                    key_view,
                    env_index - 1,
                ),
            decreases env_index,
        {
            env_index -= 1;
            proof {
                reveal_with_fuel(Heap::resolved, 2);
                reveal_with_fuel(Heap::asks_object, 2);
            }
            match self.vm.environments.stack[env_index] {
                Environment::Declarative(env) => {
                    let environment = self.heap.environment_of(&env);
                    if environment.poisoned {
                        proof {
                            assert(self.heap.has_compile_environment(
                                self.heap.environments@[env.index as int].compile,
                            ));
                        }
                        let compile = self.heap.compile_environment_of(&environment.compile);
                        if compile.is_function() {
                            if let Some(b) = compile.get_binding(locator.name) {
                                locator.environment_index = b.environment_index;
                                locator.binding_index = b.binding_index;
                                locator.global = false;
                                return Ok(());
                            }
                        }
                    } else if !environment.with {
                        return Ok(());
                    }
                },
                Environment::Object(o) => {
                    let key = self.binding_key(locator.name);
                    if self.heap.object_binds(&o, &key) {
                        locator.environment_index = env_index;
                        locator.global = false;
                        return Ok(());
                    }
                },
            }
        }
        Ok(())
    }

    /// Whether the binding that the locator names holds a value. A global
    /// binding does if the global object has the property; a binding of an
    /// object environment always does.
    pub fn is_initialized_binding(&mut self, locator: &BindingLocator) -> (result: JsResult<bool>)
        requires
            old(self).wf(),
            old(self).addressable(*locator),
            locator.global ==> old(self).knows(locator.name),
        ensures
            *final(self) == *old(self),
            result == Ok::<bool, JsError>(
                if locator.global {
                    old(self).heap.spec_has_property(
                        old(self).heap.realm(old(self).realm).global_object,
                        old(self).name_key(locator.name),
                    )
                } else {
                    match old(self).vm.environments.stack@[locator.environment_index as int] {
                        Environment::Declarative(env) => old(self).heap.environment(
                            env,
                        ).bindings@[locator.binding_index as int] is Some,
                        Environment::Object(_) => true,
                    }
                },
            ),
    {
        proof {
            assert(self.heap.realm_wf(self.heap.realms@[self.realm.index as int]));
        }
        if locator.global {
            let key = self.binding_key(locator.name);
            Ok(self.heap.has_property(&self.global_object(), &key))
        } else {
            match self.vm.environments.stack[locator.environment_index] {
                Environment::Declarative(env) => Ok(
                    self.heap.environment_of(&env).bindings[locator.binding_index].is_some(),
                ),
                Environment::Object(_) => Ok(true),
            }
        }
    }

    /// What a read of the binding that the locator names returns: nothing
    /// for a declarative binding that holds no value and for a global
    /// binding that the global object lacks; the value of the property for
    /// a binding of an object environment, `undefined` where the object
    /// lacks it.
    pub open spec fn spec_get_binding(self, locator: BindingLocator) -> Option<JsValue> {
        if locator.global {
            let global = self.heap.realm(self.realm).global_object;
            if self.heap.spec_has_property(global, self.name_key(locator.name)) {
                Some(self.heap.spec_get(global, self.name_key(locator.name)))
            } else {
                None
            }
        } else {
            match self.vm.environments.stack@[locator.environment_index as int] {
                Environment::Declarative(env) => self.heap.environment(
                    env,
                ).bindings@[locator.binding_index as int],
                Environment::Object(object) => Some(
                    self.heap.spec_get(object, self.name_key(locator.name)),
                ),
            }
        }
    }

    /// Reads the binding that the locator names. The absence of a value is
    /// told apart from the value `undefined`.
    pub fn get_binding(&mut self, locator: BindingLocator) -> (result: JsResult<Option<JsValue>>)
        requires
            old(self).wf(),
            old(self).addressable(locator),
            locator.global || old(
                self,
            ).vm.environments.stack@[locator.environment_index as int] is Object ==> old(
                self,
            ).knows(locator.name),
        ensures
            *final(self) == *old(self),
            result == Ok::<Option<JsValue>, JsError>(old(self).spec_get_binding(locator)),
    {
        proof {
            assert(self.heap.realm_wf(self.heap.realms@[self.realm.index as int]));
        }
        if locator.global {
            let global = self.global_object();
            let key = self.binding_key(locator.name);
            if self.heap.has_property(&global, &key) {
                Ok(Some(self.heap.get(&global, &key)))
            } else {
                Ok(None)
            }
        } else {
            match self.vm.environments.stack[locator.environment_index] {
                Environment::Declarative(env) => Ok(
                    self.heap.environment_of(&env).bindings[locator.binding_index],
                ),
                Environment::Object(obj) => {
                    let key = self.binding_key(locator.name);
                    Ok(Some(self.heap.get(&obj, &key)))
                },
            }
        }
    }

    /// Reads the value of the binding that the locator names. Reading a
    /// binding that holds no value is a `ReferenceError` that names the
    /// binding: such a binding is in its temporal dead zone.
    pub fn read_binding(&mut self, locator: BindingLocator) -> (result: JsResult<JsValue>)
        requires
            old(self).wf(),
            old(self).addressable(locator),
            old(self).knows(locator.name),
        ensures
            *final(self) == *old(self),
            match old(self).spec_get_binding(locator) {
                Some(value) => result == Ok::<JsValue, JsError>(value),
                None => result matches Err(JsError::Native(err)) && err.is(
                    JsNativeErrorKind::Reference,
                    uninitialized_binding_message(
                        interner_texts(old(self).interner)[locator.name.index()],
                    ),
                ) && err.realm is None,
            },
    {
        match self.get_binding(locator) {
            Ok(Some(value)) => Ok(value),
            Ok(None) => {
                let mut message = match resolve_name(&self.interner, locator.name.sym()) {
                    Some(resolved) => resolved.text,
                    None => String::new(),
                };
                message.append(" is not initialized");
                Err(JsError::Native(JsNativeError::reference().with_message(message)))
            },
            Err(err) => Err(err),
        }
    }

    /// Writes the binding that the locator names: a declarative binding
    /// gets the value, whatever it held; a global binding and a binding of
    /// an object environment are assigned as properties, which fails with a
    /// `TypeError` in strict mode where the property is read-only.
    pub fn set_binding(&mut self, locator: BindingLocator, value: JsValue, strict: bool) -> (result:
        JsResult<()>)
        requires
            old(self).wf(),
            old(self).addressable(locator),
            locator.global || old(
                self,
            ).vm.environments.stack@[locator.environment_index as int] is Object ==> old(
                self,
            ).knows(locator.name),
        ensures
            final(self).wf(),
            final(self).vm == old(self).vm,
            final(self).realm == old(self).realm,
            final(self).interner == old(self).interner,
            final(self).heap.extends(old(self).heap),
            ({
                let target = if locator.global {
                    Some(old(self).heap.realm(old(self).realm).global_object)
                } else {
                    match old(self).vm.environments.stack@[locator.environment_index as int] {
                        Environment::Declarative(_) => None,
                        Environment::Object(object) => Some(object),
                    }
                };
                match target {
                    Some(object) => {
                        let key = old(self).name_key(locator.name);
                        &&& final(self).heap.changed_object(old(self).heap, object)
                        &&& if old(self).heap.can_set(object, key) {
                            result is Ok && final(self).heap.spec_get(object, key) == value
                        } else {
                            final(self).heap == old(self).heap && (if strict {
                                result matches Err(err) && err.is_native(
                                    JsNativeErrorKind::Type,
                                    read_only_message(),
                                )
                            } else {
                                result is Ok
                            })
                        }
                    },
                    None => {
                        let env = old(
                            self,
                        ).vm.environments.stack@[locator.environment_index as int]->Declarative_0;
                        &&& result is Ok
                        &&& final(self).heap.changed_environment(old(self).heap, env)
                        &&& final(self).heap.environment(env).poisoned == old(
                            self,
                        ).heap.environment(env).poisoned
                        &&& final(self).heap.environment(env).bindings@ == old(
                            self,
                        ).heap.environment(env).bindings@.update(
                            locator.binding_index as int,
                            Some(value),
                        )
                    },
                }
            }),
    {
        proof {
            assert(self.heap.realm_wf(self.heap.realms@[self.realm.index as int]));
        }
        if locator.global {
            let key = self.binding_key(locator.name);
            let global = self.global_object();
            let ghost key_view = key@;
            let outcome = self.heap.set(&global, key, value, strict);
            proof {
                self.heap.lemma_stack_wf_extends(old(self).heap, self.vm.environments.stack@);
                if old(self).heap.can_set(global, key_view) {
                    lemma_set_then_get(old(self).heap, self.heap, global, key_view, value);
                }
            }
            match outcome {
                Ok(_) => Ok(()),
                Err(err) => Err(err),
            }
        } else {
            match self.vm.environments.stack[locator.environment_index] {
                Environment::Declarative(env) => {
                    self.heap.store_binding(env, locator.binding_index, Some(value));
                    proof {
                        self.heap.lemma_stack_wf_extends(old(self).heap, self.vm.environments.stack@);
                    }
                    Ok(())
                },
                Environment::Object(obj) => {
                    let key = self.binding_key(locator.name);
                    let ghost key_view = key@;
                    let outcome = self.heap.set(&obj, key, value, strict);
                    proof {
                        self.heap.lemma_stack_wf_extends(old(self).heap, self.vm.environments.stack@);
                        if old(self).heap.can_set(obj, key_view) {
                            lemma_set_then_get(old(self).heap, self.heap, obj, key_view, value);
                        }
                    }
                    match outcome {
                        Ok(_) => Ok(()),
                        Err(err) => Err(err),
                    }
                },
            }
        }
    }

    /// Deletes the binding that the locator names, if it can be deleted,
    /// and tells whether it is gone. A declarative binding cannot be
    /// deleted. A global binding and a binding of an object environment are
    /// deleted as properties.
    pub fn delete_binding(&mut self, locator: BindingLocator) -> (result: JsResult<bool>)
        requires
            old(self).wf(),
            locator.global || locator.environment_index < old(self).vm.environments.stack@.len(),
            locator.global || old(
                self,
            ).vm.environments.stack@[locator.environment_index as int] is Object ==> old(
                self,
            ).knows(locator.name),
        ensures
            final(self).wf(),
            final(self).vm == old(self).vm,
            final(self).realm == old(self).realm,
            final(self).interner == old(self).interner,
            final(self).heap.extends(old(self).heap),
            ({
                let target = if locator.global {
                    Some(old(self).heap.realm(old(self).realm).global_object)
                } else {
                    match old(self).vm.environments.stack@[locator.environment_index as int] {
                        Environment::Declarative(_) => None,
                        Environment::Object(object) => Some(object),
                    }
                };
                match target {
                    Some(object) => {
                        let key = old(self).name_key(locator.name);
                        &&& final(self).heap.changed_object(old(self).heap, object)
                        &&& match old(self).heap.object(object).own_property(key) {
                            Some(i) => result == Ok::<bool, JsError>(
                                old(self).heap.object(object).properties@[i].attributes.configurable,
                            ) && (if old(self).heap.object(
                                object,
                            ).properties@[i].attributes.configurable {
                                final(self).heap.object(object).properties@ == old(
                                    self,
                                ).heap.object(object).properties@.remove(i)
                            } else {
                                final(self).heap == old(self).heap
                            }),
                            None => result == Ok::<bool, JsError>(true) && final(self).heap == old(
                                self,
                            ).heap,
                        }
                    },
                    None => result == Ok::<bool, JsError>(false) && final(self).heap == old(
                        self,
                    ).heap,
                }
            }),
    {
        proof {
            assert(self.heap.realm_wf(self.heap.realms@[self.realm.index as int]));
        }
        if locator.is_global() {
            let key = self.binding_key(locator.name);
            let global = self.global_object();
            let deleted = self.heap.delete(&global, &key);
            proof {
                self.heap.lemma_stack_wf_extends(old(self).heap, self.vm.environments.stack@);
            }
            Ok(deleted)
        } else {
            match self.vm.environments.stack[locator.environment_index] {
                Environment::Declarative(_) => Ok(false),
                Environment::Object(obj) => {
                    let key = self.binding_key(locator.name);
                    let deleted = self.heap.delete(&obj, &key);
                    proof {
                        self.heap.lemma_stack_wf_extends(old(self).heap, self.vm.environments.stack@);
                    }
                    Ok(deleted)
                },
            }
        }
    }
}

/// After an assignment that was allowed, a lookup of the key finds the
/// value that was assigned.
pub proof fn lemma_set_then_get(
    before: Heap,
    after: Heap,
    object: JsObject,
    key: PropertyKeyView,
    value: JsValue,
)
    requires
        before.has_object(object),
        after.changed_object(before, object),
        match before.object(object).own_property(key) {
            Some(i) => after.object(object).properties@ == before.object(object).properties@.update(
                i,
                crate::object::Property { value, ..before.object(object).properties@[i] },
            ),
            None => after.object(object).properties@ == before.object(object).properties@.push(
                after.object(object).properties@.last(),
            ) && after.object(object).properties@.last().key@ == key && after.object(
                object,
            ).properties@.last().value == value,
        },
    ensures
        after.spec_get(object, key) == value,
{
    let old_properties = before.object(object).properties@;
    let new_properties = after.object(object).properties@;
    crate::object::lemma_find_property(old_properties, key, old_properties.len() as int);
    crate::object::lemma_find_property(new_properties, key, new_properties.len() as int);
    match before.object(object).own_property(key) {
        Some(i) => {
            assert(new_properties[i].key@ == key);
            assert forall|k: int| 0 <= k < i implies new_properties[k].key@ != key by {
                assert(new_properties[k] == old_properties[k]);
            }
        },
        None => {
            let last = new_properties.len() - 1;
            assert forall|k: int| 0 <= k < last implies new_properties[k].key@ != key by {
                assert(new_properties[k] == old_properties[k]);
            }
        },
    }
}

/// Resolution never crosses a declarative environment that is neither
/// poisoned nor inside a `with`: what lies below such an environment has no
/// part in where a locator points. Two stacks that agree from `barrier`
/// upwards, with such an environment at `barrier`, resolve every locator that
/// starts at or below the barrier alike.
pub proof fn lemma_resolution_stops_at_barrier(
    heap: Heap,
    stack: Seq<Environment>,
    other: Seq<Environment>,
    locator: BindingLocator,
    key: PropertyKeyView,
    barrier: int,
    index: int,
)
    requires
        0 <= barrier <= index < stack.len(),
        other.len() == stack.len(),
        forall|k: int| barrier <= k < stack.len() ==> other[k] == stack[k],
        heap.undisturbed(stack[barrier]),
    ensures
        heap.resolved(stack, locator, key, index) == heap.resolved(other, locator, key, index),
        locator.environment_index <= barrier ==> heap.resolved(stack, locator, key, barrier)
            == locator,
    decreases index - barrier,
{
    if index > barrier {
        lemma_resolution_stops_at_barrier(heap, stack, other, locator, key, barrier, index - 1);
    }
}

} // verus!
