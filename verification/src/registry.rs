//! A registry of macros by name: built-in macros and templates.
//!
//! Names are case-sensitive. Registering a name that is taken replaces its
//! macro silently, except through the `*_or_error` methods, which refuse and
//! leave the registry as it was.
use vstd::prelude::*;
use crate::errors::{SutraError, SourceContext, general_error, general_fault, unspanned, unspanned_spec};
use crate::macros::{MacroSystem, MacroDefinition, MacroTemplate};
use crate::std_macros::BuiltinMacro;
use crate::text::push_str;

verus! {

/// Why a name cannot be registered a second time.
pub open spec fn already_registered_message(name: Seq<char>) -> Seq<char> {
    "Macro '"@ + name + "' is already registered"@
}

/// Macros by name, built in or written as templates.
#[derive(Debug)]
pub struct MacroRegistry {
    pub macros: MacroSystem,
}

impl View for MacroRegistry {
    type V = Map<Seq<char>, MacroDefinition>;

    open spec fn view(&self) -> Map<Seq<char>, MacroDefinition> {
        self.macros@
    }
}

impl Default for MacroRegistry {
    fn default() -> (r: Self)
        ensures
            r@ == Map::<Seq<char>, MacroDefinition>::empty(),
    {
        MacroRegistry::new()
    }
}

fn already_registered(name: &str) -> (r: SutraError)
    ensures
        r.fault() == general_fault(already_registered_message(name@), unspanned_spec()),
{
    let mut msg = String::new();
    push_str(&mut msg, "Macro '");
    push_str(&mut msg, name);
    push_str(&mut msg, "' is already registered");
    assert(msg@ =~= already_registered_message(name@));
    general_error(msg.as_str(), SourceContext::fallback("macro registry"), "macro_registration", unspanned())
}

/// The definition a map holds for `name`, if any.
pub open spec fn previous(m: Map<Seq<char>, MacroDefinition>, name: Seq<char>) -> Option<MacroDefinition> {
    if m.contains_key(name) { Some(m[name]) } else { None }
}

impl MacroRegistry {
    /// An empty registry.
    pub fn new() -> (r: Self)
        ensures
            r@ == Map::<Seq<char>, MacroDefinition>::empty(),
    {
        MacroRegistry { macros: MacroSystem::new() }
    }

    /// Registers the built-in macro `func` under `name`, replacing any macro
    /// of that name, and gives back the replaced one.
    pub fn register(&mut self, name: &str, func: BuiltinMacro) -> (r: Result<Option<MacroDefinition>, SutraError>)
        ensures
            final(self)@ == old(self)@.insert(name@, MacroDefinition::Function(func)),
            r matches Ok(o) && o == previous(old(self)@, name@),
    {
        Ok(self.macros.insert(name.to_string(), MacroDefinition::Function(func)))
    }

    /// Registers the built-in macro `func` under `name`; fails, changing
    /// nothing, when the name is taken.
    pub fn register_or_error(&mut self, name: &str, func: BuiltinMacro) -> (r: Result<(), SutraError>)
        ensures
            old(self)@.contains_key(name@) ==> (r matches Err(e)
                && e.fault() == general_fault(already_registered_message(name@), unspanned_spec())
                && final(self)@ == old(self)@),
            !old(self)@.contains_key(name@) ==> r is Ok
                && final(self)@ == old(self)@.insert(name@, MacroDefinition::Function(func)),
    {
        if self.macros.has_macro(name) {
            return Err(already_registered(name));
        }
        self.macros.register(name.to_string(), MacroDefinition::Function(func));
        Ok(())
    }

    /// Registers the template macro `template` under `name`, replacing any
    /// macro of that name, and gives back the replaced one.
    pub fn register_template(&mut self, name: &str, template: MacroTemplate)
        -> (r: Result<Option<MacroDefinition>, SutraError>)
        ensures
            final(self)@ == old(self)@.insert(name@, MacroDefinition::Template(template)),
            r matches Ok(o) && o == previous(old(self)@, name@),
    {
        Ok(self.macros.insert(name.to_string(), MacroDefinition::Template(template)))
    }

    /// Registers the template macro `template` under `name`; fails, changing
    /// nothing, when the name is taken.
    pub fn register_template_or_error(&mut self, name: &str, template: MacroTemplate) -> (r: Result<(), SutraError>)
        ensures
            old(self)@.contains_key(name@) ==> (r matches Err(e)
                && e.fault() == general_fault(already_registered_message(name@), unspanned_spec())
                && final(self)@ == old(self)@),
            !old(self)@.contains_key(name@) ==> r is Ok
                && final(self)@ == old(self)@.insert(name@, MacroDefinition::Template(template)),
    {
        if self.macros.has_macro(name) {
            return Err(already_registered(name));
        }
        self.macros.register(name.to_string(), MacroDefinition::Template(template));
        Ok(())
    }

    /// Removes the macro named `name`, giving it back; nothing changes when
    /// there is none.
    pub fn unregister(&mut self, name: &str) -> (r: Option<MacroDefinition>)
        ensures
            final(self)@ == old(self)@.remove(name@),
            r == previous(old(self)@, name@),
    {
        self.macros.remove(name)
    }

    /// The macro named `name`.
    pub fn lookup(&self, name: &str) -> (r: Option<&MacroDefinition>)
        ensures
            match r {
                Some(d) => self@.contains_key(name@) && self@[name@] == *d,
                None => !self@.contains_key(name@),
            },
    {
        self.macros.get_macro(name)
    }

    /// Whether a macro named `name` is registered.
    pub fn contains(&self, name: &str) -> (r: bool)
        ensures
            r == self@.contains_key(name@),
    {
        self.macros.has_macro(name)
    }

    /// How many macros are registered.
    pub fn len(&self) -> (r: usize)
        ensures
            r == self@.dom().len(),
    {
        self.macros.len()
    }

    /// Whether no macro is registered.
    pub fn is_empty(&self) -> (r: bool)
        ensures
            r == (self@.dom().len() == 0),
    {
        self.macros.len() == 0
    }

    /// The names of the registered macros, each once.
    pub fn names(&self) -> (r: Vec<String>)
        ensures
            r@.len() == self@.dom().len(),
            forall|k: Seq<char>| self@.contains_key(k) <==> exists|i: int| 0 <= i < r@.len() && r@[i]@ == k,
            forall|i: int, j: int| 0 <= i < j < r@.len() ==> r@[i]@ != r@[j]@,
    {
        self.macros.macro_names()
    }

    /// The registered macros with their names, each once.
    pub fn iter(&self) -> (r: Vec<(&String, &MacroDefinition)>)
        ensures
            r@.len() == self@.dom().len(),
            forall|i: int| 0 <= i < r@.len() ==> self@.contains_key((#[trigger] r@[i]).0@) && self@[r@[i].0@] == *r@[i].1,
            forall|k: Seq<char>| self@.contains_key(k) ==> exists|i: int| 0 <= i < r@.len() && (#[trigger] r@[i]).0@ == k,
            forall|i: int, j: int| 0 <= i < j < r@.len() ==> (#[trigger] r@[i]).0@ != (#[trigger] r@[j]).0@,
    {
        self.macros.entries()
    }

    /// Removes every macro.
    pub fn clear(&mut self)
        ensures
            final(self)@ == Map::<Seq<char>, MacroDefinition>::empty(),
    {
        self.macros.clear();
    }
}

} // verus!
