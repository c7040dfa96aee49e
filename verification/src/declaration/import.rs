//! Import declarations.

use crate::interner::Identifier;
use boa_interner::Sym;
use vstd::prelude::*;

verus! {

/// The name of the module that a declaration imports from.
#[derive(Clone, Copy, Debug)]
pub struct ModuleSpecifier {
    pub module: Sym,
}

impl ModuleSpecifier {
    /// A module specifier with the given name.
    pub fn new(module: Sym) -> (specifier: Self)
        ensures
            specifier.module == module,
    {
        ModuleSpecifier { module }
    }

    /// The name of the module.
    pub fn sym(self) -> (module: Sym)
        ensures
            module == self.module,
    {
        self.module
    }
}

/// One name of an import list: `export_name as binding`.
#[derive(Clone, Copy, Debug)]
pub struct ImportSpecifier {
    pub binding: Identifier,
    pub export_name: Sym,
}

impl ImportSpecifier {
    /// An import specifier that binds the export `export_name` to
    /// `binding`.
    pub fn new(binding: Identifier, export_name: Sym) -> (specifier: Self)
        ensures
            specifier.binding == binding,
            specifier.export_name == export_name,
    {
        ImportSpecifier { binding, export_name }
    }

    /// The binding that the import creates.
    pub fn binding(self) -> (binding: Identifier)
        ensures
            binding == self.binding,
    {
        self.binding
    }

    /// The name under which the module exports what is imported.
    pub fn export_name(self) -> (name: Sym)
        ensures
            name == self.export_name,
    {
        self.export_name
    }
}

/// The kind of import in an import declaration.
#[derive(Debug)]
pub enum ImportKind {
    /// `import defaultName from "module-name"` or `import "module-name"`.
    DefaultOrUnnamed,
    /// `import * as name from "module-name"`.
    Namespaced {
        /// The binding of the namespace object.
        binding: Identifier,
    },
    /// `import { export1, export2 as alias2 } from "module-name"`.
    Named {
        /// The names that are imported.
        names: Vec<ImportSpecifier>,
    },
}

/// An import declaration.
#[derive(Debug)]
pub struct ImportDeclaration {
    /// The binding of the default export.
    pub default: Option<Identifier>,
    /// The kind of the import.
    pub kind: ImportKind,
    /// The module that is imported from.
    pub specifier: ModuleSpecifier,
}

impl ImportDeclaration {
    /// An import declaration with the given parts.
    pub fn new(default: Option<Identifier>, kind: ImportKind, specifier: ModuleSpecifier) -> (declaration:
        Self)
        ensures
            declaration.default == default,
            declaration.kind == kind,
            declaration.specifier == specifier,
    {
        ImportDeclaration { default, kind, specifier }
    }

    /// The binding of the default export of the module.
    pub fn default(&self) -> (default: Option<Identifier>)
        ensures
            default == self.default,
    {
        self.default
    }

    /// The module that is imported from.
    pub fn specifier(&self) -> (specifier: ModuleSpecifier)
        ensures
            specifier == self.specifier,
    {
        self.specifier
    }

    /// The kind of the import.
    pub fn kind(&self) -> (kind: &ImportKind)
        ensures
            *kind == self.kind,
    {
        &self.kind
    }
}

} // verus!
