//! Names of bindings, and the string interner that gives them their text.

use boa_interner::Interner;
use boa_interner::Sym;
use rustc_hash::FxHashSet;
use rustc_hash::FxHasher;
use vstd::prelude::*;

verus! {

/// The symbol type of the `boa_interner` crate, used as an opaque token.
#[verifier::external_type_specification]
#[verifier::external_body]
pub struct ExSym(Sym);

/// The string interner of the `boa_interner` crate.
#[verifier::external_type_specification]
#[verifier::external_body]
pub struct ExInterner(Interner);

/// The number that a symbol stands for (what `Sym::get` returns).
pub uninterp spec fn sym_index(sym: Sym) -> usize;

/// The strings that an interner can resolve, in UTF-16, by symbol number.
pub uninterp spec fn interner_strings(interner: Interner) -> Map<usize, Seq<u16>>;

/// The printable text of the strings that an interner can resolve, by
/// symbol number: what the `Display` impl of a resolved string writes.
pub uninterp spec fn interner_texts(interner: Interner) -> Map<usize, Seq<char>>;

/// `Sym::get` returns the symbol's number, which is never zero because the
/// symbol wraps a `NonZeroUsize`.
pub assume_specification[ Sym::get ](sym: Sym) -> (index: usize)
    ensures
        index == sym_index(sym),
        index > 0,
;

/// `Interner::new` returns an interner; nothing is claimed of what it holds.
#[verifier::external_body]
pub(crate) fn new_interner() -> Interner {
    Interner::new()
}

/// A resolved name: its UTF-16 code units and its printable text.
pub struct InternedName {
    pub utf16: Vec<u16>,
    pub text: String,
}

/// Looks a symbol up with `Interner::resolve`, which returns `None` for a
/// symbol that the interner does not hold and never panics. For a symbol it
/// holds, the result carries the stored UTF-16 code units (`utf16()`) and the
/// text that the string's `Display` impl writes.
#[verifier::external_body]
pub(crate) fn resolve_name(interner: &Interner, sym: Sym) -> (name: Option<InternedName>)
    ensures
        name is Some <==> interner_strings(*interner).contains_key(sym_index(sym)),
        name is Some ==> name.unwrap().utf16@ == interner_strings(*interner)[sym_index(sym)],
        name is Some ==> name.unwrap().text@ == interner_texts(*interner)[sym_index(sym)],
{
    interner.resolve(sym).map(|s| InternedName { utf16: s.utf16().to_vec(), text: s.to_string() })
}

/// The name of a binding: an interned symbol.
#[derive(Clone, Copy, Debug, PartialEq, Eq, Hash)]
pub struct Identifier {
    pub ident: Sym,
}

impl Identifier {
    /// The number that identifies this name; two identifiers name the same
    /// binding exactly when their numbers are equal.
    pub open spec fn index(self) -> usize {
        sym_index(self.ident)
    }

    /// Wraps a symbol.
    pub fn new(ident: Sym) -> (id: Self)
        ensures
            id.ident == ident,
            id.index() == sym_index(ident),
    {
        Identifier { ident }
    }

    /// The symbol of this name.
    pub fn sym(&self) -> (sym: Sym)
        ensures
            sym == self.ident,
    {
        self.ident
    }

    /// Whether two identifiers name the same binding.
    pub fn same(&self, other: &Identifier) -> (b: bool)
        ensures
            b == (self.index() == other.index()),
    {
        self.ident.get() == other.ident.get()
    }
}

/// The hasher of the `rustc_hash` crate.
#[verifier::external_type_specification]
#[verifier::external_body]
pub struct ExFxHasher(FxHasher);

/// The hasher factory of std that `rustc_hash` builds its sets with.
#[verifier::external_type_specification]
#[verifier::external_body]
#[verifier::reject_recursive_types(H)]
pub struct ExBuildHasherDefault<H>(core::hash::BuildHasherDefault<H>);

/// The numbers of the names that a set of identifiers holds.
pub uninterp spec fn name_set(names: FxHashSet<Identifier>) -> Set<usize>;

/// Walks the set with the iterator of `HashSet` and returns what it yields,
/// in the order in which it yields it: each name of the set, and no other.
#[verifier::external_body]
pub(crate) fn names_of(names: &FxHashSet<Identifier>) -> (list: Vec<Identifier>)
    ensures
        forall|n: usize|
            name_set(*names).contains(n) <==> exists|i: int|
                0 <= i < list@.len() && (#[trigger] list@[i]).index() == n,
{
    names.iter().copied().collect()
}

} // verus!
