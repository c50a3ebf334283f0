//! One parsed module.

use vstd::prelude::*;

verus! {

/// What a compile unit is: the module's declared name, the path of its
/// source file, and its syntax tree.
pub struct UnitModel<T> {
    pub name: Seq<char>,
    pub path: Seq<char>,
    pub tree: T,
}

/// The parsed representation of one module. `T` is the syntax tree that the
/// front end produces; nothing here looks inside it.
#[derive(Debug)]
pub struct CompileUnit<T> {
    /// The name that the module declares.
    pub name: String,
    /// The source file that the module was parsed from.
    pub path: String,
    /// The module's syntax tree.
    pub tree: T,
}

impl<T> View for CompileUnit<T> {
    type V = UnitModel<T>;

    open spec fn view(&self) -> UnitModel<T> {
        UnitModel { name: self.name@, path: self.path@, tree: self.tree }
    }
}

impl<T> CompileUnit<T> {
    /// A compile unit of the given name, source path and syntax tree.
    pub fn new(name: String, path: String, tree: T) -> (r: Self)
        ensures
            r@ == (UnitModel { name: name@, path: path@, tree }),
            r.name == name,
            r.path == path,
    {
        CompileUnit { name, path, tree }
    }
}

} // verus!
