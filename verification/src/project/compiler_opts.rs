//! The compile options of a project description.

use vstd::prelude::*;

verus! {

/// The views of a list of strings, in order.
pub open spec fn strings(v: Seq<String>) -> Seq<Seq<char>> {
    Seq::new(v.len(), |i: int| v[i]@)
}

/// What an optional list stands for: an absent list is an empty one.
pub open spec fn normalized(list: Option<Vec<String>>) -> Seq<Seq<char>> {
    match list {
        Some(v) => strings(v@),
        None => Seq::empty(),
    }
}

/// A preprocessor symbol, with the value it is defined to if it has one.
#[derive(Debug)]
pub struct Define {
    pub name: String,
    pub value: Option<String>,
}

/// Options for building a whole project. Every field may be absent in the
/// project description; an absent list means an empty one.
#[derive(Debug)]
pub struct CompilerOptions {
    /// Directories to scan for input files.
    pub input_paths: Option<Vec<String>>,
    /// File-name patterns of the modules to compile. With none, no file is
    /// ever selected.
    pub input_masks: Option<Vec<String>>,
    /// A file whose absolute path starts with one of these is left out.
    pub exclude_prefixes: Option<Vec<String>>,
    /// A file whose absolute path ends with one of these is left out.
    pub exclude_suffixes: Option<Vec<String>>,
    /// Preprocessor symbols, handed to the front end as they are.
    pub defines: Option<Vec<Define>>,
}

/// A project description.
#[derive(Debug)]
pub struct IroncladProjectFile {
    pub compiler_options: CompilerOptions,
}

impl Default for CompilerOptions {
    fn default() -> (r: Self)
        ensures
            r.input_paths is None,
            r.input_masks is None,
            r.exclude_prefixes is None,
            r.exclude_suffixes is None,
            r.defines is None,
    {
        CompilerOptions {
            input_paths: None,
            input_masks: None,
            exclude_prefixes: None,
            exclude_suffixes: None,
            defines: None,
        }
    }
}

impl Default for IroncladProjectFile {
    fn default() -> (r: Self)
        ensures
            r.compiler_options.input_paths is None,
            r.compiler_options.input_masks is None,
            r.compiler_options.exclude_prefixes is None,
            r.compiler_options.exclude_suffixes is None,
            r.compiler_options.defines is None,
    {
        IroncladProjectFile { compiler_options: CompilerOptions::default() }
    }
}

/// A copy of a list of strings.
pub fn copy_strings(list: &Vec<String>) -> (r: Vec<String>)
    ensures
        strings(r@) == strings(list@),
{
    let mut out: Vec<String> = Vec::new();
    let mut i: usize = 0;
    while i < list.len()
        invariant
            i <= list.len(),
            out@.len() == i,
            forall|j: int| 0 <= j < i ==> out@[j]@ == list@[j]@,
        decreases list.len() - i,
    {
        out.push(list[i].clone());
        i += 1;
    }
    assert(strings(out@) =~= strings(list@));
    out
}

/// The list that an optional list stands for: a copy of it, or an empty one.
pub fn list_or_empty(list: &Option<Vec<String>>) -> (r: Vec<String>)
    ensures
        strings(r@) == normalized(*list),
{
    match list {
        Some(v) => copy_strings(v),
        None => {
            let out: Vec<String> = Vec::new();
            assert(strings(out@) =~= Seq::<Seq<char>>::empty());
            out
        },
    }
}

} // verus!
