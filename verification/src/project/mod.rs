//! The project: its configuration, its manifest and its modules.

use vstd::prelude::*;
use crate::error::{IroncladError, IroncladResult};
use crate::project::compile_unit::UnitModel;
use crate::project::compiler_opts::{list_or_empty, normalized, strings, IroncladProjectFile};
use crate::project::manifest::{
    all_accepted, build_search_expressions, ends_with_any, excluded, first_failure, is_listed,
    manifest_of, manifest_with, passed, search_expressions_of, starts_with_any,
};
use crate::project::parse::{
    compile_all, failure_models, failures_of_reports, units_after_reports, FileReport,
    ParseFailure,
};
use crate::project::registry::ModuleRegistry;

pub mod compile_unit;
pub mod compiler_opts;
pub mod manifest;
pub mod parse;
pub mod registry;

verus! {

/// How many manifest entries are allocated up front.
pub const DEFAULT_CAPACITY: usize = 1024;

/// One step of a scan: the canonical absolute path of a discovered file, or
/// the error that stopped the scan there.
pub type Discovery = Result<String, IroncladError>;

/// The paths of a scan, in discovery order. A failed step stands for no
/// path; a scan with such a step has no manifest.
pub open spec fn discovered_paths(scan: Seq<Discovery>) -> Seq<Seq<char>> {
    Seq::new(
        scan.len(),
        |i: int|
            match scan[i] {
                Ok(path) => path@,
                Err(_) => Seq::empty(),
            },
    )
}

/// A project: its description, its modules, and the source files that make
/// it up. `T` is the syntax tree that the front end produces.
#[derive(Debug)]
pub struct ErlProjectImpl<T> {
    /// The project description as it was loaded.
    pub project_conf: IroncladProjectFile,
    /// The modules parsed so far.
    pub modules: ModuleRegistry<T>,
    /// Every input file, in the order of discovery.
    pub input_files: Vec<String>,
    /// The description's exclusion prefixes; empty if it gives none.
    pub exclude_prefixes: Vec<String>,
    /// The description's exclusion suffixes; empty if it gives none.
    pub exclude_suffixes: Vec<String>,
}

impl<T> ErlProjectImpl<T> {
    /// The exclusion prefixes in force.
    pub open spec fn prefixes(&self) -> Seq<Seq<char>> {
        strings(self.exclude_prefixes@)
    }

    /// The exclusion suffixes in force.
    pub open spec fn suffixes(&self) -> Seq<Seq<char>> {
        strings(self.exclude_suffixes@)
    }

    /// The search roots in force.
    pub open spec fn roots(&self) -> Seq<Seq<char>> {
        normalized(self.project_conf.compiler_options.input_paths)
    }

    /// The file-name patterns in force.
    pub open spec fn masks(&self) -> Seq<Seq<char>> {
        normalized(self.project_conf.compiler_options.input_masks)
    }

    /// A project with an empty description, no modules and no input files.
    pub fn new() -> (r: Self)
        ensures
            r.roots().len() == 0,
            r.masks().len() == 0,
            r.prefixes().len() == 0,
            r.suffixes().len() == 0,
            r.project_conf.compiler_options.defines is None,
            r.input_files@.len() == 0,
            r.modules@ == Seq::<UnitModel<T>>::empty(),
            r.modules.wf(),
    {
        Self {
            project_conf: IroncladProjectFile::default(),
            modules: ModuleRegistry::new(),
            input_files: Vec::new(),
            exclude_prefixes: Vec::new(),
            exclude_suffixes: Vec::new(),
        }
    }

    /// Takes a loaded project description into use. Lists that the
    /// description leaves out count as empty from here on. Modules and input
    /// files stay as they are.
    pub fn load_project_config(&mut self, conf: IroncladProjectFile)
        ensures
            final(self).project_conf == conf,
            final(self).prefixes() == normalized(conf.compiler_options.exclude_prefixes),
            final(self).suffixes() == normalized(conf.compiler_options.exclude_suffixes),
            final(self).modules == old(self).modules,
            final(self).input_files == old(self).input_files,
    {
        self.exclude_prefixes = list_or_empty(&conf.compiler_options.exclude_prefixes);
        self.exclude_suffixes = list_or_empty(&conf.compiler_options.exclude_suffixes);
        self.project_conf = conf;
    }

    /// The search expressions to evaluate for this project, in order: for
    /// each pattern, for each root, `<root>/**/<pattern>`. Fails on the first
    /// expression that is not a well-formed pattern, and names it.
    pub fn search_expressions(&self) -> (r: IroncladResult<Vec<String>>)
        ensures
            match r {
                Ok(list) => {
                    &&& strings(list@) == search_expressions_of(self.roots(), self.masks())
                    &&& forall|k: int| 0 <= k < list@.len() ==> passed(#[trigger] strings(list@)[k])
                },
                Err(e) => e matches IroncladError::GlobPattern { pattern, .. } && exists|k: int|
                    first_failure(search_expressions_of(self.roots(), self.masks()), pattern@, k),
            },
            self.roots().len() == 0 || self.masks().len() == 0 ==> r is Ok,
            all_accepted(search_expressions_of(self.roots(), self.masks())) ==> r is Ok,
    {
        let roots = list_or_empty(&self.project_conf.compiler_options.input_paths);
        let masks = list_or_empty(&self.project_conf.compiler_options.input_masks);
        let r = build_search_expressions(&roots, &masks);
        proof {
            if r is Err {
                let pattern = r->Err_0->pattern@;
                let all = search_expressions_of(strings(roots@), strings(masks@));
                let k = choose|k: int| first_failure(all, pattern, k);
                assert(first_failure(search_expressions_of(self.roots(), self.masks()), pattern, k));
            }
        }
        r
    }

    /// Whether a canonical absolute path is left out of the manifest: it
    /// starts with an exclusion prefix or ends with an exclusion suffix.
    pub fn is_excluded(&self, path: &str) -> (r: bool)
        ensures
            r == excluded(path@, self.prefixes(), self.suffixes()),
    {
        if starts_with_any(path, &self.exclude_prefixes) {
            return true;
        }
        ends_with_any(path, &self.exclude_suffixes)
    }

    /// Adds a canonical absolute path to the end of `file_list` unless it is
    /// listed already or is left out.
    pub fn maybe_add_path(&self, file_list: &mut Vec<String>, abs_path: String)
        ensures
            strings(final(file_list)@) == manifest_with(
                strings(old(file_list)@),
                abs_path@,
                self.prefixes(),
                self.suffixes(),
            ),
    {
        if is_listed(file_list, &abs_path) {
            return ;
        }
        if self.is_excluded(abs_path.as_str()) {
            return ;
        }
        let ghost before = strings(file_list@);
        file_list.push(abs_path);
        assert(strings(file_list@) =~= before.push(abs_path@));
    }

    /// The manifest of a scan. `scan` holds, in discovery order, what
    /// evaluating the search expressions gave: for each match its canonical
    /// absolute path, or the error met there. If any step failed, the first
    /// such error is returned and there is no manifest. Otherwise the
    /// manifest lists each discovered path that is not left out, once, at
    /// the place of its first discovery.
    pub fn build_file_list(&self, scan: Vec<Discovery>) -> (r: IroncladResult<Vec<String>>)
        ensures
            match r {
                Ok(list) => {
                    &&& forall|i: int| 0 <= i < scan@.len() ==> (#[trigger] scan@[i]) is Ok
                    &&& strings(list@) == manifest_of(
                        discovered_paths(scan@),
                        self.prefixes(),
                        self.suffixes(),
                    )
                },
                Err(e) => exists|k: int|
                    {
                        &&& 0 <= k < scan@.len()
                        &&& #[trigger] scan@[k] == Err::<String, IroncladError>(e)
                        &&& forall|i: int| 0 <= i < k ==> (#[trigger] scan@[i]) is Ok
                    },
            },
    {
        let ghost all = scan@;
        let ghost found = discovered_paths(scan@);
        let mut file_list: Vec<String> = Vec::with_capacity(DEFAULT_CAPACITY);
        assert(strings(file_list@) =~= Seq::<Seq<char>>::empty());
        assert(found.take(0) =~= Seq::<Seq<char>>::empty());
        for step in it: scan.into_iter()
            invariant
                it.seq() == all,
                found == discovered_paths(all),
                forall|i: int| 0 <= i < it.index() ==> (#[trigger] all[i]) is Ok,
                strings(file_list@) == manifest_of(
                    found.take(it.index() as int),
                    self.prefixes(),
                    self.suffixes(),
                ),
        {
            proof {
                let next = found.take(it.index() + 1);
                assert(next.drop_last() =~= found.take(it.index() as int));
                assert(next.last() == found[it.index() as int]);
            }
            match step {
                Ok(path) => {
                    self.maybe_add_path(&mut file_list, path);
                },
                Err(e) => {
                    assert(all[it.index() as int] == Err::<String, IroncladError>(e));
                    return Err(e);
                },
            }
        }
        assert(found.take(found.len() as int) =~= found);
        Ok(file_list)
    }

    /// Takes in what the front end made of the input files, in manifest
    /// order: every parsed module whose name is free joins the project's
    /// modules, every other file is reported as a failure, and no failure
    /// stops the files after it. Description and input files stay as they
    /// are.
    pub fn parse_inputs(&mut self, reports: Vec<FileReport<T>>) -> (r: Result<
        (),
        Vec<ParseFailure>,
    >)
        ensures
            final(self).modules.wf(),
            final(self).modules@ == units_after_reports(old(self).modules@, reports@),
            final(self).project_conf == old(self).project_conf,
            final(self).input_files == old(self).input_files,
            final(self).exclude_prefixes == old(self).exclude_prefixes,
            final(self).exclude_suffixes == old(self).exclude_suffixes,
            match r {
                Ok(_) => failures_of_reports(old(self).modules@, reports@).len() == 0,
                Err(failures) => failures@.len() > 0 && failure_models(failures@)
                    == failures_of_reports(old(self).modules@, reports@),
            },
    {
        compile_all(&mut self.modules, reports)
    }
}

/// The manifest is settled by what was discovered and what is left out: two
/// scans that discover the same paths in the same order, under the same
/// exclusions, have the same manifest.
pub proof fn lemma_same_scan_same_manifest(
    first: Seq<Discovery>,
    second: Seq<Discovery>,
    prefixes: Seq<Seq<char>>,
    suffixes: Seq<Seq<char>>,
)
    requires
        discovered_paths(first) == discovered_paths(second),
    ensures
        manifest_of(discovered_paths(first), prefixes, suffixes) == manifest_of(
            discovered_paths(second),
            prefixes,
            suffixes,
        ),
{
}

} // verus!
