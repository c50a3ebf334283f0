//! Parse orchestration: what becomes of the registry, and which failures are
//! reported, as the front end's outcome for each file of the manifest comes
//! in. A failure on one file never touches what another file registered.

use vstd::prelude::*;
use crate::project::compile_unit::{CompileUnit, UnitModel};
use crate::project::compiler_opts::strings;
use crate::project::registry::{holds_name, names_unique, units_after_insert, ModuleRegistry};

verus! {

/// What the front end made of one file.
#[derive(Debug)]
pub enum FileOutcome<T> {
    /// The file could not be read; the text says why.
    ReadFailed(String),
    /// The front end turned the file down; the text is its diagnostic.
    Rejected(String),
    /// The file parsed to a module with this declared name and syntax tree.
    Parsed { name: String, tree: T },
}

/// One file of the manifest with what the front end made of it.
#[derive(Debug)]
pub struct FileReport<T> {
    pub path: String,
    pub outcome: FileOutcome<T>,
}

/// Why a file did not end up in the registry.
#[derive(Clone, Copy, Debug, PartialEq, Eq, Structural)]
pub enum FailureKind {
    /// The file could not be read.
    Read,
    /// The front end reported a diagnostic.
    Pipeline,
    /// The module name that the file declares was registered already.
    NameConflict,
}

/// A failure on one file. `detail` is the read error, the diagnostic, or the
/// module name that was taken.
#[derive(Debug)]
pub struct ParseFailure {
    pub path: String,
    pub kind: FailureKind,
    pub detail: String,
}

/// What a failure is: its file, its kind and its detail.
pub struct FailureModel {
    pub path: Seq<char>,
    pub kind: FailureKind,
    pub detail: Seq<char>,
}

impl View for ParseFailure {
    type V = FailureModel;

    open spec fn view(&self) -> FailureModel {
        FailureModel { path: self.path@, kind: self.kind, detail: self.detail@ }
    }
}

/// The views of a list of failures, in order.
pub open spec fn failure_models(failures: Seq<ParseFailure>) -> Seq<FailureModel> {
    Seq::new(failures.len(), |i: int| failures[i]@)
}

/// The registry after one report: a parsed module is offered under its
/// declared name; any other outcome leaves the registry as it is.
pub open spec fn units_after_report<T>(units: Seq<UnitModel<T>>, report: FileReport<T>) -> Seq<
    UnitModel<T>,
> {
    match report.outcome {
        FileOutcome::Parsed { name, tree } => units_after_insert(
            units,
            UnitModel { name: name@, path: report.path@, tree },
        ),
        _ => units,
    }
}

/// The failure that one report gives rise to, if any.
pub open spec fn failure_of_report<T>(units: Seq<UnitModel<T>>, report: FileReport<T>) -> Option<
    FailureModel,
> {
    match report.outcome {
        FileOutcome::ReadFailed(why) => Some(
            FailureModel { path: report.path@, kind: FailureKind::Read, detail: why@ },
        ),
        FileOutcome::Rejected(why) => Some(
            FailureModel { path: report.path@, kind: FailureKind::Pipeline, detail: why@ },
        ),
        FileOutcome::Parsed { name, .. } => if holds_name(units, name@) {
            Some(
                FailureModel {
                    path: report.path@,
                    kind: FailureKind::NameConflict,
                    detail: name@,
                },
            )
        } else {
            None
        },
    }
}

/// The registry after a sequence of reports, taken in order.
pub open spec fn units_after_reports<T>(units: Seq<UnitModel<T>>, reports: Seq<FileReport<T>>) -> Seq<
    UnitModel<T>,
>
    decreases reports.len(),
{
    if reports.len() == 0 {
        units
    } else {
        units_after_report(units_after_reports(units, reports.drop_last()), reports.last())
    }
}

/// The failures of a sequence of reports, in the reports' order.
pub open spec fn failures_of_reports<T>(units: Seq<UnitModel<T>>, reports: Seq<FileReport<T>>) -> Seq<
    FailureModel,
>
    decreases reports.len(),
{
    if reports.len() == 0 {
        Seq::empty()
    } else {
        let earlier = failures_of_reports(units, reports.drop_last());
        match failure_of_report(units_after_reports(units, reports.drop_last()), reports.last()) {
            Some(failure) => earlier.push(failure),
            None => earlier,
        }
    }
}

/// The directories in which a file's relative references are looked up:
/// the file's own directory first, if it has one, then the project's roots
/// in their order.
pub open spec fn lookup_paths_of(parent: Option<Seq<char>>, roots: Seq<Seq<char>>) -> Seq<
    Seq<char>,
> {
    match parent {
        Some(directory) => seq![directory] + roots,
        None => roots,
    }
}

/// The view of an optional string.
pub open spec fn text_of(text: Option<String>) -> Option<Seq<char>> {
    match text {
        Some(t) => Some(t@),
        None => None,
    }
}

/// What `std::path::Path::parent` gives for a path: the path without its
/// last component, or nothing where the path has no parent.
pub uninterp spec fn parent_of(path: Seq<char>) -> Option<Seq<char>>;

/// A path that is read in one way on Unix and on Windows: it holds no
/// backslash and no colon, and does not start with two slashes. Such a path
/// has no drive or share prefix, and `/` is its only separator.
pub open spec fn plain_path(path: Seq<char>) -> bool {
    &&& !path.contains('\\')
    &&& !path.contains(':')
    &&& !(path.len() >= 2 && path[0] == '/' && path[1] == '/')
}

/// `std::path::Path::parent`, on a path given as a string. For a plain path
/// the result is settled by the path's text alone; of any other path
/// nothing is claimed.
#[verifier::external_body]
fn parent_directory(path: &str) -> (r: Option<String>)
    ensures
        plain_path(path@) ==> text_of(r) == parent_of(path@),
{
    match std::path::Path::new(path).parent() {
        Some(parent) => Some(parent.to_string_lossy().into_owned()),
        None => None,
    }
}

/// The lookup directories for a file whose parent directory is `parent`.
pub fn lookup_paths(parent: Option<String>, roots: &Vec<String>) -> (r: Vec<String>)
    ensures
        strings(r@) == lookup_paths_of(text_of(parent), strings(roots@)),
{
    let mut out: Vec<String> = Vec::new();
    match parent {
        Some(directory) => {
            out.push(directory);
        },
        None => {},
    }
    let ghost head = strings(out@);
    assert(head + strings(roots@).take(0) =~= head);
    let mut i: usize = 0;
    while i < roots.len()
        invariant
            i <= roots.len(),
            strings(out@) == head + strings(roots@).take(i as int),
        decreases roots.len() - i,
    {
        let ghost before = strings(out@);
        let root = roots[i].clone();
        assert(root@ == strings(roots@)[i as int]);
        out.push(root);
        assert(strings(out@) =~= before.push(root@));
        assert(strings(roots@).take(i + 1) =~= strings(roots@).take(i as int).push(root@));
        assert(strings(out@) =~= head + strings(roots@).take(i + 1));
        i += 1;
    }
    assert(strings(roots@).take(roots@.len() as int) =~= strings(roots@));
    assert(parent is Some ==> head =~= seq![parent->Some_0@]);
    assert(parent is None ==> head + strings(roots@) =~= strings(roots@));
    out
}

/// The lookup directories for the file at `path`: its parent directory
/// first, if it has one, then the project's roots in their order. For a
/// plain path the parent is the one that the path's text settles; for any
/// other path it is the one that the platform finds.
pub fn lookup_paths_for(path: &str, roots: &Vec<String>) -> (r: Vec<String>)
    ensures
        plain_path(path@) ==> strings(r@) == lookup_paths_of(parent_of(path@), strings(roots@)),
        exists|parent: Option<Seq<char>>|
            strings(r@) == #[trigger] lookup_paths_of(parent, strings(roots@)),
{
    let parent = parent_directory(path);
    let ghost model = text_of(parent);
    let out = lookup_paths(parent, roots);
    assert(strings(out@) == lookup_paths_of(model, strings(roots@)));
    out
}

/// The detail of the failure for a file that parses but declares no module
/// name.
pub open spec fn missing_name_detail() -> Seq<char> {
    "module declares no name"@
}

/// What a parsed file comes to: a module under the name it declares, or, if
/// it declares none, a file that the front end turned down.
pub fn parsed_outcome<T>(declared: Option<String>, tree: T) -> (r: FileOutcome<T>)
    ensures
        match declared {
            Some(name) => r == (FileOutcome::Parsed { name, tree }),
            None => r matches FileOutcome::Rejected(why) && why@ == missing_name_detail(),
        },
{
    match declared {
        Some(name) => FileOutcome::Parsed { name, tree },
        None => FileOutcome::Rejected(String::from_str("module declares no name")),
    }
}

/// Takes in the front end's outcome for one file. A parsed module is
/// registered under its declared name unless the name is taken; a read
/// failure, a diagnostic or a name conflict is returned as the file's
/// failure, and the registry stays as it was.
pub fn record_outcome<T>(registry: &mut ModuleRegistry<T>, report: FileReport<T>) -> (r: Option<
    ParseFailure,
>)
    ensures
        final(registry).wf(),
        final(registry)@ == units_after_report(old(registry)@, report),
        match r {
            Some(failure) => failure_of_report(old(registry)@, report) == Some(failure@),
            None => failure_of_report(old(registry)@, report) is None,
        },
{
    proof {
        use_type_invariant(&*registry);
    }
    let FileReport { path, outcome } = report;
    match outcome {
        FileOutcome::ReadFailed(why) => Some(
            ParseFailure { path, kind: FailureKind::Read, detail: why },
        ),
        FileOutcome::Rejected(why) => Some(
            ParseFailure { path, kind: FailureKind::Pipeline, detail: why },
        ),
        FileOutcome::Parsed { name, tree } => {
            let unit = CompileUnit::new(name, path, tree);
            match registry.insert(unit) {
                Ok(_) => None,
                Err(conflict) => Some(
                    ParseFailure {
                        path: conflict.rejected_path,
                        kind: FailureKind::NameConflict,
                        detail: conflict.name,
                    },
                ),
            }
        },
    }
}

/// Takes in the outcomes for all files of a manifest, in manifest order.
/// Every parsed module whose name is free is registered; every other file is
/// reported as a failure, in order, and stops nothing that comes after it.
/// The result is `Ok` exactly when no file failed.
pub fn compile_all<T>(registry: &mut ModuleRegistry<T>, reports: Vec<FileReport<T>>) -> (r: Result<
    (),
    Vec<ParseFailure>,
>)
    ensures
        final(registry).wf(),
        final(registry)@ == units_after_reports(old(registry)@, reports@),
        match r {
            Ok(_) => failures_of_reports(old(registry)@, reports@).len() == 0,
            Err(failures) => failures@.len() > 0 && failure_models(failures@)
                == failures_of_reports(old(registry)@, reports@),
        },
{
    proof {
        use_type_invariant(&*registry);
    }
    let ghost start = registry@;
    let ghost all = reports@;
    let mut failures: Vec<ParseFailure> = Vec::new();
    assert(failure_models(failures@) =~= Seq::<FailureModel>::empty());
    assert(all.take(0) =~= Seq::<FileReport<T>>::empty());
    for report in it: reports.into_iter()
        invariant
            registry.wf(),
            it.seq() == all,
            registry@ == units_after_reports(start, all.take(it.index() as int)),
            failure_models(failures@) == failures_of_reports(start, all.take(it.index() as int)),
    {
        let ghost seen = failure_models(failures@);
        proof {
            let next = all.take(it.index() + 1);
            assert(next.drop_last() =~= all.take(it.index() as int));
            assert(next.last() == report);
        }
        match record_outcome(registry, report) {
            Some(failure) => {
                failures.push(failure);
                assert(failure_models(failures@) =~= seen.push(failure@));
            },
            None => {},
        }
    }
    assert(all.take(all.len() as int) =~= all);
    if failures.len() == 0 {
        Ok(())
    } else {
        Err(failures)
    }
}

/// Earlier registrations survive whatever comes later: the registry before
/// a sequence of reports is the beginning of the registry after it, and no
/// name is ever held twice.
pub proof fn lemma_reports_keep_registry<T>(units: Seq<UnitModel<T>>, reports: Seq<FileReport<T>>)
    requires
        names_unique(units),
    ensures
        units.is_prefix_of(units_after_reports(units, reports)),
        names_unique(units_after_reports(units, reports)),
    decreases reports.len(),
{
    if reports.len() > 0 {
        lemma_reports_keep_registry(units, reports.drop_last());
        let before = units_after_reports(units, reports.drop_last());
        match reports.last().outcome {
            FileOutcome::Parsed { name, tree } => {
                crate::project::registry::lemma_insert_keeps_unique(
                    before,
                    UnitModel { name: name@, path: reports.last().path@, tree },
                );
            },
            _ => {},
        }
    }
}

/// A file that parses is registered whatever happened to the files around
/// it: if report `k` is a parsed module whose name is neither registered at
/// the start nor declared by an earlier parsed file, then after all reports
/// the registry holds that module, with the file's path and tree.
pub proof fn lemma_failure_isolation<T>(
    units: Seq<UnitModel<T>>,
    reports: Seq<FileReport<T>>,
    k: int,
)
    requires
        names_unique(units),
        0 <= k < reports.len(),
        reports[k].outcome is Parsed,
        !holds_name(units, reports[k].outcome->name@),
        forall|j: int|
            0 <= j < k && (#[trigger] reports[j]).outcome is Parsed ==> reports[j].outcome->name@
                != reports[k].outcome->name@,
    ensures
        units_after_reports(units, reports).contains(
            UnitModel {
                name: reports[k].outcome->name@,
                path: reports[k].path@,
                tree: reports[k].outcome->tree,
            },
        ),
    decreases reports.len(),
{
    let unit = UnitModel {
        name: reports[k].outcome->name@,
        path: reports[k].path@,
        tree: reports[k].outcome->tree,
    };
    let earlier = reports.drop_last();
    let before = units_after_reports(units, earlier);
    let after = units_after_reports(units, reports);
    if k == reports.len() - 1 {
        lemma_name_stays_free(units, earlier, unit.name);
        assert(after == before.push(unit));
        assert(after[before.len() as int] == unit);
    } else {
        assert(earlier[k] == reports[k]);
        assert forall|j: int|
            0 <= j < k && (#[trigger] earlier[j]).outcome is Parsed implies earlier[j].outcome->name@
            != earlier[k].outcome->name@ by {
            assert(earlier[j] == reports[j]);
        }
        lemma_failure_isolation(units, earlier, k);
        let i = choose|i: int| 0 <= i < before.len() && before[i] == unit;
        assert(after == units_after_report(before, reports.last()));
        assert(after[i] == before[i]);
    }
}

/// A name that is not registered and that no parsed file declares stays
/// free.
pub proof fn lemma_name_stays_free<T>(
    units: Seq<UnitModel<T>>,
    reports: Seq<FileReport<T>>,
    name: Seq<char>,
)
    requires
        !holds_name(units, name),
        forall|j: int|
            0 <= j < reports.len() && (#[trigger] reports[j]).outcome is Parsed
                ==> reports[j].outcome->name@ != name,
    ensures
        !holds_name(units_after_reports(units, reports), name),
    decreases reports.len(),
{
    if reports.len() > 0 {
        let earlier = reports.drop_last();
        assert forall|j: int|
            0 <= j < earlier.len() && (#[trigger] earlier[j]).outcome is Parsed implies earlier[j].outcome->name@
            != name by {
            assert(earlier[j] == reports[j]);
        }
        lemma_name_stays_free(units, earlier, name);
        let before = units_after_reports(units, earlier);
        let after = units_after_reports(units, reports);
        let last = reports[reports.len() - 1];
        if holds_name(after, name) {
            let i = choose|i: int| 0 <= i < after.len() && (#[trigger] after[i]).name == name;
            if i < before.len() {
                if after.len() > before.len() {
                    assert(after[i] == before[i]);
                }
                assert(before[i].name == name);
            } else {
                assert(last.outcome is Parsed);
                assert(after[i].name == last.outcome->name@);
            }
        }
    }
}

/// A file that could not be read, or that the front end turned down, is
/// among the failures, with its path and the reason given for it, whatever
/// the other files did.
pub proof fn lemma_failure_reported<T>(
    units: Seq<UnitModel<T>>,
    reports: Seq<FileReport<T>>,
    k: int,
)
    requires
        0 <= k < reports.len(),
        !(reports[k].outcome is Parsed),
    ensures
        failure_of_report(units, reports[k]) is Some,
        failures_of_reports(units, reports).contains(failure_of_report(units, reports[k])->Some_0),
    decreases reports.len(),
{
    let failure = failure_of_report(units, reports[k])->Some_0;
    let earlier = reports.drop_last();
    let seen = failures_of_reports(units, earlier);
    let all = failures_of_reports(units, reports);
    if k == reports.len() - 1 {
        assert(all == seen.push(failure));
        assert(all[seen.len() as int] == failure);
    } else {
        assert(earlier[k] == reports[k]);
        lemma_failure_reported(units, earlier, k);
        let i = choose|i: int| 0 <= i < seen.len() && seen[i] == failure;
        assert(all[i] == seen[i]);
    }
}

} // verus!
