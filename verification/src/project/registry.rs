//! The registry of parsed modules: at most one compile unit for each module
//! name, in the order in which the units were registered.

use vstd::prelude::*;
use crate::project::compile_unit::{CompileUnit, UnitModel};

verus! {

/// Whether one of `units` has the module name `name`.
pub open spec fn holds_name<T>(units: Seq<UnitModel<T>>, name: Seq<char>) -> bool {
    exists|i: int| 0 <= i < units.len() && (#[trigger] units[i]).name == name
}

/// No two of `units` have the same module name.
pub open spec fn names_unique<T>(units: Seq<UnitModel<T>>) -> bool {
    forall|i: int, j: int|
        0 <= i < j < units.len() ==> (#[trigger] units[i]).name != (#[trigger] units[j]).name
}

/// Whether a unit of the module name `name` is accepted: the name is free.
pub open spec fn insert_accepts<T>(units: Seq<UnitModel<T>>, name: Seq<char>) -> bool {
    !holds_name(units, name)
}

/// The units after `unit` has been offered: unchanged if its name is taken,
/// else with `unit` at the end.
pub open spec fn units_after_insert<T>(units: Seq<UnitModel<T>>, unit: UnitModel<T>) -> Seq<
    UnitModel<T>,
> {
    if holds_name(units, unit.name) {
        units
    } else {
        units.push(unit)
    }
}

/// The views of a list of compile units, in order.
pub open spec fn unit_models<T>(units: Seq<CompileUnit<T>>) -> Seq<UnitModel<T>> {
    Seq::new(units.len(), |i: int| units[i]@)
}

/// A module name that two source files declare. The unit that was registered
/// first stays; the other one was turned away.
#[derive(Debug)]
pub struct NameConflict {
    /// The module name that both files declare.
    pub name: String,
    /// The source file of the unit that is registered under the name.
    pub registered_path: String,
    /// The source file of the unit that was turned away.
    pub rejected_path: String,
}

/// The compile units of a run, found by module name.
#[derive(Debug)]
pub struct ModuleRegistry<T> {
    units: Vec<CompileUnit<T>>,
}

impl<T> View for ModuleRegistry<T> {
    type V = Seq<UnitModel<T>>;

    closed spec fn view(&self) -> Seq<UnitModel<T>> {
        unit_models(self.units@)
    }
}

impl<T> ModuleRegistry<T> {
    /// The registry's invariant: no module name is registered twice.
    #[verifier::type_invariant]
    pub open spec fn wf(&self) -> bool {
        names_unique(self@)
    }

    /// A registry without units.
    pub fn new() -> (r: Self)
        ensures
            r@ == Seq::<UnitModel<T>>::empty(),
            r.wf(),
    {
        let r = ModuleRegistry { units: Vec::new() };
        assert(r@ =~= Seq::<UnitModel<T>>::empty());
        r
    }

    /// The number of registered units.
    pub fn len(&self) -> (n: usize)
        ensures
            n == self@.len(),
    {
        self.units.len()
    }

    /// Where the unit named `name` stands, if there is one.
    fn position(&self, name: &String) -> (r: Option<usize>)
        ensures
            match r {
                Some(i) => i < self@.len() && self@[i as int].name == name@,
                None => !holds_name(self@, name@),
            },
    {
        let mut i: usize = 0;
        while i < self.units.len()
            invariant
                i <= self.units.len(),
                forall|j: int| 0 <= j < i ==> (#[trigger] self@[j]).name != name@,
            decreases self.units.len() - i,
        {
            if self.units[i].name == *name {
                return Some(i);
            }
            i += 1;
        }
        None
    }

    /// Registers `unit` under its module name. If a unit of that name is
    /// registered already, the registry stays as it is and the conflict is
    /// returned: the earlier unit is never replaced.
    pub fn insert(&mut self, unit: CompileUnit<T>) -> (r: Result<(), NameConflict>)
        ensures
            final(self).wf(),
            final(self)@ == units_after_insert(old(self)@, unit@),
            r is Ok <==> insert_accepts(old(self)@, unit@.name),
            match r {
                Ok(_) => true,
                Err(conflict) => {
                    &&& conflict.name@ == unit@.name
                    &&& conflict.rejected_path@ == unit@.path
                    &&& exists|i: int|
                        0 <= i < old(self)@.len() && (#[trigger] old(self)@[i]).name == unit@.name
                            && old(self)@[i].path == conflict.registered_path@
                },
            },
    {
        proof {
            use_type_invariant(&*self);
        }
        match self.position(&unit.name) {
            Some(i) => {
                let registered_path = self.units[i].path.clone();
                assert(self@[i as int].path == registered_path@);
                Err(NameConflict { name: unit.name, registered_path, rejected_path: unit.path })
            },
            None => {
                let ghost before = self@;
                let mut units: Vec<CompileUnit<T>> = Vec::new();
                std::mem::swap(&mut self.units, &mut units);
                units.push(unit);
                assert(unit_models(units@) =~= before.push(unit@));
                self.units = units;
                Ok(())
            },
        }
    }

    /// The unit registered under `name`, if there is one.
    pub fn get(&self, name: &String) -> (r: Option<&CompileUnit<T>>)
        ensures
            match r {
                Some(unit) => self@.contains(unit@) && unit@.name == name@,
                None => !holds_name(self@, name@),
            },
    {
        match self.position(name) {
            Some(i) => {
                assert(self@[i as int] == self.units@[i as int]@);
                Some(&self.units[i])
            },
            None => None,
        }
    }

    /// Whether a unit is registered under `name`.
    pub fn contains(&self, name: &String) -> (r: bool)
        ensures
            r == holds_name(self@, name@),
    {
        self.position(name).is_some()
    }

    /// The registered units in the order of their registration.
    pub fn snapshot(&self) -> (r: Vec<&CompileUnit<T>>)
        ensures
            r@.len() == self@.len(),
            forall|i: int| 0 <= i < r@.len() ==> (#[trigger] r@[i])@ == self@[i],
    {
        let mut out: Vec<&CompileUnit<T>> = Vec::new();
        let mut i: usize = 0;
        while i < self.units.len()
            invariant
                i <= self.units.len(),
                out@.len() == i,
                forall|j: int| 0 <= j < i ==> (#[trigger] out@[j])@ == self@[j],
            decreases self.units.len() - i,
        {
            out.push(&self.units[i]);
            i += 1;
        }
        out
    }
}

/// Of two units with one module name, offered one after the other, the
/// second is always turned away, and the first is registered exactly when
/// the name was free. Either way the registry then holds the name, and no
/// name twice.
pub proof fn lemma_one_unit_per_name<T>(
    units: Seq<UnitModel<T>>,
    first: UnitModel<T>,
    second: UnitModel<T>,
)
    requires
        names_unique(units),
        first.name == second.name,
    ensures
        ({
            let once = units_after_insert(units, first);
            let twice = units_after_insert(once, second);
            &&& !insert_accepts(once, second.name)
            &&& twice == once
            &&& names_unique(twice)
            &&& insert_accepts(units, first.name) ==> twice == units.push(first)
            &&& !insert_accepts(units, first.name) ==> twice == units
        }),
{
    let once = units_after_insert(units, first);
    lemma_insert_keeps_unique(units, first);
    if !holds_name(units, first.name) {
        assert(once[units.len() as int].name == first.name);
    }
}

/// Offering a unit keeps the names unique, and afterwards its name is held.
pub proof fn lemma_insert_keeps_unique<T>(units: Seq<UnitModel<T>>, unit: UnitModel<T>)
    requires
        names_unique(units),
    ensures
        names_unique(units_after_insert(units, unit)),
        holds_name(units_after_insert(units, unit), unit.name),
{
    let after = units_after_insert(units, unit);
    if !holds_name(units, unit.name) {
        assert(after[units.len() as int].name == unit.name);
        assert forall|i: int, j: int| 0 <= i < j < after.len() implies (#[trigger] after[i]).name
            != (#[trigger] after[j]).name by {
            if j == units.len() {
                assert(after[i] == units[i]);
            } else {
                assert(after[i] == units[i]);
                assert(after[j] == units[j]);
            }
        }
    }
}

} // verus!
