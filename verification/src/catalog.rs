//! The binding catalog of one pass: which names are exported, and for each
//! candidate binding its initializer and how often it has been referenced.

use crate::syntax::{Expr, ExprView};
use vstd::hash_map::StringHashMap;
use vstd::hash_set::StringHashSet;
use vstd::prelude::*;

verus! {

/// Mathematical model of one candidate binding.
pub struct BindingView {
    /// The expression that the declaration assigns.
    pub init: ExprView,
    /// How many references to the name have been counted.
    pub uses: nat,
}

/// Mathematical model of a [`Catalog`].
pub struct CatalogView {
    /// The names that are part of the program's surface.
    pub exported: Set<Seq<char>>,
    /// The recorded bindings, by name.
    pub bindings: Map<Seq<char>, BindingView>,
}

impl CatalogView {
    /// The catalog that holds nothing.
    pub open spec fn empty() -> CatalogView {
        CatalogView { exported: Set::empty(), bindings: Map::empty() }
    }

    /// A name is a candidate for inlining when a binding is recorded for it
    /// and it is not exported.
    pub open spec fn is_candidate(self, name: Seq<char>) -> bool {
        self.bindings.dom().contains(name) && !self.exported.contains(name)
    }

    /// The number of references counted for `name`; 0 where no binding is
    /// recorded.
    pub open spec fn uses(self, name: Seq<char>) -> nat {
        if self.bindings.dom().contains(name) {
            self.bindings[name].uses
        } else {
            0
        }
    }

    /// The catalog after `name` was marked as exported.
    pub open spec fn register_export(self, name: Seq<char>) -> CatalogView {
        CatalogView { exported: self.exported.insert(name), bindings: self.bindings }
    }

    /// The catalog after a declaration of `name` with initializer `init` was
    /// seen: an exported name is not recorded, and a later declaration
    /// replaces an earlier one of the same name.
    pub open spec fn register_binding(self, name: Seq<char>, init: ExprView) -> CatalogView {
        if self.exported.contains(name) {
            self
        } else {
            CatalogView {
                exported: self.exported,
                bindings: self.bindings.insert(name, BindingView { init, uses: 0 }),
            }
        }
    }

    /// The catalog after one more reference to `name` was seen: the counter of
    /// a candidate goes up by one, any other name changes nothing.
    pub open spec fn record_use(self, name: Seq<char>) -> CatalogView {
        if self.is_candidate(name) {
            CatalogView {
                exported: self.exported,
                bindings: self.bindings.insert(
                    name,
                    BindingView {
                        init: self.bindings[name].init,
                        uses: self.bindings[name].uses + 1,
                    },
                ),
            }
        } else {
            self
        }
    }
}

/// The value that a counter of `u64` shows for a count: the count itself as
/// long as it fits, the largest `u64` from there on.
pub open spec fn shown(uses: nat) -> u64 {
    if uses <= u64::MAX {
        uses as u64
    } else {
        u64::MAX
    }
}

/// The catalog of one pass: the exported names, and for each recorded
/// binding its initializer and its counter.
pub struct Catalog {
    exported_vars: StringHashSet,
    var_definitions: StringHashMap<Expr>,
    var_usage: StringHashMap<u64>,
    counted: Ghost<Map<Seq<char>, nat>>,
}

impl View for Catalog {
    type V = CatalogView;

    closed spec fn view(&self) -> CatalogView {
        CatalogView {
            exported: self.exported_vars@,
            bindings: Map::new(
                |name: Seq<char>| self.var_definitions@.contains_key(name),
                |name: Seq<char>|
                    BindingView { init: self.var_definitions@[name]@, uses: self.counted@[name] },
            ),
        }
    }
}

impl Catalog {
    /// Each recorded binding has its counter, and the counter shows how many
    /// references were counted.
    pub closed spec fn wf(&self) -> bool {
        &&& self.var_usage@.dom() == self.var_definitions@.dom()
        &&& self.counted@.dom() == self.var_definitions@.dom()
        &&& forall|name: Seq<char>| #[trigger]
            self.var_usage@.contains_key(name) ==> self.var_usage@[name] == shown(
                self.counted@[name],
            )
    }

    /// A catalog that holds nothing.
    pub fn new() -> (out: Catalog)
        ensures
            out.wf(),
            out@ == CatalogView::empty(),
    {
        let out = Catalog {
            exported_vars: StringHashSet::new(),
            var_definitions: StringHashMap::new(),
            var_usage: StringHashMap::new(),
            counted: Ghost(Map::empty()),
        };
        assert(out@.bindings =~= Map::empty());
        out
    }

    /// Whether `name` is marked as exported.
    pub fn is_exported(&self, name: &String) -> (out: bool)
        requires
            self.wf(),
        ensures
            out == self@.exported.contains(name@),
    {
        self.exported_vars.contains(name.as_str())
    }

    /// Marks `name` as exported. Marking a name twice is marking it once.
    pub fn register_export(&mut self, name: String)
        requires
            old(self).wf(),
        ensures
            final(self).wf(),
            final(self)@ == old(self)@.register_export(name@),
    {
        self.exported_vars.insert(name);
    }

    /// Records a declaration of `name` with initializer `init`, unless `name`
    /// is exported. A binding already recorded under `name` is replaced, and
    /// its counter starts again at 0.
    pub fn register_binding(&mut self, name: String, init: Expr)
        requires
            old(self).wf(),
        ensures
            final(self).wf(),
            final(self)@ == old(self)@.register_binding(name@, init@),
    {
        if self.exported_vars.contains(name.as_str()) {
            return ;
        }
        let ghost fresh = BindingView { init: init@, uses: 0 };
        self.var_definitions.insert(name.clone(), init);
        self.var_usage.insert(name, 0);
        self.counted = Ghost(self.counted@.insert(name@, 0));
        assert(self@.bindings =~= old(self)@.bindings.insert(name@, fresh));
    }

    /// Counts one reference to `name`. For a candidate the counter goes up by
    /// one and its new value is returned, the largest `u64` standing for every
    /// count beyond it; for any other name nothing changes and `None` is
    /// returned.
    pub fn record_use(&mut self, name: &String) -> (out: Option<u64>)
        requires
            old(self).wf(),
        ensures
            final(self).wf(),
            final(self)@ == old(self)@.record_use(name@),
            out == if old(self)@.is_candidate(name@) {
                Some(shown(final(self)@.uses(name@)))
            } else {
                None
            },
    {
        if self.exported_vars.contains(name.as_str()) {
            return None;
        }
        let seen = match self.var_usage.get(name.as_str()) {
            Some(count) => *count,
            None => {
                return None;
            },
        };
        let count = if seen < u64::MAX {
            seen + 1
        } else {
            seen
        };
        self.var_usage.insert(name.clone(), count);
        self.counted = Ghost(self.counted@.insert(name@, self.counted@[name@] + 1));
        assert(self.var_usage@.dom() =~= self.var_definitions@.dom());
        assert(self.counted@.dom() =~= self.var_definitions@.dom());
        assert(self@.bindings =~= old(self)@.record_use(name@).bindings);
        Some(count)
    }

    /// The counter of the binding recorded under `name`, the largest `u64`
    /// standing for every count beyond it; `None` where no binding is
    /// recorded.
    pub fn usage_count(&self, name: &String) -> (out: Option<u64>)
        requires
            self.wf(),
        ensures
            out == if self@.bindings.dom().contains(name@) {
                Some(shown(self@.bindings[name@].uses))
            } else {
                None
            },
    {
        match self.var_usage.get(name.as_str()) {
            Some(count) => Some(*count),
            None => None,
        }
    }

    /// A copy of the initializer of the binding recorded under `name`; `None`
    /// where no binding is recorded.
    pub fn initializer(&self, name: &String) -> (out: Option<Expr>)
        requires
            self.wf(),
        ensures
            out is Some == self@.bindings.dom().contains(name@),
            out matches Some(e) ==> e@ == self@.bindings[name@].init,
    {
        match self.var_definitions.get(name.as_str()) {
            Some(init) => Some(init.copy()),
            None => None,
        }
    }
}

} // verus!
