//! Numeric identity assignment.
//!
//! At load, before any system runs, the host announces a numeric id for each
//! type name it knows. The module accepts ids for the union of: every type
//! name standing as a direct system argument, a fixed allow-list of
//! host-builtin type names, and every locally declared type — deduplicated
//! and sorted. A name outside that union is silently ignored, tolerating a
//! host that announces ids for types declared in another module of the same
//! process. The registry is written once per name at load and only read
//! afterwards.

use vstd::prelude::*;
use vstd::string::StrSliceExecFns;
use vstd::string::StringSliceAdditionalSpecFns;
use crate::descriptor::ArgDescriptor;
use crate::descriptor::ComponentId;
use crate::descriptor::ModuleModel;
use crate::names::clone_name;
use crate::names::insert_sorted_unique;
use crate::names::lemma_lex_lt_irreflexive;
use crate::names::lemma_lex_lt_transitive;
use crate::names::lex_lt;
use crate::names::lex_sorted;
use crate::names::name_position;
use crate::names::names_view;
use crate::names::NamePosition;

verus! {

/// Host-builtin type names that may stand in system signatures without a
/// local declaration.
pub open spec fn builtin_component_names() -> Seq<Seq<u8>> {
    seq![
        "Camera".spec_bytes(),
        "Color".spec_bytes(),
        "DirectionalLight".spec_bytes(),
        "DynamicStaticMesh".spec_bytes(),
        "PointLight".spec_bytes(),
        "Transform".spec_bytes(),
    ]
}

pub fn builtin_components() -> (r: Vec<Vec<u8>>)
    ensures
        names_view(r@) == builtin_component_names(),
{
    let mut r: Vec<Vec<u8>> = Vec::new();
    r.push("Camera".as_bytes_vec());
    r.push("Color".as_bytes_vec());
    r.push("DirectionalLight".as_bytes_vec());
    r.push("DynamicStaticMesh".as_bytes_vec());
    r.push("PointLight".as_bytes_vec());
    r.push("Transform".as_bytes_vec());
    proof {
        assert(names_view(r@) =~= builtin_component_names());
    }
    r
}

/// `n` names a direct-access argument of some system whose pair (system,
/// argument) stands before position (`s`, `a`) in declaration order.
pub open spec fn direct_arg_name_before(
    model: ModuleModel,
    n: Seq<u8>,
    s: int,
    a: int,
) -> bool {
    exists|s2: int, a2: int|
        {
            &&& 0 <= s2 < model.systems@.len()
            &&& 0 <= a2 < model.systems@[s2].inputs@.len()
            &&& (s2 < s || (s2 == s && a2 < a))
            &&& (#[trigger] model.systems@[s2].inputs@[a2]) matches
                ArgDescriptor::DataAccessDirect(direct)
            &&& direct.component@ == n
        }
}

/// `n` names a direct-access argument of some system.
pub open spec fn is_direct_arg_name(model: ModuleModel, n: Seq<u8>) -> bool {
    direct_arg_name_before(model, n, model.systems@.len() as int, 0)
}

/// `n` names a locally declared type.
pub open spec fn is_declared_type_name(model: ModuleModel, n: Seq<u8>) -> bool {
    exists|i: int| 0 <= i < model.types@.len() && (#[trigger] model.types@[i].name)@ == n
}

/// `n` is in the union id assignment covers.
pub open spec fn is_id_target(model: ModuleModel, n: Seq<u8>) -> bool {
    ||| is_direct_arg_name(model, n)
    ||| builtin_component_names().contains(n)
    ||| is_declared_type_name(model, n)
}

impl ModuleModel {
    /// The names id assignment covers, deduplicated and sorted.
    pub fn id_targets(&self) -> (r: Vec<Vec<u8>>)
        ensures
            lex_sorted(names_view(r@)),
            forall|n: Seq<u8>| #[trigger] names_view(r@).contains(n) <==> is_id_target(*self, n),
    {
        let mut acc: Vec<Vec<u8>> = Vec::new();
        let mut s: usize = 0;
        while s < self.systems.len()
            invariant
                s <= self.systems@.len(),
                lex_sorted(names_view(acc@)),
                forall|n: Seq<u8>|
                    #[trigger] names_view(acc@).contains(n) <==> direct_arg_name_before(
                        *self,
                        n,
                        s as int,
                        0,
                    ),
            decreases self.systems@.len() - s,
        {
            let mut a: usize = 0;
            while a < self.systems[s].inputs.len()
                invariant
                    s < self.systems@.len(),
                    a <= self.systems@[s as int].inputs@.len(),
                    lex_sorted(names_view(acc@)),
                    forall|n: Seq<u8>|
                        #[trigger] names_view(acc@).contains(n) <==> direct_arg_name_before(
                            *self,
                            n,
                            s as int,
                            a as int,
                        ),
                decreases self.systems@[s as int].inputs@.len() - a,
            {
                match &self.systems[s].inputs[a] {
                    ArgDescriptor::DataAccessDirect(direct) => {
                        insert_sorted_unique(&mut acc, clone_name(&direct.component));
                        proof {
                            assert forall|n: Seq<u8>|
                                #[trigger] names_view(acc@).contains(n) implies
                                direct_arg_name_before(*self, n, s as int, a + 1) by {
                                if n == direct.component@ {
                                    assert(self.systems@[s as int].inputs@[a as int] matches
                                        ArgDescriptor::DataAccessDirect(d)
                                        && d.component@ == n);
                                }
                            }
                            assert forall|n: Seq<u8>|
                                direct_arg_name_before(*self, n, s as int, a + 1) implies
                                #[trigger] names_view(acc@).contains(n) by {
                                let (s2, a2) = choose|s2: int, a2: int|
                                    {
                                        &&& 0 <= s2 < self.systems@.len()
                                        &&& 0 <= a2 < self.systems@[s2].inputs@.len()
                                        &&& (s2 < s || (s2 == s && a2 < a + 1))
                                        &&& (#[trigger] self.systems@[s2].inputs@[a2]) matches
                                            ArgDescriptor::DataAccessDirect(direct)
                                        &&& direct.component@ == n
                                    };
                                if s2 == s && a2 == a {
                                } else {
                                    assert(direct_arg_name_before(*self, n, s as int, a as int));
                                }
                            }
                        }
                    },
                    ArgDescriptor::Query { .. } => {
                        proof {
                            assert forall|n: Seq<u8>|
                                direct_arg_name_before(*self, n, s as int, a + 1) implies
                                direct_arg_name_before(*self, n, s as int, a as int) by {
                                let (s2, a2) = choose|s2: int, a2: int|
                                    {
                                        &&& 0 <= s2 < self.systems@.len()
                                        &&& 0 <= a2 < self.systems@[s2].inputs@.len()
                                        &&& (s2 < s || (s2 == s && a2 < a + 1))
                                        &&& (#[trigger] self.systems@[s2].inputs@[a2]) matches
                                            ArgDescriptor::DataAccessDirect(direct)
                                        &&& direct.component@ == n
                                    };
                                assert(!(s2 == s && a2 == a));
                            }
                        }
                    },
                }
                a += 1;
            }
            proof {
                let a_end = self.systems@[s as int].inputs@.len() as int;
                assert forall|n: Seq<u8>|
                    direct_arg_name_before(*self, n, s + 1, 0) implies direct_arg_name_before(
                    *self,
                    n,
                    s as int,
                    a_end,
                ) by {
                    let (s2, a2) = choose|s2: int, a2: int|
                        {
                            &&& 0 <= s2 < self.systems@.len()
                            &&& 0 <= a2 < self.systems@[s2].inputs@.len()
                            &&& (s2 < s + 1 || (s2 == s + 1 && a2 < 0))
                            &&& (#[trigger] self.systems@[s2].inputs@[a2]) matches
                                ArgDescriptor::DataAccessDirect(direct)
                            &&& direct.component@ == n
                        };
                    assert(s2 < s || (s2 == s && a2 < a_end));
                }
            }
            s += 1;
        }
        let builtins = builtin_components();
        let ghost after_systems: Seq<Seq<u8>> = names_view(acc@);
        let mut b: usize = 0;
        while b < builtins.len()
            invariant
                b <= builtins@.len(),
                names_view(builtins@) == builtin_component_names(),
                lex_sorted(names_view(acc@)),
                forall|n: Seq<u8>|
                    #[trigger] names_view(acc@).contains(n) <==> (after_systems.contains(n)
                        || exists|k: int|
                        0 <= k < b && #[trigger] builtin_component_names()[k] == n),
            decreases builtins@.len() - b,
        {
            insert_sorted_unique(&mut acc, clone_name(&builtins[b]));
            proof {
                assert(names_view(builtins@)[b as int] == builtins@[b as int]@);
            }
            b += 1;
        }
        let ghost after_builtins: Seq<Seq<u8>> = names_view(acc@);
        let mut t: usize = 0;
        while t < self.types.len()
            invariant
                t <= self.types@.len(),
                lex_sorted(names_view(acc@)),
                forall|n: Seq<u8>|
                    #[trigger] names_view(acc@).contains(n) <==> (after_builtins.contains(n)
                        || exists|k: int|
                        0 <= k < t && (#[trigger] self.types@[k].name)@ == n),
            decreases self.types@.len() - t,
        {
            insert_sorted_unique(&mut acc, clone_name(&self.types[t].name));
            t += 1;
        }
        proof {
            assert forall|n: Seq<u8>| #[trigger] names_view(acc@).contains(n) implies is_id_target(
                *self,
                n,
            ) by {
                if after_builtins.contains(n) {
                    if after_systems.contains(n) {
                        assert(is_direct_arg_name(*self, n));
                    } else {
                        assert(builtin_component_names().contains(n));
                    }
                }
            }
            assert forall|n: Seq<u8>| is_id_target(*self, n) implies #[trigger] names_view(
                acc@,
            ).contains(n) by {
                if is_direct_arg_name(*self, n) {
                    assert(after_systems.contains(n));
                } else if builtin_component_names().contains(n) {
                    let k = choose|k: int|
                        0 <= k < builtin_component_names().len() && builtin_component_names()[k]
                            == n;
                    assert(after_builtins.contains(n));
                }
            }
        }
        acc
    }
}

/// The load-time id registry: one slot per name in the id-assignment union,
/// empty until the host announces that name's id.
pub struct IdRegistry {
    pub names: Vec<Vec<u8>>,
    pub ids: Vec<Option<ComponentId>>,
}

impl IdRegistry {
    /// One id slot per name; the sorted name list never changes after
    /// construction.
    pub open spec fn wf(&self) -> bool {
        &&& self.ids@.len() == self.names@.len()
        &&& lex_sorted(names_view(self.names@))
    }

    pub open spec fn spec_has_name(&self, n: Seq<u8>) -> bool {
        names_view(self.names@).contains(n)
    }

    /// A fresh registry for the model's id-assignment union, all slots empty.
    pub fn new(model: &ModuleModel) -> (r: IdRegistry)
        ensures
            r.wf(),
            forall|n: Seq<u8>| r.spec_has_name(n) <==> is_id_target(*model, n),
            forall|k: int| 0 <= k < r.ids@.len() ==> (#[trigger] r.ids@[k]) is None,
    {
        let names = model.id_targets();
        let mut ids: Vec<Option<ComponentId>> = Vec::new();
        let mut k: usize = 0;
        while k < names.len()
            invariant
                k <= names@.len(),
                ids@.len() == k,
                forall|j: int| 0 <= j < k ==> (#[trigger] ids@[j]) is None,
            decreases names@.len() - k,
        {
            ids.push(None);
            k += 1;
        }
        IdRegistry { names, ids }
    }

    /// No two slots carry the same name.
    proof fn lemma_names_unique(&self)
        requires
            self.wf(),
        ensures
            forall|i: int, j: int|
                0 <= i < self.names@.len() && 0 <= j < self.names@.len() && i != j ==> (
                #[trigger] self.names@[i])@ != (#[trigger] self.names@[j])@,
    {
        assert forall|i: int, j: int|
            0 <= i < self.names@.len() && 0 <= j < self.names@.len() && i != j implies (
        #[trigger] self.names@[i])@ != (#[trigger] self.names@[j])@ by {
            assert(names_view(self.names@)[i] == self.names@[i]@);
            assert(names_view(self.names@)[j] == self.names@[j]@);
            if self.names@[i]@ == self.names@[j]@ {
                lemma_lex_lt_irreflexive(self.names@[i]@);
            }
        }
    }

    /// Writes the id for a known name — the single write, done by the host at
    /// load; an unknown name is silently ignored.
    pub fn set_component_id(&mut self, name: &Vec<u8>, id: ComponentId)
        requires
            old(self).wf(),
        ensures
            final(self).wf(),
            final(self).names@ == old(self).names@,
            final(self).ids@.len() == old(self).ids@.len(),
            forall|k: int|
                0 <= k < old(self).names@.len() && (#[trigger] old(self).names@[k])@ == name@
                    ==> final(self).ids@[k] == Some(id),
            forall|k: int|
                0 <= k < old(self).names@.len() && (#[trigger] old(self).names@[k])@ != name@
                    ==> final(self).ids@[k] == old(self).ids@[k],
    {
        match name_position(&self.names, name) {
            NamePosition::Present(j) => {
                self.ids.set(j, Some(id));
                proof {
                    self.lemma_names_unique();
                }
            },
            NamePosition::Absent(j) => {
                proof {
                    assert forall|k: int|
                        0 <= k < self.names@.len() implies (#[trigger] self.names@[k])@ != name@ by {
                        if k < j {
                            lemma_lex_lt_irreflexive(name@);
                        } else {
                            assert(names_view(self.names@)[j as int] == self.names@[j as int]@);
                            assert(names_view(self.names@)[k] == self.names@[k]@);
                            if k > j {
                                lemma_lex_lt_transitive(
                                    name@,
                                    self.names@[j as int]@,
                                    self.names@[k]@,
                                );
                            }
                            lemma_lex_lt_irreflexive(name@);
                        }
                    }
                }
            },
        }
    }

    /// The id stored for a name: `Some` exactly when the name is in the
    /// union and its slot has been written.
    pub fn id_of(&self, name: &Vec<u8>) -> (r: Option<ComponentId>)
        requires
            self.wf(),
        ensures
            forall|k: int|
                0 <= k < self.names@.len() && (#[trigger] self.names@[k])@ == name@ ==> r
                    == self.ids@[k],
            !self.spec_has_name(name@) ==> r is None,
            r is Some ==> self.spec_has_name(name@),
    {
        match name_position(&self.names, name) {
            NamePosition::Present(j) => {
                proof {
                    self.lemma_names_unique();
                    assert(names_view(self.names@)[j as int] == self.names@[j as int]@);
                    assert(names_view(self.names@).contains(name@));
                }
                self.ids[j]
            },
            NamePosition::Absent(j) => {
                proof {
                    assert forall|k: int|
                        0 <= k < self.names@.len() implies (#[trigger] self.names@[k])@ != name@ by {
                        if k < j {
                            lemma_lex_lt_irreflexive(name@);
                        } else {
                            assert(names_view(self.names@)[j as int] == self.names@[j as int]@);
                            assert(names_view(self.names@)[k] == self.names@[k]@);
                            if k > j {
                                lemma_lex_lt_transitive(
                                    name@,
                                    self.names@[j as int]@,
                                    self.names@[k]@,
                                );
                            }
                            lemma_lex_lt_irreflexive(name@);
                        }
                    }
                    if self.spec_has_name(name@) {
                        let k = choose|k: int|
                            0 <= k < names_view(self.names@).len() && names_view(self.names@)[k]
                                == name@;
                        assert(self.names@[k]@ == name@);
                    }
                }
                None
            },
        }
    }

    /// The name whose slot holds `id`, walking slots in name order; `None`
    /// when no slot holds it.
    pub fn name_of(&self, id: ComponentId) -> (r: Option<Vec<u8>>)
        requires
            self.wf(),
        ensures
            r is Some <==> exists|k: int|
                0 <= k < self.ids@.len() && #[trigger] self.ids@[k] == Some(id),
            r matches Some(n) ==> exists|k: int|
                {
                    &&& 0 <= k < self.ids@.len()
                    &&& #[trigger] self.ids@[k] == Some(id)
                    &&& forall|k2: int| 0 <= k2 < k ==> #[trigger] self.ids@[k2] != Some(id)
                    &&& n@ == self.names@[k]@
                },
    {
        let mut k: usize = 0;
        while k < self.ids.len()
            invariant
                self.wf(),
                k <= self.ids@.len(),
                forall|k2: int| 0 <= k2 < k ==> #[trigger] self.ids@[k2] != Some(id),
            decreases self.ids@.len() - k,
        {
            let hit = match self.ids[k] {
                Some(stored) => stored == id,
                None => false,
            };
            if hit {
                return Some(clone_name(&self.names[k]));
            }
            k += 1;
        }
        None
    }
}

/// After the host assigns `id` to a known `name` — and to no other slot —
/// a slot holds `id` exactly when it is the slot named `name`: lookup by id
/// and lookup by name single out the same type.
pub proof fn lemma_id_lookup_matches_name_lookup(
    before: IdRegistry,
    after: IdRegistry,
    name: Seq<u8>,
    id: ComponentId,
)
    requires
        before.wf(),
        before.spec_has_name(name),
        forall|k: int| 0 <= k < before.ids@.len() ==> #[trigger] before.ids@[k] != Some(id),
        after.names@ == before.names@,
        after.ids@.len() == before.ids@.len(),
        forall|k: int|
            0 <= k < before.names@.len() && (#[trigger] before.names@[k])@ == name
                ==> after.ids@[k] == Some(id),
        forall|k: int|
            0 <= k < before.names@.len() && (#[trigger] before.names@[k])@ != name
                ==> after.ids@[k] == before.ids@[k],
    ensures
        forall|k: int|
            0 <= k < after.names@.len() ==> (#[trigger] after.ids@[k] == Some(id) <==> (
            #[trigger] after.names@[k])@ == name),
{
    assert forall|k: int| 0 <= k < after.names@.len() implies (#[trigger] after.ids@[k] == Some(id)
        <==> (#[trigger] after.names@[k])@ == name) by {
        if before.names@[k]@ == name {
        } else {
            assert(after.ids@[k] == before.ids@[k]);
        }
    }
}

} // verus!
