//! Registry of installed browser extensions, keyed by extension id.

use vstd::prelude::*;

use crate::assoc::{
    assign, assign_entry, find, first_index, keys_of, lemma_assign, lemma_first_index, lemma_first_index_at,
    lemma_first_index_keys, lemma_unassign, lookup_entry, unassign, unassign_entry,
};
use crate::json::{model_get, str_or, JsonValue};

verus! {

/// Metadata about an installed extension.
pub struct InstalledExtension {
    pub id: String,
    pub name: String,
    pub version: String,
    pub path: String,
}

/// The view of an `InstalledExtension`.
pub struct ExtensionModel {
    pub id: Seq<char>,
    pub name: Seq<char>,
    pub version: Seq<char>,
    pub path: Seq<char>,
}

impl InstalledExtension {
    pub open spec fn model(self) -> ExtensionModel {
        ExtensionModel { id: self.id@, name: self.name@, version: self.version@, path: self.path@ }
    }

    /// A copy of the record.
    pub fn duplicate(&self) -> (r: InstalledExtension)
        ensures
            r.model() == self.model(),
    {
        InstalledExtension {
            id: self.id.clone(),
            name: self.name.clone(),
            version: self.version.clone(),
            path: self.path.clone(),
        }
    }
}

/// Registry tracking installed extensions.
pub struct ExtensionRegistry {
    extensions: Vec<(String, InstalledExtension)>,
}

/// Whether no key occurs twice among the entries.
pub open spec fn distinct_keys<V>(entries: Seq<(Seq<char>, V)>) -> bool {
    forall|a: int, b: int|
        0 <= a < b < entries.len() ==> #[trigger] entries[a].0 != #[trigger] entries[b].0
}

/// Each entry is filed under the extension's own id.
pub open spec fn ids_match(entries: Seq<(Seq<char>, ExtensionModel)>) -> bool {
    forall|i: int| 0 <= i < entries.len() ==> #[trigger] entries[i].1.id == entries[i].0
}

/// `assign` of an extension under its own id keeps entries filed under
/// their ids.
pub proof fn lemma_assign_keeps_ids(
    entries: Seq<(Seq<char>, ExtensionModel)>,
    key: Seq<char>,
    ext: ExtensionModel,
)
    requires
        ids_match(entries),
        ext.id == key,
    ensures
        ids_match(assign(entries, key, ext)),
{
    lemma_first_index(entries, key);
    let e2 = assign(entries, key, ext);
    let i = first_index(entries, key);
    assert forall|k: int| 0 <= k < e2.len() implies #[trigger] e2[k].1.id == e2[k].0 by {
        if (i >= 0 && k != i) || (i < 0 && k < entries.len()) {
            assert(e2[k] == entries[k]);
        }
    }
}

/// `unassign` keeps entries filed under their ids.
pub proof fn lemma_unassign_keeps_ids(entries: Seq<(Seq<char>, ExtensionModel)>, key: Seq<char>)
    requires
        ids_match(entries),
    ensures
        ids_match(unassign(entries, key)),
{
    lemma_first_index(entries, key);
    let e2 = unassign(entries, key);
    let i = first_index(entries, key);
    if i >= 0 {
        assert forall|k: int| 0 <= k < e2.len() implies #[trigger] e2[k].1.id == e2[k].0 by {
            let k0 = if k < i { k } else { k + 1 };
            assert(e2[k] == entries[k0]);
        }
    }
}

/// In a well-formed registry, the entry at position `i` is what `get`
/// finds for its id.
pub proof fn lemma_entry_found(entries: Seq<(Seq<char>, ExtensionModel)>, i: int)
    requires
        distinct_keys(entries),
        0 <= i < entries.len(),
    ensures
        find(entries, entries[i].0) == Some(entries[i].1),
{
    assert forall|j: int| 0 <= j < i implies #[trigger] entries[j].0 != entries[i].0 by {}
    lemma_first_index_at(entries, entries[i].0, i);
}

/// The record of an extension installed from `path` with the given
/// description: its name and version, or `Unknown` and `0.0.0` where the
/// description does not give them as strings.
pub open spec fn registered(
    id: Seq<char>,
    path: Seq<char>,
    manifest: crate::json::JsonModel,
) -> ExtensionModel {
    ExtensionModel {
        id,
        name: str_or(model_get(manifest, "name"@), "Unknown"@),
        version: str_or(model_get(manifest, "version"@), "0.0.0"@),
        path,
    }
}

impl View for ExtensionRegistry {
    type V = Seq<(Seq<char>, ExtensionModel)>;

    /// The (id, extension) entries in registration order.
    closed spec fn view(&self) -> Seq<(Seq<char>, ExtensionModel)> {
        keys_of(self.extensions@).map_values(
            |e: (Seq<char>, InstalledExtension)| (e.0, e.1.model()),
        )
    }
}

impl ExtensionRegistry {
    /// The registry holds at most one entry per id, and each entry is filed
    /// under its own id.
    pub open spec fn wf(&self) -> bool {
        distinct_keys(self@) && ids_match(self@)
    }

    /// An empty registry.
    pub fn new() -> (r: ExtensionRegistry)
        ensures
            r@ == Seq::<(Seq<char>, ExtensionModel)>::empty(),
            r.wf(),
    {
        let r = ExtensionRegistry { extensions: Vec::new() };
        assert(r@ =~= Seq::<(Seq<char>, ExtensionModel)>::empty());
        r
    }

    /// Register an installed extension under `id`, reading its name and
    /// version from the extension's description file, given as JSON. An
    /// earlier entry for the id is replaced in place.
    pub fn register(&mut self, id: String, path: String, manifest: &JsonValue)
        requires
            old(self).wf(),
        ensures
            final(self).wf(),
            final(self)@ == assign(old(self)@, id@, registered(id@, path@, manifest.model())),
    {
        let name = manifest.get_str_or("name", "Unknown");
        let version = manifest.get_str_or("version", "0.0.0");
        let key = id.clone();
        let ext = InstalledExtension { id, name, version, path };
        let ghost m = ext.model();
        let ghost before = keys_of(self.extensions@);
        assign_entry(&mut self.extensions, key, ext);
        proof {
            lemma_first_index_keys(before, old(self)@, key@);
            lemma_first_index(old(self)@, key@);
            let i = first_index(old(self)@, key@);
            let after = keys_of(self.extensions@);
            if i >= 0 {
                assert(after =~= before.update(i, (key@, ext)));
            } else {
                assert(after =~= before.push((key@, ext)));
            }
            assert(self@ =~= assign(old(self)@, key@, m));
            lemma_assign_keeps_distinct(old(self)@, key@, m);
            lemma_assign_keeps_ids(old(self)@, key@, m);
        }
    }

    /// Remove an extension from the registry.
    pub fn remove(&mut self, id: &str)
        requires
            old(self).wf(),
        ensures
            final(self).wf(),
            final(self)@ == unassign(old(self)@, id@),
    {
        let ghost before = keys_of(self.extensions@);
        unassign_entry(&mut self.extensions, id);
        proof {
            lemma_first_index_keys(before, old(self)@, id@);
            lemma_first_index(old(self)@, id@);
            let i = first_index(old(self)@, id@);
            if i >= 0 {
                assert(keys_of(self.extensions@) =~= before.remove(i));
            }
            assert(self@ =~= unassign(old(self)@, id@));
            lemma_unassign_keeps_distinct(old(self)@, id@);
            lemma_unassign_keeps_ids(old(self)@, id@);
        }
    }

    /// List all registered extensions, in registration order.
    pub fn list(&self) -> (r: Vec<&InstalledExtension>)
        ensures
            r@.len() == self@.len(),
            forall|i: int| 0 <= i < r@.len() ==> #[trigger] r@[i].model() == self@[i].1,
            self.wf() ==> forall|i: int|
                0 <= i < r@.len() ==> find(self@, #[trigger] r@[i].id@) == Some(r@[i].model()),
            self.wf() ==> forall|i: int, j: int|
                0 <= i < j < r@.len() ==> #[trigger] r@[i].id@ != #[trigger] r@[j].id@,
            forall|k: Seq<char>|
                #[trigger] find(self@, k) is Some ==> exists|i: int|
                    0 <= i < r@.len() && Some(r@[i].model()) == find(self@, k),
    {
        let mut out: Vec<&InstalledExtension> = Vec::new();
        let mut i: usize = 0;
        while i < self.extensions.len()
            invariant
                i <= self.extensions@.len(),
                self@.len() == self.extensions@.len(),
                out@.len() == i,
                forall|k: int| 0 <= k < i ==> #[trigger] out@[k].model() == self@[k].1,
            decreases self.extensions@.len() - i,
        {
            out.push(&self.extensions[i].1);
            i = i + 1;
        }
        proof {
            if self.wf() {
                assert forall|i: int| 0 <= i < out@.len() implies find(self@, #[trigger] out@[i].id@)
                    == Some(out@[i].model()) by {
                    assert(self@[i].1.id == self@[i].0);
                    lemma_entry_found(self@, i);
                }
                assert forall|i: int, j: int| 0 <= i < j < out@.len() implies #[trigger] out@[i].id@
                    != #[trigger] out@[j].id@ by {
                    assert(self@[i].1.id == self@[i].0);
                    assert(self@[j].1.id == self@[j].0);
                }
            }
            assert forall|k: Seq<char>| #[trigger] find(self@, k) is Some implies exists|i: int|
                0 <= i < out@.len() && Some(out@[i].model()) == find(self@, k) by {
                lemma_first_index(self@, k);
                let f = first_index(self@, k);
                assert(Some(out@[f].model()) == find(self@, k));
            }
        }
        out
    }

    /// Get an extension by id.
    pub fn get(&self, id: &str) -> (r: Option<&InstalledExtension>)
        ensures
            match r {
                Some(e) => find(self@, id@) == Some(e.model()),
                None => find(self@, id@) is None,
            },
            self.wf() ==> (r matches Some(e) ==> e.id@ == id@),
    {
        let r = lookup_entry(&self.extensions, id);
        proof {
            lemma_first_index_keys(keys_of(self.extensions@), self@, id@);
            lemma_first_index(self@, id@);
            if self.wf() {
                let f = first_index(self@, id@);
                if f >= 0 {
                    assert(self@[f].1.id == self@[f].0);
                }
            }
        }
        r
    }
}

/// `assign` keeps the keys distinct.
pub proof fn lemma_assign_keeps_distinct<V>(entries: Seq<(Seq<char>, V)>, key: Seq<char>, val: V)
    requires
        distinct_keys(entries),
    ensures
        distinct_keys(assign(entries, key, val)),
{
    lemma_first_index(entries, key);
    let e2 = assign(entries, key, val);
    let i = first_index(entries, key);
    assert forall|a: int, b: int| 0 <= a < b < e2.len() implies #[trigger] e2[a].0 != #[trigger] e2[b].0 by {
        if i >= 0 {
            assert(e2[a].0 == entries[a].0);
            assert(e2[b].0 == entries[b].0);
        } else if b == entries.len() {
            assert(e2[a] == entries[a]);
        } else {
            assert(e2[a] == entries[a]);
            assert(e2[b] == entries[b]);
        }
    }
}

/// `unassign` keeps the keys distinct.
pub proof fn lemma_unassign_keeps_distinct<V>(entries: Seq<(Seq<char>, V)>, key: Seq<char>)
    requires
        distinct_keys(entries),
    ensures
        distinct_keys(unassign(entries, key)),
{
    let e2 = unassign(entries, key);
    let i = first_index(entries, key);
    if i >= 0 {
        lemma_first_index(entries, key);
        assert forall|a: int, b: int| 0 <= a < b < e2.len() implies #[trigger] e2[a].0 != #[trigger] e2[b].0 by {
            let a0 = if a < i { a } else { a + 1 };
            let b0 = if b < i { b } else { b + 1 };
            assert(e2[a] == entries[a0]);
            assert(e2[b] == entries[b0]);
        }
    }
}

/// Registering an extension makes it what `get` returns for its id, and
/// leaves every other id as it was.
pub proof fn law_register_then_get(
    entries: Seq<(Seq<char>, ExtensionModel)>,
    id: Seq<char>,
    ext: ExtensionModel,
    other: Seq<char>,
)
    ensures
        find(assign(entries, id, ext), id) == Some(ext),
        other != id ==> find(assign(entries, id, ext), other) == find(entries, other),
{
    lemma_assign(entries, id, ext, other);
}

/// After removing an id from a well-formed registry, `get` finds nothing
/// for it, and every other id is as it was.
pub proof fn law_remove_then_get(
    entries: Seq<(Seq<char>, ExtensionModel)>,
    id: Seq<char>,
    other: Seq<char>,
)
    requires
        distinct_keys(entries),
    ensures
        find(unassign(entries, id), id) is None,
        other != id ==> find(unassign(entries, id), other) == find(entries, other),
{
    lemma_unassign(entries, id, other);
}

/// An operation on the registry, as the laws replay them.
pub enum RegistryOp {
    /// Register an extension under its id.
    Register(ExtensionModel),
    /// Remove the extension with this id.
    Remove(Seq<char>),
}

/// The entries a new registry holds after a sequence of operations.
pub open spec fn replay(ops: Seq<RegistryOp>) -> Seq<(Seq<char>, ExtensionModel)>
    decreases ops.len(),
{
    if ops.len() == 0 {
        Seq::empty()
    } else {
        match ops.last() {
            RegistryOp::Register(e) => assign(replay(ops.drop_last()), e.id, e),
            RegistryOp::Remove(id) => unassign(replay(ops.drop_last()), id),
        }
    }
}

/// Whether some operation registered `id` with no later removal of it.
pub open spec fn live_after(ops: Seq<RegistryOp>, id: Seq<char>) -> bool {
    exists|i: int|
        0 <= i < ops.len() && (#[trigger] ops[i] matches RegistryOp::Register(e) && e.id == id)
            && forall|j: int| i < j < ops.len() ==> ops[j] != RegistryOp::Remove(id)
}

/// Starting from a new registry, `get(id)` finds an extension exactly when
/// some registration of `id` was not followed by a removal of it; what it
/// finds carries that id; and the registry stays well formed throughout.
pub proof fn law_registry_history(ops: Seq<RegistryOp>, id: Seq<char>)
    ensures
        distinct_keys(replay(ops)),
        ids_match(replay(ops)),
        find(replay(ops), id) is Some <==> live_after(ops, id),
        find(replay(ops), id) matches Some(e) ==> e.id == id,
    decreases ops.len(),
{
    if ops.len() == 0 {
        lemma_first_index(replay(ops), id);
        assert(!live_after(ops, id));
    } else {
        let init = ops.drop_last();
        let n = ops.len() - 1;
        law_registry_history(init, id);
        let r0 = replay(init);
        assert forall|j: int| 0 <= j < n implies #[trigger] ops[j] == init[j] by {}
        match ops.last() {
            RegistryOp::Register(e) => {
                lemma_assign_keeps_distinct(r0, e.id, e);
                lemma_assign_keeps_ids(r0, e.id, e);
                lemma_assign(r0, e.id, e, id);
                if e.id == id {
                    assert(ops[n] matches RegistryOp::Register(x) && x.id == id);
                    assert(live_after(ops, id));
                } else {
                    if live_after(ops, id) {
                        let i = choose|i: int|
                            0 <= i < ops.len() && (#[trigger] ops[i] matches RegistryOp::Register(
                                x,
                            ) && x.id == id) && forall|j: int|
                                i < j < ops.len() ==> ops[j] != RegistryOp::Remove(id);
                        assert(i < n);
                        assert(init[i] == ops[i]);
                        assert forall|j: int| i < j < init.len() implies init[j]
                            != RegistryOp::Remove(id) by {
                            assert(init[j] == ops[j]);
                        }
                        assert(live_after(init, id));
                    }
                    if live_after(init, id) {
                        let i = choose|i: int|
                            0 <= i < init.len() && (#[trigger] init[i] matches RegistryOp::Register(
                                x,
                            ) && x.id == id) && forall|j: int|
                                i < j < init.len() ==> init[j] != RegistryOp::Remove(id);
                        assert(ops[i] == init[i]);
                        assert forall|j: int| i < j < ops.len() implies ops[j] != RegistryOp::Remove(
                            id,
                        ) by {
                            if j < n {
                                assert(init[j] == ops[j]);
                            }
                        }
                        assert(live_after(ops, id));
                    }
                }
            },
            RegistryOp::Remove(x) => {
                lemma_unassign_keeps_distinct(r0, x);
                lemma_unassign_keeps_ids(r0, x);
                lemma_unassign(r0, x, id);
                lemma_first_index(replay(ops), id);
                if x == id {
                    assert(!live_after(ops, id)) by {
                        if live_after(ops, id) {
                            let i = choose|i: int|
                                0 <= i < ops.len() && (#[trigger] ops[i] matches RegistryOp::Register(
                                    y,
                                ) && y.id == id) && forall|j: int|
                                    i < j < ops.len() ==> ops[j] != RegistryOp::Remove(id);
                            assert(i != n);
                            assert(ops[n] == RegistryOp::Remove(id));
                        }
                    }
                } else {
                    if live_after(ops, id) {
                        let i = choose|i: int|
                            0 <= i < ops.len() && (#[trigger] ops[i] matches RegistryOp::Register(
                                y,
                            ) && y.id == id) && forall|j: int|
                                i < j < ops.len() ==> ops[j] != RegistryOp::Remove(id);
                        assert(i < n);
                        assert(init[i] == ops[i]);
                        assert forall|j: int| i < j < init.len() implies init[j]
                            != RegistryOp::Remove(id) by {
                            assert(init[j] == ops[j]);
                        }
                        assert(live_after(init, id));
                    }
                    if live_after(init, id) {
                        let i = choose|i: int|
                            0 <= i < init.len() && (#[trigger] init[i] matches RegistryOp::Register(
                                y,
                            ) && y.id == id) && forall|j: int|
                                i < j < init.len() ==> init[j] != RegistryOp::Remove(id);
                        assert(ops[i] == init[i]);
                        assert forall|j: int| i < j < ops.len() implies ops[j] != RegistryOp::Remove(
                            id,
                        ) by {
                            if j < n {
                                assert(init[j] == ops[j]);
                            }
                        }
                        assert(live_after(ops, id));
                    }
                }
            },
        }
        let r = replay(ops);
        lemma_first_index(r, id);
        let f = first_index(r, id);
        if f >= 0 {
            assert(r[f].1.id == r[f].0);
        }
    }
}

} // verus!
