use vstd::prelude::*;
use vstd::pervasive::cloned;

verus! {

/// A key of a change-tracked table: a small copyable id with a decidable
/// equality test.
pub trait TableKey: Sized + Copy {
    /// Decides equality of two keys.
    fn key_eq(&self, other: &Self) -> (r: bool)
        ensures
            r == (*self == *other),
    ;
}

impl TableKey for u32 {
    fn key_eq(&self, other: &Self) -> (r: bool)
        ensures
            r == (*self == *other),
    {
        *self == *other
    }
}

/// The value a sequence of (key, value) pairs associates with `k`: the
/// latest pair wins, as in a map built by repeated insertion.
pub open spec fn assoc_lookup<K, V>(s: Seq<(K, V)>, k: K) -> Option<V>
    decreases s.len(),
{
    if s.len() == 0 {
        None
    } else if s.last().0 == k {
        Some(s.last().1)
    } else {
        assoc_lookup(s.drop_last(), k)
    }
}

/// Whether every key occurs at most once in `s`.
pub open spec fn unique_keys<K, V>(s: Seq<(K, V)>) -> bool {
    forall|i: int, j: int| 0 <= i < j < s.len() ==> (#[trigger] s[i]).0 != (#[trigger] s[j]).0
}

pub proof fn lemma_assoc_lookup_absent<K, V>(s: Seq<(K, V)>, k: K)
    requires
        forall|i: int| 0 <= i < s.len() ==> (#[trigger] s[i]).0 != k,
    ensures
        assoc_lookup(s, k) is None,
    decreases s.len(),
{
    if s.len() > 0 {
        lemma_assoc_lookup_absent(s.drop_last(), k);
    }
}

pub proof fn lemma_assoc_lookup_found<K, V>(s: Seq<(K, V)>, k: K, i: int)
    requires
        unique_keys(s),
        0 <= i < s.len(),
        s[i].0 == k,
    ensures
        assoc_lookup(s, k) == Some(s[i].1),
    decreases s.len(),
{
    if i == s.len() - 1 {
    } else {
        assert(s.last().0 != k);
        assert(s.drop_last()[i] == s[i]);
        lemma_assoc_lookup_found(s.drop_last(), k, i);
    }
}

pub proof fn lemma_assoc_lookup_remove<K, V>(s: Seq<(K, V)>, i: int, k: K)
    requires
        unique_keys(s),
        0 <= i < s.len(),
        s[i].0 == k,
    ensures
        assoc_lookup(s.remove(i), k) is None,
        forall|k2: K| k2 != k ==> assoc_lookup(s.remove(i), k2) == assoc_lookup(s, k2),
        unique_keys(s.remove(i)),
    decreases s.len(),
{
    assert(forall|p: int| 0 <= p < s.remove(i).len() ==> (#[trigger] s.remove(i)[p]) == (if p < i {
        s[p]
    } else {
        s[p + 1]
    }));
    assert(unique_keys(s.remove(i)));
    assert(forall|p: int| 0 <= p < s.remove(i).len() ==> (#[trigger] s.remove(i)[p]).0 != k);
    lemma_assoc_lookup_absent(s.remove(i), k);
    if i == s.len() - 1 {
        assert(s.remove(i) =~= s.drop_last());
        assert forall|k2: K| k2 != k implies assoc_lookup(s.remove(i), k2) == assoc_lookup(
            s,
            k2,
        ) by {
            assert(s.last().0 == k);
        }
    } else {
        assert(s.remove(i).last() == s.last());
        assert(s.remove(i).drop_last() =~= s.drop_last().remove(i));
        assert(forall|p: int, q: int|
            0 <= p < q < s.drop_last().len() ==> (#[trigger] s.drop_last()[p]).0 != (
            #[trigger] s.drop_last()[q]).0);
        assert(s.drop_last()[i] == s[i]);
        lemma_assoc_lookup_remove(s.drop_last(), i, k);
        assert forall|k2: K| k2 != k implies assoc_lookup(s.remove(i), k2) == assoc_lookup(
            s,
            k2,
        ) by {
            if s.last().0 != k2 {
                assert(assoc_lookup(s.remove(i), k2) == assoc_lookup(s.remove(i).drop_last(), k2));
                assert(s.remove(i).drop_last() == s.drop_last().remove(i));
                assert(assoc_lookup(s.drop_last().remove(i), k2) == assoc_lookup(
                    s.drop_last(),
                    k2,
                ));
                assert(assoc_lookup(s, k2) == assoc_lookup(s.drop_last(), k2));
            } else {
                assert(assoc_lookup(s.remove(i), k2) == Some(s.remove(i).last().1));
                assert(assoc_lookup(s, k2) == Some(s.last().1));
            }
        }
    }
}

/// A well-formed table's pair sequence has unique keys.
pub proof fn lemma_wf_unique<K: TableKey, V>(t: &FHashMap<K, V>)
    requires
        t.wf(),
    ensures
        unique_keys(t.pairs()),
{
}

/// A keyed collection carrying a single dirty flag, set on any insert:
/// the change-tracked table behind each entity holder.
pub struct FHashMap<K, V> {
    was_changed: bool,
    entries: Vec<(K, V)>,
}

impl<K: TableKey, V> FHashMap<K, V> {
    /// The (key, value) pairs, in insertion order of their latest write.
    pub closed spec fn pairs(&self) -> Seq<(K, V)> {
        self.entries@
    }

    /// The value the table associates with `k`.
    pub open spec fn spec_get(&self, k: K) -> Option<V> {
        assoc_lookup(self.pairs(), k)
    }

    /// Whether the table holds a value for `k`.
    pub open spec fn has_key(&self, k: K) -> bool {
        self.spec_get(k) is Some
    }

    /// Whether at least one insert happened since the table was loaded or
    /// the flag was last cleared.
    pub closed spec fn changed(&self) -> bool {
        self.was_changed
    }

    /// The internal invariant: every key occurs at most once.
    pub closed spec fn wf(&self) -> bool {
        unique_keys(self.entries@)
    }

    /// An empty table, not marked changed.
    pub fn new() -> (r: Self)
        ensures
            r.wf(),
            r.pairs() == Seq::<(K, V)>::empty(),
            !r.changed(),
    {
        let r = FHashMap { was_changed: false, entries: Vec::new() };
        proof {
            assert(r.pairs() =~= Seq::<(K, V)>::empty());
        }
        r
    }

    /// The number of keys.
    pub fn len(&self) -> (r: usize)
        ensures
            r == self.pairs().len(),
    {
        self.entries.len()
    }

    /// Whether no insert happened since load or the last clear.
    pub fn is_unchanged(&self) -> (r: bool)
        ensures
            r == !self.changed(),
    {
        !self.was_changed
    }

    /// The dirty flag itself.
    pub fn is_changed(&self) -> (r: bool)
        ensures
            r == self.changed(),
    {
        self.was_changed
    }

    /// Clears the dirty flag, as after a successful write of the table.
    pub fn clear_changed(&mut self)
        ensures
            final(self).pairs() == old(self).pairs(),
            final(self).wf() == old(self).wf(),
            !final(self).changed(),
    {
        self.was_changed = false;
    }

    /// Marks the table dirty without touching its contents.
    pub fn mark_changed(&mut self)
        ensures
            final(self).pairs() == old(self).pairs(),
            final(self).wf() == old(self).wf(),
            final(self).changed(),
    {
        self.was_changed = true;
    }

    /// The value stored for `key`, if any.
    pub fn get(&self, key: &K) -> (r: Option<&V>)
        requires
            self.wf(),
        ensures
            match r {
                Some(v) => self.spec_get(*key) == Some(*v),
                None => self.spec_get(*key) is None,
            },
    {
        let n = self.entries.len();
        let mut i: usize = 0;
        while i < n
            invariant
                self.wf(),
                i <= n,
                n == self.pairs().len(),
                forall|q: int| 0 <= q < i ==> (#[trigger] self.pairs()[q]).0 != *key,
            decreases n - i,
        {
            if self.entries[i].0.key_eq(key) {
                proof {
                    lemma_assoc_lookup_found(self.pairs(), *key, i as int);
                }
                return Some(&self.entries[i].1);
            }
            i = i + 1;
        }
        proof {
            lemma_assoc_lookup_absent(self.pairs(), *key);
        }
        None
    }

    /// Unconditional upsert: stores `val` under `key` and sets the dirty
    /// flag, also when the stored value was already equal. Suppressing
    /// the flag for no-op writes is the caller's business.
    pub fn insert(&mut self, key: K, val: V)
        requires
            old(self).wf(),
        ensures
            final(self).wf(),
            final(self).changed(),
            final(self).spec_get(key) == Some(val),
            forall|k2: K| k2 != key ==> final(self).spec_get(k2) == old(self).spec_get(k2),
            old(self).has_key(key) ==> final(self).pairs().len() == old(self).pairs().len(),
            !old(self).has_key(key) ==> final(self).pairs().len() == old(self).pairs().len() + 1,
    {
        self.was_changed = true;
        let n = self.entries.len();
        let mut i: usize = 0;
        while i < n
            invariant
                unique_keys(self.entries@),
                self.was_changed,
                self.entries@ == old(self).pairs(),
                i <= n,
                n == self.entries@.len(),
                forall|q: int| 0 <= q < i ==> (#[trigger] self.entries@[q]).0 != key,
            decreases n - i,
        {
            if self.entries[i].0.key_eq(&key) {
                proof {
                    lemma_assoc_lookup_found(self.entries@, key, i as int);
                    lemma_assoc_lookup_remove(self.entries@, i as int, key);
                }
                let ghost before = self.entries@;
                self.entries.remove(i);
                self.entries.push((key, val));
                proof {
                    assert(self.entries@.drop_last() =~= before.remove(i as int));
                    assert(self.entries@.last() == (key, val));
                    assert(forall|p: int|
                        0 <= p < before.remove(i as int).len() ==> (#[trigger] before.remove(
                            i as int,
                        )[p]).0 != key);
                    assert(unique_keys(self.entries@));
                    assert(assoc_lookup(self.entries@, key) == Some(val));
                    assert forall|k2: K| k2 != key implies assoc_lookup(self.entries@, k2)
                        == assoc_lookup(before, k2) by {
                        assert(assoc_lookup(self.entries@, k2) == assoc_lookup(
                            self.entries@.drop_last(),
                            k2,
                        ));
                    }
                }
                return ;
            }
            i = i + 1;
        }
        proof {
            lemma_assoc_lookup_absent(self.entries@, key);
        }
        let ghost before = self.entries@;
        self.entries.push((key, val));
        proof {
            assert(self.entries@.drop_last() =~= before);
            assert(self.entries@.last() == (key, val));
            assert(unique_keys(self.entries@));
            assert(assoc_lookup(self.entries@, key) == Some(val));
            assert forall|k2: K| k2 != key implies assoc_lookup(self.entries@, k2) == assoc_lookup(
                before,
                k2,
            ) by {
                assert(assoc_lookup(self.entries@, k2) == assoc_lookup(
                    self.entries@.drop_last(),
                    k2,
                ));
            }
        }
    }

    /// The pair at storage position `i`.
    pub fn pair_at(&self, i: usize) -> (r: (K, &V))
        requires
            i < self.pairs().len(),
        ensures
            r.0 == self.pairs()[i as int].0,
            *r.1 == self.pairs()[i as int].1,
    {
        (self.entries[i].0, &self.entries[i].1)
    }

    /// The keys, in the table's storage order.
    pub fn keys(&self) -> (r: Vec<K>)
        ensures
            r@.len() == self.pairs().len(),
            forall|i: int| 0 <= i < r@.len() ==> #[trigger] r@[i] == self.pairs()[i].0,
    {
        let mut r: Vec<K> = Vec::new();
        let n = self.entries.len();
        let mut i: usize = 0;
        while i < n
            invariant
                i <= n,
                n == self.pairs().len(),
                r@.len() == i,
                forall|q: int| 0 <= q < i ==> #[trigger] r@[q] == self.pairs()[q].0,
            decreases n - i,
        {
            r.push(self.entries[i].0);
            i = i + 1;
        }
        r
    }

    /// The values, in the table's storage order.
    pub fn values(&self) -> (r: Vec<&V>)
        ensures
            r@.len() == self.pairs().len(),
            forall|i: int| 0 <= i < r@.len() ==> *(#[trigger] r@[i]) == self.pairs()[i].1,
    {
        let mut r: Vec<&V> = Vec::new();
        let n = self.entries.len();
        let mut i: usize = 0;
        while i < n
            invariant
                i <= n,
                n == self.pairs().len(),
                r@.len() == i,
                forall|q: int| 0 <= q < i ==> *(#[trigger] r@[q]) == self.pairs()[q].1,
            decreases n - i,
        {
            r.push(&self.entries[i].1);
            i = i + 1;
        }
        r
    }
}

/// Whether `snap` is a full clone of `orig`: same keys in the same
/// order, each value a clone of the original's, same dirty flag.
pub open spec fn snapshot_of<K: TableKey, V: Clone>(snap: FHashMap<K, V>, orig: FHashMap<K, V>) -> bool {
    &&& snap.wf()
    &&& snap.changed() == orig.changed()
    &&& snap.pairs().len() == orig.pairs().len()
    &&& forall|i: int|
        0 <= i < snap.pairs().len() ==> (#[trigger] snap.pairs()[i]).0 == orig.pairs()[i].0
            && cloned::<V>(orig.pairs()[i].1, snap.pairs()[i].1)
}

/// Whether `snap` is what `changed_or_empty` hands a save: a full clone
/// when `orig` is dirty, else an empty, clean table.
pub open spec fn changed_or_empty_of<K: TableKey, V: Clone>(
    snap: FHashMap<K, V>,
    orig: FHashMap<K, V>,
) -> bool {
    if orig.changed() {
        snapshot_of(snap, orig)
    } else {
        &&& snap.wf()
        &&& !snap.changed()
        &&& snap.pairs().len() == 0
    }
}

impl<K: TableKey, V: Clone> FHashMap<K, V> {
    /// A full clone: same keys in order, each value cloned, same dirty
    /// flag.
    pub fn snapshot(&self) -> (r: Self)
        requires
            self.wf(),
        ensures
            snapshot_of(r, *self),
    {
        let mut es: Vec<(K, V)> = Vec::new();
        let n = self.entries.len();
        let mut i: usize = 0;
        while i < n
            invariant
                self.wf(),
                i <= n,
                n == self.pairs().len(),
                es@.len() == i,
                forall|q: int|
                    0 <= q < i ==> (#[trigger] es@[q]).0 == self.pairs()[q].0 && cloned::<V>(
                        self.pairs()[q].1,
                        es@[q].1,
                    ),
            decreases n - i,
        {
            let v = self.entries[i].1.clone();
            es.push((self.entries[i].0, v));
            i = i + 1;
        }
        proof {
            assert(unique_keys(es@));
        }
        FHashMap { was_changed: self.was_changed, entries: es }
    }

    /// The snapshot a save takes: a full clone when the table is dirty,
    /// else an empty, clean table — a clean table is never rewritten, so
    /// its contents need not travel.
    pub fn changed_or_empty(&self) -> (r: Self)
        requires
            self.wf(),
        ensures
            changed_or_empty_of(r, *self),
    {
        if self.was_changed {
            self.snapshot()
        } else {
            Self::new()
        }
    }
}

} // verus!

verus! {

/// The one protocol revision this library reads and writes.
#[derive(Copy, Clone, Debug, PartialEq, Eq, Structural)]
pub enum ChroniclesProtocol {
    GrandCrusade110,
}

impl Default for ChroniclesProtocol {
    fn default() -> (r: Self)
        ensures
            r == ChroniclesProtocol::GrandCrusade110,
    {
        ChroniclesProtocol::GrandCrusade110
    }
}

/// Everything one loaded session holds: the typed entity tables, the
/// interned string table, and the catalog of table files the session was
/// loaded from.
pub struct GameDataHolder {
    pub protocol_version: ChroniclesProtocol,
    pub initial_dat_paths: Vec<(String, String)>,
    pub npc_holder: FHashMap<crate::entity::NpcId, crate::entity::Npc>,
    pub quest_holder: FHashMap<crate::entity::QuestId, crate::entity::Quest>,
    pub skill_holder: FHashMap<crate::entity::SkillId, crate::entity::Skill>,
    pub item_holder: FHashMap<crate::entity::ItemId, crate::entity::Item>,
    pub weapon_holder: FHashMap<crate::entity::ItemId, crate::entity::Weapon>,
    pub armor_holder: FHashMap<crate::entity::ItemId, crate::entity::Armor>,
    pub etc_item_holder: FHashMap<crate::entity::ItemId, crate::entity::EtcItem>,
    pub item_set_holder: FHashMap<crate::entity::ItemSetId, crate::entity::ItemSet>,
    pub recipe_holder: FHashMap<crate::entity::RecipeId, crate::entity::Recipe>,
    pub npc_strings: FHashMap<u32, String>,
    pub hunting_zone_holder: FHashMap<crate::entity::HuntingZoneId, crate::entity::HuntingZone>,
    pub game_string_table: crate::string_table::L2GeneralStringTable,
}

impl GameDataHolder {
    /// Every table's internal invariant holds.
    pub open spec fn wf(&self) -> bool {
        &&& self.npc_holder.wf()
        &&& self.quest_holder.wf()
        &&& self.skill_holder.wf()
        &&& self.item_holder.wf()
        &&& self.weapon_holder.wf()
        &&& self.armor_holder.wf()
        &&& self.etc_item_holder.wf()
        &&& self.item_set_holder.wf()
        &&& self.recipe_holder.wf()
        &&& self.npc_strings.wf()
        &&& self.hunting_zone_holder.wf()
        &&& self.game_string_table.wf()
    }

    /// An empty session with no tables loaded.
    pub fn new() -> (r: Self)
        ensures
            r.wf(),
            r.npc_holder.pairs().len() == 0,
            r.quest_holder.pairs().len() == 0,
            r.skill_holder.pairs().len() == 0,
            r.item_holder.pairs().len() == 0,
            r.weapon_holder.pairs().len() == 0,
            r.armor_holder.pairs().len() == 0,
            r.etc_item_holder.pairs().len() == 0,
            r.item_set_holder.pairs().len() == 0,
            r.recipe_holder.pairs().len() == 0,
            r.npc_strings.pairs().len() == 0,
            r.hunting_zone_holder.pairs().len() == 0,
            r.game_string_table.strings().len() == 0,
            !r.npc_holder.changed(),
            !r.quest_holder.changed(),
            !r.skill_holder.changed(),
            !r.weapon_holder.changed(),
            !r.armor_holder.changed(),
            !r.etc_item_holder.changed(),
            !r.item_set_holder.changed(),
            !r.recipe_holder.changed(),
            !r.npc_strings.changed(),
            !r.hunting_zone_holder.changed(),
            !r.game_string_table.changed(),
    {
        GameDataHolder {
            protocol_version: ChroniclesProtocol::GrandCrusade110,
            initial_dat_paths: Vec::new(),
            npc_holder: FHashMap::new(),
            quest_holder: FHashMap::new(),
            skill_holder: FHashMap::new(),
            item_holder: FHashMap::new(),
            weapon_holder: FHashMap::new(),
            armor_holder: FHashMap::new(),
            etc_item_holder: FHashMap::new(),
            item_set_holder: FHashMap::new(),
            recipe_holder: FHashMap::new(),
            npc_strings: FHashMap::new(),
            hunting_zone_holder: FHashMap::new(),
            game_string_table: crate::string_table::L2GeneralStringTable::new(),
        }
    }

    /// The display name of an NPC, or the deterministic marker for an
    /// unknown id.
    pub fn get_npc_name(&self, id: &crate::entity::NpcId) -> (r: String)
        requires
            self.npc_holder.wf(),
        ensures
            match self.npc_holder.spec_get(*id) {
                Some(n) => r@ == n.name@,
                None => r@ == "NpcId("@ + crate::text::dec_digits(id.0 as nat)
                    + ") Not Exist!"@,
            },
    {
        match self.npc_holder.get(id) {
            Some(npc) => npc.name.clone(),
            None => {
                let num = crate::text::u32_to_decimal(id.0);
                let mut r = String::from_str("NpcId(");
                r.append(num.as_str());
                r.append(") Not Exist!");
                r
            },
        }
    }

    /// The display name of an item, or the deterministic marker for an
    /// unknown id.
    pub fn get_item_name(&self, id: &crate::entity::ItemId) -> (r: String)
        requires
            self.item_holder.wf(),
        ensures
            match self.item_holder.spec_get(*id) {
                Some(n) => r@ == n.name@,
                None => r@ == "ItemId("@ + crate::text::dec_digits(id.0 as nat)
                    + ") Not Exist!"@,
            },
    {
        match self.item_holder.get(id) {
            Some(item) => item.name.clone(),
            None => {
                let num = crate::text::u32_to_decimal(id.0);
                let mut r = String::from_str("ItemId(");
                r.append(num.as_str());
                r.append(") Not Exist!");
                r
            },
        }
    }

    /// Drops a configured system folder that no longer points at a
    /// directory; `system_folder_ok` is the caller's answer to whether
    /// the configured path still is one.
    pub fn validate_paths(config: &mut crate::backend::Config, system_folder_ok: bool)
        ensures
            final(config).system_folder_path == (if old(config).system_folder_path is Some
                && !system_folder_ok {
                None::<String>
            } else {
                old(config).system_folder_path
            }),
            final(config).npc_spawn_path == old(config).npc_spawn_path,
    {
        if config.system_folder_path.is_some() {
            if !system_folder_ok {
                config.system_folder_path = None;
            }
        }
    }
}

} // verus!
