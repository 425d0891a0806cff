use vstd::prelude::*;
use vstd::multiset::Multiset;
use crate::entity::CommonEntity;
use crate::holder::TableKey;

pub mod armor;
pub mod npc;
pub mod quest;
pub mod recipe;
pub mod skill;
pub mod weapon;

verus! {

/// The editing state of one opened entity: the working copy, the key it
/// was opened under, and the window's UI bookkeeping.
#[derive(Debug)]
pub struct WindowParams<Inner, InitialId, Action, Params> {
    pub inner: Inner,
    pub opened: bool,
    pub initial_id: InitialId,
    pub action: Action,
    pub params: Params,
}

/// Which entity the editor currently shows.
#[derive(Copy, Clone, Debug, PartialEq, Eq, Structural)]
pub enum CurrentEntity {
    Nothing,
    Armor(usize),
    EtcItem(usize),
    Npc(usize),
    Quest(usize),
    Recipe(usize),
    Skill(usize),
    Weapon(usize),
}

/// The opened editing windows of one entity kind.
pub struct EntityEditParams<Entity, Id, Action, Params> {
    pub opened: Vec<WindowParams<Entity, Id, Action, Params>>,
}

impl<Entity: CommonEntity<Id>, Id: TableKey, Action, Params> EntityEditParams<
    Entity,
    Id,
    Action,
    Params,
> {
    /// No windows opened.
    pub fn new() -> (r: Self)
        ensures
            r.opened@.len() == 0,
    {
        EntityEditParams { opened: Vec::new() }
    }

    /// Opens a window for `e` under the key `id` and returns its index.
    pub fn add(&mut self, e: Entity, id: Id, action: Action, params: Params) -> (r: usize)
        ensures
            final(self).opened@.len() == old(self).opened@.len() + 1,
            r == old(self).opened@.len(),
            forall|i: int|
                0 <= i < old(self).opened@.len() ==> #[trigger] final(self).opened@[i]
                    == old(self).opened@[i],
            final(self).opened@.last().inner == e,
            final(self).opened@.last().initial_id == id,
    {
        let r = self.opened.len();
        self.opened.push(
            WindowParams { inner: e, opened: false, initial_id: id, action, params },
        );
        r
    }

    /// Opens a window for a fresh entity carrying `id` and returns its
    /// index.
    pub fn add_new(&mut self, id: Id, action: Action, params: Params) -> (r: usize)
        ensures
            final(self).opened@.len() == old(self).opened@.len() + 1,
            r == old(self).opened@.len(),
            forall|i: int|
                0 <= i < old(self).opened@.len() ==> #[trigger] final(self).opened@[i]
                    == old(self).opened@[i],
            final(self).opened@.last().inner.spec_id() == id,
            final(self).opened@.last().initial_id == id,
    {
        let e = Entity::new(id);
        self.add(e, id, action, params)
    }

    /// The opened windows' names, keys and visibility, in window order.
    pub fn get_opened_info(&self) -> (r: Vec<(String, Id, bool)>)
        ensures
            r@.len() == self.opened@.len(),
            forall|i: int|
                0 <= i < r@.len() ==> {
                    &&& (#[trigger] r@[i]).0@ == self.opened@[i].inner.spec_name()
                    &&& r@[i].1 == self.opened@[i].initial_id
                    &&& r@[i].2 == self.opened@[i].opened
                },
    {
        let mut r: Vec<(String, Id, bool)> = Vec::new();
        let n = self.opened.len();
        let mut i: usize = 0;
        while i < n
            invariant
                i <= n,
                n == self.opened@.len(),
                r@.len() == i,
                forall|q: int|
                    0 <= q < i ==> {
                        &&& (#[trigger] r@[q]).0@ == self.opened@[q].inner.spec_name()
                        &&& r@[q].1 == self.opened@[q].initial_id
                        &&& r@[q].2 == self.opened@[q].opened
                    },
            decreases n - i,
        {
            let name = self.opened[i].inner.name();
            r.push((name, self.opened[i].initial_id, self.opened[i].opened));
            i = i + 1;
        }
        r
    }

    /// Closes the window at `index`, shifting the ones after it down.
    pub fn remove(&mut self, index: usize)
        requires
            index < old(self).opened@.len(),
        ensures
            final(self).opened@ == old(self).opened@.remove(index as int),
    {
        self.opened.remove(index);
    }
}

/// A catalog row: the key and display name a selector list shows.
pub trait HasId: Sized {
    /// The numeric key the catalog is ordered by.
    spec fn sid(&self) -> u32;

    /// Returns the numeric key.
    fn id_val(&self) -> (r: u32)
        ensures
            r == self.sid(),
    ;
}

/// Sorts catalog rows by their numeric key, ascending. The result is a
/// permutation of the input.
#[verifier::loop_isolation(false)]
pub fn sort_by_id<T: HasId>(v: Vec<T>) -> (r: Vec<T>)
    ensures
        r@.to_multiset() == v@.to_multiset(),
        forall|i: int, j: int|
            0 <= i < j < r@.len() ==> (#[trigger] r@[i]).sid() <= (#[trigger] r@[j]).sid(),
{
    broadcast use vstd::seq_lib::group_to_multiset_ensures;

    let mut rest = v;
    let mut out: Vec<T> = Vec::new();
    loop
        invariant
            out@.to_multiset().add(rest@.to_multiset()) =~= v@.to_multiset(),
            forall|i: int, j: int|
                0 <= i < j < out@.len() ==> (#[trigger] out@[i]).sid() <= (#[trigger] out@[j]).sid(),
        decreases rest@.len(),
    {
        let ghost rest0 = rest@;
        let ghost out0_ms = out@.to_multiset();
        let popped = rest.pop();
        match popped {
            None => {
                proof {
                    assert(rest@.to_multiset() =~= Multiset::<T>::empty());
                    assert(out@.to_multiset().add(rest@.to_multiset()) =~= out@.to_multiset());
                }
                return out;
            },
            Some(x) => {
                proof {
                    assert(rest@.push(x) =~= rest0);
                    assert(rest@.push(x).to_multiset() =~= rest@.to_multiset().insert(x));
                    assert(rest0.to_multiset() =~= rest@.to_multiset().insert(x));
                }
                let xv = x.id_val();
                let mut pos: usize = 0;
                while pos < out.len() && out[pos].id_val() <= xv
                    invariant
                        pos <= out@.len(),
                        forall|q: int| 0 <= q < pos ==> (#[trigger] out@[q]).sid() <= x.sid(),
                    decreases out@.len() - pos,
                {
                    pos = pos + 1;
                }
                let ghost before = out@;
                out.insert(pos, x);
                proof {
                    assert(out@.remove(pos as int) =~= before);
                    assert(out@.to_multiset().remove(out@[pos as int]) =~= before.to_multiset());
                    assert(out@[pos as int] == x);
                    assert(out@.to_multiset().contains(x));
                    assert(out@.to_multiset() =~= before.to_multiset().insert(x));
                    assert(forall|q: int|
                        0 <= q < out@.len() ==> (#[trigger] out@[q]) == (if q < pos {
                            before[q]
                        } else if q == pos {
                            x
                        } else {
                            before[q - 1]
                        }));
                    assert(out@.to_multiset().add(rest@.to_multiset()) =~= v@.to_multiset());
                }
            },
        }
    }
}

} // verus!

verus! {

/// The session's file-system configuration, as plain paths. Checking
/// what the paths point at is the caller's business.
pub struct Config {
    pub system_folder_path: Option<String>,
    pub npc_spawn_path: Option<String>,
}

/// The loaded game data. The server-side companion data of the original
/// editor is outside this library's scope.
pub struct DataHolder {
    pub game_data_holder: crate::holder::GameDataHolder,
}

/// The selector catalogs and the filter strings that shape them.
pub struct FilterParams {
    pub npc_filter_string: String,
    pub npc_catalog: Vec<crate::backend::npc::NpcInfo>,
    pub quest_filter_string: String,
    pub quest_catalog: Vec<crate::backend::quest::QuestInfo>,
    pub skill_filter_string: String,
    pub skill_catalog: Vec<crate::backend::skill::SkillInfo>,
    pub weapon_filter_string: String,
    pub weapon_catalog: Vec<crate::backend::weapon::WeaponInfo>,
    pub armor_filter_string: String,
    pub armor_catalog: Vec<crate::backend::armor::ArmorInfo>,
    pub recipe_filter_string: String,
    pub recipe_catalog: Vec<crate::backend::recipe::RecipeInfo>,
}

/// The opened editors of every entity kind, and which one is current.
pub struct EditParams {
    pub npcs: crate::backend::npc::NpcEditor,
    pub quests: crate::backend::quest::QuestEditor,
    pub skills: crate::backend::skill::SkillEditor,
    pub weapons: crate::backend::weapon::WeaponEditor,
    pub armor: crate::backend::armor::ArmorEditor,
    pub recipes: crate::backend::recipe::RecipeEditor,
    pub current_entity: CurrentEntity,
}

/// The window the editor falls back to when the current one closes: the
/// last window of the first non-empty editor, in a fixed kind order.
pub open spec fn fallback_entity(e: &EditParams) -> CurrentEntity {
    if e.npcs.opened@.len() > 0 {
        CurrentEntity::Npc((e.npcs.opened@.len() - 1) as usize)
    } else if e.quests.opened@.len() > 0 {
        CurrentEntity::Quest((e.quests.opened@.len() - 1) as usize)
    } else if e.skills.opened@.len() > 0 {
        CurrentEntity::Skill((e.skills.opened@.len() - 1) as usize)
    } else if e.weapons.opened@.len() > 0 {
        CurrentEntity::Weapon((e.weapons.opened@.len() - 1) as usize)
    } else if e.armor.opened@.len() > 0 {
        CurrentEntity::Armor((e.armor.opened@.len() - 1) as usize)
    } else if e.recipes.opened@.len() > 0 {
        CurrentEntity::Recipe((e.recipes.opened@.len() - 1) as usize)
    } else {
        CurrentEntity::Nothing
    }
}

/// Whether every editor of `b` holds the same windows as in `a`.
pub open spec fn same_windows(a: &EditParams, b: &EditParams) -> bool {
    &&& a.npcs.opened@ == b.npcs.opened@
    &&& a.quests.opened@ == b.quests.opened@
    &&& a.skills.opened@ == b.skills.opened@
    &&& a.weapons.opened@ == b.weapons.opened@
    &&& a.armor.opened@ == b.armor.opened@
    &&& a.recipes.opened@ == b.recipes.opened@
}

impl EditParams {
    /// No editors opened.
    pub fn new() -> (r: Self)
        ensures
            r.npcs.opened@.len() == 0,
            r.quests.opened@.len() == 0,
            r.skills.opened@.len() == 0,
            r.weapons.opened@.len() == 0,
            r.armor.opened@.len() == 0,
            r.recipes.opened@.len() == 0,
            r.current_entity == CurrentEntity::Nothing,
    {
        EditParams {
            npcs: EntityEditParams::new(),
            quests: EntityEditParams::new(),
            skills: EntityEditParams::new(),
            weapons: EntityEditParams::new(),
            armor: EntityEditParams::new(),
            recipes: EntityEditParams::new(),
            current_entity: CurrentEntity::Nothing,
        }
    }

    /// Points the editor at whatever window is still open, if any.
    pub fn find_opened_entity(&mut self)
        ensures
            same_windows(old(self), final(self)),
            final(self).current_entity == fallback_entity(old(self)),
    {
        if self.npcs.opened.len() > 0 {
            self.current_entity = CurrentEntity::Npc(self.npcs.opened.len() - 1);
        } else if self.quests.opened.len() > 0 {
            self.current_entity = CurrentEntity::Quest(self.quests.opened.len() - 1);
        } else if self.skills.opened.len() > 0 {
            self.current_entity = CurrentEntity::Skill(self.skills.opened.len() - 1);
        } else if self.weapons.opened.len() > 0 {
            self.current_entity = CurrentEntity::Weapon(self.weapons.opened.len() - 1);
        } else if self.armor.opened.len() > 0 {
            self.current_entity = CurrentEntity::Armor(self.armor.opened.len() - 1);
        } else if self.recipes.opened.len() > 0 {
            self.current_entity = CurrentEntity::Recipe(self.recipes.opened.len() - 1);
        } else {
            self.current_entity = CurrentEntity::Nothing;
        }
    }
}

/// The editor's state as a whole: loaded data, opened editors, selector
/// catalogs, configuration, and whether anything is still unsaved.
pub struct Backend {
    pub holders: DataHolder,
    pub edit_params: EditParams,
    pub filter_params: FilterParams,
    pub config: Config,
    pub has_unsaved_changes: bool,
}

impl Backend {
    /// Whether an edit was stored since the last save.
    pub open spec fn dirty(&self) -> bool {
        self.has_unsaved_changes
    }

    /// A fresh session around empty game data.
    pub fn new() -> (r: Self)
        ensures
            r.holders.game_data_holder.wf(),
            !r.dirty(),
            r.edit_params.current_entity == CurrentEntity::Nothing,
    {
        Backend {
            holders: DataHolder { game_data_holder: crate::holder::GameDataHolder::new() },
            edit_params: EditParams::new(),
            filter_params: FilterParams {
                npc_filter_string: String::new(),
                npc_catalog: Vec::new(),
                quest_filter_string: String::new(),
                quest_catalog: Vec::new(),
                skill_filter_string: String::new(),
                skill_catalog: Vec::new(),
                weapon_filter_string: String::new(),
                weapon_catalog: Vec::new(),
                armor_filter_string: String::new(),
                armor_catalog: Vec::new(),
                recipe_filter_string: String::new(),
                recipe_catalog: Vec::new(),
            },
            config: Config { system_folder_path: None, npc_spawn_path: None },
            has_unsaved_changes: false,
        }
    }

    /// Records that an edit was stored.
    pub(crate) fn set_changed(&mut self)
        ensures
            final(self).holders == old(self).holders,
            final(self).edit_params == old(self).edit_params,
            final(self).filter_params == old(self).filter_params,
            final(self).config == old(self).config,
            final(self).dirty(),
    {
        self.has_unsaved_changes = true;
    }

    /// Remembers the spawn directory the session works against.
    pub fn update_npc_spawn_path(&mut self, path: String)
        ensures
            final(self).holders == old(self).holders,
            final(self).edit_params == old(self).edit_params,
            final(self).filter_params == old(self).filter_params,
            final(self).dirty() == old(self).dirty(),
            final(self).config.npc_spawn_path == Some(path),
            final(self).config.system_folder_path == old(self).config.system_folder_path,
    {
        self.config.npc_spawn_path = Some(path);
    }
}

} // verus!

verus! {

/// Two sequences with the same multiset keep the same multiset under any
/// per-element mapping.
pub proof fn lemma_map_values_multiset<A, B>(a: Seq<A>, b: Seq<A>, f: spec_fn(A) -> B)
    requires
        a.to_multiset() == b.to_multiset(),
    ensures
        a.map_values(f).to_multiset() == b.map_values(f).to_multiset(),
    decreases a.len(),
{
    broadcast use vstd::seq_lib::group_to_multiset_ensures;

    if a.len() == 0 {
        assert(b.to_multiset().len() == 0);
        assert(b.len() == 0);
        assert(a.map_values(f).to_multiset() =~= b.map_values(f).to_multiset());
    } else {
        let x = a.last();
        assert(a.to_multiset().contains(x)) by {
            assert(a.contains(x));
        }
        assert(b.to_multiset().contains(x));
        assert(b.contains(x));
        let j = choose|j: int| 0 <= j < b.len() && b[j] == x;
        assert(a.drop_last() =~= a.remove(a.len() - 1));
        assert(a.remove(a.len() - 1).to_multiset() =~= a.to_multiset().remove(x));
        assert(b.remove(j).to_multiset() =~= b.to_multiset().remove(x));
        lemma_map_values_multiset(a.drop_last(), b.remove(j), f);
        assert(a.map_values(f) =~= a.drop_last().map_values(f).push(f(x)));
        assert(a.map_values(f).to_multiset() =~= a.drop_last().map_values(f).to_multiset().insert(
            f(x),
        ));
        assert(b.remove(j).map_values(f) =~= b.map_values(f).remove(j));
        assert(b.map_values(f).remove(j).to_multiset() =~= b.map_values(f).to_multiset().remove(
            f(x),
        ));
        assert(b.map_values(f).to_multiset().contains(f(x))) by {
            assert(b.map_values(f)[j] == f(x));
            assert(b.map_values(f).contains(f(x)));
        }
        assert(a.map_values(f).to_multiset() =~= b.map_values(f).to_multiset());
    }
}

} // verus!
