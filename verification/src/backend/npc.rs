use vstd::prelude::*;
use crate::backend::Backend;
use crate::backend::CurrentEntity;
use crate::backend::EditParams;
use crate::backend::EntityEditParams;
use crate::backend::HasId;
use crate::backend::fallback_entity;
use crate::backend::lemma_map_values_multiset;
use crate::backend::same_windows;
use crate::backend::sort_by_id;
use crate::entity::Npc;
use crate::entity::NpcId;
use crate::holder::FHashMap;
use crate::holder::GameDataHolder;
use crate::holder::TableKey;
use crate::text::contains_seq;
use crate::text::dec_digits;
use crate::text::dec_val;
use crate::text::is_u32_numeral;
use crate::text::lower_of;
use crate::text::lowercase;
use crate::text::numeral_digits;
use crate::text::parse_u32;
use crate::text::str_contains;
use crate::text::u32_to_decimal;
use vstd::string::StrSliceExecFns;
use vstd::string::StringExecFns;

verus! {

/// The editor state for NPCs.
pub type NpcEditor = EntityEditParams<Npc, NpcId, NpcAction, ()>;

/// What an NPC mesh sub-window asks the next frame to do.
#[derive(Copy, Clone, Debug)]
pub enum NpcMeshAction {
    Nothing,
    RemoveMeshTexture(usize),
    RemoveMeshAdditionalTexture(usize),
    RemoveMeshDecoration(usize),
}

/// What an NPC sound sub-window asks the next frame to do.
#[derive(Copy, Clone, Debug)]
pub enum NpcSoundAction {
    Nothing,
    RemoveSoundDamage(usize),
    RemoveSoundAttack(usize),
    RemoveSoundDefence(usize),
    RemoveSoundDialog(usize),
}

/// What an NPC skill-animation sub-window asks the next frame to do.
#[derive(Copy, Clone, Debug)]
pub enum NpcSkillAnimationAction {
    Nothing,
    RemoveSkillAnimation(usize),
}

/// What an NPC window asks the next frame to do.
#[derive(Copy, Clone, Debug)]
pub enum NpcAction {
    Nothing,
    RemoveProperty(usize),
    RemoveQuest(usize),
}

/// One row of the NPC selector catalog.
pub struct NpcInfo {
    pub id: NpcId,
    pub name: String,
}

impl HasId for NpcInfo {
    open spec fn sid(&self) -> u32 {
        self.id.0
    }

    fn id_val(&self) -> (r: u32) {
        self.id.0
    }
}

impl NpcInfo {
    /// The catalog row of an NPC.
    pub fn from_npc(n: &Npc) -> (r: NpcInfo)
        ensures
            r.id == n.id,
            r.name@ == n.name@,
    {
        NpcInfo { id: n.id, name: n.name.clone() }
    }
}

/// Whether an NPC passes the filter string. The filter is lowercased
/// first: an empty result passes everything, a numeral selects one id,
/// any other text matches case-insensitively against the name.
pub open spec fn npc_matches(n: Npc, f: Seq<char>) -> bool {
    let l = lower_of(f);
    if l.len() == 0 {
        true
    } else if is_u32_numeral(l) {
        n.id.0 as nat == dec_val(numeral_digits(l))
    } else {
        contains_seq(lower_of(n.name@), l)
    }
}

/// The catalog row of one entry.
pub open spec fn npc_row(p: (NpcId, Npc)) -> (u32, Seq<char>) {
    (p.1.id.0, p.1.name@)
}

/// The view of a built catalog row.
pub open spec fn npc_info_row(i: NpcInfo) -> (u32, Seq<char>) {
    (i.id.0, i.name@)
}

/// The rows of the entries of `s` that pass the filter, in table order.
pub open spec fn npc_rows(s: Seq<(NpcId, Npc)>, f: Seq<char>) -> Seq<(u32, Seq<char>)>
    decreases s.len(),
{
    if s.len() == 0 {
        Seq::empty()
    } else {
        let rest = npc_rows(s.drop_last(), f);
        if npc_matches(s.last().1, f) {
            rest.push(npc_row(s.last()))
        } else {
            rest
        }
    }
}

impl EditParams {
    /// The opened NPC windows' names and keys, in window order.
    pub fn get_opened_npcs_info(&self) -> (r: Vec<(String, NpcId)>)
        ensures
            r@.len() == self.npcs.opened@.len(),
            forall|i: int|
                0 <= i < r@.len() ==> {
                    &&& (#[trigger] r@[i]).0@ == self.npcs.opened@[i].inner.name@
                    &&& r@[i].1 == self.npcs.opened@[i].initial_id
                },
    {
        let mut r: Vec<(String, NpcId)> = Vec::new();
        let n = self.npcs.opened.len();
        let mut i: usize = 0;
        while i < n
            invariant
                i <= n,
                n == self.npcs.opened@.len(),
                r@.len() == i,
                forall|q: int|
                    0 <= q < i ==> {
                        &&& (#[trigger] r@[q]).0@ == self.npcs.opened@[q].inner.name@
                        &&& r@[q].1 == self.npcs.opened@[q].initial_id
                    },
            decreases n - i,
        {
            let w = &self.npcs.opened[i];
            r.push((w.inner.name.clone(), w.initial_id));
            i = i + 1;
        }
        r
    }

    /// Brings the NPC with key `id` to the front: focuses its window if
    /// one is open, else opens a window on a copy of the stored NPC, and
    /// does nothing when the table has no such NPC.
    #[verifier::loop_isolation(false)]
    pub fn open_npc(&mut self, id: NpcId, holder: &mut FHashMap<NpcId, Npc>)
        requires
            old(holder).wf(),
        ensures
            *final(holder) == *old(holder),
            ({
                let op = old(self).npcs.opened@;
                if exists|i: int| 0 <= i < op.len() && (#[trigger] op[i]).initial_id == id {
                    &&& same_windows(old(self), final(self))
                    &&& exists|i: int|
                        {
                            &&& 0 <= i < op.len()
                            &&& (#[trigger] op[i]).initial_id == id
                            &&& forall|j: int| 0 <= j < i ==> (#[trigger] op[j]).initial_id != id
                            &&& final(self).current_entity == CurrentEntity::Npc(i as usize)
                        }
                } else {
                    match old(holder).spec_get(id) {
                        Some(v) => {
                            &&& final(self).npcs.opened@.len() == op.len() + 1
                            &&& forall|j: int|
                                0 <= j < op.len() ==> #[trigger] final(self).npcs.opened@[j]
                                    == op[j]
                            &&& final(self).npcs.opened@.last().initial_id == id
                            &&& final(self).npcs.opened@.last().inner.id == v.id
                            &&& final(self).npcs.opened@.last().inner.name@ == v.name@
                            &&& final(self).current_entity == CurrentEntity::Npc(op.len() as usize)
                            &&& final(self).quests.opened@ == old(self).quests.opened@
                            &&& final(self).skills.opened@ == old(self).skills.opened@
                            &&& final(self).weapons.opened@ == old(self).weapons.opened@
                            &&& final(self).armor.opened@ == old(self).armor.opened@
                            &&& final(self).recipes.opened@ == old(self).recipes.opened@
                        },
                        None => *final(self) == *old(self),
                    }
                }
            }),
    {
        let n = self.npcs.opened.len();
        let mut i: usize = 0;
        while i < n
            invariant
                *self == *old(self),
                i <= n,
                n == self.npcs.opened@.len(),
                forall|j: int| 0 <= j < i ==> (#[trigger] self.npcs.opened@[j]).initial_id != id,
            decreases n - i,
        {
            if self.npcs.opened[i].initial_id.key_eq(&id) {
                self.current_entity = CurrentEntity::Npc(i);
                proof {
                    let op = old(self).npcs.opened@;
                    assert(op[i as int].initial_id == id);
                    assert(forall|j: int| 0 <= j < i as int ==> (#[trigger] op[j]).initial_id
                        != id);
                    assert((i as int) as usize == i);
                    assert(self.current_entity == CurrentEntity::Npc(i));
                }
                return ;
            }
            i = i + 1;
        }
        match holder.get(&id) {
            Some(v) => {
                let copy = v.clone();
                let at = self.npcs.add(copy, id, NpcAction::Nothing, ());
                self.current_entity = CurrentEntity::Npc(at);
            },
            None => {},
        }
    }

    /// Makes the NPC window at `index` current, if there is one.
    pub fn set_current_npc(&mut self, index: usize)
        ensures
            same_windows(old(self), final(self)),
            final(self).current_entity == (if index < old(self).npcs.opened@.len() {
                CurrentEntity::Npc(index)
            } else {
                old(self).current_entity
            }),
    {
        if index < self.npcs.opened.len() {
            self.current_entity = CurrentEntity::Npc(index);
        }
    }

    /// Closes the NPC window at `index`. When the current window was an
    /// NPC window at or after it, the focus moves one window down, or to
    /// whatever is still open when none is left.
    pub fn close_npc(&mut self, index: usize)
        requires
            index < old(self).npcs.opened@.len(),
        ensures
            final(self).npcs.opened@ == old(self).npcs.opened@.remove(index as int),
            final(self).quests.opened@ == old(self).quests.opened@,
            final(self).skills.opened@ == old(self).skills.opened@,
            final(self).weapons.opened@ == old(self).weapons.opened@,
            final(self).armor.opened@ == old(self).armor.opened@,
            final(self).recipes.opened@ == old(self).recipes.opened@,
            final(self).current_entity == (match old(self).current_entity {
                CurrentEntity::Npc(cur) => {
                    if old(self).npcs.opened@.len() == 1 {
                        fallback_entity(final(self))
                    } else if cur >= index {
                        CurrentEntity::Npc((if cur > 1 {
                            cur - 1
                        } else {
                            0
                        }) as usize)
                    } else {
                        old(self).current_entity
                    }
                },
                _ => old(self).current_entity,
            }),
    {
        self.npcs.remove(index);
        if let CurrentEntity::Npc(curr_index) = self.current_entity {
            if self.npcs.opened.len() == 0 {
                self.find_opened_entity();
            } else if curr_index >= index {
                let base = if curr_index > 1 {
                    curr_index
                } else {
                    1
                };
                self.current_entity = CurrentEntity::Npc(base - 1);
            }
        }
    }

    /// Opens a window on a fresh NPC and makes it current.
    pub fn create_new_npc(&mut self)
        ensures
            final(self).npcs.opened@.len() == old(self).npcs.opened@.len() + 1,
            forall|j: int|
                0 <= j < old(self).npcs.opened@.len() ==> #[trigger] final(self).npcs.opened@[j]
                    == old(self).npcs.opened@[j],
            final(self).npcs.opened@.last().inner.id == NpcId(0),
            final(self).npcs.opened@.last().initial_id == NpcId(0),
            final(self).current_entity == CurrentEntity::Npc(old(self).npcs.opened@.len() as usize),
            final(self).quests.opened@ == old(self).quests.opened@,
            final(self).skills.opened@ == old(self).skills.opened@,
            final(self).weapons.opened@ == old(self).weapons.opened@,
            final(self).armor.opened@ == old(self).armor.opened@,
            final(self).recipes.opened@ == old(self).recipes.opened@,
    {
        let at = self.npcs.add_new(NpcId(0), NpcAction::Nothing, ());
        self.current_entity = CurrentEntity::Npc(at);
    }
}

impl Backend {
    /// Rebuilds the NPC selector catalog: the rows of exactly the NPCs
    /// that pass the filter string, ordered by id ascending.
    #[verifier::loop_isolation(false)]
    pub fn filter_npcs(&mut self)
        requires
            old(self).holders.game_data_holder.npc_holder.wf(),
        ensures
            final(self).holders == old(self).holders,
            final(self).edit_params == old(self).edit_params,
            final(self).config == old(self).config,
            final(self).dirty() == old(self).dirty(),
            final(self).filter_params.npc_filter_string@
                == old(self).filter_params.npc_filter_string@,
            ({
                let c = final(self).filter_params.npc_catalog@;
                let rows = npc_rows(
                    old(self).holders.game_data_holder.npc_holder.pairs(),
                    old(self).filter_params.npc_filter_string@,
                );
                &&& c.map_values(|i: NpcInfo| npc_info_row(i)).to_multiset() == rows.to_multiset()
                &&& forall|i: int, j: int|
                    0 <= i < j < c.len() ==> (#[trigger] c[i]).id.0 <= (#[trigger] c[j]).id.0
            }),
    {
        let low = lowercase(self.filter_params.npc_filter_string.as_str());
        let ghost f = self.filter_params.npc_filter_string@;
        let all = low.as_str().unicode_len() == 0;
        let by_id = if all {
            None
        } else {
            parse_u32(low.as_str())
        };
        let holder = &self.holders.game_data_holder.npc_holder;
        let ghost pairs = holder.pairs();
        let mut infos: Vec<NpcInfo> = Vec::new();
        let n = holder.len();
        let mut j: usize = 0;
        while j < n
            invariant
                j <= n,
                n == pairs.len(),
                pairs == holder.pairs(),
                holder == self.holders.game_data_holder.npc_holder,
                low@ == lower_of(f),
                all == (lower_of(f).len() == 0),
                by_id == (if all {
                    None::<u32>
                } else if is_u32_numeral(lower_of(f)) {
                    Some(dec_val(numeral_digits(lower_of(f))) as u32)
                } else {
                    None::<u32>
                }),
                infos@.map_values(|i: NpcInfo| npc_info_row(i)) == npc_rows(
                    pairs.take(j as int),
                    f,
                ),
            decreases n - j,
        {
            let (_, v) = holder.pair_at(j);
            let matched: bool = if all {
                true
            } else {
                match by_id {
                    Some(idv) => v.id.0 == idv,
                    None => {
                        let vname = lowercase(v.name.as_str());
                        str_contains(vname.as_str(), low.as_str())
                    },
                }
            };
            proof {
                assert(matched == npc_matches(pairs[j as int].1, f));
                assert(pairs.take(j as int + 1).drop_last() =~= pairs.take(j as int));
                assert(pairs.take(j as int + 1).last() == pairs[j as int]);
            }
            if matched {
                let info = NpcInfo::from_npc(v);
                infos.push(info);
                proof {
                    assert(infos@.map_values(|i: NpcInfo| npc_info_row(i)) =~= npc_rows(
                        pairs.take(j as int + 1),
                        f,
                    ));
                }
            } else {
                proof {
                    assert(infos@.map_values(|i: NpcInfo| npc_info_row(i)) =~= npc_rows(
                        pairs.take(j as int + 1),
                        f,
                    ));
                }
            }
            j = j + 1;
        }
        proof {
            assert(pairs.take(n as int) =~= pairs);
        }
        let ghost unsorted = infos@;
        let sorted = sort_by_id(infos);
        proof {
            lemma_map_values_multiset(sorted@, unsorted, |i: NpcInfo| npc_info_row(i));
        }
        self.filter_params.npc_catalog = sorted;
    }

    /// Stores the currently edited NPC back into its table, if the
    /// current window is an NPC window holding the given key.
    pub fn save_npc_from_dlg(&mut self, npc_id: NpcId)
        requires
            old(self).holders.game_data_holder.npc_holder.wf(),
            match old(self).edit_params.current_entity {
                CurrentEntity::Npc(i) => i < old(self).edit_params.npcs.opened@.len(),
                _ => true,
            },
        ensures
            match old(self).edit_params.current_entity {
                CurrentEntity::Npc(i) => {
                    let w = old(self).edit_params.npcs.opened@[i as int];
                    if w.inner.id == npc_id {
                        saved_npc(old(self), final(self), w.inner)
                    } else {
                        *final(self) == *old(self)
                    }
                },
                _ => *final(self) == *old(self),
            },
    {
        if let CurrentEntity::Npc(index) = self.edit_params.current_entity {
            let do_save = self.edit_params.npcs.opened[index].inner.id.key_eq(&npc_id);
            if do_save {
                let npc = self.edit_params.npcs.opened[index].inner.clone();
                self.save_npc_force(npc);
            }
        }
    }

    /// Stores `npc` into its table under its own key, unconditionally,
    /// and rebuilds the NPC catalog.
    pub fn save_npc_force(&mut self, npc: Npc)
        requires
            old(self).holders.game_data_holder.npc_holder.wf(),
        ensures
            saved_npc(old(self), final(self), npc),
            match final(self).holders.game_data_holder.npc_holder.spec_get(npc.id) {
                Some(v) => v == npc,
                None => false,
            },
    {
        let id = npc.id;
        self.holders.game_data_holder.npc_holder.insert(id, npc);
        self.filter_npcs();
    }
}

/// What holds after an NPC carrying `n`'s key and name was stored: the
/// table maps the key to it, every other key is untouched, the table is
/// dirty, and the catalog was rebuilt against the new table.
pub open spec fn saved_npc(b0: &Backend, b1: &Backend, n: Npc) -> bool {
    let h0 = b0.holders.game_data_holder.npc_holder;
    let h1 = b1.holders.game_data_holder.npc_holder;
    &&& h1.wf()
    &&& h1.changed()
    &&& match h1.spec_get(n.id) {
        Some(v) => v.id == n.id && v.name@ == n.name@,
        None => false,
    }
    &&& forall|k: NpcId| k != n.id ==> h1.spec_get(k) == h0.spec_get(k)
    &&& b1.edit_params == b0.edit_params
    &&& b1.config == b0.config
    &&& ({
        let c = b1.filter_params.npc_catalog@;
        let rows = npc_rows(h1.pairs(), b0.filter_params.npc_filter_string@);
        &&& c.map_values(|i: NpcInfo| npc_info_row(i)).to_multiset() == rows.to_multiset()
        &&& forall|i: int, j: int|
            0 <= i < j < c.len() ==> (#[trigger] c[i]).id.0 <= (#[trigger] c[j]).id.0
    })
}

/// The labels the spawn viewer shows for NPCs: "name [id]" for every NPC
/// in the table, in table order.
pub fn npc_spawn_labels(holder: &GameDataHolder) -> (r: Vec<(u32, String)>)
    ensures
        r@.len() == holder.npc_holder.pairs().len(),
        forall|i: int|
            0 <= i < r@.len() ==> {
                let p = holder.npc_holder.pairs()[i];
                &&& (#[trigger] r@[i]).0 == p.1.id.0
                &&& r@[i].1@ == p.1.name@ + " ["@ + dec_digits(p.1.id.0 as nat) + "]"@
            },
{
    let mut r: Vec<(u32, String)> = Vec::new();
    let n = holder.npc_holder.len();
    let mut i: usize = 0;
    while i < n
        invariant
            i <= n,
            n == holder.npc_holder.pairs().len(),
            r@.len() == i,
            forall|q: int|
                0 <= q < i ==> {
                    let p = holder.npc_holder.pairs()[q];
                    &&& (#[trigger] r@[q]).0 == p.1.id.0
                    &&& r@[q].1@ == p.1.name@ + " ["@ + dec_digits(p.1.id.0 as nat) + "]"@
                },
        decreases n - i,
    {
        let (_, v) = holder.npc_holder.pair_at(i);
        let mut label = v.name.clone();
        label.append(" [");
        let num = u32_to_decimal(v.id.0);
        label.append(num.as_str());
        label.append("]");
        proof {
            let p = holder.npc_holder.pairs()[i as int];
            assert(label@ =~= p.1.name@ + " ["@ + dec_digits(p.1.id.0 as nat) + "]"@);
        }
        r.push((v.id.0, label));
        i = i + 1;
    }
    r
}

} // verus!
