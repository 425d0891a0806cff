use vstd::prelude::*;
use crate::backend::Backend;
use crate::backend::CurrentEntity;
use crate::backend::EditParams;
use crate::backend::EntityEditParams;
use crate::backend::HasId;
use crate::backend::lemma_map_values_multiset;
use crate::backend::same_windows;
use crate::backend::sort_by_id;
use crate::entity::Armor;
use crate::entity::ItemId;
use crate::entity::item_base_equiv;
use crate::holder::FHashMap;
use crate::holder::TableKey;
use crate::text::contains_seq;
use crate::text::dec_val;
use crate::text::is_u32_numeral;
use crate::text::lower_of;
use crate::text::lowercase;
use crate::text::numeral_digits;
use crate::text::parse_u32;
use crate::text::str_contains;
use vstd::string::StrSliceExecFns;
use vstd::string::StringExecFns;

verus! {

/// The editor state for armor pieces.
pub type ArmorEditor = EntityEditParams<Armor, ItemId, ArmorAction, ()>;

/// What an armor window asks the next frame to do.
#[derive(Copy, Clone, Debug)]
pub enum ArmorAction {
    Nothing,
    RemoveSound(usize),
}

/// What an item's additional-info sub-window asks the next frame to do.
#[derive(Copy, Clone, Debug)]
pub enum ItemAdditionalInfoAction {
    Nothing,
    RemoveItem(usize),
}

/// What an item's drop-info sub-window asks the next frame to do.
#[derive(Copy, Clone, Debug)]
pub enum ItemDropInfoAction {
    Nothing,
    RemoveMesh(usize),
}

/// One row of the armor selector catalog.
pub struct ArmorInfo {
    pub id: ItemId,
    pub name: String,
}

impl HasId for ArmorInfo {
    open spec fn sid(&self) -> u32 {
        self.id.0
    }

    fn id_val(&self) -> (r: u32) {
        self.id.0
    }
}

impl ArmorInfo {
    /// The catalog row of an armor piece: its name and additional name,
    /// space separated.
    pub fn from_armor(a: &Armor) -> (r: ArmorInfo)
        ensures
            r.id == a.base_info.id,
            r.name@ == a.base_info.name@ + " "@ + a.base_info.additional_name@,
    {
        let mut name = a.base_info.name.clone();
        name.append(" ");
        name.append(a.base_info.additional_name.as_str());
        ArmorInfo { id: a.base_info.id, name }
    }
}

/// Whether an armor piece passes the filter string. The filter is
/// lowercased first: an empty result passes everything, a numeral
/// selects one id, any other text matches case-insensitively against
/// the name or the additional name.
pub open spec fn armor_matches(a: Armor, f: Seq<char>) -> bool {
    let l = lower_of(f);
    if l.len() == 0 {
        true
    } else if is_u32_numeral(l) {
        a.base_info.id.0 as nat == dec_val(numeral_digits(l))
    } else {
        contains_seq(lower_of(a.base_info.name@), l) || contains_seq(
            lower_of(a.base_info.additional_name@),
            l,
        )
    }
}

/// The catalog row of one entry.
pub open spec fn armor_row(p: (ItemId, Armor)) -> (u32, Seq<char>) {
    (p.1.base_info.id.0, p.1.base_info.name@ + " "@ + p.1.base_info.additional_name@)
}

/// The view of a built catalog row.
pub open spec fn armor_info_row(i: ArmorInfo) -> (u32, Seq<char>) {
    (i.id.0, i.name@)
}

/// The rows of the entries of `s` that pass the filter, in table order.
pub open spec fn armor_rows(s: Seq<(ItemId, Armor)>, f: Seq<char>) -> Seq<(u32, Seq<char>)>
    decreases s.len(),
{
    if s.len() == 0 {
        Seq::empty()
    } else {
        let rest = armor_rows(s.drop_last(), f);
        if armor_matches(s.last().1, f) {
            rest.push(armor_row(s.last()))
        } else {
            rest
        }
    }
}

impl EditParams {
    /// The opened armor windows' names, keys and visibility, in window
    /// order.
    pub fn get_opened_armor_info(&self) -> (r: Vec<(String, ItemId, bool)>)
        ensures
            r@.len() == self.armor.opened@.len(),
            forall|i: int|
                0 <= i < r@.len() ==> {
                    &&& (#[trigger] r@[i]).0@ == self.armor.opened@[i].inner.base_info.name@
                    &&& r@[i].1 == self.armor.opened@[i].initial_id
                    &&& r@[i].2 == self.armor.opened@[i].opened
                },
    {
        let mut r: Vec<(String, ItemId, bool)> = Vec::new();
        let n = self.armor.opened.len();
        let mut i: usize = 0;
        while i < n
            invariant
                i <= n,
                n == self.armor.opened@.len(),
                r@.len() == i,
                forall|q: int|
                    0 <= q < i ==> {
                        &&& (#[trigger] r@[q]).0@ == self.armor.opened@[q].inner.base_info.name@
                        &&& r@[q].1 == self.armor.opened@[q].initial_id
                        &&& r@[q].2 == self.armor.opened@[q].opened
                    },
            decreases n - i,
        {
            let w = &self.armor.opened[i];
            r.push((w.inner.base_info.name.clone(), w.initial_id, w.opened));
            i = i + 1;
        }
        r
    }

    /// Brings the armor piece with key `id` to the front: focuses its
    /// window if one is open, else opens a window on a copy of the
    /// stored piece, and does nothing when the table has no such piece.
    #[verifier::loop_isolation(false)]
    pub fn open_armor(&mut self, id: ItemId, holder: &mut FHashMap<ItemId, Armor>)
        requires
            old(holder).wf(),
        ensures
            *final(holder) == *old(holder),
            ({
                let op = old(self).armor.opened@;
                if exists|i: int| 0 <= i < op.len() && (#[trigger] op[i]).initial_id == id {
                    &&& same_windows(old(self), final(self))
                    &&& exists|i: int|
                        {
                            &&& 0 <= i < op.len()
                            &&& (#[trigger] op[i]).initial_id == id
                            &&& forall|j: int| 0 <= j < i ==> (#[trigger] op[j]).initial_id != id
                            &&& final(self).current_entity == CurrentEntity::Armor(i as usize)
                        }
                } else {
                    match old(holder).spec_get(id) {
                        Some(v) => {
                            &&& final(self).armor.opened@.len() == op.len() + 1
                            &&& forall|j: int|
                                0 <= j < op.len() ==> #[trigger] final(self).armor.opened@[j]
                                    == op[j]
                            &&& final(self).armor.opened@.last().initial_id == id
                            &&& final(self).armor.opened@.last().inner.equiv(&v)
                            &&& final(self).current_entity == CurrentEntity::Armor(
                                op.len() as usize,
                            )
                            &&& final(self).quests.opened@ == old(self).quests.opened@
                            &&& final(self).skills.opened@ == old(self).skills.opened@
                            &&& final(self).npcs.opened@ == old(self).npcs.opened@
                            &&& final(self).weapons.opened@ == old(self).weapons.opened@
                            &&& final(self).recipes.opened@ == old(self).recipes.opened@
                        },
                        None => *final(self) == *old(self),
                    }
                }
            }),
    {
        let n = self.armor.opened.len();
        let mut i: usize = 0;
        while i < n
            invariant
                *self == *old(self),
                i <= n,
                n == self.armor.opened@.len(),
                forall|j: int| 0 <= j < i ==> (#[trigger] self.armor.opened@[j]).initial_id != id,
            decreases n - i,
        {
            if self.armor.opened[i].initial_id.key_eq(&id) {
                self.current_entity = CurrentEntity::Armor(i);
                proof {
                    let op = old(self).armor.opened@;
                    assert(op[i as int].initial_id == id);
                    assert(forall|j: int| 0 <= j < i as int ==> (#[trigger] op[j]).initial_id
                        != id);
                    assert((i as int) as usize == i);
                    assert(self.current_entity == CurrentEntity::Armor(i));
                }
                return ;
            }
            i = i + 1;
        }
        match holder.get(&id) {
            Some(v) => {
                let copy = v.clone();
                let at = self.armor.add(copy, id, ArmorAction::Nothing, ());
                self.current_entity = CurrentEntity::Armor(at);
            },
            None => {},
        }
    }

    /// Makes the armor window at `index` current, if there is one.
    pub fn set_current_armor(&mut self, index: usize)
        ensures
            same_windows(old(self), final(self)),
            final(self).current_entity == (if index < old(self).armor.opened@.len() {
                CurrentEntity::Armor(index)
            } else {
                old(self).current_entity
            }),
    {
        if index < self.armor.opened.len() {
            self.current_entity = CurrentEntity::Armor(index);
        }
    }

    /// Opens a window on a fresh armor piece and makes it current.
    pub fn create_new_armor(&mut self)
        ensures
            final(self).armor.opened@.len() == old(self).armor.opened@.len() + 1,
            forall|j: int|
                0 <= j < old(self).armor.opened@.len() ==> #[trigger] final(self).armor.opened@[j]
                    == old(self).armor.opened@[j],
            final(self).armor.opened@.last().inner.base_info.id == ItemId(0),
            final(self).armor.opened@.last().initial_id == ItemId(0),
            final(self).current_entity == CurrentEntity::Armor(
                old(self).armor.opened@.len() as usize,
            ),
            final(self).quests.opened@ == old(self).quests.opened@,
            final(self).skills.opened@ == old(self).skills.opened@,
            final(self).npcs.opened@ == old(self).npcs.opened@,
            final(self).weapons.opened@ == old(self).weapons.opened@,
            final(self).recipes.opened@ == old(self).recipes.opened@,
    {
        let at = self.armor.add_new(ItemId(0), ArmorAction::Nothing, ());
        self.current_entity = CurrentEntity::Armor(at);
    }
}

impl Backend {
    /// Rebuilds the armor selector catalog: the rows of exactly the
    /// armor pieces that pass the filter string, ordered by id
    /// ascending.
    #[verifier::loop_isolation(false)]
    pub fn filter_armor(&mut self)
        requires
            old(self).holders.game_data_holder.armor_holder.wf(),
        ensures
            final(self).holders == old(self).holders,
            final(self).edit_params == old(self).edit_params,
            final(self).config == old(self).config,
            final(self).dirty() == old(self).dirty(),
            final(self).filter_params.armor_filter_string@
                == old(self).filter_params.armor_filter_string@,
            ({
                let c = final(self).filter_params.armor_catalog@;
                let rows = armor_rows(
                    old(self).holders.game_data_holder.armor_holder.pairs(),
                    old(self).filter_params.armor_filter_string@,
                );
                &&& c.map_values(|i: ArmorInfo| armor_info_row(i)).to_multiset()
                    == rows.to_multiset()
                &&& forall|i: int, j: int|
                    0 <= i < j < c.len() ==> (#[trigger] c[i]).id.0 <= (#[trigger] c[j]).id.0
            }),
    {
        let low = lowercase(self.filter_params.armor_filter_string.as_str());
        let ghost f = self.filter_params.armor_filter_string@;
        let all = low.as_str().unicode_len() == 0;
        let by_id = if all {
            None
        } else {
            parse_u32(low.as_str())
        };
        let holder = &self.holders.game_data_holder.armor_holder;
        let ghost pairs = holder.pairs();
        let mut infos: Vec<ArmorInfo> = Vec::new();
        let n = holder.len();
        let mut j: usize = 0;
        while j < n
            invariant
                j <= n,
                n == pairs.len(),
                pairs == holder.pairs(),
                holder == self.holders.game_data_holder.armor_holder,
                low@ == lower_of(f),
                all == (lower_of(f).len() == 0),
                by_id == (if all {
                    None::<u32>
                } else if is_u32_numeral(lower_of(f)) {
                    Some(dec_val(numeral_digits(lower_of(f))) as u32)
                } else {
                    None::<u32>
                }),
                infos@.map_values(|i: ArmorInfo| armor_info_row(i)) == armor_rows(
                    pairs.take(j as int),
                    f,
                ),
            decreases n - j,
        {
            let (_, v) = holder.pair_at(j);
            let matched: bool = if all {
                true
            } else {
                match by_id {
                    Some(idv) => v.base_info.id.0 == idv,
                    None => {
                        let vname = lowercase(v.base_info.name.as_str());
                        if str_contains(vname.as_str(), low.as_str()) {
                            true
                        } else {
                            let aname = lowercase(v.base_info.additional_name.as_str());
                            str_contains(aname.as_str(), low.as_str())
                        }
                    },
                }
            };
            proof {
                assert(matched == armor_matches(pairs[j as int].1, f));
                assert(pairs.take(j as int + 1).drop_last() =~= pairs.take(j as int));
                assert(pairs.take(j as int + 1).last() == pairs[j as int]);
            }
            if matched {
                let info = ArmorInfo::from_armor(v);
                infos.push(info);
                proof {
                    assert(infos@.map_values(|i: ArmorInfo| armor_info_row(i)) =~= armor_rows(
                        pairs.take(j as int + 1),
                        f,
                    ));
                }
            } else {
                proof {
                    assert(infos@.map_values(|i: ArmorInfo| armor_info_row(i)) =~= armor_rows(
                        pairs.take(j as int + 1),
                        f,
                    ));
                }
            }
            j = j + 1;
        }
        proof {
            assert(pairs.take(n as int) =~= pairs);
        }
        let ghost unsorted = infos@;
        let sorted = sort_by_id(infos);
        proof {
            lemma_map_values_multiset(sorted@, unsorted, |i: ArmorInfo| armor_info_row(i));
        }
        self.filter_params.armor_catalog = sorted;
    }

    /// Stores the currently edited armor piece back into its table, if
    /// the current window is an armor window holding the given key. The
    /// window's opening key is refreshed to the piece's own key.
    pub fn save_armor_from_dlg(&mut self, id: ItemId)
        requires
            old(self).holders.game_data_holder.armor_holder.wf(),
            old(self).holders.game_data_holder.item_holder.wf(),
            match old(self).edit_params.current_entity {
                CurrentEntity::Armor(i) => i < old(self).edit_params.armor.opened@.len(),
                _ => true,
            },
        ensures
            match old(self).edit_params.current_entity {
                CurrentEntity::Armor(i) => {
                    let w = old(self).edit_params.armor.opened@[i as int];
                    if w.inner.base_info.id == id {
                        saved_armor(old(self), final(self), w.inner)
                    } else {
                        *final(self) == *old(self)
                    }
                },
                _ => *final(self) == *old(self),
            },
    {
        if let CurrentEntity::Armor(index) = self.edit_params.current_entity {
            let do_save = self.edit_params.armor.opened[index].inner.base_info.id.key_eq(&id);
            if do_save {
                let ghost before = self.edit_params.armor.opened@;
                let entity = self.edit_params.armor.opened[index].inner.clone();
                self.save_armor_force(entity);
            }
        }
    }

    /// Stores `v` into the armor table and the derived all-items index,
    /// unless the stored piece already carries the same data; a real
    /// change also marks the session dirty. The armor catalog is rebuilt
    /// either way only after a real change.
    pub fn save_armor_force(&mut self, v: Armor)
        requires
            old(self).holders.game_data_holder.armor_holder.wf(),
            old(self).holders.game_data_holder.item_holder.wf(),
        ensures
            saved_armor(old(self), final(self), v),
    {
        let keep = match self.holders.game_data_holder.armor_holder.get(&v.base_info.id) {
            Some(vv) => vv.same_as(&v),
            None => false,
        };
        if keep {
            return ;
        }
        self.set_changed();
        let item = v.to_item();
        let id = v.base_info.id;
        self.holders.game_data_holder.item_holder.insert(id, item);
        self.holders.game_data_holder.armor_holder.insert(id, v);
        self.filter_armor();
    }
}

/// What holds after `v` was offered to the armor table: if the stored
/// piece already carried the same data nothing changed at all;
/// otherwise the armor table and the derived all-items index map `v`'s
/// key to its data, every other key is untouched, the session is marked
/// dirty, and the armor catalog was rebuilt against the new table.
pub open spec fn saved_armor(b0: &Backend, b1: &Backend, v: Armor) -> bool {
    let h0 = b0.holders.game_data_holder.armor_holder;
    let h1 = b1.holders.game_data_holder.armor_holder;
    let id = v.base_info.id;
    if (match h0.spec_get(id) {
        Some(vv) => vv.equiv(&v),
        None => false,
    }) {
        *b1 == *b0
    } else {
        &&& h1.wf()
        &&& h1.changed()
        &&& match h1.spec_get(id) {
            Some(s) => s.equiv(&v),
            None => false,
        }
        &&& forall|k: ItemId| k != id ==> h1.spec_get(k) == h0.spec_get(k)
        &&& b1.holders.game_data_holder.item_holder.wf()
        &&& match b1.holders.game_data_holder.item_holder.spec_get(id) {
            Some(it) => it.id == id && it.name@ == v.base_info.name@ && it.additional_name@
                == v.base_info.additional_name@,
            None => false,
        }
        &&& forall|k: ItemId|
            k != id ==> b1.holders.game_data_holder.item_holder.spec_get(k)
                == b0.holders.game_data_holder.item_holder.spec_get(k)
        &&& b1.dirty()
        &&& b1.edit_params == b0.edit_params
        &&& b1.config == b0.config
        &&& ({
            let c = b1.filter_params.armor_catalog@;
            let rows = armor_rows(h1.pairs(), b0.filter_params.armor_filter_string@);
            &&& c.map_values(|i: ArmorInfo| armor_info_row(i)).to_multiset() == rows.to_multiset()
            &&& forall|i: int, j: int|
                0 <= i < j < c.len() ==> (#[trigger] c[i]).id.0 <= (#[trigger] c[j]).id.0
        })
    }
}

} // verus!

verus! {

impl crate::backend::WindowParams<Armor, ItemId, ArmorAction, ()> {
    /// Performs the window's pending action on the working copy: a
    /// sound, an included item or a drop mesh is removed by index, and
    /// every consumed action is reset. The caller answers for the
    /// indices: the editor only offers actions on rows it displayed.
    pub fn handle_action(&mut self)
        requires
            match old(self).action {
                ArmorAction::RemoveSound(i) => i < old(self).inner.item_sound@.len(),
                ArmorAction::Nothing => true,
            },
            match old(self).inner.base_info.additional_info.action {
                ItemAdditionalInfoAction::RemoveItem(i) => i < old(
                    self,
                ).inner.base_info.additional_info.inner.include_items@.len(),
                ItemAdditionalInfoAction::Nothing => true,
            },
            match old(self).inner.base_info.drop_info.action {
                ItemDropInfoAction::RemoveMesh(i) => i < old(
                    self,
                ).inner.base_info.drop_info.inner.drop_mesh_info@.len(),
                ItemDropInfoAction::Nothing => true,
            },
        ensures
            final(self).inner.item_sound@ == (match old(self).action {
                ArmorAction::RemoveSound(i) => old(self).inner.item_sound@.remove(i as int),
                ArmorAction::Nothing => old(self).inner.item_sound@,
            }),
            final(self).inner.base_info.additional_info.inner.include_items@ == (match old(
                self,
            ).inner.base_info.additional_info.action {
                ItemAdditionalInfoAction::RemoveItem(i) => old(
                    self,
                ).inner.base_info.additional_info.inner.include_items@.remove(i as int),
                ItemAdditionalInfoAction::Nothing => old(
                    self,
                ).inner.base_info.additional_info.inner.include_items@,
            }),
            final(self).inner.base_info.drop_info.inner.drop_mesh_info@ == (match old(
                self,
            ).inner.base_info.drop_info.action {
                ItemDropInfoAction::RemoveMesh(i) => old(
                    self,
                ).inner.base_info.drop_info.inner.drop_mesh_info@.remove(i as int),
                ItemDropInfoAction::Nothing => old(
                    self,
                ).inner.base_info.drop_info.inner.drop_mesh_info@,
            }),
            final(self).action is Nothing,
            final(self).inner.base_info.additional_info.action is Nothing,
            final(self).inner.base_info.drop_info.action is Nothing,
            final(self).inner.base_info.id == old(self).inner.base_info.id,
            final(self).inner.base_info.name == old(self).inner.base_info.name,
            final(self).inner.base_info.additional_name == old(self).inner.base_info
                .additional_name,
            final(self).initial_id == old(self).initial_id,
            final(self).opened == old(self).opened,
    {
        match self.action {
            ArmorAction::RemoveSound(i) => {
                self.inner.item_sound.remove(i);
            },
            ArmorAction::Nothing => {},
        }
        self.action = ArmorAction::Nothing;
        match self.inner.base_info.additional_info.action {
            ItemAdditionalInfoAction::RemoveItem(i) => {
                self.inner.base_info.additional_info.inner.include_items.remove(i);
            },
            ItemAdditionalInfoAction::Nothing => {},
        }
        self.inner.base_info.additional_info.action = ItemAdditionalInfoAction::Nothing;
        match self.inner.base_info.drop_info.action {
            ItemDropInfoAction::RemoveMesh(i) => {
                self.inner.base_info.drop_info.inner.drop_mesh_info.remove(i);
            },
            ItemDropInfoAction::Nothing => {},
        }
        self.inner.base_info.drop_info.action = ItemDropInfoAction::Nothing;
    }
}

} // verus!
