use vstd::prelude::*;
use crate::backend::Backend;
use crate::backend::CurrentEntity;
use crate::backend::EditParams;
use crate::backend::EntityEditParams;
use crate::backend::HasId;
use crate::backend::fallback_entity;
use crate::backend::lemma_map_values_multiset;
use crate::backend::same_windows;
use crate::backend::sort_by_id;
use crate::entity::ItemId;
use crate::entity::Weapon;
use crate::entity::item_base_equiv;
use crate::holder::FHashMap;
use crate::holder::TableKey;
use crate::text::contains_seq;
use crate::text::dec_val;
use crate::text::is_u32_numeral;
use crate::text::lower_of;
use crate::text::lowercase;
use crate::text::numeral_digits;
use crate::text::parse_u32;
use crate::text::str_contains;
use vstd::string::StrSliceExecFns;
use vstd::string::StringExecFns;

verus! {

/// The editor state for weapons.
pub type WeaponEditor = EntityEditParams<Weapon, ItemId, WeaponAction, ()>;

/// What a weapon window asks the next frame to do.
#[derive(Copy, Clone, Debug)]
pub enum WeaponAction {
    Nothing,
    RemoveMesh(usize),
}

/// What a weapon enchant sub-window asks the next frame to do.
#[derive(Copy, Clone, Debug)]
pub enum WeaponEnchantAction {
    Nothing,
    RemoveEnchant(usize),
}

/// What a weapon variation sub-window asks the next frame to do.
#[derive(Copy, Clone, Debug)]
pub enum WeaponVariationAction {
    Nothing,
    RemoveIcon(usize),
}

/// One row of the weapon selector catalog.
pub struct WeaponInfo {
    pub id: ItemId,
    pub name: String,
}

impl HasId for WeaponInfo {
    open spec fn sid(&self) -> u32 {
        self.id.0
    }

    fn id_val(&self) -> (r: u32) {
        self.id.0
    }
}

impl WeaponInfo {
    /// The catalog row of a weapon: its name and additional name, space
    /// separated.
    pub fn from_weapon(w: &Weapon) -> (r: WeaponInfo)
        ensures
            r.id == w.base_info.id,
            r.name@ == w.base_info.name@ + " "@ + w.base_info.additional_name@,
    {
        let mut name = w.base_info.name.clone();
        name.append(" ");
        name.append(w.base_info.additional_name.as_str());
        WeaponInfo { id: w.base_info.id, name }
    }
}

/// Whether a weapon passes the filter string. The filter is lowercased
/// first: an empty result passes everything, a numeral selects one id,
/// any other text matches case-insensitively against the name or the
/// additional name.
pub open spec fn weapon_matches(w: Weapon, f: Seq<char>) -> bool {
    let l = lower_of(f);
    if l.len() == 0 {
        true
    } else if is_u32_numeral(l) {
        w.base_info.id.0 as nat == dec_val(numeral_digits(l))
    } else {
        contains_seq(lower_of(w.base_info.name@), l) || contains_seq(
            lower_of(w.base_info.additional_name@),
            l,
        )
    }
}

/// The catalog row of one entry.
pub open spec fn weapon_row(p: (ItemId, Weapon)) -> (u32, Seq<char>) {
    (p.1.base_info.id.0, p.1.base_info.name@ + " "@ + p.1.base_info.additional_name@)
}

/// The view of a built catalog row.
pub open spec fn weapon_info_row(i: WeaponInfo) -> (u32, Seq<char>) {
    (i.id.0, i.name@)
}

/// The rows of the entries of `s` that pass the filter, in table order.
pub open spec fn weapon_rows(s: Seq<(ItemId, Weapon)>, f: Seq<char>) -> Seq<(u32, Seq<char>)>
    decreases s.len(),
{
    if s.len() == 0 {
        Seq::empty()
    } else {
        let rest = weapon_rows(s.drop_last(), f);
        if weapon_matches(s.last().1, f) {
            rest.push(weapon_row(s.last()))
        } else {
            rest
        }
    }
}

impl EditParams {
    /// The opened weapon windows' names and keys, in window order.
    pub fn get_opened_weapons_info(&self) -> (r: Vec<(String, ItemId)>)
        ensures
            r@.len() == self.weapons.opened@.len(),
            forall|i: int|
                0 <= i < r@.len() ==> {
                    &&& (#[trigger] r@[i]).0@ == self.weapons.opened@[i].inner.base_info.name@
                    &&& r@[i].1 == self.weapons.opened@[i].initial_id
                },
    {
        let mut r: Vec<(String, ItemId)> = Vec::new();
        let n = self.weapons.opened.len();
        let mut i: usize = 0;
        while i < n
            invariant
                i <= n,
                n == self.weapons.opened@.len(),
                r@.len() == i,
                forall|q: int|
                    0 <= q < i ==> {
                        &&& (#[trigger] r@[q]).0@ == self.weapons.opened@[q].inner.base_info.name@
                        &&& r@[q].1 == self.weapons.opened@[q].initial_id
                    },
            decreases n - i,
        {
            let w = &self.weapons.opened[i];
            r.push((w.inner.base_info.name.clone(), w.initial_id));
            i = i + 1;
        }
        r
    }

    /// Brings the weapon with key `id` to the front: focuses its window
    /// if one is open, else opens a window on a copy of the stored
    /// weapon, and does nothing when the table has no such weapon.
    #[verifier::loop_isolation(false)]
    pub fn open_weapon(&mut self, id: ItemId, holder: &mut FHashMap<ItemId, Weapon>)
        requires
            old(holder).wf(),
        ensures
            *final(holder) == *old(holder),
            ({
                let op = old(self).weapons.opened@;
                if exists|i: int| 0 <= i < op.len() && (#[trigger] op[i]).initial_id == id {
                    &&& same_windows(old(self), final(self))
                    &&& exists|i: int|
                        {
                            &&& 0 <= i < op.len()
                            &&& (#[trigger] op[i]).initial_id == id
                            &&& forall|j: int| 0 <= j < i ==> (#[trigger] op[j]).initial_id != id
                            &&& final(self).current_entity == CurrentEntity::Weapon(i as usize)
                        }
                } else {
                    match old(holder).spec_get(id) {
                        Some(v) => {
                            &&& final(self).weapons.opened@.len() == op.len() + 1
                            &&& forall|j: int|
                                0 <= j < op.len() ==> #[trigger] final(self).weapons.opened@[j]
                                    == op[j]
                            &&& final(self).weapons.opened@.last().initial_id == id
                            &&& item_base_equiv(
                                &final(self).weapons.opened@.last().inner.base_info,
                                &v.base_info,
                            )
                            &&& final(self).current_entity == CurrentEntity::Weapon(
                                op.len() as usize,
                            )
                            &&& final(self).quests.opened@ == old(self).quests.opened@
                            &&& final(self).skills.opened@ == old(self).skills.opened@
                            &&& final(self).npcs.opened@ == old(self).npcs.opened@
                            &&& final(self).armor.opened@ == old(self).armor.opened@
                            &&& final(self).recipes.opened@ == old(self).recipes.opened@
                        },
                        None => *final(self) == *old(self),
                    }
                }
            }),
    {
        let n = self.weapons.opened.len();
        let mut i: usize = 0;
        while i < n
            invariant
                *self == *old(self),
                i <= n,
                n == self.weapons.opened@.len(),
                forall|j: int|
                    0 <= j < i ==> (#[trigger] self.weapons.opened@[j]).initial_id != id,
            decreases n - i,
        {
            if self.weapons.opened[i].initial_id.key_eq(&id) {
                self.current_entity = CurrentEntity::Weapon(i);
                proof {
                    let op = old(self).weapons.opened@;
                    assert(op[i as int].initial_id == id);
                    assert(forall|j: int| 0 <= j < i as int ==> (#[trigger] op[j]).initial_id
                        != id);
                    assert((i as int) as usize == i);
                    assert(self.current_entity == CurrentEntity::Weapon(i));
                }
                return ;
            }
            i = i + 1;
        }
        match holder.get(&id) {
            Some(v) => {
                let copy = v.clone();
                let at = self.weapons.add(copy, id, WeaponAction::Nothing, ());
                self.current_entity = CurrentEntity::Weapon(at);
            },
            None => {},
        }
    }

    /// Makes the weapon window at `index` current, if there is one.
    pub fn set_current_weapon(&mut self, index: usize)
        ensures
            same_windows(old(self), final(self)),
            final(self).current_entity == (if index < old(self).weapons.opened@.len() {
                CurrentEntity::Weapon(index)
            } else {
                old(self).current_entity
            }),
    {
        if index < self.weapons.opened.len() {
            self.current_entity = CurrentEntity::Weapon(index);
        }
    }

    /// Closes the weapon window at `index`. When the current window was
    /// a weapon window at or after it, the focus moves one window down,
    /// or to whatever is still open when none is left.
    pub fn close_weapon(&mut self, index: usize)
        requires
            index < old(self).weapons.opened@.len(),
        ensures
            final(self).weapons.opened@ == old(self).weapons.opened@.remove(index as int),
            final(self).quests.opened@ == old(self).quests.opened@,
            final(self).skills.opened@ == old(self).skills.opened@,
            final(self).npcs.opened@ == old(self).npcs.opened@,
            final(self).armor.opened@ == old(self).armor.opened@,
            final(self).recipes.opened@ == old(self).recipes.opened@,
            final(self).current_entity == (match old(self).current_entity {
                CurrentEntity::Weapon(cur) => {
                    if old(self).weapons.opened@.len() == 1 {
                        fallback_entity(final(self))
                    } else if cur >= index {
                        CurrentEntity::Weapon((if cur > 1 {
                            cur - 1
                        } else {
                            0
                        }) as usize)
                    } else {
                        old(self).current_entity
                    }
                },
                _ => old(self).current_entity,
            }),
    {
        self.weapons.remove(index);
        if let CurrentEntity::Weapon(curr_index) = self.current_entity {
            if self.weapons.opened.len() == 0 {
                self.find_opened_entity();
            } else if curr_index >= index {
                let base = if curr_index > 1 {
                    curr_index
                } else {
                    1
                };
                self.current_entity = CurrentEntity::Weapon(base - 1);
            }
        }
    }

    /// Opens a window on a fresh weapon and makes it current.
    pub fn create_new_weapon(&mut self)
        ensures
            final(self).weapons.opened@.len() == old(self).weapons.opened@.len() + 1,
            forall|j: int|
                0 <= j < old(self).weapons.opened@.len() ==> #[trigger] final(self).weapons.opened@[j] == old(self).weapons.opened@[j],
            final(self).weapons.opened@.last().inner.base_info.id == ItemId(0),
            final(self).weapons.opened@.last().initial_id == ItemId(0),
            final(self).current_entity == CurrentEntity::Weapon(
                old(self).weapons.opened@.len() as usize,
            ),
            final(self).quests.opened@ == old(self).quests.opened@,
            final(self).skills.opened@ == old(self).skills.opened@,
            final(self).npcs.opened@ == old(self).npcs.opened@,
            final(self).armor.opened@ == old(self).armor.opened@,
            final(self).recipes.opened@ == old(self).recipes.opened@,
    {
        let at = self.weapons.add_new(ItemId(0), WeaponAction::Nothing, ());
        self.current_entity = CurrentEntity::Weapon(at);
    }
}

impl Backend {
    /// Rebuilds the weapon selector catalog: the rows of exactly the
    /// weapons that pass the filter string, ordered by id ascending.
    #[verifier::loop_isolation(false)]
    pub fn filter_weapons(&mut self)
        requires
            old(self).holders.game_data_holder.weapon_holder.wf(),
        ensures
            final(self).holders == old(self).holders,
            final(self).edit_params == old(self).edit_params,
            final(self).config == old(self).config,
            final(self).dirty() == old(self).dirty(),
            final(self).filter_params.weapon_filter_string@
                == old(self).filter_params.weapon_filter_string@,
            ({
                let c = final(self).filter_params.weapon_catalog@;
                let rows = weapon_rows(
                    old(self).holders.game_data_holder.weapon_holder.pairs(),
                    old(self).filter_params.weapon_filter_string@,
                );
                &&& c.map_values(|i: WeaponInfo| weapon_info_row(i)).to_multiset()
                    == rows.to_multiset()
                &&& forall|i: int, j: int|
                    0 <= i < j < c.len() ==> (#[trigger] c[i]).id.0 <= (#[trigger] c[j]).id.0
            }),
    {
        let low = lowercase(self.filter_params.weapon_filter_string.as_str());
        let ghost f = self.filter_params.weapon_filter_string@;
        let all = low.as_str().unicode_len() == 0;
        let by_id = if all {
            None
        } else {
            parse_u32(low.as_str())
        };
        let holder = &self.holders.game_data_holder.weapon_holder;
        let ghost pairs = holder.pairs();
        let mut infos: Vec<WeaponInfo> = Vec::new();
        let n = holder.len();
        let mut j: usize = 0;
        while j < n
            invariant
                j <= n,
                n == pairs.len(),
                pairs == holder.pairs(),
                holder == self.holders.game_data_holder.weapon_holder,
                low@ == lower_of(f),
                all == (lower_of(f).len() == 0),
                by_id == (if all {
                    None::<u32>
                } else if is_u32_numeral(lower_of(f)) {
                    Some(dec_val(numeral_digits(lower_of(f))) as u32)
                } else {
                    None::<u32>
                }),
                infos@.map_values(|i: WeaponInfo| weapon_info_row(i)) == weapon_rows(
                    pairs.take(j as int),
                    f,
                ),
            decreases n - j,
        {
            let (_, v) = holder.pair_at(j);
            let matched: bool = if all {
                true
            } else {
                match by_id {
                    Some(idv) => v.base_info.id.0 == idv,
                    None => {
                        let vname = lowercase(v.base_info.name.as_str());
                        if str_contains(vname.as_str(), low.as_str()) {
                            true
                        } else {
                            let aname = lowercase(v.base_info.additional_name.as_str());
                            str_contains(aname.as_str(), low.as_str())
                        }
                    },
                }
            };
            proof {
                assert(matched == weapon_matches(pairs[j as int].1, f));
                assert(pairs.take(j as int + 1).drop_last() =~= pairs.take(j as int));
                assert(pairs.take(j as int + 1).last() == pairs[j as int]);
            }
            if matched {
                let info = WeaponInfo::from_weapon(v);
                infos.push(info);
                proof {
                    assert(infos@.map_values(|i: WeaponInfo| weapon_info_row(i)) =~= weapon_rows(
                        pairs.take(j as int + 1),
                        f,
                    ));
                }
            } else {
                proof {
                    assert(infos@.map_values(|i: WeaponInfo| weapon_info_row(i)) =~= weapon_rows(
                        pairs.take(j as int + 1),
                        f,
                    ));
                }
            }
            j = j + 1;
        }
        proof {
            assert(pairs.take(n as int) =~= pairs);
        }
        let ghost unsorted = infos@;
        let sorted = sort_by_id(infos);
        proof {
            lemma_map_values_multiset(sorted@, unsorted, |i: WeaponInfo| weapon_info_row(i));
        }
        self.filter_params.weapon_catalog = sorted;
    }

    /// Stores the currently edited weapon back into its table, if the
    /// current window is a weapon window holding the given key.
    pub fn save_weapon_from_dlg(&mut self, id: ItemId)
        requires
            old(self).holders.game_data_holder.weapon_holder.wf(),
            match old(self).edit_params.current_entity {
                CurrentEntity::Weapon(i) => i < old(self).edit_params.weapons.opened@.len(),
                _ => true,
            },
        ensures
            match old(self).edit_params.current_entity {
                CurrentEntity::Weapon(i) => {
                    let w = old(self).edit_params.weapons.opened@[i as int];
                    if w.inner.base_info.id == id {
                        saved_weapon(old(self), final(self), w.inner)
                    } else {
                        *final(self) == *old(self)
                    }
                },
                _ => *final(self) == *old(self),
            },
    {
        if let CurrentEntity::Weapon(index) = self.edit_params.current_entity {
            let do_save = self.edit_params.weapons.opened[index].inner.base_info.id.key_eq(&id);
            if do_save {
                let v = self.edit_params.weapons.opened[index].inner.clone();
                self.save_weapon_force(v);
            }
        }
    }

    /// Stores `v` into its table under its own key, unconditionally, and
    /// rebuilds the weapon catalog.
    pub fn save_weapon_force(&mut self, v: Weapon)
        requires
            old(self).holders.game_data_holder.weapon_holder.wf(),
        ensures
            saved_weapon(old(self), final(self), v),
    {
        let id = v.base_info.id;
        self.holders.game_data_holder.weapon_holder.insert(id, v);
        self.filter_weapons();
    }
}

/// What holds after a weapon whose item base carries `w`'s data was
/// stored: the table maps its key to it, every other key is untouched,
/// the table is dirty, and the catalog was rebuilt against the new
/// table.
pub open spec fn saved_weapon(b0: &Backend, b1: &Backend, w: Weapon) -> bool {
    let h0 = b0.holders.game_data_holder.weapon_holder;
    let h1 = b1.holders.game_data_holder.weapon_holder;
    &&& h1.wf()
    &&& h1.changed()
    &&& match h1.spec_get(w.base_info.id) {
        Some(v) => item_base_equiv(&v.base_info, &w.base_info),
        None => false,
    }
    &&& forall|k: ItemId| k != w.base_info.id ==> h1.spec_get(k) == h0.spec_get(k)
    &&& b1.edit_params == b0.edit_params
    &&& b1.config == b0.config
    &&& ({
        let c = b1.filter_params.weapon_catalog@;
        let rows = weapon_rows(h1.pairs(), b0.filter_params.weapon_filter_string@);
        &&& c.map_values(|i: WeaponInfo| weapon_info_row(i)).to_multiset() == rows.to_multiset()
        &&& forall|i: int, j: int|
            0 <= i < j < c.len() ==> (#[trigger] c[i]).id.0 <= (#[trigger] c[j]).id.0
    })
}

} // verus!
