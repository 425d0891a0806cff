use vstd::prelude::*;
use crate::backend::Backend;
use crate::backend::CurrentEntity;
use crate::backend::EditParams;
use crate::backend::EntityEditParams;
use crate::backend::HasId;
use crate::backend::lemma_map_values_multiset;
use crate::backend::same_windows;
use crate::backend::sort_by_id;
use crate::entity::Recipe;
use crate::entity::RecipeId;
use crate::holder::FHashMap;
use crate::holder::TableKey;
use crate::text::dec_val;
use crate::text::is_u32_numeral;
use crate::text::lower_of;
use crate::text::lowercase;
use crate::text::numeral_digits;
use crate::text::parse_u32;
use vstd::string::StrSliceExecFns;
use vstd::string::StringExecFns;

verus! {

/// The editor state for recipes.
pub type RecipeEditor = EntityEditParams<Recipe, RecipeId, RecipeAction, ()>;

/// What a recipe window asks the next frame to do.
#[derive(Copy, Clone, Debug)]
pub enum RecipeAction {
    Nothing,
    DeleteIngredient(usize),
}

/// One row of the recipe selector catalog.
pub struct RecipeInfo {
    pub id: RecipeId,
    pub name: String,
}

impl HasId for RecipeInfo {
    open spec fn sid(&self) -> u32 {
        self.id.0
    }

    fn id_val(&self) -> (r: u32) {
        self.id.0
    }
}

impl RecipeInfo {
    /// The catalog row of a recipe.
    pub fn from_recipe(v: &Recipe) -> (r: RecipeInfo)
        ensures
            r.id == v.id,
            r.name@ == v.name@,
    {
        RecipeInfo { id: v.id, name: v.name.clone() }
    }
}

/// Whether a recipe passes the filter string. The filter is lowercased
/// first: an empty result passes everything; a numeral matches the
/// recipe's own id, its recipe item or its product; any other text
/// matches nothing.
pub open spec fn recipe_matches(v: Recipe, f: Seq<char>) -> bool {
    let l = lower_of(f);
    if l.len() == 0 {
        true
    } else if is_u32_numeral(l) {
        ||| v.id.0 as nat == dec_val(numeral_digits(l))
        ||| v.recipe_item.0 as nat == dec_val(numeral_digits(l))
        ||| v.product.0 as nat == dec_val(numeral_digits(l))
    } else {
        false
    }
}

/// The catalog row of one entry.
pub open spec fn recipe_row(p: (RecipeId, Recipe)) -> (u32, Seq<char>) {
    (p.1.id.0, p.1.name@)
}

/// The view of a built catalog row.
pub open spec fn recipe_info_row(i: RecipeInfo) -> (u32, Seq<char>) {
    (i.id.0, i.name@)
}

/// The rows of the entries of `s` that pass the filter, in table order.
pub open spec fn recipe_rows(s: Seq<(RecipeId, Recipe)>, f: Seq<char>) -> Seq<(u32, Seq<char>)>
    decreases s.len(),
{
    if s.len() == 0 {
        Seq::empty()
    } else {
        let rest = recipe_rows(s.drop_last(), f);
        if recipe_matches(s.last().1, f) {
            rest.push(recipe_row(s.last()))
        } else {
            rest
        }
    }
}

impl EditParams {
    /// The opened recipe windows' names, keys and visibility, in window
    /// order.
    pub fn get_opened_recipes_info(&self) -> (r: Vec<(String, RecipeId, bool)>)
        ensures
            r@.len() == self.recipes.opened@.len(),
            forall|i: int|
                0 <= i < r@.len() ==> {
                    &&& (#[trigger] r@[i]).0@ == self.recipes.opened@[i].inner.name@
                    &&& r@[i].1 == self.recipes.opened@[i].initial_id
                    &&& r@[i].2 == self.recipes.opened@[i].opened
                },
    {
        let mut r: Vec<(String, RecipeId, bool)> = Vec::new();
        let n = self.recipes.opened.len();
        let mut i: usize = 0;
        while i < n
            invariant
                i <= n,
                n == self.recipes.opened@.len(),
                r@.len() == i,
                forall|q: int|
                    0 <= q < i ==> {
                        &&& (#[trigger] r@[q]).0@ == self.recipes.opened@[q].inner.name@
                        &&& r@[q].1 == self.recipes.opened@[q].initial_id
                        &&& r@[q].2 == self.recipes.opened@[q].opened
                    },
            decreases n - i,
        {
            let w = &self.recipes.opened[i];
            r.push((w.inner.name.clone(), w.initial_id, w.opened));
            i = i + 1;
        }
        r
    }

    /// Brings the recipe with key `id` to the front: focuses its window
    /// if one is open, else opens a window on a copy of the stored
    /// recipe, and does nothing when the table has no such recipe.
    #[verifier::loop_isolation(false)]
    pub fn open_recipe(&mut self, id: RecipeId, holder: &mut FHashMap<RecipeId, Recipe>)
        requires
            old(holder).wf(),
        ensures
            *final(holder) == *old(holder),
            ({
                let op = old(self).recipes.opened@;
                if exists|i: int| 0 <= i < op.len() && (#[trigger] op[i]).initial_id == id {
                    &&& same_windows(old(self), final(self))
                    &&& exists|i: int|
                        {
                            &&& 0 <= i < op.len()
                            &&& (#[trigger] op[i]).initial_id == id
                            &&& forall|j: int| 0 <= j < i ==> (#[trigger] op[j]).initial_id != id
                            &&& final(self).current_entity == CurrentEntity::Recipe(i as usize)
                        }
                } else {
                    match old(holder).spec_get(id) {
                        Some(v) => {
                            &&& final(self).recipes.opened@.len() == op.len() + 1
                            &&& forall|j: int|
                                0 <= j < op.len() ==> #[trigger] final(self).recipes.opened@[j]
                                    == op[j]
                            &&& final(self).recipes.opened@.last().initial_id == id
                            &&& final(self).recipes.opened@.last().inner.equiv(&v)
                            &&& final(self).current_entity == CurrentEntity::Recipe(
                                op.len() as usize,
                            )
                            &&& final(self).quests.opened@ == old(self).quests.opened@
                            &&& final(self).npcs.opened@ == old(self).npcs.opened@
                            &&& final(self).weapons.opened@ == old(self).weapons.opened@
                            &&& final(self).armor.opened@ == old(self).armor.opened@
                            &&& final(self).skills.opened@ == old(self).skills.opened@
                        },
                        None => *final(self) == *old(self),
                    }
                }
            }),
    {
        let n = self.recipes.opened.len();
        let mut i: usize = 0;
        while i < n
            invariant
                *self == *old(self),
                i <= n,
                n == self.recipes.opened@.len(),
                forall|j: int|
                    0 <= j < i ==> (#[trigger] self.recipes.opened@[j]).initial_id != id,
            decreases n - i,
        {
            if self.recipes.opened[i].initial_id.key_eq(&id) {
                self.current_entity = CurrentEntity::Recipe(i);
                proof {
                    let op = old(self).recipes.opened@;
                    assert(op[i as int].initial_id == id);
                    assert(forall|j: int| 0 <= j < i as int ==> (#[trigger] op[j]).initial_id
                        != id);
                    assert((i as int) as usize == i);
                    assert(self.current_entity == CurrentEntity::Recipe(i));
                }
                return ;
            }
            i = i + 1;
        }
        match holder.get(&id) {
            Some(v) => {
                let copy = v.clone();
                let at = self.recipes.add(copy, id, RecipeAction::Nothing, ());
                self.current_entity = CurrentEntity::Recipe(at);
            },
            None => {},
        }
    }

    /// Makes the recipe window at `index` current, if there is one.
    pub fn set_current_recipe(&mut self, index: usize)
        ensures
            same_windows(old(self), final(self)),
            final(self).current_entity == (if index < old(self).recipes.opened@.len() {
                CurrentEntity::Recipe(index)
            } else {
                old(self).current_entity
            }),
    {
        if index < self.recipes.opened.len() {
            self.current_entity = CurrentEntity::Recipe(index);
        }
    }

    /// Opens a window on a fresh recipe and makes it current.
    pub fn create_new_recipe(&mut self)
        ensures
            final(self).recipes.opened@.len() == old(self).recipes.opened@.len() + 1,
            forall|j: int|
                0 <= j < old(self).recipes.opened@.len() ==> #[trigger] final(self).recipes.opened@[j] == old(self).recipes.opened@[j],
            final(self).recipes.opened@.last().inner.id == RecipeId(0),
            final(self).recipes.opened@.last().initial_id == RecipeId(0),
            final(self).current_entity == CurrentEntity::Recipe(
                old(self).recipes.opened@.len() as usize,
            ),
            final(self).quests.opened@ == old(self).quests.opened@,
            final(self).npcs.opened@ == old(self).npcs.opened@,
            final(self).weapons.opened@ == old(self).weapons.opened@,
            final(self).armor.opened@ == old(self).armor.opened@,
            final(self).skills.opened@ == old(self).skills.opened@,
    {
        let at = self.recipes.add_new(RecipeId(0), RecipeAction::Nothing, ());
        self.current_entity = CurrentEntity::Recipe(at);
    }
}

impl Backend {
    /// Rebuilds the recipe selector catalog: the rows of exactly the
    /// recipes that pass the filter string, ordered by id ascending.
    #[verifier::loop_isolation(false)]
    pub fn filter_recipes(&mut self)
        requires
            old(self).holders.game_data_holder.recipe_holder.wf(),
        ensures
            final(self).holders == old(self).holders,
            final(self).edit_params == old(self).edit_params,
            final(self).config == old(self).config,
            final(self).dirty() == old(self).dirty(),
            final(self).filter_params.recipe_filter_string@
                == old(self).filter_params.recipe_filter_string@,
            ({
                let c = final(self).filter_params.recipe_catalog@;
                let rows = recipe_rows(
                    old(self).holders.game_data_holder.recipe_holder.pairs(),
                    old(self).filter_params.recipe_filter_string@,
                );
                &&& c.map_values(|i: RecipeInfo| recipe_info_row(i)).to_multiset()
                    == rows.to_multiset()
                &&& forall|i: int, j: int|
                    0 <= i < j < c.len() ==> (#[trigger] c[i]).id.0 <= (#[trigger] c[j]).id.0
            }),
    {
        let low = lowercase(self.filter_params.recipe_filter_string.as_str());
        let ghost f = self.filter_params.recipe_filter_string@;
        let all = low.as_str().unicode_len() == 0;
        let by_id = if all {
            None
        } else {
            parse_u32(low.as_str())
        };
        let holder = &self.holders.game_data_holder.recipe_holder;
        let ghost pairs = holder.pairs();
        let mut infos: Vec<RecipeInfo> = Vec::new();
        let n = holder.len();
        let mut j: usize = 0;
        while j < n
            invariant
                j <= n,
                n == pairs.len(),
                pairs == holder.pairs(),
                holder == self.holders.game_data_holder.recipe_holder,
                low@ == lower_of(f),
                all == (lower_of(f).len() == 0),
                by_id == (if all {
                    None::<u32>
                } else if is_u32_numeral(lower_of(f)) {
                    Some(dec_val(numeral_digits(lower_of(f))) as u32)
                } else {
                    None::<u32>
                }),
                infos@.map_values(|i: RecipeInfo| recipe_info_row(i)) == recipe_rows(
                    pairs.take(j as int),
                    f,
                ),
            decreases n - j,
        {
            let (_, v) = holder.pair_at(j);
            let matched: bool = if all {
                true
            } else {
                match by_id {
                    Some(idv) => v.id.0 == idv || v.recipe_item.0 == idv || v.product.0 == idv,
                    None => false,
                }
            };
            proof {
                assert(matched == recipe_matches(pairs[j as int].1, f));
                assert(pairs.take(j as int + 1).drop_last() =~= pairs.take(j as int));
                assert(pairs.take(j as int + 1).last() == pairs[j as int]);
            }
            if matched {
                let info = RecipeInfo::from_recipe(v);
                infos.push(info);
                proof {
                    assert(infos@.map_values(|i: RecipeInfo| recipe_info_row(i)) =~= recipe_rows(
                        pairs.take(j as int + 1),
                        f,
                    ));
                }
            } else {
                proof {
                    assert(infos@.map_values(|i: RecipeInfo| recipe_info_row(i)) =~= recipe_rows(
                        pairs.take(j as int + 1),
                        f,
                    ));
                }
            }
            j = j + 1;
        }
        proof {
            assert(pairs.take(n as int) =~= pairs);
        }
        let ghost unsorted = infos@;
        let sorted = sort_by_id(infos);
        proof {
            lemma_map_values_multiset(sorted@, unsorted, |i: RecipeInfo| recipe_info_row(i));
        }
        self.filter_params.recipe_catalog = sorted;
    }

    /// Stores the currently edited recipe back into its table, if the
    /// current window is a recipe window holding the given key. The
    /// window's opening key is refreshed to the recipe's own key.
    pub fn save_recipe_from_dlg(&mut self, id: RecipeId)
        requires
            old(self).holders.game_data_holder.recipe_holder.wf(),
            match old(self).edit_params.current_entity {
                CurrentEntity::Recipe(i) => i < old(self).edit_params.recipes.opened@.len(),
                _ => true,
            },
        ensures
            match old(self).edit_params.current_entity {
                CurrentEntity::Recipe(i) => {
                    let w = old(self).edit_params.recipes.opened@[i as int];
                    if w.inner.id == id {
                        saved_recipe(old(self), final(self), w.inner)
                    } else {
                        *final(self) == *old(self)
                    }
                },
                _ => *final(self) == *old(self),
            },
    {
        if let CurrentEntity::Recipe(index) = self.edit_params.current_entity {
            let do_save = self.edit_params.recipes.opened[index].inner.id.key_eq(&id);
            if do_save {
                let v = self.edit_params.recipes.opened[index].inner.clone();
                self.save_recipe_force(v);
            }
        }
    }

    /// Stores `v` into its table, unless the stored recipe already
    /// carries the same data; a real change also marks the session
    /// dirty and rebuilds the recipe catalog.
    pub fn save_recipe_force(&mut self, v: Recipe)
        requires
            old(self).holders.game_data_holder.recipe_holder.wf(),
        ensures
            saved_recipe(old(self), final(self), v),
    {
        let keep = match self.holders.game_data_holder.recipe_holder.get(&v.id) {
            Some(vv) => vv.same_as(&v),
            None => false,
        };
        if keep {
            return ;
        }
        self.set_changed();
        let id = v.id;
        self.holders.game_data_holder.recipe_holder.insert(id, v);
        self.filter_recipes();
    }
}

/// What holds after `v` was offered to the recipe table: if the stored
/// recipe already carried the same data nothing changed at all;
/// otherwise the table maps `v.id` to a recipe carrying `v`'s data,
/// every other key is untouched, the session is marked dirty, and the
/// recipe catalog was rebuilt against the new table.
pub open spec fn saved_recipe(b0: &Backend, b1: &Backend, v: Recipe) -> bool {
    let h0 = b0.holders.game_data_holder.recipe_holder;
    let h1 = b1.holders.game_data_holder.recipe_holder;
    if (match h0.spec_get(v.id) {
        Some(vv) => vv.equiv(&v),
        None => false,
    }) {
        *b1 == *b0
    } else {
        &&& h1.wf()
        &&& h1.changed()
        &&& match h1.spec_get(v.id) {
            Some(s) => s.equiv(&v),
            None => false,
        }
        &&& forall|k: RecipeId| k != v.id ==> h1.spec_get(k) == h0.spec_get(k)
        &&& b1.dirty()
        &&& b1.edit_params == b0.edit_params
        &&& b1.config == b0.config
        &&& ({
            let c = b1.filter_params.recipe_catalog@;
            let rows = recipe_rows(h1.pairs(), b0.filter_params.recipe_filter_string@);
            &&& c.map_values(|i: RecipeInfo| recipe_info_row(i)).to_multiset()
                == rows.to_multiset()
            &&& forall|i: int, j: int|
                0 <= i < j < c.len() ==> (#[trigger] c[i]).id.0 <= (#[trigger] c[j]).id.0
        })
    }
}

} // verus!

verus! {

impl crate::backend::WindowParams<Recipe, RecipeId, RecipeAction, ()> {
    /// Performs the window's pending action on the working copy: an
    /// ingredient is removed by index, and the consumed action is
    /// reset. The caller answers for the index.
    pub fn handle_action(&mut self)
        requires
            match old(self).action {
                RecipeAction::DeleteIngredient(i) => i < old(self).inner.materials@.len(),
                RecipeAction::Nothing => true,
            },
        ensures
            final(self).inner.materials@ == (match old(self).action {
                RecipeAction::DeleteIngredient(i) => old(self).inner.materials@.remove(i as int),
                RecipeAction::Nothing => old(self).inner.materials@,
            }),
            final(self).action is Nothing,
            final(self).inner.id == old(self).inner.id,
            final(self).inner.name == old(self).inner.name,
            final(self).inner.recipe_item == old(self).inner.recipe_item,
            final(self).inner.product == old(self).inner.product,
            final(self).initial_id == old(self).initial_id,
            final(self).opened == old(self).opened,
            final(self).params == old(self).params,
    {
        match self.action {
            RecipeAction::DeleteIngredient(i) => {
                self.inner.materials.remove(i);
            },
            RecipeAction::Nothing => {},
        }
        self.action = RecipeAction::Nothing;
    }
}

} // verus!
