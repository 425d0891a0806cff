use vstd::prelude::*;
use vstd::multiset::Multiset;
use crate::backend::Backend;
use crate::backend::CurrentEntity;
use crate::backend::EditParams;
use crate::backend::EntityEditParams;
use crate::backend::HasId;
use crate::backend::WindowParams;
use crate::backend::fallback_entity;
use crate::backend::lemma_map_values_multiset;
use crate::backend::same_windows;
use crate::backend::sort_by_id;
use crate::entity::CommonEntity;
use crate::entity::Quest;
use crate::entity::QuestId;
use crate::holder::FHashMap;
use crate::holder::TableKey;
use crate::text::contains_seq;
use crate::text::dec_val;
use crate::text::is_u32_numeral;
use crate::text::numeral_digits;
use crate::text::parse_u32;
use crate::text::str_contains;

verus! {

/// The editor state for quests.
pub type QuestEditor = EntityEditParams<Quest, QuestId, QuestAction, ()>;

/// What a quest-step sub-window asks the next frame to do.
#[derive(Copy, Clone, Debug)]
pub enum StepAction {
    Nothing,
    RemoveGoal(usize),
    RemoveAdditionalLocation(usize),
    RemovePrevStepIndex(usize),
}

/// What a quest window asks the next frame to do.
#[derive(Copy, Clone, Debug)]
pub enum QuestAction {
    Nothing,
    RemoveStep(usize),
    RemoveStartNpcId(usize),
    RemoveReward(usize),
    RemoveQuestItem(usize),
}

/// One row of the quest selector catalog.
pub struct QuestInfo {
    pub id: QuestId,
    pub name: String,
}

impl HasId for QuestInfo {
    open spec fn sid(&self) -> u32 {
        self.id.0
    }

    fn id_val(&self) -> (r: u32) {
        self.id.0
    }
}

impl QuestInfo {
    /// The catalog row of a quest.
    pub fn from_quest(q: &Quest) -> (r: QuestInfo)
        ensures
            r.id == q.id,
            r.name@ == q.title@,
    {
        QuestInfo { id: q.id, name: q.title.clone() }
    }
}

/// Whether a quest passes the filter string: an empty filter passes
/// everything, a numeral selects one id, any other text matches against
/// the title.
pub open spec fn quest_matches(q: Quest, f: Seq<char>) -> bool {
    if f.len() == 0 {
        true
    } else if is_u32_numeral(f) {
        q.id.0 as nat == dec_val(numeral_digits(f))
    } else {
        contains_seq(q.title@, f)
    }
}

/// The catalog row of one entry: the id shown and the name shown.
pub open spec fn quest_row(p: (QuestId, Quest)) -> (u32, Seq<char>) {
    (p.1.id.0, p.1.title@)
}

/// The view of a built catalog row.
pub open spec fn quest_info_row(i: QuestInfo) -> (u32, Seq<char>) {
    (i.id.0, i.name@)
}

/// The rows of the entries of `s` that pass the filter, in table order.
pub open spec fn quest_rows(s: Seq<(QuestId, Quest)>, f: Seq<char>) -> Seq<(u32, Seq<char>)>
    decreases s.len(),
{
    if s.len() == 0 {
        Seq::empty()
    } else {
        let rest = quest_rows(s.drop_last(), f);
        if quest_matches(s.last().1, f) {
            rest.push(quest_row(s.last()))
        } else {
            rest
        }
    }
}

impl EditParams {
    /// The opened quest windows' names and keys, in window order.
    pub fn get_opened_quests_info(&self) -> (r: Vec<(String, QuestId)>)
        ensures
            r@.len() == self.quests.opened@.len(),
            forall|i: int|
                0 <= i < r@.len() ==> {
                    &&& (#[trigger] r@[i]).0@ == self.quests.opened@[i].inner.title@
                    &&& r@[i].1 == self.quests.opened@[i].initial_id
                },
    {
        let mut r: Vec<(String, QuestId)> = Vec::new();
        let n = self.quests.opened.len();
        let mut i: usize = 0;
        while i < n
            invariant
                i <= n,
                n == self.quests.opened@.len(),
                r@.len() == i,
                forall|q: int|
                    0 <= q < i ==> {
                        &&& (#[trigger] r@[q]).0@ == self.quests.opened@[q].inner.title@
                        &&& r@[q].1 == self.quests.opened@[q].initial_id
                    },
            decreases n - i,
        {
            let w = &self.quests.opened[i];
            r.push((w.inner.title.clone(), w.initial_id));
            i = i + 1;
        }
        r
    }

    /// Brings the quest with key `id` to the front: focuses its window
    /// if one is open, else opens a window on a copy of the stored
    /// quest, and does nothing when the table has no such quest.
    #[verifier::loop_isolation(false)]
    pub fn open_quest(&mut self, id: QuestId, holder: &mut FHashMap<QuestId, Quest>)
        requires
            old(holder).wf(),
        ensures
            *final(holder) == *old(holder),
            ({
                let op = old(self).quests.opened@;
                if exists|i: int| 0 <= i < op.len() && (#[trigger] op[i]).initial_id == id {
                    &&& same_windows(old(self), final(self))
                    &&& exists|i: int|
                        {
                            &&& 0 <= i < op.len()
                            &&& (#[trigger] op[i]).initial_id == id
                            &&& forall|j: int| 0 <= j < i ==> (#[trigger] op[j]).initial_id != id
                            &&& final(self).current_entity == CurrentEntity::Quest(i as usize)
                        }
                } else {
                    match old(holder).spec_get(id) {
                        Some(q) => {
                            &&& final(self).quests.opened@.len() == op.len() + 1
                            &&& forall|j: int|
                                0 <= j < op.len() ==> #[trigger] final(self).quests.opened@[j]
                                    == op[j]
                            &&& final(self).quests.opened@.last().initial_id == id
                            &&& final(self).quests.opened@.last().inner.id == q.id
                            &&& final(self).quests.opened@.last().inner.title@ == q.title@
                            &&& final(self).current_entity == CurrentEntity::Quest(
                                op.len() as usize,
                            )
                            &&& final(self).npcs.opened@ == old(self).npcs.opened@
                            &&& final(self).skills.opened@ == old(self).skills.opened@
                            &&& final(self).weapons.opened@ == old(self).weapons.opened@
                            &&& final(self).armor.opened@ == old(self).armor.opened@
                            &&& final(self).recipes.opened@ == old(self).recipes.opened@
                        },
                        None => *final(self) == *old(self),
                    }
                }
            }),
    {
        let n = self.quests.opened.len();
        let mut i: usize = 0;
        while i < n
            invariant
                *self == *old(self),
                i <= n,
                n == self.quests.opened@.len(),
                forall|j: int|
                    0 <= j < i ==> (#[trigger] self.quests.opened@[j]).initial_id != id,
            decreases n - i,
        {
            if self.quests.opened[i].initial_id.key_eq(&id) {
                self.current_entity = CurrentEntity::Quest(i);
                proof {
                    let op = old(self).quests.opened@;
                    assert(op[i as int].initial_id == id);
                    assert(forall|j: int| 0 <= j < i as int ==> (#[trigger] op[j]).initial_id
                        != id);
                    assert((i as int) as usize == i);
                    assert(self.current_entity == CurrentEntity::Quest(i));
                }
                return ;
            }
            i = i + 1;
        }
        match holder.get(&id) {
            Some(q) => {
                let copy = q.clone();
                let at = self.quests.add(copy, id, QuestAction::Nothing, ());
                self.current_entity = CurrentEntity::Quest(at);
            },
            None => {},
        }
    }

    /// Makes the quest window at `index` current, if there is one.
    pub fn set_current_quest(&mut self, index: usize)
        ensures
            same_windows(old(self), final(self)),
            final(self).current_entity == (if index < old(self).quests.opened@.len() {
                CurrentEntity::Quest(index)
            } else {
                old(self).current_entity
            }),
    {
        if index < self.quests.opened.len() {
            self.current_entity = CurrentEntity::Quest(index);
        }
    }

    /// Closes the quest window at `index`. When the current window was a
    /// quest window at or after it, the focus moves one window down, or
    /// to whatever is still open when none is left.
    pub fn close_quest(&mut self, index: usize)
        requires
            index < old(self).quests.opened@.len(),
        ensures
            final(self).quests.opened@ == old(self).quests.opened@.remove(index as int),
            final(self).npcs.opened@ == old(self).npcs.opened@,
            final(self).skills.opened@ == old(self).skills.opened@,
            final(self).weapons.opened@ == old(self).weapons.opened@,
            final(self).armor.opened@ == old(self).armor.opened@,
            final(self).recipes.opened@ == old(self).recipes.opened@,
            final(self).current_entity == (match old(self).current_entity {
                CurrentEntity::Quest(cur) => {
                    if old(self).quests.opened@.len() == 1 {
                        fallback_entity(final(self))
                    } else if cur >= index {
                        CurrentEntity::Quest((if cur > 1 {
                            cur - 1
                        } else {
                            0
                        }) as usize)
                    } else {
                        old(self).current_entity
                    }
                },
                _ => old(self).current_entity,
            }),
    {
        self.quests.remove(index);
        if let CurrentEntity::Quest(curr_index) = self.current_entity {
            if self.quests.opened.len() == 0 {
                self.find_opened_entity();
            } else if curr_index >= index {
                let base = if curr_index > 1 {
                    curr_index
                } else {
                    1
                };
                self.current_entity = CurrentEntity::Quest(base - 1);
            }
        }
    }

    /// Opens a window on a fresh quest and makes it current.
    pub fn create_new_quest(&mut self)
        ensures
            final(self).quests.opened@.len() == old(self).quests.opened@.len() + 1,
            forall|j: int|
                0 <= j < old(self).quests.opened@.len() ==> #[trigger] final(self).quests.opened@[j]
                    == old(self).quests.opened@[j],
            final(self).quests.opened@.last().inner.id == QuestId(0),
            final(self).quests.opened@.last().initial_id == QuestId(0),
            final(self).current_entity == CurrentEntity::Quest(
                old(self).quests.opened@.len() as usize,
            ),
            final(self).npcs.opened@ == old(self).npcs.opened@,
            final(self).skills.opened@ == old(self).skills.opened@,
            final(self).weapons.opened@ == old(self).weapons.opened@,
            final(self).armor.opened@ == old(self).armor.opened@,
            final(self).recipes.opened@ == old(self).recipes.opened@,
    {
        let at = self.quests.add_new(QuestId(0), QuestAction::Nothing, ());
        self.current_entity = CurrentEntity::Quest(at);
    }
}

impl Backend {
    /// Rebuilds the quest selector catalog: the rows of exactly the
    /// quests that pass the filter string, ordered by id ascending.
    #[verifier::loop_isolation(false)]
    pub fn filter_quests(&mut self)
        requires
            old(self).holders.game_data_holder.quest_holder.wf(),
        ensures
            final(self).holders == old(self).holders,
            final(self).edit_params == old(self).edit_params,
            final(self).config == old(self).config,
            final(self).dirty() == old(self).dirty(),
            final(self).filter_params.quest_filter_string@
                == old(self).filter_params.quest_filter_string@,
            ({
                let c = final(self).filter_params.quest_catalog@;
                let rows = quest_rows(
                    old(self).holders.game_data_holder.quest_holder.pairs(),
                    old(self).filter_params.quest_filter_string@,
                );
                &&& c.map_values(|i: QuestInfo| quest_info_row(i)).to_multiset()
                    == rows.to_multiset()
                &&& forall|i: int, j: int|
                    0 <= i < j < c.len() ==> (#[trigger] c[i]).id.0 <= (#[trigger] c[j]).id.0
            }),
    {
        let fs = self.filter_params.quest_filter_string.clone();
        let ghost f = fs@;
        let all = fs.unicode_len() == 0;
        let by_id = if all {
            None
        } else {
            parse_u32(fs.as_str())
        };
        let holder = &self.holders.game_data_holder.quest_holder;
        let ghost pairs = holder.pairs();
        let mut infos: Vec<QuestInfo> = Vec::new();
        let n = holder.len();
        let mut j: usize = 0;
        while j < n
            invariant
                j <= n,
                n == pairs.len(),
                pairs == holder.pairs(),
                holder == self.holders.game_data_holder.quest_holder,
                infos@.map_values(|i: QuestInfo| quest_info_row(i)) == quest_rows(
                    pairs.take(j as int),
                    f,
                ),
            decreases n - j,
        {
            let (_, q) = holder.pair_at(j);
            let matched: bool = if all {
                true
            } else {
                match by_id {
                    Some(idv) => q.id.0 == idv,
                    None => str_contains(q.title.as_str(), fs.as_str()),
                }
            };
            proof {
                assert(matched == quest_matches(pairs[j as int].1, f));
                assert(pairs.take(j as int + 1).drop_last() =~= pairs.take(j as int));
                assert(pairs.take(j as int + 1).last() == pairs[j as int]);
            }
            if matched {
                let info = QuestInfo::from_quest(q);
                infos.push(info);
                proof {
                    assert(infos@.map_values(|i: QuestInfo| quest_info_row(i)) =~= quest_rows(
                        pairs.take(j as int + 1),
                        f,
                    ));
                }
            } else {
                proof {
                    assert(infos@.map_values(|i: QuestInfo| quest_info_row(i)) =~= quest_rows(
                        pairs.take(j as int + 1),
                        f,
                    ));
                }
            }
            j = j + 1;
        }
        proof {
            assert(pairs.take(n as int) =~= pairs);
        }
        let ghost unsorted = infos@;
        let sorted = sort_by_id(infos);
        proof {
            lemma_map_values_multiset(sorted@, unsorted, |i: QuestInfo| quest_info_row(i));
        }
        self.filter_params.quest_catalog = sorted;
    }

    /// Stores the currently edited quest back into its table, if the
    /// current window is a quest window holding the given key.
    pub fn save_quest_from_dlg(&mut self, quest_id: QuestId)
        requires
            old(self).holders.game_data_holder.quest_holder.wf(),
            match old(self).edit_params.current_entity {
                CurrentEntity::Quest(i) => i < old(self).edit_params.quests.opened@.len(),
                _ => true,
            },
        ensures
            match old(self).edit_params.current_entity {
                CurrentEntity::Quest(i) => {
                    let w = old(self).edit_params.quests.opened@[i as int];
                    if w.inner.id == quest_id {
                        saved_quest(old(self), final(self), w.inner)
                    } else {
                        *final(self) == *old(self)
                    }
                },
                _ => *final(self) == *old(self),
            },
    {
        if let CurrentEntity::Quest(index) = self.edit_params.current_entity {
            let do_save = self.edit_params.quests.opened[index].inner.id.key_eq(&quest_id);
            if do_save {
                let quest = self.edit_params.quests.opened[index].inner.clone();
                self.save_quest_force(quest);
            }
        }
    }

    /// Stores `quest` into its table under its own key, with the script
    /// source stripped (persisting it is outside this library's scope),
    /// and rebuilds the quest catalog.
    pub fn save_quest_force(&mut self, quest: Quest)
        requires
            old(self).holders.game_data_holder.quest_holder.wf(),
        ensures
            saved_quest_exact(old(self), final(self), quest),
    {
        let mut quest = quest;
        quest.java_class = None;
        let id = quest.id;
        self.holders.game_data_holder.quest_holder.insert(id, quest);
        self.filter_quests();
    }
}

/// What holds after a quest whose data equals `q`'s was stored: the
/// table maps `q.id` to `q` with its script source stripped, every other
/// key is untouched, the table is dirty, and the catalog was rebuilt
/// against the new table.
pub open spec fn saved_quest_exact(b0: &Backend, b1: &Backend, q: Quest) -> bool {
    let h0 = b0.holders.game_data_holder.quest_holder;
    let h1 = b1.holders.game_data_holder.quest_holder;
    &&& h1.wf()
    &&& h1.changed()
    &&& match h1.spec_get(q.id) {
        Some(v) => v.id == q.id && v.title@ == q.title@ && v.java_class is None,
        None => false,
    }
    &&& forall|k: QuestId| k != q.id ==> h1.spec_get(k) == h0.spec_get(k)
    &&& b1.edit_params == b0.edit_params
    &&& b1.config == b0.config
    &&& ({
        let c = b1.filter_params.quest_catalog@;
        let rows = quest_rows(h1.pairs(), b0.filter_params.quest_filter_string@);
        &&& c.map_values(|i: QuestInfo| quest_info_row(i)).to_multiset() == rows.to_multiset()
        &&& forall|i: int, j: int|
            0 <= i < j < c.len() ==> (#[trigger] c[i]).id.0 <= (#[trigger] c[j]).id.0
    })
}

/// As `saved_quest_exact`, for a stored copy that carries `q`'s key and
/// title.
pub open spec fn saved_quest(b0: &Backend, b1: &Backend, q: Quest) -> bool {
    let h1 = b1.holders.game_data_holder.quest_holder;
    &&& h1.wf()
    &&& h1.changed()
    &&& match h1.spec_get(q.id) {
        Some(v) => v.id == q.id && v.title@ == q.title@ && v.java_class is None,
        None => false,
    }
    &&& forall|k: QuestId|
        k != q.id ==> h1.spec_get(k) == b0.holders.game_data_holder.quest_holder.spec_get(k)
    &&& b1.edit_params == b0.edit_params
    &&& b1.config == b0.config
}

} // verus!
