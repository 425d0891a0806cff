use vstd::prelude::*;
use crate::backend::Backend;
use crate::backend::CurrentEntity;
use crate::backend::EditParams;
use crate::backend::EntityEditParams;
use crate::backend::HasId;
use crate::backend::lemma_map_values_multiset;
use crate::backend::same_windows;
use crate::backend::sort_by_id;
use crate::entity::Skill;
use crate::entity::SkillId;
use crate::holder::FHashMap;
use crate::holder::TableKey;
use crate::text::contains_seq;
use crate::text::dec_val;
use crate::text::is_u32_numeral;
use crate::text::lower_of;
use crate::text::lowercase;
use crate::text::numeral_digits;
use crate::text::parse_u32;
use crate::text::str_contains;
use vstd::string::StrSliceExecFns;
use vstd::string::StringExecFns;

verus! {

/// The editor state for skills.
pub type SkillEditor = EntityEditParams<Skill, SkillId, SkillAction, SkillEditWindowParams>;

/// What a skill window asks the next frame to do.
#[derive(Copy, Clone, Debug)]
pub enum SkillAction {
    Nothing,
    DeleteLevel,
    AddLevel,
    AddEnchant,
    DeleteEnchant(usize),
    AddEnchantLevel(usize),
    DeleteEnchantLevel(usize),
}

/// What a use-condition sub-window asks the next frame to do.
#[derive(Copy, Clone, Debug)]
pub enum SkillUceConditionAction {
    Nothing,
    DeleteWeapon(usize),
    DeleteEffectOnCaster(usize),
    DeleteEffectOnTarget(usize),
}

/// What a skill-enchant sub-window asks the next frame to do.
#[derive(Copy, Clone, Debug)]
pub enum SkillEnchantAction {
    Nothing,
}

/// The per-window state of a skill editor: which level is shown.
#[derive(Copy, Clone, Debug)]
pub struct SkillEditWindowParams {
    pub current_level_index: usize,
}

/// The per-window state of a skill-enchant editor: which enchant level
/// is shown.
#[derive(Copy, Clone, Debug)]
pub struct SkillEnchantEditWindowParams {
    pub current_level_index: usize,
}

/// One row of the skill selector catalog.
pub struct SkillInfo {
    pub id: SkillId,
    pub name: String,
}

impl HasId for SkillInfo {
    open spec fn sid(&self) -> u32 {
        self.id.0
    }

    fn id_val(&self) -> (r: u32) {
        self.id.0
    }
}

impl SkillInfo {
    /// The catalog row of a skill.
    pub fn from_skill(s: &Skill) -> (r: SkillInfo)
        ensures
            r.id == s.id,
            r.name@ == s.name@,
    {
        SkillInfo { id: s.id, name: s.name.clone() }
    }
}

/// Whether a skill passes the filter string. The filter is lowercased
/// first: an empty result passes everything, a numeral selects one id,
/// any other text matches case-insensitively against the name.
pub open spec fn skill_matches(s: Skill, f: Seq<char>) -> bool {
    let l = lower_of(f);
    if l.len() == 0 {
        true
    } else if is_u32_numeral(l) {
        s.id.0 as nat == dec_val(numeral_digits(l))
    } else {
        contains_seq(lower_of(s.name@), l)
    }
}

/// The catalog row of one entry.
pub open spec fn skill_row(p: (SkillId, Skill)) -> (u32, Seq<char>) {
    (p.1.id.0, p.1.name@)
}

/// The view of a built catalog row.
pub open spec fn skill_info_row(i: SkillInfo) -> (u32, Seq<char>) {
    (i.id.0, i.name@)
}

/// The rows of the entries of `s` that pass the filter, in table order.
pub open spec fn skill_rows(s: Seq<(SkillId, Skill)>, f: Seq<char>) -> Seq<(u32, Seq<char>)>
    decreases s.len(),
{
    if s.len() == 0 {
        Seq::empty()
    } else {
        let rest = skill_rows(s.drop_last(), f);
        if skill_matches(s.last().1, f) {
            rest.push(skill_row(s.last()))
        } else {
            rest
        }
    }
}

impl EditParams {
    /// The opened skill windows' names, keys and visibility, in window
    /// order.
    pub fn get_opened_skills_info(&self) -> (r: Vec<(String, SkillId, bool)>)
        ensures
            r@.len() == self.skills.opened@.len(),
            forall|i: int|
                0 <= i < r@.len() ==> {
                    &&& (#[trigger] r@[i]).0@ == self.skills.opened@[i].inner.name@
                    &&& r@[i].1 == self.skills.opened@[i].initial_id
                    &&& r@[i].2 == self.skills.opened@[i].opened
                },
    {
        let mut r: Vec<(String, SkillId, bool)> = Vec::new();
        let n = self.skills.opened.len();
        let mut i: usize = 0;
        while i < n
            invariant
                i <= n,
                n == self.skills.opened@.len(),
                r@.len() == i,
                forall|q: int|
                    0 <= q < i ==> {
                        &&& (#[trigger] r@[q]).0@ == self.skills.opened@[q].inner.name@
                        &&& r@[q].1 == self.skills.opened@[q].initial_id
                        &&& r@[q].2 == self.skills.opened@[q].opened
                    },
            decreases n - i,
        {
            let w = &self.skills.opened[i];
            r.push((w.inner.name.clone(), w.initial_id, w.opened));
            i = i + 1;
        }
        r
    }

    /// Brings the skill with key `id` to the front: focuses its window
    /// if one is open, else opens a window on a copy of the stored
    /// skill, and does nothing when the table has no such skill.
    #[verifier::loop_isolation(false)]
    pub fn open_skill(&mut self, id: SkillId, holder: &mut FHashMap<SkillId, Skill>)
        requires
            old(holder).wf(),
        ensures
            *final(holder) == *old(holder),
            ({
                let op = old(self).skills.opened@;
                if exists|i: int| 0 <= i < op.len() && (#[trigger] op[i]).initial_id == id {
                    &&& same_windows(old(self), final(self))
                    &&& exists|i: int|
                        {
                            &&& 0 <= i < op.len()
                            &&& (#[trigger] op[i]).initial_id == id
                            &&& forall|j: int| 0 <= j < i ==> (#[trigger] op[j]).initial_id != id
                            &&& final(self).current_entity == CurrentEntity::Skill(i as usize)
                        }
                } else {
                    match old(holder).spec_get(id) {
                        Some(v) => {
                            &&& final(self).skills.opened@.len() == op.len() + 1
                            &&& forall|j: int|
                                0 <= j < op.len() ==> #[trigger] final(self).skills.opened@[j]
                                    == op[j]
                            &&& final(self).skills.opened@.last().initial_id == id
                            &&& final(self).skills.opened@.last().inner.equiv(&v)
                            &&& final(self).current_entity == CurrentEntity::Skill(
                                op.len() as usize,
                            )
                            &&& final(self).quests.opened@ == old(self).quests.opened@
                            &&& final(self).npcs.opened@ == old(self).npcs.opened@
                            &&& final(self).weapons.opened@ == old(self).weapons.opened@
                            &&& final(self).armor.opened@ == old(self).armor.opened@
                            &&& final(self).recipes.opened@ == old(self).recipes.opened@
                        },
                        None => *final(self) == *old(self),
                    }
                }
            }),
    {
        let n = self.skills.opened.len();
        let mut i: usize = 0;
        while i < n
            invariant
                *self == *old(self),
                i <= n,
                n == self.skills.opened@.len(),
                forall|j: int| 0 <= j < i ==> (#[trigger] self.skills.opened@[j]).initial_id != id,
            decreases n - i,
        {
            if self.skills.opened[i].initial_id.key_eq(&id) {
                self.current_entity = CurrentEntity::Skill(i);
                proof {
                    let op = old(self).skills.opened@;
                    assert(op[i as int].initial_id == id);
                    assert(forall|j: int| 0 <= j < i as int ==> (#[trigger] op[j]).initial_id
                        != id);
                    assert((i as int) as usize == i);
                    assert(self.current_entity == CurrentEntity::Skill(i));
                }
                return ;
            }
            i = i + 1;
        }
        match holder.get(&id) {
            Some(v) => {
                let copy = v.clone();
                let at = self.skills.add(
                    copy,
                    id,
                    SkillAction::Nothing,
                    SkillEditWindowParams { current_level_index: 0 },
                );
                self.current_entity = CurrentEntity::Skill(at);
            },
            None => {},
        }
    }

    /// Makes the skill window at `index` current, if there is one.
    pub fn set_current_skill(&mut self, index: usize)
        ensures
            same_windows(old(self), final(self)),
            final(self).current_entity == (if index < old(self).skills.opened@.len() {
                CurrentEntity::Skill(index)
            } else {
                old(self).current_entity
            }),
    {
        if index < self.skills.opened.len() {
            self.current_entity = CurrentEntity::Skill(index);
        }
    }

    /// Opens a window on a fresh skill and makes it current.
    pub fn create_new_skill(&mut self)
        ensures
            final(self).skills.opened@.len() == old(self).skills.opened@.len() + 1,
            forall|j: int|
                0 <= j < old(self).skills.opened@.len() ==> #[trigger] final(self).skills.opened@[j] == old(self).skills.opened@[j],
            final(self).skills.opened@.last().inner.id == SkillId(0),
            final(self).skills.opened@.last().initial_id == SkillId(0),
            final(self).current_entity == CurrentEntity::Skill(
                old(self).skills.opened@.len() as usize,
            ),
            final(self).quests.opened@ == old(self).quests.opened@,
            final(self).npcs.opened@ == old(self).npcs.opened@,
            final(self).weapons.opened@ == old(self).weapons.opened@,
            final(self).armor.opened@ == old(self).armor.opened@,
            final(self).recipes.opened@ == old(self).recipes.opened@,
    {
        let at = self.skills.add_new(
            SkillId(0),
            SkillAction::Nothing,
            SkillEditWindowParams { current_level_index: 0 },
        );
        self.current_entity = CurrentEntity::Skill(at);
    }
}

impl Backend {
    /// Rebuilds the skill selector catalog: the rows of exactly the
    /// skills that pass the filter string, ordered by id ascending.
    #[verifier::loop_isolation(false)]
    pub fn filter_skills(&mut self)
        requires
            old(self).holders.game_data_holder.skill_holder.wf(),
        ensures
            final(self).holders == old(self).holders,
            final(self).edit_params == old(self).edit_params,
            final(self).config == old(self).config,
            final(self).dirty() == old(self).dirty(),
            final(self).filter_params.skill_filter_string@
                == old(self).filter_params.skill_filter_string@,
            ({
                let c = final(self).filter_params.skill_catalog@;
                let rows = skill_rows(
                    old(self).holders.game_data_holder.skill_holder.pairs(),
                    old(self).filter_params.skill_filter_string@,
                );
                &&& c.map_values(|i: SkillInfo| skill_info_row(i)).to_multiset()
                    == rows.to_multiset()
                &&& forall|i: int, j: int|
                    0 <= i < j < c.len() ==> (#[trigger] c[i]).id.0 <= (#[trigger] c[j]).id.0
            }),
    {
        let low = lowercase(self.filter_params.skill_filter_string.as_str());
        let ghost f = self.filter_params.skill_filter_string@;
        let all = low.as_str().unicode_len() == 0;
        let by_id = if all {
            None
        } else {
            parse_u32(low.as_str())
        };
        let holder = &self.holders.game_data_holder.skill_holder;
        let ghost pairs = holder.pairs();
        let mut infos: Vec<SkillInfo> = Vec::new();
        let n = holder.len();
        let mut j: usize = 0;
        while j < n
            invariant
                j <= n,
                n == pairs.len(),
                pairs == holder.pairs(),
                holder == self.holders.game_data_holder.skill_holder,
                low@ == lower_of(f),
                all == (lower_of(f).len() == 0),
                by_id == (if all {
                    None::<u32>
                } else if is_u32_numeral(lower_of(f)) {
                    Some(dec_val(numeral_digits(lower_of(f))) as u32)
                } else {
                    None::<u32>
                }),
                infos@.map_values(|i: SkillInfo| skill_info_row(i)) == skill_rows(
                    pairs.take(j as int),
                    f,
                ),
            decreases n - j,
        {
            let (_, v) = holder.pair_at(j);
            let matched: bool = if all {
                true
            } else {
                match by_id {
                    Some(idv) => v.id.0 == idv,
                    None => {
                        let vname = lowercase(v.name.as_str());
                        str_contains(vname.as_str(), low.as_str())
                    },
                }
            };
            proof {
                assert(matched == skill_matches(pairs[j as int].1, f));
                assert(pairs.take(j as int + 1).drop_last() =~= pairs.take(j as int));
                assert(pairs.take(j as int + 1).last() == pairs[j as int]);
            }
            if matched {
                let info = SkillInfo::from_skill(v);
                infos.push(info);
                proof {
                    assert(infos@.map_values(|i: SkillInfo| skill_info_row(i)) =~= skill_rows(
                        pairs.take(j as int + 1),
                        f,
                    ));
                }
            } else {
                proof {
                    assert(infos@.map_values(|i: SkillInfo| skill_info_row(i)) =~= skill_rows(
                        pairs.take(j as int + 1),
                        f,
                    ));
                }
            }
            j = j + 1;
        }
        proof {
            assert(pairs.take(n as int) =~= pairs);
        }
        let ghost unsorted = infos@;
        let sorted = sort_by_id(infos);
        proof {
            lemma_map_values_multiset(sorted@, unsorted, |i: SkillInfo| skill_info_row(i));
        }
        self.filter_params.skill_catalog = sorted;
    }

    /// Stores the currently edited skill back into its table, if the
    /// current window is a skill window holding the given key. The
    /// window's opening key is refreshed to the skill's own key.
    pub fn save_skill_from_dlg(&mut self, skill_id: SkillId)
        requires
            old(self).holders.game_data_holder.skill_holder.wf(),
            match old(self).edit_params.current_entity {
                CurrentEntity::Skill(i) => i < old(self).edit_params.skills.opened@.len(),
                _ => true,
            },
        ensures
            match old(self).edit_params.current_entity {
                CurrentEntity::Skill(i) => {
                    let w = old(self).edit_params.skills.opened@[i as int];
                    if w.inner.id == skill_id {
                        saved_skill(old(self), final(self), w.inner, i as int)
                    } else {
                        *final(self) == *old(self)
                    }
                },
                _ => *final(self) == *old(self),
            },
    {
        if let CurrentEntity::Skill(index) = self.edit_params.current_entity {
            let do_save = self.edit_params.skills.opened[index].inner.id.key_eq(&skill_id);
            if do_save {
                let skill = self.edit_params.skills.opened[index].inner.clone();
                self.save_skill_force(skill);
            }
        }
    }

    /// Stores `skill` into its table, unless the stored skill already
    /// carries the same data; a real change also marks the session
    /// dirty and rebuilds the skill catalog.
    pub fn save_skill_force(&mut self, skill: Skill)
        requires
            old(self).holders.game_data_holder.skill_holder.wf(),
        ensures
            saved_skill_exact(old(self), final(self), skill),
    {
        let keep = match self.holders.game_data_holder.skill_holder.get(&skill.id) {
            Some(v) => v.same_as(&skill),
            None => false,
        };
        if keep {
            return ;
        }
        self.set_changed();
        let id = skill.id;
        self.holders.game_data_holder.skill_holder.insert(id, skill);
        self.filter_skills();
    }
}

/// What holds after `s` was offered to the skill table: if the stored
/// skill already carried the same data nothing changed at all;
/// otherwise the table maps `s.id` to a skill carrying `s`'s data,
/// every other key is untouched, the session is marked dirty, and the
/// skill catalog was rebuilt against the new table.
pub open spec fn saved_skill_exact(b0: &Backend, b1: &Backend, s: Skill) -> bool {
    let h0 = b0.holders.game_data_holder.skill_holder;
    let h1 = b1.holders.game_data_holder.skill_holder;
    if (match h0.spec_get(s.id) {
        Some(v) => v.equiv(&s),
        None => false,
    }) {
        *b1 == *b0
    } else {
        &&& h1.wf()
        &&& h1.changed()
        &&& match h1.spec_get(s.id) {
            Some(v) => v == s,
            None => false,
        }
        &&& forall|k: SkillId| k != s.id ==> h1.spec_get(k) == h0.spec_get(k)
        &&& b1.dirty()
        &&& b1.edit_params == b0.edit_params
        &&& b1.config == b0.config
        &&& ({
            let c = b1.filter_params.skill_catalog@;
            let rows = skill_rows(h1.pairs(), b0.filter_params.skill_filter_string@);
            &&& c.map_values(|i: SkillInfo| skill_info_row(i)).to_multiset() == rows.to_multiset()
            &&& forall|i: int, j: int|
                0 <= i < j < c.len() ==> (#[trigger] c[i]).id.0 <= (#[trigger] c[j]).id.0
        })
    }
}

/// As `saved_skill_exact`, for the copy taken from the editor window at
/// `w`: the stored value carries the same data as the window's skill.
pub open spec fn saved_skill(b0: &Backend, b1: &Backend, s: Skill, w: int) -> bool {
    let h0 = b0.holders.game_data_holder.skill_holder;
    let h1 = b1.holders.game_data_holder.skill_holder;
    if (match h0.spec_get(s.id) {
        Some(v) => v.equiv(&s),
        None => false,
    }) {
        *b1 == *b0
    } else {
        &&& h1.wf()
        &&& h1.changed()
        &&& match h1.spec_get(s.id) {
            Some(v) => v.equiv(&s),
            None => false,
        }
        &&& forall|k: SkillId| k != s.id ==> h1.spec_get(k) == h0.spec_get(k)
        &&& b1.dirty()
        &&& b1.edit_params == b0.edit_params
        &&& b1.config == b0.config
    }
}

} // verus!

verus! {

/// The scan `AddLevel` and `AddEnchantLevel` perform: starting with the
/// candidate level `counter`, walk the list until a level greater than
/// the candidate appears; the result is the insertion point and the
/// candidate reached.
pub open spec fn add_scan_levels(lv: Seq<crate::entity::SkillLevelInfo>, i: int, counter: int) -> (
    int,
    int,
)
    decreases lv.len() - i,
{
    if i < 0 || i >= lv.len() {
        (lv.len() - 1, counter)
    } else if lv[i].level > counter {
        (i, counter)
    } else {
        add_scan_levels(lv, i + 1, counter + 1)
    }
}

/// As `add_scan_levels`, over the steps of one enchant route.
pub open spec fn add_scan_enchants(
    s: Seq<crate::entity::EnchantLevelInfo>,
    i: int,
    counter: int,
) -> (int, int)
    decreases s.len() - i,
{
    if i < 0 || i >= s.len() {
        (s.len() - 1, counter)
    } else if s[i].level > counter {
        (i, counter)
    } else {
        add_scan_enchants(s, i + 1, counter + 1)
    }
}

/// Whether `a` holds the same enchant routes as `b`, window by window.
pub open spec fn enchant_windows_equiv(
    a: Seq<
        crate::backend::WindowParams<
            crate::entity::EnchantInfo,
            (),
            SkillEnchantAction,
            SkillEnchantEditWindowParams,
        >,
    >,
    b: Seq<
        crate::backend::WindowParams<
            crate::entity::EnchantInfo,
            (),
            SkillEnchantAction,
            SkillEnchantEditWindowParams,
        >,
    >,
) -> bool {
    &&& a.len() == b.len()
    &&& forall|i: int|
        0 <= i < a.len() ==> crate::entity::enchant_info_equiv(
            &(#[trigger] a[i]).inner,
            &b[i].inner,
        )
}

impl crate::backend::WindowParams<Skill, SkillId, SkillAction, SkillEditWindowParams> {
    /// Whether the window's pending actions can be performed on the
    /// current working copy. The editor only offers an action when it
    /// can: indices point at displayed rows, a level can only be
    /// deleted while another remains, and the level counters stay
    /// within their width.
    pub open spec fn actions_enabled(&self) -> bool {
        let lv = self.inner.skill_levels@;
        let cli = self.params.current_level_index as int;
        &&& match self.action {
            SkillAction::Nothing => true,
            SkillAction::DeleteLevel => {
                &&& cli < lv.len()
                &&& lv.len() >= 2
                &&& forall|q: int| cli + 1 <= q < lv.len() ==> (#[trigger] lv[q]).level >= 1
            },
            SkillAction::AddLevel => 1 <= lv.len() < u32::MAX,
            SkillAction::AddEnchant => cli < lv.len() && (lv[cli].available_enchants@.len() > 0
                ==> lv[cli].available_enchants@.last().inner.enchant_type < u32::MAX && lv[
                cli
            ].available_enchants@.last().inner.enchant_levels@.len() >= 1),
            SkillAction::DeleteEnchant(idx) => cli < lv.len() && idx < lv[
                cli
            ].available_enchants@.len(),
            SkillAction::AddEnchantLevel(idx) => cli < lv.len() && idx < lv[
                cli
            ].available_enchants@.len() && 1 <= lv[cli].available_enchants@[
                idx as int
            ].inner.enchant_levels@.len() < u32::MAX,
            SkillAction::DeleteEnchantLevel(idx) => {
                &&& cli < lv.len()
                &&& idx < lv[cli].available_enchants@.len()
                &&& lv[cli].available_enchants@[idx as int].params.current_level_index < lv[
                    cli
                ].available_enchants@[idx as int].inner.enchant_levels@.len()
                &&& lv[cli].available_enchants@[idx as int].inner.enchant_levels@.len() >= 2
            },
        }
        &&& match self.inner.use_condition {
            Some(c) => match c.action {
                SkillUceConditionAction::Nothing => true,
                SkillUceConditionAction::DeleteWeapon(i) => i < c.inner.weapon_types@.len(),
                SkillUceConditionAction::DeleteEffectOnCaster(i) => i
                    < c.inner.caster_prior_skill@.len(),
                SkillUceConditionAction::DeleteEffectOnTarget(i) => i
                    < c.inner.target_prior_skill@.len(),
            },
            None => true,
        }
    }

    /// Performs the window's pending actions on the working copy, then
    /// resets them: a level is deleted (renumbering those after it) or
    /// inserted at its counter's place; an enchant route is added after
    /// the last one or deleted; an enchant step is added or deleted;
    /// and the use condition drops the row its own action names.
    #[verifier::loop_isolation(false)]
    #[verifier::rlimit(100)]
    pub fn handle_action(&mut self)
        requires
            old(self).actions_enabled(),
        ensures
            final(self).action is Nothing,
            final(self).initial_id == old(self).initial_id,
            final(self).opened == old(self).opened,
            final(self).inner.id == old(self).inner.id,
            final(self).inner.name == old(self).inner.name,
            ({
                let lv = old(self).inner.skill_levels@;
                let lv2 = final(self).inner.skill_levels@;
                let cli = old(self).params.current_level_index as int;
                match old(self).action {
                    SkillAction::Nothing => lv2 == lv && final(self).params
                        == old(self).params,
                    SkillAction::DeleteLevel => {
                        &&& lv2.len() == lv.len() - 1
                        &&& forall|q: int| 0 <= q < cli ==> #[trigger] lv2[q] == lv[q]
                        &&& forall|q: int|
                            cli <= q < lv2.len() ==> (#[trigger] lv2[q]).level == lv[q
                                + 1].level - 1 && lv2[q].available_enchants == lv[q
                                + 1].available_enchants
                        &&& final(self).params.current_level_index as int == (if cli < lv2.len() {
                            cli
                        } else {
                            lv2.len() - 1
                        })
                    },
                    SkillAction::AddLevel => {
                        let (proto, nl) = add_scan_levels(lv, 0, 1);
                        &&& lv2.len() == lv.len() + 1
                        &&& (if proto != lv.len() - 1 {
                            &&& forall|q: int| 0 <= q < proto ==> #[trigger] lv2[q] == lv[q]
                            &&& forall|q: int|
                                proto < q < lv2.len() ==> #[trigger] lv2[q] == lv[q - 1]
                            &&& lv2[proto].level == nl
                            &&& enchant_windows_equiv(
                                lv2[proto].available_enchants@,
                                lv[proto].available_enchants@,
                            )
                            &&& final(self).params.current_level_index as int == proto
                        } else {
                            &&& forall|q: int| 0 <= q < lv.len() ==> #[trigger] lv2[q] == lv[q]
                            &&& lv2.last().level == nl
                            &&& enchant_windows_equiv(
                                lv2.last().available_enchants@,
                                lv[proto].available_enchants@,
                            )
                            &&& final(self).params.current_level_index as int == lv.len()
                        })
                    },
                    SkillAction::AddEnchant => {
                        let es = lv[cli].available_enchants@;
                        let es2 = lv2[cli].available_enchants@;
                        &&& lv2.len() == lv.len()
                        &&& forall|q: int| 0 <= q < lv.len() && q != cli ==> #[trigger] lv2[q]
                            == lv[q]
                        &&& lv2[cli].level == lv[cli].level
                        &&& es2.len() == es.len() + 1
                        &&& forall|q: int| 0 <= q < es.len() ==> #[trigger] es2[q] == es[q]
                        &&& (if es.len() == 0 {
                            &&& es2.last().inner.enchant_type == 0
                            &&& es2.last().inner.enchant_levels@.len() == 0
                            &&& es2.last().params.current_level_index == 0
                        } else {
                            &&& es2.last().inner.enchant_type == es.last().inner.enchant_type + 1
                            &&& es2.last().inner.enchant_levels@
                                == es.last().inner.enchant_levels@
                            &&& es2.last().params.current_level_index as int == es.last(
                            ).inner.enchant_levels@.len() - 1
                        })
                        &&& final(self).params == old(self).params
                    },
                    SkillAction::DeleteEnchant(idx) => {
                        &&& lv2.len() == lv.len()
                        &&& forall|q: int| 0 <= q < lv.len() && q != cli ==> #[trigger] lv2[q]
                            == lv[q]
                        &&& lv2[cli].level == lv[cli].level
                        &&& lv2[cli].available_enchants@ == lv[cli].available_enchants@.remove(
                            idx as int,
                        )
                        &&& final(self).params == old(self).params
                    },
                    SkillAction::AddEnchantLevel(idx) => {
                        let w = lv[cli].available_enchants@[idx as int];
                        let w2 = lv2[cli].available_enchants@[idx as int];
                        let (proto, nl) = add_scan_enchants(w.inner.enchant_levels@, 0, 1);
                        &&& lv2.len() == lv.len()
                        &&& forall|q: int| 0 <= q < lv.len() && q != cli ==> #[trigger] lv2[q]
                            == lv[q]
                        &&& lv2[cli].level == lv[cli].level
                        &&& lv2[cli].available_enchants@.len() == lv[
                            cli
                        ].available_enchants@.len()
                        &&& forall|q: int|
                            0 <= q < lv[cli].available_enchants@.len() && q != idx
                                ==> #[trigger] lv2[cli].available_enchants@[q] == lv[
                                cli
                            ].available_enchants@[q]
                        &&& w2.inner.enchant_type == w.inner.enchant_type
                        &&& (if proto != w.inner.enchant_levels@.len() - 1 {
                            &&& w2.inner.enchant_levels@ == w.inner.enchant_levels@.insert(
                                proto,
                                crate::entity::EnchantLevelInfo { level: nl as u32 },
                            )
                            &&& w2.params.current_level_index as int == proto
                        } else {
                            &&& w2.inner.enchant_levels@ == w.inner.enchant_levels@.push(
                                crate::entity::EnchantLevelInfo { level: nl as u32 },
                            )
                            &&& w2.params.current_level_index as int
                                == w.inner.enchant_levels@.len()
                        })
                        &&& final(self).params == old(self).params
                    },
                    SkillAction::DeleteEnchantLevel(idx) => {
                        let w = lv[cli].available_enchants@[idx as int];
                        let w2 = lv2[cli].available_enchants@[idx as int];
                        let wcli = w.params.current_level_index as int;
                        &&& lv2.len() == lv.len()
                        &&& forall|q: int| 0 <= q < lv.len() && q != cli ==> #[trigger] lv2[q]
                            == lv[q]
                        &&& lv2[cli].level == lv[cli].level
                        &&& lv2[cli].available_enchants@.len() == lv[
                            cli
                        ].available_enchants@.len()
                        &&& forall|q: int|
                            0 <= q < lv[cli].available_enchants@.len() && q != idx
                                ==> #[trigger] lv2[cli].available_enchants@[q] == lv[
                                cli
                            ].available_enchants@[q]
                        &&& w2.inner.enchant_type == w.inner.enchant_type
                        &&& w2.inner.enchant_levels@ == w.inner.enchant_levels@.remove(wcli)
                        &&& w2.params.current_level_index as int == (if wcli
                            < w.inner.enchant_levels@.len() - 1 {
                            wcli
                        } else {
                            w.inner.enchant_levels@.len() - 2
                        })
                        &&& final(self).params == old(self).params
                    },
                }
            }),
            ({
                match (old(self).inner.use_condition, final(self).inner.use_condition) {
                    (Some(c), Some(c2)) => {
                        &&& c2.action is Nothing
                        &&& c2.opened == c.opened
                        &&& c2.inner.weapon_types@ == (match c.action {
                            SkillUceConditionAction::DeleteWeapon(i) => c.inner.weapon_types@
                                .remove(i as int),
                            _ => c.inner.weapon_types@,
                        })
                        &&& c2.inner.caster_prior_skill@ == (match c.action {
                            SkillUceConditionAction::DeleteEffectOnCaster(i) => c.inner
                                .caster_prior_skill@.remove(i as int),
                            _ => c.inner.caster_prior_skill@,
                        })
                        &&& c2.inner.target_prior_skill@ == (match c.action {
                            SkillUceConditionAction::DeleteEffectOnTarget(i) => c.inner
                                .target_prior_skill@.remove(i as int),
                            _ => c.inner.target_prior_skill@,
                        })
                    },
                    (None, None) => true,
                    _ => false,
                }
            }),
    {
        match self.action {
            SkillAction::DeleteLevel => {
                let cli = self.params.current_level_index;
                self.inner.skill_levels.remove(cli);
                let ghost base = self.inner.skill_levels@;
                let m = self.inner.skill_levels.len();
                let mut j: usize = cli;
                while j < m
                    invariant
                        cli <= j <= m,
                        m == self.inner.skill_levels@.len(),
                        base.len() == m,
                        self.inner.use_condition == old(self).inner.use_condition,
                        self.inner.id == old(self).inner.id,
                        self.inner.name == old(self).inner.name,
                        self.action == old(self).action,
                        self.initial_id == old(self).initial_id,
                        self.opened == old(self).opened,
                        self.params == old(self).params,
                        forall|q: int| 0 <= q < cli ==> #[trigger] self.inner.skill_levels@[q]
                            == base[q],
                        forall|q: int|
                            cli <= q < j ==> (#[trigger] self.inner.skill_levels@[q]).level
                                == base[q].level - 1 && self.inner.skill_levels@[q]
                                .available_enchants == base[q].available_enchants,
                        forall|q: int|
                            j <= q < m ==> #[trigger] self.inner.skill_levels@[q] == base[q],
                        forall|q: int| j <= q < m ==> (#[trigger] base[q]).level >= 1,
                    decreases m - j,
                {
                    let ghost before = self.inner.skill_levels@;
                    let mut x = self.inner.skill_levels.remove(j);
                    x.level = x.level - 1;
                    self.inner.skill_levels.insert(j, x);
                    proof {
                        assert(forall|q: int|
                            0 <= q < m && q != j ==> #[trigger] self.inner.skill_levels@[q]
                                == before[q]);
                    }
                    j = j + 1;
                }
                let len_now = self.inner.skill_levels.len();
                if cli < len_now {
                } else {
                    self.params.current_level_index = len_now - 1;
                }
            },
            SkillAction::AddLevel => {
                let lvn = self.inner.skill_levels.len();
                let ghost lv = self.inner.skill_levels@;
                let mut counter: u32 = 1;
                let mut proto: usize = 0;
                let mut i: usize = 0;
                let mut broke: bool = false;
                while i < lvn && !broke
                    invariant
                        i <= lvn,
                        lvn == lv.len(),
                        lv == self.inner.skill_levels@,
                        1 <= lvn < u32::MAX,
                        !broke ==> counter as int == i + 1 && add_scan_levels(lv, 0, 1)
                            == add_scan_levels(lv, i as int, counter as int) && proto as int == (
                        if i > 0 {
                            i - 1
                        } else {
                            0int
                        }),
                        broke ==> add_scan_levels(lv, 0, 1) == (proto as int, counter as int)
                            && proto < lvn,
                    decreases lvn - i + (if broke {
                        0int
                    } else {
                        1int
                    }),
                {
                    proto = i;
                    if self.inner.skill_levels[i].level > counter {
                        broke = true;
                    } else {
                        counter = counter + 1;
                        i = i + 1;
                    }
                }
                proof {
                    if !broke {
                        assert(add_scan_levels(lv, lvn as int, counter as int) == (
                            lv.len() - 1,
                            counter as int,
                        ));
                        assert(proto as int == lv.len() - 1);
                    }
                    assert((proto as int, counter as int) == add_scan_levels(lv, 0, 1));
                }
                let mut new_level = crate::entity::clone_skill_level(&self.inner.skill_levels[proto]);
                new_level.level = counter;
                if proto != lvn - 1 {
                    self.inner.skill_levels.insert(proto, new_level);
                    self.params.current_level_index = proto;
                } else {
                    self.params.current_level_index = lvn;
                    self.inner.skill_levels.push(new_level);
                }
            },
            SkillAction::AddEnchant => {
                let cli = self.params.current_level_index;
                let mut level = self.inner.skill_levels.remove(cli);
                let ghost es = level.available_enchants@;
                let en = level.available_enchants.len();
                if en > 0 {
                    let last = &level.available_enchants[en - 1];
                    let mut inner = crate::entity::clone_enchant_info_pub(&last.inner);
                    let new_type = inner.enchant_type + 1;
                    inner.enchant_type = new_type;
                    let wcli = last.inner.enchant_levels.len() - 1;
                    level.available_enchants.push(
                        crate::backend::WindowParams {
                            inner,
                            opened: false,
                            initial_id: (),
                            action: SkillEnchantAction::Nothing,
                            params: SkillEnchantEditWindowParams { current_level_index: wcli },
                        },
                    );
                } else {
                    level.available_enchants.push(
                        crate::backend::WindowParams {
                            inner: crate::entity::EnchantInfo {
                                enchant_type: 0,
                                enchant_levels: Vec::new(),
                            },
                            opened: false,
                            initial_id: (),
                            action: SkillEnchantAction::Nothing,
                            params: SkillEnchantEditWindowParams { current_level_index: 0 },
                        },
                    );
                }
                let ghost lvbefore = self.inner.skill_levels@;
                self.inner.skill_levels.insert(cli, level);
                proof {
                    assert(forall|q: int|
                        0 <= q < old(self).inner.skill_levels@.len() && q != cli as int
                            ==> #[trigger] self.inner.skill_levels@[q] == old(
                            self,
                        ).inner.skill_levels@[q]);
                }
            },
            SkillAction::DeleteEnchant(idx) => {
                let cli = self.params.current_level_index;
                let mut level = self.inner.skill_levels.remove(cli);
                level.available_enchants.remove(idx);
                self.inner.skill_levels.insert(cli, level);
                proof {
                    assert(forall|q: int|
                        0 <= q < old(self).inner.skill_levels@.len() && q != cli as int
                            ==> #[trigger] self.inner.skill_levels@[q] == old(
                            self,
                        ).inner.skill_levels@[q]);
                }
            },
            SkillAction::AddEnchantLevel(idx) => {
                let cli = self.params.current_level_index;
                let mut level = self.inner.skill_levels.remove(cli);
                let mut w = level.available_enchants.remove(idx);
                let ghost ws = w.inner.enchant_levels@;
                let eln = w.inner.enchant_levels.len();
                let mut counter: u32 = 1;
                let mut proto: usize = 0;
                let mut i2: usize = 0;
                let mut broke: bool = false;
                while i2 < eln && !broke
                    invariant
                        i2 <= eln,
                        eln == ws.len(),
                        ws == w.inner.enchant_levels@,
                        1 <= eln < u32::MAX,
                        !broke ==> counter as int == i2 + 1 && add_scan_enchants(ws, 0, 1)
                            == add_scan_enchants(ws, i2 as int, counter as int) && proto as int
                            == (if i2 > 0 {
                            i2 - 1
                        } else {
                            0int
                        }),
                        broke ==> add_scan_enchants(ws, 0, 1) == (proto as int, counter as int)
                            && proto < eln,
                    decreases eln - i2 + (if broke {
                        0int
                    } else {
                        1int
                    }),
                {
                    proto = i2;
                    if w.inner.enchant_levels[i2].level > counter {
                        broke = true;
                    } else {
                        counter = counter + 1;
                        i2 = i2 + 1;
                    }
                }
                proof {
                    if !broke {
                        assert(add_scan_enchants(ws, eln as int, counter as int) == (
                            ws.len() - 1,
                            counter as int,
                        ));
                        assert(proto as int == ws.len() - 1);
                    }
                    assert((proto as int, counter as int) == add_scan_enchants(ws, 0, 1));
                }
                let new_level = crate::entity::EnchantLevelInfo { level: counter };
                if proto != eln - 1 {
                    w.inner.enchant_levels.insert(proto, new_level);
                    w.params.current_level_index = proto;
                } else {
                    w.params.current_level_index = eln;
                    w.inner.enchant_levels.push(new_level);
                }
                level.available_enchants.insert(idx, w);
                proof {
                    assert(forall|q: int|
                        0 <= q < level.available_enchants@.len() && q != idx as int
                            ==> #[trigger] level.available_enchants@[q] == old(
                            self,
                        ).inner.skill_levels@[cli as int].available_enchants@[q]);
                }
                self.inner.skill_levels.insert(cli, level);
                proof {
                    assert(forall|q: int|
                        0 <= q < old(self).inner.skill_levels@.len() && q != cli as int
                            ==> #[trigger] self.inner.skill_levels@[q] == old(
                            self,
                        ).inner.skill_levels@[q]);
                }
            },
            SkillAction::DeleteEnchantLevel(idx) => {
                let cli = self.params.current_level_index;
                let mut level = self.inner.skill_levels.remove(cli);
                let mut w = level.available_enchants.remove(idx);
                let wcli = w.params.current_level_index;
                w.inner.enchant_levels.remove(wcli);
                let wn = w.inner.enchant_levels.len();
                if wcli < wn {
                } else {
                    w.params.current_level_index = wn - 1;
                }
                level.available_enchants.insert(idx, w);
                self.inner.skill_levels.insert(cli, level);
                proof {
                    assert(forall|q: int|
                        0 <= q < old(self).inner.skill_levels@.len() && q != cli as int
                            ==> #[trigger] self.inner.skill_levels@[q] == old(
                            self,
                        ).inner.skill_levels@[q]);
                }
            },
            SkillAction::Nothing => {},
        }
        self.action = SkillAction::Nothing;
        let ghost cond0 = self.inner.use_condition;
        proof {
            assert(cond0 == old(self).inner.use_condition);
        }
        match &mut self.inner.use_condition {
            Some(cond) => {
                proof {
                    assert(*cond == cond0->Some_0);
                }
                match cond.action {
                    SkillUceConditionAction::DeleteWeapon(i) => {
                        proof {
                            assert(i < cond.inner.weapon_types@.len());
                        }
                        cond.inner.weapon_types.remove(i);
                    },
                    SkillUceConditionAction::DeleteEffectOnCaster(i) => {
                        proof {
                            assert(i < cond.inner.caster_prior_skill@.len());
                        }
                        cond.inner.caster_prior_skill.remove(i);
                    },
                    SkillUceConditionAction::DeleteEffectOnTarget(i) => {
                        proof {
                            assert(i < cond.inner.target_prior_skill@.len());
                        }
                        cond.inner.target_prior_skill.remove(i);
                    },
                    SkillUceConditionAction::Nothing => {},
                }
                cond.action = SkillUceConditionAction::Nothing;
            },
            None => {},
        }
    }
}

} // verus!
