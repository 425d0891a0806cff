use dat_editor::backend::{Backend, CurrentEntity, WindowParams};
use dat_editor::backend::skill::{SkillAction, SkillEditWindowParams, SkillEnchantAction,
    SkillEnchantEditWindowParams, SkillUceConditionAction};
use dat_editor::backend::armor::{ArmorAction, ItemAdditionalInfoAction, ItemDropInfoAction};
use dat_editor::backend::recipe::RecipeAction;
use dat_editor::entity::{Armor, EtcItem, Weapon};
use dat_editor::entity::{CommonEntity, EnchantInfo, EnchantLevelInfo, ItemSet, ItemSetId, Quest,
    QuestId, Skill, SkillId, SkillLevelInfo, Npc, NpcId, Recipe, RecipeId, RecipeMaterial, ItemId,
    CoordsXYZ, Position};

fn quest(id: u32, title: &str) -> Quest {
    Quest { id: QuestId(id), title: String::from(title), java_class: None }
}

#[test]
fn open_quest_copies_from_holder() {
    let mut b = Backend::new();
    b.holders.game_data_holder.quest_holder.insert(QuestId(3), quest(3, "Letters"));
    let mut holder = std::mem::replace(
        &mut b.holders.game_data_holder.quest_holder,
        dat_editor::holder::FHashMap::new(),
    );
    b.edit_params.open_quest(QuestId(3), &mut holder);
    assert_eq!(b.edit_params.quests.opened.len(), 1);
    assert_eq!(b.edit_params.quests.opened[0].inner.title, String::from("Letters"));
    assert_eq!(b.edit_params.current_entity, CurrentEntity::Quest(0));
    // opening the same quest again focuses the existing window
    b.edit_params.open_quest(QuestId(3), &mut holder);
    assert_eq!(b.edit_params.quests.opened.len(), 1);
    // an unknown id does nothing
    b.edit_params.open_quest(QuestId(9), &mut holder);
    assert_eq!(b.edit_params.quests.opened.len(), 1);
}

#[test]
fn close_quest_moves_focus_down() {
    let mut b = Backend::new();
    b.edit_params.create_new_quest();
    b.edit_params.create_new_quest();
    b.edit_params.create_new_quest();
    assert_eq!(b.edit_params.current_entity, CurrentEntity::Quest(2));
    b.edit_params.close_quest(1);
    assert_eq!(b.edit_params.quests.opened.len(), 2);
    assert_eq!(b.edit_params.current_entity, CurrentEntity::Quest(1));
    b.edit_params.close_quest(0);
    b.edit_params.close_quest(0);
    assert_eq!(b.edit_params.current_entity, CurrentEntity::Nothing);
}

#[test]
fn set_current_quest_checks_bounds() {
    let mut b = Backend::new();
    b.edit_params.create_new_quest();
    b.edit_params.set_current_quest(5);
    assert_eq!(b.edit_params.current_entity, CurrentEntity::Quest(0));
    b.edit_params.set_current_quest(0);
    assert_eq!(b.edit_params.current_entity, CurrentEntity::Quest(0));
}

#[test]
fn filter_quests_by_id_and_title() {
    let mut b = Backend::new();
    b.holders.game_data_holder.quest_holder.insert(QuestId(2), quest(2, "Shadow Hunt"));
    b.holders.game_data_holder.quest_holder.insert(QuestId(1), quest(1, "Sunrise"));
    b.holders.game_data_holder.quest_holder.insert(QuestId(3), quest(3, "Long Shadows"));
    b.filter_params.quest_filter_string = String::from("Shadow");
    b.filter_quests();
    let names: Vec<String> = b.filter_params.quest_catalog.iter().map(|i| i.name.clone()).collect();
    assert_eq!(names, vec![String::from("Shadow Hunt"), String::from("Long Shadows")]);
    b.filter_params.quest_filter_string = String::from("3");
    b.filter_quests();
    assert_eq!(b.filter_params.quest_catalog.len(), 1);
    assert_eq!(b.filter_params.quest_catalog[0].id, QuestId(3));
    b.filter_params.quest_filter_string = String::new();
    b.filter_quests();
    assert_eq!(b.filter_params.quest_catalog.len(), 3);
    let ids: Vec<u32> = b.filter_params.quest_catalog.iter().map(|i| i.id.0).collect();
    assert_eq!(ids, vec![1, 2, 3]);
}

#[test]
fn filter_npcs_is_case_insensitive() {
    let mut b = Backend::new();
    b.holders.game_data_holder.npc_holder.insert(
        NpcId(4),
        Npc { id: NpcId(4), name: String::from("Grave Wanderer") },
    );
    b.holders.game_data_holder.npc_holder.insert(
        NpcId(2),
        Npc { id: NpcId(2), name: String::from("Keltir") },
    );
    b.filter_params.npc_filter_string = String::from("WANDER");
    b.filter_npcs();
    assert_eq!(b.filter_params.npc_catalog.len(), 1);
    assert_eq!(b.filter_params.npc_catalog[0].id, NpcId(4));
}

fn skill(id: u32, name: &str) -> Skill {
    Skill { id: SkillId(id), name: String::from(name), skill_levels: vec![], use_condition: None }
}

#[test]
fn save_skill_force_guards_no_op_writes() {
    let mut b = Backend::new();
    b.holders.game_data_holder.skill_holder.insert(SkillId(8), skill(8, "Dash"));
    b.holders.game_data_holder.skill_holder.clear_changed();
    b.save_skill_force(skill(8, "Dash"));
    assert!(b.holders.game_data_holder.skill_holder.is_unchanged());
    assert!(!b.has_unsaved_changes);
    b.save_skill_force(skill(8, "Sprint"));
    assert!(b.holders.game_data_holder.skill_holder.is_changed());
    assert!(b.has_unsaved_changes);
    let stored = b.holders.game_data_holder.skill_holder.get(&SkillId(8)).unwrap();
    assert_eq!(stored.name, String::from("Sprint"));
}

#[test]
fn save_recipe_force_guards_no_op_writes() {
    let mut b = Backend::new();
    let r = Recipe {
        id: RecipeId(1),
        name: String::from("Bronze"),
        recipe_item: ItemId(10),
        product: ItemId(20),
        materials: vec![RecipeMaterial { id: ItemId(5), count: 3 }],
    };
    b.holders.game_data_holder.recipe_holder.insert(RecipeId(1), r.clone());
    b.holders.game_data_holder.recipe_holder.clear_changed();
    b.save_recipe_force(r.clone());
    assert!(b.holders.game_data_holder.recipe_holder.is_unchanged());
    let mut r2 = r.clone();
    r2.materials.push(RecipeMaterial { id: ItemId(6), count: 1 });
    b.save_recipe_force(r2);
    assert!(b.holders.game_data_holder.recipe_holder.is_changed());
}

fn level(n: u32) -> SkillLevelInfo {
    SkillLevelInfo { level: n, available_enchants: vec![] }
}

fn skill_window(levels: Vec<SkillLevelInfo>, cli: usize, action: SkillAction)
    -> WindowParams<Skill, SkillId, SkillAction, SkillEditWindowParams> {
    let mut s = skill(1, "Test");
    s.skill_levels = levels;
    WindowParams {
        inner: s,
        opened: false,
        initial_id: SkillId(1),
        action,
        params: SkillEditWindowParams { current_level_index: cli },
    }
}

#[test]
fn skill_delete_level_renumbers_suffix() {
    let mut w = skill_window(vec![level(1), level(2), level(3)], 1, SkillAction::DeleteLevel);
    w.handle_action();
    let ls: Vec<u32> = w.inner.skill_levels.iter().map(|l| l.level).collect();
    assert_eq!(ls, vec![1, 2]);
    assert_eq!(w.params.current_level_index, 1);
    assert!(matches!(w.action, SkillAction::Nothing));
}

#[test]
fn skill_add_level_appends_next_counter() {
    let mut w = skill_window(vec![level(1), level(2)], 0, SkillAction::AddLevel);
    w.handle_action();
    let ls: Vec<u32> = w.inner.skill_levels.iter().map(|l| l.level).collect();
    assert_eq!(ls, vec![1, 2, 3]);
    assert_eq!(w.params.current_level_index, 2);
}

#[test]
fn skill_add_level_inserts_at_gap() {
    let mut w = skill_window(vec![level(1), level(5), level(6)], 0, SkillAction::AddLevel);
    w.handle_action();
    let ls: Vec<u32> = w.inner.skill_levels.iter().map(|l| l.level).collect();
    assert_eq!(ls, vec![1, 2, 5, 6]);
    assert_eq!(w.params.current_level_index, 1);
}

#[test]
fn skill_add_enchant_extends_route_list() {
    let base = EnchantInfo { enchant_type: 4, enchant_levels: vec![EnchantLevelInfo { level: 1 }] };
    let lvl = SkillLevelInfo {
        level: 1,
        available_enchants: vec![WindowParams {
            inner: base,
            opened: false,
            initial_id: (),
            action: SkillEnchantAction::Nothing,
            params: SkillEnchantEditWindowParams { current_level_index: 0 },
        }],
    };
    let mut w = skill_window(vec![lvl], 0, SkillAction::AddEnchant);
    w.handle_action();
    let es = &w.inner.skill_levels[0].available_enchants;
    assert_eq!(es.len(), 2);
    assert_eq!(es[1].inner.enchant_type, 5);
    assert_eq!(es[1].inner.enchant_levels.len(), 1);
}

#[test]
fn skill_use_condition_action_is_consumed() {
    let mut w = skill_window(vec![level(1)], 0, SkillAction::Nothing);
    w.inner.use_condition = Some(WindowParams {
        inner: dat_editor::entity::SkillUseCondition {
            weapon_types: vec![7, 8, 9],
            caster_prior_skill: vec![],
            target_prior_skill: vec![],
        },
        opened: false,
        initial_id: (),
        action: SkillUceConditionAction::DeleteWeapon(1),
        params: (),
    });
    w.handle_action();
    let c = w.inner.use_condition.as_ref().unwrap();
    assert_eq!(c.inner.weapon_types, vec![7, 9]);
    assert!(matches!(c.action, SkillUceConditionAction::Nothing));
}

#[test]
fn armor_actions_trim_their_lists() {
    let mut a = dat_editor::entity::Armor::new(ItemId(1));
    a.item_sound = vec![String::from("a"), String::from("b")];
    a.base_info.additional_info.inner.include_items = vec![ItemId(10), ItemId(11)];
    a.base_info.drop_info.inner.drop_mesh_info = vec![String::from("m")];
    let mut w = WindowParams {
        inner: a,
        opened: false,
        initial_id: ItemId(1),
        action: ArmorAction::RemoveSound(0),
        params: (),
    };
    w.inner.base_info.additional_info.action = ItemAdditionalInfoAction::RemoveItem(1);
    w.inner.base_info.drop_info.action = ItemDropInfoAction::RemoveMesh(0);
    w.handle_action();
    assert_eq!(w.inner.item_sound, vec![String::from("b")]);
    assert_eq!(w.inner.base_info.additional_info.inner.include_items, vec![ItemId(10)]);
    assert_eq!(w.inner.base_info.drop_info.inner.drop_mesh_info.len(), 0);
}

#[test]
fn recipe_action_removes_ingredient() {
    let r = Recipe {
        id: RecipeId(1),
        name: String::from("Bolt"),
        recipe_item: ItemId(1),
        product: ItemId(2),
        materials: vec![
            RecipeMaterial { id: ItemId(5), count: 3 },
            RecipeMaterial { id: ItemId(6), count: 1 },
        ],
    };
    let mut w = WindowParams {
        inner: r,
        opened: false,
        initial_id: RecipeId(1),
        action: RecipeAction::DeleteIngredient(0),
        params: (),
    };
    w.handle_action();
    assert_eq!(w.inner.materials, vec![RecipeMaterial { id: ItemId(6), count: 1 }]);
}

#[test]
fn item_set_describes_numbered_lines() {
    let mut s = ItemSet::new(ItemSetId(5));
    s.base_descriptions = vec![String::from("two pieces"), String::from("four pieces")];
    assert_eq!(s.desc(), String::from("1: two pieces\n2: four pieces\n"));
    assert_eq!(s.name(), String::from("5"));
    assert_eq!(s.id(), ItemSetId(5));
}

#[test]
fn npc_name_fallback_is_deterministic() {
    let b = Backend::new();
    assert_eq!(
        b.holders.game_data_holder.get_npc_name(&NpcId(7)),
        String::from("NpcId(7) Not Exist!")
    );
}

#[test]
fn coords_convert_to_position_bitwise() {
    let c = CoordsXYZ { x: 1, y: 2, z: 3 };
    let p: Position = c.into();
    assert_eq!(p, Position { x: 1, y: 2, z: 3 });
    let back: CoordsXYZ = p.into();
    assert_eq!(back, c);
}

#[test]
fn refill_all_items_prefers_armor() {
    let mut loader = dat_editor::loader::Loader110::new();
    let mut w = Weapon::new(ItemId(1));
    w.base_info.name = String::from("sword");
    let mut e = EtcItem::new(ItemId(1));
    e.base_info.name = String::from("etc");
    let mut a = Armor::new(ItemId(1));
    a.base_info.name = String::from("armor");
    let mut w2 = Weapon::new(ItemId(2));
    w2.base_info.name = String::from("bow");
    loader.weapons.insert(ItemId(1), w);
    loader.weapons.insert(ItemId(2), w2);
    loader.etc_items.insert(ItemId(1), e);
    loader.armor.insert(ItemId(1), a);
    loader.refill_all_items();
    assert_eq!(loader.all_items.get(&ItemId(1)).unwrap().name, String::from("armor"));
    assert_eq!(loader.all_items.get(&ItemId(2)).unwrap().name, String::from("bow"));
    assert_eq!(loader.all_items.len(), 2);
}

#[test]
fn update_npc_spawn_path_remembers_directory() {
    let mut b = Backend::new();
    b.update_npc_spawn_path(String::from("spawns/town"));
    assert_eq!(b.config.npc_spawn_path, Some(String::from("spawns/town")));
}

#[test]
fn get_opened_info_reports_names_and_ids() {
    let mut b = Backend::new();
    let mut holder = dat_editor::holder::FHashMap::new();
    holder.insert(QuestId(3), quest(3, "Letters"));
    b.edit_params.open_quest(QuestId(3), &mut holder);
    let info = b.edit_params.get_opened_quests_info();
    assert_eq!(info, vec![(String::from("Letters"), QuestId(3))]);
}
