use dat_editor::backend::npc::npc_spawn_labels;
use dat_editor::backend::{Backend, Config, CurrentEntity};
use dat_editor::entity::{CommonEntity, Item, ItemId, Npc, NpcId, Skill, SkillId};
use dat_editor::holder::{FHashMap, GameDataHolder};
use dat_editor::loader::Loader110;
use dat_editor::save::SaveFlag;
use dat_editor::string_table::L2SkillStringTable;

#[test]
fn spawn_labels_show_name_and_id() {
    let mut h = GameDataHolder::new();
    h.npc_holder.insert(NpcId(12), Npc { id: NpcId(12), name: String::from("Wolf") });
    let labels = npc_spawn_labels(&h);
    assert_eq!(labels, vec![(12, String::from("Wolf [12]"))]);
}

#[test]
fn validate_paths_drops_stale_folder() {
    let mut c = Config { system_folder_path: Some(String::from("gone")), npc_spawn_path: None };
    GameDataHolder::validate_paths(&mut c, false);
    assert_eq!(c.system_folder_path, None);
    let mut c2 = Config { system_folder_path: Some(String::from("here")), npc_spawn_path: None };
    GameDataHolder::validate_paths(&mut c2, true);
    assert_eq!(c2.system_folder_path, Some(String::from("here")));
}

#[test]
fn get_item_name_falls_back() {
    let mut h = GameDataHolder::new();
    assert_eq!(h.get_item_name(&ItemId(3)), String::from("ItemId(3) Not Exist!"));
    h.item_holder.insert(
        ItemId(3),
        Item { id: ItemId(3), name: String::from("Staff"), additional_name: String::new() },
    );
    assert_eq!(h.get_item_name(&ItemId(3)), String::from("Staff"));
}

#[test]
fn gdns_cloned_reads_by_index() {
    let mut loader = Loader110::new();
    loader.game_data_name.get_index("zero");
    loader.game_data_name.get_index("one");
    assert_eq!(loader.gdns_cloned(&1), String::from("one"));
    assert_eq!(
        loader.vec_gdns_cloned(&vec![1, 0, 1]),
        vec![String::from("one"), String::from("zero"), String::from("one")]
    );
}

#[test]
fn save_flag_lifecycle() {
    let mut f = SaveFlag::new();
    assert!(!f.is_saving());
    f.begin_save();
    assert!(f.is_saving());
    f.end_save();
    assert!(!f.is_saving());
}

#[test]
fn skill_string_table_placeholder() {
    let t = L2SkillStringTable::new();
    assert_eq!(t.get_o(&4), String::from("NameNotFound[4]"));
    assert_eq!(t.keys(), Vec::<u32>::new());
}

#[test]
fn from_holder_takes_empty_snapshots_of_clean_tables() {
    let mut h = GameDataHolder::new();
    h.quest_holder.insert(
        dat_editor::entity::QuestId(1),
        dat_editor::entity::Quest {
            id: dat_editor::entity::QuestId(1),
            title: String::from("t"),
            java_class: None,
        },
    );
    h.quest_holder.clear_changed();
    h.npc_holder.insert(NpcId(1), Npc { id: NpcId(1), name: String::from("n") });
    let snap = Loader110::from_holder(&h);
    assert_eq!(snap.quests.len(), 0);
    assert!(snap.quests.is_unchanged());
    assert_eq!(snap.npcs.len(), 1);
    assert!(snap.npcs.is_changed());
}

#[test]
fn to_holder_clears_entity_flags() {
    let mut loader = Loader110::new();
    loader.npcs.insert(NpcId(1), Npc { id: NpcId(1), name: String::from("n") });
    assert!(loader.npcs.is_changed());
    let h = loader.to_holder();
    assert!(h.npc_holder.is_unchanged());
    assert_eq!(h.npc_holder.len(), 1);
}

#[test]
fn save_skill_from_dlg_checks_window_and_key() {
    let mut b = Backend::new();
    let mut holder: FHashMap<SkillId, Skill> = FHashMap::new();
    holder.insert(
        SkillId(5),
        Skill {
            id: SkillId(5),
            name: String::from("Dash"),
            skill_levels: vec![],
            use_condition: None,
        },
    );
    b.edit_params.open_skill(SkillId(5), &mut holder);
    assert_eq!(b.edit_params.current_entity, CurrentEntity::Skill(0));
    b.edit_params.skills.opened[0].inner.name = String::from("Rush");
    // a different key is refused
    b.save_skill_from_dlg(SkillId(6));
    assert!(b.holders.game_data_holder.skill_holder.get(&SkillId(5)).is_none());
    // the window's own key stores the edit
    b.save_skill_from_dlg(SkillId(5));
    let stored = b.holders.game_data_holder.skill_holder.get(&SkillId(5)).unwrap();
    assert_eq!(stored.name, String::from("Rush"));
}

#[test]
fn fhashmap_keys_and_values_walk_the_table() {
    let mut t: FHashMap<u32, String> = FHashMap::new();
    t.insert(2, String::from("b"));
    t.insert(1, String::from("a"));
    t.insert(2, String::from("c"));
    assert_eq!(t.len(), 2);
    let keys = t.keys();
    assert!(keys.contains(&1) && keys.contains(&2));
    let values = t.values();
    assert_eq!(values.len(), 2);
    assert!(values.contains(&&String::from("a")) && values.contains(&&String::from("c")));
}
