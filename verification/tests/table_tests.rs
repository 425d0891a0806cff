use dat_editor::string_table::{L2GeneralStringTable, L2SkillStringTable};
use dat_editor::holder::FHashMap;
use dat_editor::loader::{load_game_data_name, load_npc_strings, load_hunting_zones, DatFile,
    Loader110, LoadError};
use dat_editor::save::{apply_save_results, SaveReport};
use dat_editor::text::parse_u32;
use dat_editor::schema::FieldValue;
use dat_editor::text::str_contains;

#[test]
fn string_table_case_insensitive_lookup() {
    let mut t = L2GeneralStringTable::from_vec(vec![
        String::from("None"),
        String::from("Sword"),
        String::from("sword"),
    ]);
    assert_eq!(t.get_index("SWORD"), 2);
    assert_eq!(t.len(), 3);
    assert!(!t.is_changed());
    assert_eq!(t.get_index("Shield"), 3);
    assert_eq!(t.len(), 4);
    assert!(t.is_changed());
}

#[test]
fn string_table_dedup_second_call_is_free() {
    let mut t = L2GeneralStringTable::new();
    let a = t.get_index("AbC");
    let len_after_first = t.len();
    let b = t.get_index("aBc");
    assert_eq!(a, b);
    assert_eq!(t.len(), len_after_first);
}

#[test]
fn string_table_empty_is_canonicalized() {
    let mut t = L2GeneralStringTable::new();
    let i = t.get_index("");
    assert_eq!(i, 0);
    assert_eq!(t.get_index("none"), 0);
    assert_eq!(t.len(), 1);
    assert_eq!(t.to_vec(), vec![String::from("None")]);
}

#[test]
fn string_table_ordered_list_tracks_assignment() {
    let mut t = L2GeneralStringTable::new();
    assert_eq!(t.get_index("beta"), 0);
    assert_eq!(t.get_index("Alpha"), 1);
    assert_eq!(t.get_index("BETA"), 0);
    assert_eq!(t.get_index("gamma"), 2);
    assert_eq!(
        t.to_vec(),
        vec![String::from("beta"), String::from("Alpha"), String::from("gamma")]
    );
    assert_eq!(t.keys(), vec![0, 1, 2]);
}

#[test]
fn string_table_placeholder() {
    let t = L2GeneralStringTable::new();
    assert_eq!(t.get_o(&99), String::from("NameNotFound[99]"));
    assert_eq!(t.get(&99), None);
}

#[test]
fn skill_string_table_is_case_sensitive() {
    let mut t = L2SkillStringTable::new();
    assert_eq!(t.get_index("Fire"), 0);
    assert_eq!(t.get_index("fire"), 1);
    assert_eq!(t.get_index("Fire"), 0);
    assert_eq!(t.to_vec(), vec![String::from("Fire"), String::from("fire")]);
}

#[test]
fn change_tracked_table_naive_dirty() {
    let mut t: FHashMap<u32, String> = FHashMap::new();
    t.insert(1, String::from("A"));
    t.insert(2, String::from("B"));
    t.clear_changed();
    assert!(t.is_unchanged());
    t.insert(1, String::from("A"));
    assert!(t.is_changed());
    assert_eq!(t.get(&1), Some(&String::from("A")));
    assert_eq!(t.len(), 2);
}

#[test]
fn change_tracked_table_dirty_propagation() {
    let t: FHashMap<u32, String> = FHashMap::new();
    assert!(t.is_unchanged());
    let snap = t.changed_or_empty();
    assert!(snap.is_unchanged());
    assert_eq!(snap.len(), 0);
    let mut t2: FHashMap<u32, String> = FHashMap::new();
    t2.insert(5, String::from("x"));
    assert!(t2.is_changed());
    let snap2 = t2.changed_or_empty();
    assert!(snap2.is_changed());
    assert_eq!(snap2.len(), 1);
    assert_eq!(snap2.get(&5), Some(&String::from("x")));
}

#[test]
fn snapshot_on_clean_table_is_empty_not_cloned() {
    let mut t: FHashMap<u32, String> = FHashMap::new();
    t.insert(9, String::from("nine"));
    t.clear_changed();
    let snap = t.changed_or_empty();
    assert_eq!(snap.len(), 0);
    assert!(snap.is_unchanged());
    assert_eq!(t.len(), 1);
}

fn gdn_file_bytes() -> Vec<u8> {
    // two records of one file-table string each: "Ab", "c"
    vec![2, 0, b'A', b'b', 1, 0, b'c']
}

#[test]
fn game_data_name_loads_by_position() {
    let data = gdn_file_bytes();
    let t = load_game_data_name(&data).unwrap();
    assert_eq!(t.to_vec(), vec![String::from("Ab"), String::from("c")]);
    assert!(!t.is_changed());
}

#[test]
fn game_data_name_save_restores_bytes() {
    let data = gdn_file_bytes();
    let t = load_game_data_name(&data).unwrap();
    let bytes = dat_editor::save::encode_game_data_name(&t).unwrap();
    assert_eq!(bytes, data);
}

#[test]
fn npc_strings_load_and_save() {
    // one record: id 7, text "Hi"
    let data = vec![7, 0, 0, 0, 2, 0, 0, 0, b'H', b'i'];
    let t = load_npc_strings(&data).unwrap();
    assert_eq!(t.get(&7), Some(&String::from("Hi")));
    assert_eq!(t.len(), 1);
    let bytes = dat_editor::save::encode_npc_strings(&t).unwrap();
    assert_eq!(bytes, data);
}

#[test]
fn npc_strings_truncated_file_is_refused() {
    let data = vec![7, 0, 0];
    assert!(matches!(load_npc_strings(&data), Err(LoadError::TruncatedInput)));
}

#[test]
fn hunting_zones_load() {
    let schema = dat_editor::loader::hunting_zone_schema();
    let rec = vec![
        FieldValue::Dword(11),
        FieldValue::Dword(0),
        FieldValue::Dword(1),
        FieldValue::Dword(2),
        FieldValue::Floc(0, 0, 0),
        FieldValue::Ascf(b"deep woods".to_vec()),
        FieldValue::Dword(21),
        FieldValue::Ascf(b"Woods".to_vec()),
        FieldValue::Word(3),
        FieldValue::Dword(4),
        FieldValue::Vector(vec![FieldValue::Word(5)]),
        FieldValue::Dword(31),
    ];
    let data = schema.encode_table(&vec![rec]).unwrap();
    let t = load_hunting_zones(&data).unwrap();
    let z = t.get(&dat_editor::entity::HuntingZoneId(11)).unwrap();
    assert_eq!(z.name, String::from("Woods"));
    assert_eq!(z.desc, String::from("deep woods"));
    assert_eq!(z._search_zone_id, dat_editor::entity::SearchZoneId(21));
    assert_eq!(z._instant_zone_id, dat_editor::entity::InstantZoneId(31));
}

#[test]
fn load_without_string_table_is_fatal() {
    let mut loader = Loader110::new();
    let files = vec![DatFile {
        name: String::from("npcstring-ru.dat"),
        path: String::from("x/npcstring-ru.dat"),
        data: vec![],
    }];
    assert!(matches!(loader.load(files), Err(LoadError::MissingRequiredTable)));
}

#[test]
fn load_reports_missing_side_tables() {
    let mut loader = Loader110::new();
    let files = vec![DatFile {
        name: String::from("l2gamedataname.dat"),
        path: String::from("x/l2gamedataname.dat"),
        data: gdn_file_bytes(),
    }];
    let failed = loader.load(files).unwrap();
    assert!(failed.contains(&String::from("npcstring-ru.dat")));
    assert!(failed.contains(&String::from("huntingzone-ru.dat")));
    assert_eq!(loader.game_data_name.len(), 2);
}

#[test]
fn partial_failure_isolation() {
    // Build a session whose string table and NPC-string table are both
    // dirty, plan the save, fail one write, and check the flags.
    let mut loader = Loader110::new();
    loader.game_data_name = L2GeneralStringTable::new();
    loader.game_data_name.get_index("first");
    assert!(loader.game_data_name.is_changed());
    loader.npc_strings.insert(1, String::from("one"));
    assert!(loader.npc_strings.is_changed());

    let plan = loader.save_plan().unwrap();
    let st = plan.string_table.as_ref().unwrap();
    assert_eq!(st.name, String::from("l2gamedataname.dat"));
    assert_eq!(st.data, dat_editor::save::encode_game_data_name(&loader.game_data_name).unwrap());
    assert_eq!(plan.others.len(), 1);
    assert_eq!(plan.others[0].name, String::from("npcstring-ru.dat"));
    assert_eq!(
        plan.others[0].data,
        dat_editor::save::encode_npc_strings(&loader.npc_strings).unwrap()
    );

    let mut holder = loader.to_holder();
    // to_holder clears the entity tables; make both save targets dirty again
    holder.npc_strings.insert(1, String::from("one"));
    assert!(holder.game_string_table.is_changed());
    assert!(holder.npc_strings.is_changed());

    // writer outcomes: string table written, NPC strings failed, an
    // unrelated table reported too
    let report = SaveReport {
        entries: vec![
            (String::from("l2gamedataname.dat"), Ok(())),
            (String::from("npcstring-ru.dat"), Err(String::from("file is gone"))),
            (String::from("quests.dat"), Ok(())),
        ],
    };
    apply_save_results(&mut holder, &report);
    assert!(!holder.game_string_table.is_changed());
    assert!(holder.npc_strings.is_changed());
    assert_eq!(holder.npc_strings.get(&1), Some(&String::from("one")));
}

#[test]
fn clean_tables_are_never_planned() {
    let loader = Loader110::new();
    let plan = loader.save_plan().unwrap();
    assert!(plan.string_table.is_none());
    assert_eq!(plan.others.len(), 0);
}

#[test]
fn parse_u32_accepts_what_from_str_accepts() {
    assert_eq!(parse_u32("0"), Some(0));
    assert_eq!(parse_u32("42"), Some(42));
    assert_eq!(parse_u32("+42"), Some(42));
    assert_eq!(parse_u32("4294967295"), Some(4294967295));
    assert_eq!(parse_u32("4294967296"), None);
    assert_eq!(parse_u32(""), None);
    assert_eq!(parse_u32("+"), None);
    assert_eq!(parse_u32("12a"), None);
    assert_eq!(parse_u32("-1"), None);
}

#[test]
fn str_contains_finds_runs() {
    assert!(str_contains("hello world", "lo wo"));
    assert!(str_contains("hello", ""));
    assert!(!str_contains("hello", "world"));
    assert!(!str_contains("he", "hello"));
    assert!(str_contains("aaab", "aab"));
}
