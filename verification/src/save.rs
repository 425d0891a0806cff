use vstd::prelude::*;
use vstd::string::*;
use crate::codec::CodecError;
use crate::holder::GameDataHolder;
use crate::loader::Loader110;
use crate::loader::gdn_fields;
use crate::loader::gdn_schema;
use crate::loader::npc_string_fields;
use crate::loader::npc_string_schema;
use crate::records::Record;
use crate::records::record_views;
use crate::records::wire_records;
use crate::schema::AbsValue;
use crate::schema::FieldValue;
use crate::schema::FieldType;
use crate::schema::fields_valid;
use crate::schema::valid;
use crate::string_table::L2GeneralStringTable;
use crate::text::string_to_bytes;
use crate::text::utf8_bytes;

verus! {

/// One pending write of a save: which table file, and the exact bytes
/// its whole body must hold.
pub struct TableWrite {
    pub name: String,
    pub data: Vec<u8>,
}

/// What one save must write: the interned-string table always on its
/// own slot, because its completion is reported before the others', and
/// every other dirty table beside it. A clean table is never written.
pub struct SavePlan {
    pub string_table: Option<TableWrite>,
    pub others: Vec<TableWrite>,
}

/// What the writer tasks came back with: one entry per planned write,
/// success or the I/O error's text.
pub struct SaveReport {
    pub entries: Vec<(String, Result<(), String>)>,
}

/// Whether the report holds a successful entry for the table `name`.
pub open spec fn report_ok(entries: Seq<(String, Result<(), String>)>, name: Seq<char>) -> bool {
    exists|i: int|
        0 <= i < entries.len() && (#[trigger] entries[i]).0@ == name && entries[i].1 is Ok
}

/// The session-scoped "save in progress" flag: set when `save` starts,
/// cleared only after every spawned writer task has completed and the
/// report is assembled, so the editing surface can refuse edits and
/// further saves in between.
pub struct SaveFlag {
    saving: bool,
}

impl SaveFlag {
    /// Whether a save is in flight.
    pub closed spec fn in_progress(&self) -> bool {
        self.saving
    }

    /// No save in flight.
    pub fn new() -> (r: Self)
        ensures
            !r.in_progress(),
    {
        SaveFlag { saving: false }
    }

    /// Marks the start of a save. A save must not start while one is in
    /// flight: the caller checks the flag first.
    pub fn begin_save(&mut self)
        requires
            !old(self).in_progress(),
        ensures
            final(self).in_progress(),
    {
        self.saving = true;
    }

    /// Marks the end of a save, after every writer task completed.
    pub fn end_save(&mut self)
        requires
            old(self).in_progress(),
        ensures
            !final(self).in_progress(),
    {
        self.saving = false;
    }

    /// Reads the flag.
    pub fn is_saving(&self) -> (r: bool)
        ensures
            r == self.in_progress(),
    {
        self.saving
    }
}

/// The records of the interned-string table file: one file-table string
/// per interned string, in index order.
pub open spec fn gdn_records_of(strs: Seq<Seq<char>>) -> Seq<Seq<AbsValue>> {
    Seq::new(strs.len(), |i: int| seq![AbsValue::Str(utf8_bytes(strs[i]))])
}

/// Encodes the interned-string table file: the concatenation of its
/// strings' records, in index order. Fails exactly when some string's
/// bytes do not fit the wire length prefix.
#[verifier::loop_isolation(false)]
pub fn encode_game_data_name(t: &L2GeneralStringTable) -> (r: Result<Vec<u8>, CodecError>)
    ensures
        match r {
            Ok(bytes) => bytes@ == wire_records(gdn_fields(), gdn_records_of(t.strings())),
            Err(e) => exists|i: int|
                0 <= i < t.strings().len() && utf8_bytes(#[trigger] t.strings()[i]).len()
                    > 0xffff,
        },
{
    let values = t.to_vec();
    let ghost grvs = gdn_records_of(t.strings());
    let mut records: Vec<Record> = Vec::new();
    let n = values.len();
    let mut i: usize = 0;
    while i < n
        invariant
            i <= n,
            n == values@.len(),
            values@.len() == t.strings().len(),
            forall|q: int| 0 <= q < n ==> (#[trigger] values@[q])@ == t.strings()[q],
            grvs == gdn_records_of(t.strings()),
            record_views(records@) == grvs.take(i as int),
        decreases n - i,
    {
        let payload = string_to_bytes(values[i].as_str());
        let mut rec: Record = Vec::new();
        rec.push(FieldValue::Str(payload));
        proof {
            crate::schema::lemma_views_of_index(rec@, 0);
            assert(crate::schema::views_of(rec@) =~= grvs[i as int]);
        }
        let ghost recs0 = records@;
        let ghost newrec = rec;
        records.push(rec);
        proof {
            crate::records::lemma_record_views_push(recs0, newrec);
            assert(records@ == recs0.push(newrec));
            assert(record_views(records@) =~= grvs.take(i as int + 1));
        }
        i = i + 1;
    }
    proof {
        assert(grvs.take(n as int) =~= grvs);
    }
    let schema = gdn_schema();
    match schema.encode_table(&records) {
        Ok(bytes) => Ok(bytes),
        Err(e) => {
            proof {
                crate::records::lemma_record_views_len(records@);
                assert(exists|q: int|
                    0 <= q < records@.len() && !fields_valid(
                        schema.fields@,
                        #[trigger] record_views(records@)[q],
                    ));
                let bad = choose|q: int|
                    0 <= q < records@.len() && !fields_valid(
                        schema.fields@,
                        #[trigger] record_views(records@)[q],
                    );
                assert(record_views(records@)[bad] == grvs[bad]);
                assert(grvs[bad] =~= seq![AbsValue::Str(utf8_bytes(t.strings()[bad]))]);
                assert(!fields_valid(gdn_fields(), grvs[bad]));
                assert(grvs[bad].len() == 1);
                assert(!valid(FieldType::Str, grvs[bad][0])) by {
                    if valid(FieldType::Str, grvs[bad][0]) {
                        assert(forall|j: int|
                            0 <= j < gdn_fields().len() ==> valid(
                                #[trigger] gdn_fields()[j],
                                grvs[bad][j],
                            ));
                        assert(fields_valid(gdn_fields(), grvs[bad]));
                    }
                }
                assert(utf8_bytes(t.strings()[bad]).len() > 0xffff);
            }
            Err(e)
        },
    }
}

/// The records of the NPC-string file: one id and text per entry, in
/// table order.
pub open spec fn npc_records_of(pairs: Seq<(u32, String)>) -> Seq<Seq<AbsValue>> {
    Seq::new(
        pairs.len(),
        |i: int| seq![AbsValue::Dword(pairs[i].0), AbsValue::Ascf(utf8_bytes(pairs[i].1@))],
    )
}

/// Encodes the NPC-string file: the concatenation of its entries'
/// records, in table order. Fails exactly when some text's bytes do not
/// fit the wire length prefix.
#[verifier::loop_isolation(false)]
pub fn encode_npc_strings(t: &crate::holder::FHashMap<u32, String>) -> (r: Result<
    Vec<u8>,
    CodecError,
>)
    ensures
        match r {
            Ok(bytes) => bytes@ == wire_records(npc_string_fields(), npc_records_of(t.pairs())),
            Err(e) => exists|i: int|
                0 <= i < t.pairs().len() && utf8_bytes((#[trigger] t.pairs()[i]).1@).len()
                    > 0xffffffff,
        },
{
    let ghost nrvs = npc_records_of(t.pairs());
    let mut records: Vec<Record> = Vec::new();
    let n = t.len();
    let mut i: usize = 0;
    while i < n
        invariant
            i <= n,
            n == t.pairs().len(),
            nrvs == npc_records_of(t.pairs()),
            record_views(records@) == nrvs.take(i as int),
        decreases n - i,
    {
        let (k, v) = t.pair_at(i);
        let payload = string_to_bytes(v.as_str());
        let mut rec: Record = Vec::new();
        rec.push(FieldValue::Dword(k));
        rec.push(FieldValue::Ascf(payload));
        proof {
            crate::schema::lemma_views_of_index(rec@, 0);
            crate::schema::lemma_views_of_index(rec@, 1);
            assert(crate::schema::views_of(rec@) =~= nrvs[i as int]);
        }
        let ghost recs0 = records@;
        let ghost newrec = rec;
        records.push(rec);
        proof {
            crate::records::lemma_record_views_push(recs0, newrec);
            assert(records@ == recs0.push(newrec));
            assert(record_views(records@) =~= nrvs.take(i as int + 1));
        }
        i = i + 1;
    }
    proof {
        assert(nrvs.take(n as int) =~= nrvs);
    }
    let schema = npc_string_schema();
    match schema.encode_table(&records) {
        Ok(bytes) => Ok(bytes),
        Err(e) => {
            proof {
                crate::records::lemma_record_views_len(records@);
                assert(exists|q: int|
                    0 <= q < records@.len() && !fields_valid(
                        schema.fields@,
                        #[trigger] record_views(records@)[q],
                    ));
                let bad = choose|q: int|
                    0 <= q < records@.len() && !fields_valid(
                        schema.fields@,
                        #[trigger] record_views(records@)[q],
                    );
                assert(record_views(records@)[bad] == nrvs[bad]);
                assert(nrvs[bad] =~= seq![
                    AbsValue::Dword(t.pairs()[bad].0),
                    AbsValue::Ascf(utf8_bytes(t.pairs()[bad].1@)),
                ]);
                assert(!fields_valid(npc_string_fields(), nrvs[bad]));
                assert(nrvs[bad].len() == 2);
                assert(valid(FieldType::Dword, nrvs[bad][0]));
                assert(!valid(FieldType::Ascf, nrvs[bad][1])) by {
                    if valid(FieldType::Ascf, nrvs[bad][1]) {
                        assert(forall|j: int|
                            0 <= j < npc_string_fields().len() ==> valid(
                                #[trigger] npc_string_fields()[j],
                                nrvs[bad][j],
                            ));
                        assert(fields_valid(npc_string_fields(), nrvs[bad]));
                    }
                }
                assert(utf8_bytes(t.pairs()[bad].1@).len() > 0xffffffff);
            }
            Err(e)
        },
    }
}

impl Loader110 {
    /// Decides which table files a save must rewrite, and with what: a
    /// write for the interned-string table exactly when it is dirty,
    /// and one for the NPC-string table exactly when it is dirty. A
    /// clean table is never written; each planned write's bytes are
    /// exactly the table's encoding, so that what reaches disk matches
    /// the in-memory snapshot.
    pub fn save_plan(&self) -> (r: Result<SavePlan, CodecError>)
        ensures
            match r {
                Ok(p) => {
                    &&& (p.string_table is Some <==> self.game_data_name.changed())
                    &&& match p.string_table {
                        Some(w) => {
                            &&& w.name@ == "l2gamedataname.dat"@
                            &&& w.data@ == wire_records(
                                gdn_fields(),
                                gdn_records_of(self.game_data_name.strings()),
                            )
                        },
                        None => true,
                    }
                    &&& (self.npc_strings.changed() ==> p.others@.len() == 1
                        && p.others@[0].name@ == "npcstring-ru.dat"@ && p.others@[0].data@
                        == wire_records(
                        npc_string_fields(),
                        npc_records_of(self.npc_strings.pairs()),
                    ))
                    &&& (!self.npc_strings.changed() ==> p.others@.len() == 0)
                },
                Err(_) => (exists|i: int|
                    0 <= i < self.game_data_name.strings().len() && utf8_bytes(
                        #[trigger] self.game_data_name.strings()[i],
                    ).len() > 0xffff) || (exists|i: int|
                    0 <= i < self.npc_strings.pairs().len() && utf8_bytes(
                        (#[trigger] self.npc_strings.pairs()[i]).1@,
                    ).len() > 0xffffffff),
            },
    {
        let string_table = if self.game_data_name.is_changed() {
            let data = match encode_game_data_name(&self.game_data_name) {
                Ok(d) => d,
                Err(e) => {
                    return Err(e);
                },
            };
            Some(TableWrite { name: String::from_str("l2gamedataname.dat"), data })
        } else {
            None
        };
        let mut others: Vec<TableWrite> = Vec::new();
        if self.npc_strings.is_changed() {
            let data = match encode_npc_strings(&self.npc_strings) {
                Ok(d) => d,
                Err(e) => {
                    return Err(e);
                },
            };
            others.push(TableWrite { name: String::from_str("npcstring-ru.dat"), data });
        }
        Ok(SavePlan { string_table, others })
    }
}

/// Whether the report marks the named write as succeeded.
fn report_has_ok(report: &SaveReport, name: &str) -> (r: bool)
    ensures
        r == report_ok(report.entries@, name@),
{
    let needle = String::from_str(name);
    let n = report.entries.len();
    let mut i: usize = 0;
    while i < n
        invariant
            i <= n,
            n == report.entries@.len(),
            needle@ == name@,
            forall|q: int|
                0 <= q < i ==> !((#[trigger] report.entries@[q]).0@ == name@
                    && report.entries@[q].1 is Ok),
        decreases n - i,
    {
        if report.entries[i].0 == needle {
            if report.entries[i].1.is_ok() {
                proof {
                    assert(report.entries@[i as int].0@ == name@ && report.entries@[i as int].1
                        is Ok);
                }
                return true;
            }
        }
        i = i + 1;
    }
    false
}

/// Applies a save's outcome to the live session: each table whose write
/// succeeded has its dirty flag cleared; a table whose write failed
/// stays dirty, so the next save retries it, and no other table is
/// touched. No entry ever changes a table's contents.
pub fn apply_save_results(h: &mut GameDataHolder, report: &SaveReport)
    ensures
        final(h).game_string_table.strings() == old(h).game_string_table.strings(),
        final(h).game_string_table.wf() == old(h).game_string_table.wf(),
        final(h).npc_strings.pairs() == old(h).npc_strings.pairs(),
        final(h).npc_strings.wf() == old(h).npc_strings.wf(),
        final(h).game_string_table.changed() == (old(h).game_string_table.changed()
            && !report_ok(report.entries@, "l2gamedataname.dat"@)),
        final(h).npc_strings.changed() == (old(h).npc_strings.changed() && !report_ok(
            report.entries@,
            "npcstring-ru.dat"@,
        )),
        final(h).npc_holder == old(h).npc_holder,
        final(h).quest_holder == old(h).quest_holder,
        final(h).skill_holder == old(h).skill_holder,
        final(h).item_holder == old(h).item_holder,
        final(h).weapon_holder == old(h).weapon_holder,
        final(h).armor_holder == old(h).armor_holder,
        final(h).etc_item_holder == old(h).etc_item_holder,
        final(h).item_set_holder == old(h).item_set_holder,
        final(h).recipe_holder == old(h).recipe_holder,
        final(h).hunting_zone_holder == old(h).hunting_zone_holder,
        final(h).initial_dat_paths == old(h).initial_dat_paths,
        final(h).protocol_version == old(h).protocol_version,
{
    if report_has_ok(report, "l2gamedataname.dat") {
        h.game_string_table.clear_changed();
    }
    if report_has_ok(report, "npcstring-ru.dat") {
        h.npc_strings.clear_changed();
    }
}

} // verus!
