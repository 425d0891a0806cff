use vstd::prelude::*;
use vstd::string::*;
use crate::entity::HuntingZone;
use crate::entity::HuntingZoneId;
use crate::entity::InstantZoneId;
use crate::entity::SearchZoneId;
use crate::holder::FHashMap;
use crate::holder::GameDataHolder;
use crate::holder::ChroniclesProtocol;
use crate::records::RecordSchema;
use crate::records::dec_records;
use crate::records::lemma_record_views_index;
use crate::schema::AbsValue;
use crate::schema::CountWidth;
use crate::schema::FieldType;
use crate::schema::FieldValue;
use crate::schema::lemma_views_of_index;
use crate::schema::lemma_views_of_len;
use crate::string_table::L2GeneralStringTable;
use crate::text::bytes_to_string;
use crate::text::utf8_chars;
use crate::text::utf8_ok;

verus! {

/// Why a table file could not be loaded.
#[derive(Clone, Copy, Debug, PartialEq, Eq, Structural)]
pub enum LoadError {
    /// The string-table file is absent or does not decode: fatal, every
    /// other table may reference it.
    MissingRequiredTable,
    /// The file's bytes do not parse as a whole sequence of records.
    TruncatedInput,
    /// A decoded text field does not hold well-formed text.
    MalformedField,
}

/// One table file handed to the loader: its canonical name, where it
/// came from, and its whole body.
pub struct DatFile {
    pub name: String,
    pub path: String,
    pub data: Vec<u8>,
}

/// The index of the first file named `name`, or -1.
pub open spec fn find_file(files: Seq<DatFile>, name: Seq<char>) -> int
    decreases files.len(),
{
    if files.len() == 0 {
        -1
    } else if files.first().name@ == name {
        0
    } else {
        let r = find_file(files.drop_first(), name);
        if r >= 0 {
            r + 1
        } else {
            -1
        }
    }
}

pub proof fn lemma_find_file_found(files: Seq<DatFile>, name: Seq<char>, i: int)
    requires
        0 <= i < files.len(),
        files[i].name@ == name,
        forall|j: int| 0 <= j < i ==> (#[trigger] files[j]).name@ != name,
    ensures
        find_file(files, name) == i,
    decreases files.len(),
{
    if i == 0 {
    } else {
        assert(files.first().name@ != name);
        assert(forall|j: int|
            0 <= j < i - 1 ==> (#[trigger] files.drop_first()[j]).name@ != name);
        assert(files.drop_first()[i - 1] == files[i]);
        lemma_find_file_found(files.drop_first(), name, i - 1);
    }
}

pub proof fn lemma_find_file_none(files: Seq<DatFile>, name: Seq<char>)
    requires
        forall|j: int| 0 <= j < files.len() ==> (#[trigger] files[j]).name@ != name,
    ensures
        find_file(files, name) == -1,
    decreases files.len(),
{
    if files.len() > 0 {
        lemma_find_file_none(files.drop_first(), name);
    }
}

/// Finds the first file named `name`.
#[verifier::loop_isolation(false)]
fn find_dat<'a>(files: &'a Vec<DatFile>, name: &str) -> (r: Option<&'a DatFile>)
    ensures
        match r {
            Some(f) => find_file(files@, name@) >= 0 && *f == files@[find_file(files@, name@)],
            None => find_file(files@, name@) == -1,
        },
{
    let needle = String::from_str(name);
    let n = files.len();
    let mut i: usize = 0;
    while i < n
        invariant
            i <= n,
            n == files@.len(),
            needle@ == name@,
            forall|j: int| 0 <= j < i ==> (#[trigger] files@[j]).name@ != name@,
        decreases n - i,
    {
        if files[i].name == needle {
            proof {
                lemma_find_file_found(files@, name@, i as int);
            }
            return Some(&files[i]);
        }
        i = i + 1;
    }
    proof {
        lemma_find_file_none(files@, name@);
    }
    None
}

/// The field list of the interned-string table file: one file-table
/// string per record.
pub open spec fn gdn_fields() -> Seq<FieldType> {
    seq![FieldType::Str]
}

/// The schema of the interned-string table file.
pub fn gdn_schema() -> (r: RecordSchema)
    ensures
        r.fields@ == gdn_fields(),
{
    let mut fields: Vec<FieldType> = Vec::new();
    fields.push(FieldType::Str);
    proof {
        assert(fields@ =~= gdn_fields());
    }
    RecordSchema { fields }
}

/// The field list of the NPC-string file: a numeric id and a text.
pub open spec fn npc_string_fields() -> Seq<FieldType> {
    seq![FieldType::Dword, FieldType::Ascf]
}

/// The schema of the NPC-string file.
pub fn npc_string_schema() -> (r: RecordSchema)
    ensures
        r.fields@ == npc_string_fields(),
{
    let mut fields: Vec<FieldType> = Vec::new();
    fields.push(FieldType::Dword);
    fields.push(FieldType::Ascf);
    proof {
        assert(fields@ =~= npc_string_fields());
    }
    RecordSchema { fields }
}

/// The field list of the hunting-zone file.
pub open spec fn hunting_zone_fields() -> Seq<FieldType> {
    seq![
        FieldType::Dword,
        FieldType::Dword,
        FieldType::Dword,
        FieldType::Dword,
        FieldType::Floc,
        FieldType::Ascf,
        FieldType::Dword,
        FieldType::Ascf,
        FieldType::Word,
        FieldType::Dword,
        FieldType::Vector(CountWidth::Dword, Box::new(FieldType::Word)),
        FieldType::Dword,
    ]
}

/// The schema of the hunting-zone file.
pub fn hunting_zone_schema() -> (r: RecordSchema)
    ensures
        r.fields@ == hunting_zone_fields(),
{
    let mut fields: Vec<FieldType> = Vec::new();
    fields.push(FieldType::Dword);
    fields.push(FieldType::Dword);
    fields.push(FieldType::Dword);
    fields.push(FieldType::Dword);
    fields.push(FieldType::Floc);
    fields.push(FieldType::Ascf);
    fields.push(FieldType::Dword);
    fields.push(FieldType::Ascf);
    fields.push(FieldType::Word);
    fields.push(FieldType::Dword);
    fields.push(FieldType::Vector(CountWidth::Dword, Box::new(FieldType::Word)));
    fields.push(FieldType::Dword);
    proof {
        assert(fields@ =~= hunting_zone_fields());
    }
    RecordSchema { fields }
}

fn copy_bytes(b: &Vec<u8>) -> (r: Vec<u8>)
    ensures
        r@ == b@,
{
    let mut r: Vec<u8> = Vec::new();
    let n = b.len();
    let mut i: usize = 0;
    while i < n
        invariant
            i <= n,
            n == b@.len(),
            r@ == b@.take(i as int),
        decreases n - i,
    {
        r.push(b[i]);
        proof {
            assert(r@ =~= b@.take(i as int + 1));
        }
        i = i + 1;
    }
    proof {
        assert(b@.take(n as int) =~= b@);
    }
    r
}

/// Whether a decoded record of the interned-string file has its one
/// expected field, holding well-formed text.
pub open spec fn gdn_rec_ok(r: Seq<AbsValue>) -> bool {
    &&& r.len() == 1
    &&& r[0] is Str
    &&& utf8_ok(r[0]->Str_0)
}

/// The text of a decoded interned-string record.
pub open spec fn gdn_rec_text(r: Seq<AbsValue>) -> Seq<char> {
    utf8_chars(r[0]->Str_0)
}

/// Whether the string table `t` holds exactly the texts of the decoded
/// records `rvs`, index by position.
pub open spec fn gdn_loaded(t: L2GeneralStringTable, rvs: Seq<Seq<AbsValue>>) -> bool {
    &&& t.wf()
    &&& !t.changed()
    &&& t.strings().len() == rvs.len()
    &&& forall|i: int| 0 <= i < rvs.len() ==> t.strings()[i] == gdn_rec_text(#[trigger] rvs[i])
}

/// Whether the interned-string table file parses completely, every
/// record holds well-formed text, and the table fits its index width.
pub open spec fn gdn_file_ok(data: Seq<u8>) -> bool {
    &&& dec_records(gdn_fields(), data) is Some
    &&& dec_records(gdn_fields(), data).unwrap().len() < 0xffffffff
    &&& forall|i: int|
        0 <= i < dec_records(gdn_fields(), data).unwrap().len() ==> gdn_rec_ok(
            #[trigger] dec_records(gdn_fields(), data).unwrap()[i],
        )
}

/// Decodes the interned-string table file: the whole body is a sequence
/// of one-string records, and the table indexes them by position, not
/// marked changed. Fails exactly when the body does not parse or some
/// text is not well-formed.
#[verifier::loop_isolation(false)]
pub fn load_game_data_name(data: &Vec<u8>) -> (r: Result<L2GeneralStringTable, LoadError>)
    ensures
        match r {
            Ok(t) => {
                &&& dec_records(gdn_fields(), data@) is Some
                &&& gdn_loaded(t, dec_records(gdn_fields(), data@).unwrap())
            },
            Err(e) => {
                &&& (e == LoadError::TruncatedInput <==> dec_records(gdn_fields(), data@)
                    is None)
                &&& e != LoadError::MissingRequiredTable
                &&& (e == LoadError::MalformedField ==> dec_records(gdn_fields(), data@)
                    is Some && !gdn_file_ok(data@))
            },
        },
        gdn_file_ok(data@) ==> r is Ok,
{
    let schema = gdn_schema();
    let rs = match schema.decode_table(data) {
        Ok(rs) => rs,
        Err(_) => {
            return Err(LoadError::TruncatedInput);
        },
    };
    let ghost rvs = dec_records(gdn_fields(), data@).unwrap();
    proof {
        crate::records::lemma_record_views_len(rs@);
    }
    let mut values: Vec<String> = Vec::new();
    let n = rs.len();
    if n >= 0xffffffffusize {
        return Err(LoadError::MalformedField);
    }
    let mut i: usize = 0;
    while i < n
        invariant
            i <= n,
            n == rs@.len(),
            rvs == crate::records::record_views(rs@),
            rvs.len() == rs@.len(),
            n < 0xffffffff,
            values@.len() == i,
            forall|q: int| 0 <= q < i ==> gdn_rec_ok(#[trigger] rvs[q]),
            forall|q: int| 0 <= q < i ==> (#[trigger] values@[q])@ == gdn_rec_text(rvs[q]),
        decreases n - i,
    {
        proof {
            lemma_record_views_index(rs@, i as int);
            lemma_views_of_len(rs@[i as int]@);
        }
        let rec = &rs[i];
        if rec.len() != 1 {
            proof {
                assert(!gdn_rec_ok(rvs[i as int]));
            }
            return Err(LoadError::MalformedField);
        }
        match &rec[0] {
            FieldValue::Str(b) => {
                proof {
                    lemma_views_of_index(rs@[i as int]@, 0);
                }
                let bytes = copy_bytes(b);
                match bytes_to_string(bytes) {
                    Some(s) => {
                        values.push(s);
                    },
                    None => {
                        proof {
                            assert(!gdn_rec_ok(rvs[i as int]));
                        }
                        return Err(LoadError::MalformedField);
                    },
                }
            },
            _ => {
                proof {
                    lemma_views_of_index(rs@[i as int]@, 0);
                    assert(!gdn_rec_ok(rvs[i as int]));
                }
                return Err(LoadError::MalformedField);
            },
        }
        proof {
            assert(gdn_rec_ok(rvs[i as int]));
        }
        i = i + 1;
    }
    let t = L2GeneralStringTable::from_vec(values);
    proof {
        assert(t.strings().len() == rvs.len());
        assert(forall|q: int|
            0 <= q < rvs.len() ==> t.strings()[q] == gdn_rec_text(#[trigger] rvs[q]));
    }
    Ok(t)
}

/// Whether a decoded NPC-string record has its two expected fields,
/// with well-formed text.
pub open spec fn npc_rec_ok(r: Seq<AbsValue>) -> bool {
    &&& r.len() == 2
    &&& r[0] is Dword
    &&& r[1] is Ascf
    &&& utf8_ok(r[1]->Ascf_0)
}

/// The id of a decoded NPC-string record.
pub open spec fn npc_rec_id(r: Seq<AbsValue>) -> u32 {
    r[0]->Dword_0
}

/// The text of a decoded NPC-string record.
pub open spec fn npc_rec_text(r: Seq<AbsValue>) -> Seq<char> {
    utf8_chars(r[1]->Ascf_0)
}

/// Whether the table `t` holds exactly the decoded NPC strings: for
/// every id its latest record's text, and nothing else.
pub open spec fn npc_strings_loaded(t: FHashMap<u32, String>, rvs: Seq<Seq<AbsValue>>) -> bool {
    &&& t.wf()
    &&& forall|i: int|
        (0 <= i < rvs.len() && (forall|j: int|
            i < j < rvs.len() ==> npc_rec_id(#[trigger] rvs[j]) != npc_rec_id(rvs[i]))) ==> (
        match t.spec_get(npc_rec_id(#[trigger] rvs[i])) {
            Some(s) => s@ == npc_rec_text(rvs[i]),
            None => false,
        })
    &&& forall|k: u32|
        t.has_key(k) ==> exists|i: int| 0 <= i < rvs.len() && npc_rec_id(#[trigger] rvs[i]) == k
}

/// Whether the NPC-string file parses completely with well-formed
/// texts.
pub open spec fn npc_file_ok(data: Seq<u8>) -> bool {
    &&& dec_records(npc_string_fields(), data) is Some
    &&& forall|i: int|
        0 <= i < dec_records(npc_string_fields(), data).unwrap().len() ==> npc_rec_ok(
            #[trigger] dec_records(npc_string_fields(), data).unwrap()[i],
        )
}

/// Decodes the NPC-string file into a fresh table mapping each id to
/// its text; a later record for the same id wins. Fails exactly when
/// the body does not parse or some text is not well-formed.
#[verifier::loop_isolation(false)]
pub fn load_npc_strings(data: &Vec<u8>) -> (r: Result<FHashMap<u32, String>, LoadError>)
    ensures
        match r {
            Ok(t) => {
                &&& dec_records(npc_string_fields(), data@) is Some
                &&& npc_strings_loaded(t, dec_records(npc_string_fields(), data@).unwrap())
            },
            Err(e) => {
                &&& (e == LoadError::TruncatedInput <==> dec_records(
                    npc_string_fields(),
                    data@,
                ) is None)
                &&& e != LoadError::MissingRequiredTable
            },
        },
        npc_file_ok(data@) ==> r is Ok,
{
    let schema = npc_string_schema();
    let rs = match schema.decode_table(data) {
        Ok(rs) => rs,
        Err(_) => {
            return Err(LoadError::TruncatedInput);
        },
    };
    let ghost rvs = dec_records(npc_string_fields(), data@).unwrap();
    proof {
        crate::records::lemma_record_views_len(rs@);
    }
    let mut t: FHashMap<u32, String> = FHashMap::new();
    let n = rs.len();
    let mut i: usize = 0;
    while i < n
        invariant
            i <= n,
            n == rs@.len(),
            rvs == crate::records::record_views(rs@),
            rvs.len() == rs@.len(),
            t.wf(),
            forall|ii: int|
                (0 <= ii < i && (forall|j: int|
                    ii < j < i ==> npc_rec_id(#[trigger] rvs[j]) != npc_rec_id(rvs[ii]))) ==> (
                match t.spec_get(npc_rec_id(#[trigger] rvs[ii])) {
                    Some(s) => s@ == npc_rec_text(rvs[ii]),
                    None => false,
                }),
            forall|k: u32|
                t.has_key(k) ==> exists|ii: int|
                    0 <= ii < i && npc_rec_id(#[trigger] rvs[ii]) == k,
        decreases n - i,
    {
        proof {
            lemma_record_views_index(rs@, i as int);
            lemma_views_of_len(rs@[i as int]@);
        }
        let rec = &rs[i];
        if rec.len() != 2 {
            proof {
                assert(!npc_rec_ok(rvs[i as int]));
            }
            return Err(LoadError::MalformedField);
        }
        let id: u32 = match &rec[0] {
            FieldValue::Dword(x) => {
                proof {
                    lemma_views_of_index(rs@[i as int]@, 0);
                }
                *x
            },
            _ => {
                proof {
                    lemma_views_of_index(rs@[i as int]@, 0);
                    assert(!npc_rec_ok(rvs[i as int]));
                }
                return Err(LoadError::MalformedField);
            },
        };
        let text: String = match &rec[1] {
            FieldValue::Ascf(b) => {
                proof {
                    lemma_views_of_index(rs@[i as int]@, 1);
                }
                let bytes = copy_bytes(b);
                match bytes_to_string(bytes) {
                    Some(s) => s,
                    None => {
                        proof {
                            assert(!npc_rec_ok(rvs[i as int]));
                        }
                        return Err(LoadError::MalformedField);
                    },
                }
            },
            _ => {
                proof {
                    lemma_views_of_index(rs@[i as int]@, 1);
                    assert(!npc_rec_ok(rvs[i as int]));
                }
                return Err(LoadError::MalformedField);
            },
        };
        proof {
            assert(npc_rec_id(rvs[i as int]) == id);
            assert(npc_rec_text(rvs[i as int]) == text@);
        }
        let ghost t0 = t;
        t.insert(id, text);
        proof {
            assert forall|ii: int| #![trigger rvs[ii]]
                (0 <= ii < i + 1 && (forall|j: int|
                    ii < j < i + 1 ==> npc_rec_id(#[trigger] rvs[j]) != npc_rec_id(
                        rvs[ii],
                    ))) implies (match t.spec_get(npc_rec_id(rvs[ii])) {
                Some(s) => s@ == npc_rec_text(rvs[ii]),
                None => false,
            }) by {
                if ii < i {
                    assert(npc_rec_id(rvs[i as int]) != npc_rec_id(rvs[ii]));
                    assert(t.spec_get(npc_rec_id(rvs[ii])) == t0.spec_get(npc_rec_id(rvs[ii])));
                }
            }
            assert forall|k: u32| t.has_key(k) implies exists|ii: int|
                0 <= ii < i + 1 && npc_rec_id(#[trigger] rvs[ii]) == k by {
                if k == id {
                    assert(npc_rec_id(rvs[i as int]) == k);
                } else {
                    assert(t0.has_key(k));
                }
            }
        }
        i = i + 1;
    }
    Ok(t)
}

/// Whether a decoded hunting-zone record has its twelve expected
/// fields, with well-formed texts where text is expected.
pub open spec fn hz_rec_ok(r: Seq<AbsValue>) -> bool {
    &&& r.len() == 12
    &&& r[0] is Dword
    &&& r[5] is Ascf
    &&& r[6] is Dword
    &&& r[7] is Ascf
    &&& r[11] is Dword
    &&& utf8_ok(r[5]->Ascf_0)
    &&& utf8_ok(r[7]->Ascf_0)
}

/// The id of a decoded hunting-zone record.
pub open spec fn hz_rec_id(r: Seq<AbsValue>) -> u32 {
    r[0]->Dword_0
}

/// Whether the stored hunting zone matches the decoded record.
pub open spec fn hz_value_of(z: HuntingZone, r: Seq<AbsValue>) -> bool {
    &&& z.id == HuntingZoneId(hz_rec_id(r))
    &&& z.name@ == utf8_chars(r[7]->Ascf_0)
    &&& z.desc@ == utf8_chars(r[5]->Ascf_0)
    &&& z._search_zone_id == SearchZoneId(r[6]->Dword_0)
    &&& z._instant_zone_id == InstantZoneId(r[11]->Dword_0)
}

/// Whether the table `t` holds exactly the decoded hunting zones: for
/// every id its latest record's data, and nothing else.
pub open spec fn hunting_zones_loaded(
    t: FHashMap<HuntingZoneId, HuntingZone>,
    rvs: Seq<Seq<AbsValue>>,
) -> bool {
    &&& t.wf()
    &&& forall|i: int|
        (0 <= i < rvs.len() && (forall|j: int|
            i < j < rvs.len() ==> hz_rec_id(#[trigger] rvs[j]) != hz_rec_id(rvs[i]))) ==> (
        match t.spec_get(HuntingZoneId(hz_rec_id(#[trigger] rvs[i]))) {
            Some(z) => hz_value_of(z, rvs[i]),
            None => false,
        })
    &&& forall|k: HuntingZoneId|
        t.has_key(k) ==> exists|i: int|
            0 <= i < rvs.len() && HuntingZoneId(hz_rec_id(#[trigger] rvs[i])) == k
}

/// Whether the hunting-zone file parses completely with well-formed
/// texts.
pub open spec fn hz_file_ok(data: Seq<u8>) -> bool {
    &&& dec_records(hunting_zone_fields(), data) is Some
    &&& forall|i: int|
        0 <= i < dec_records(hunting_zone_fields(), data).unwrap().len() ==> hz_rec_ok(
            #[trigger] dec_records(hunting_zone_fields(), data).unwrap()[i],
        )
}

/// Decodes the hunting-zone file into a fresh table mapping each zone
/// id to its entry; a later record for the same id wins. Fails exactly
/// when the body does not parse or some text is not well-formed.
#[verifier::loop_isolation(false)]
pub fn load_hunting_zones(data: &Vec<u8>) -> (r: Result<
    FHashMap<HuntingZoneId, HuntingZone>,
    LoadError,
>)
    ensures
        match r {
            Ok(t) => {
                &&& dec_records(hunting_zone_fields(), data@) is Some
                &&& hunting_zones_loaded(t, dec_records(hunting_zone_fields(), data@).unwrap())
            },
            Err(e) => {
                &&& (e == LoadError::TruncatedInput <==> dec_records(
                    hunting_zone_fields(),
                    data@,
                ) is None)
                &&& e != LoadError::MissingRequiredTable
            },
        },
        hz_file_ok(data@) ==> r is Ok,
{
    let schema = hunting_zone_schema();
    let rs = match schema.decode_table(data) {
        Ok(rs) => rs,
        Err(_) => {
            return Err(LoadError::TruncatedInput);
        },
    };
    let ghost rvs = dec_records(hunting_zone_fields(), data@).unwrap();
    proof {
        crate::records::lemma_record_views_len(rs@);
    }
    let mut t: FHashMap<HuntingZoneId, HuntingZone> = FHashMap::new();
    let n = rs.len();
    let mut i: usize = 0;
    while i < n
        invariant
            i <= n,
            n == rs@.len(),
            rvs == crate::records::record_views(rs@),
            rvs.len() == rs@.len(),
            t.wf(),
            forall|ii: int|
                (0 <= ii < i && (forall|j: int|
                    ii < j < i ==> hz_rec_id(#[trigger] rvs[j]) != hz_rec_id(rvs[ii]))) ==> (
                match t.spec_get(HuntingZoneId(hz_rec_id(#[trigger] rvs[ii]))) {
                    Some(z) => hz_value_of(z, rvs[ii]),
                    None => false,
                }),
            forall|k: HuntingZoneId|
                t.has_key(k) ==> exists|ii: int|
                    0 <= ii < i && HuntingZoneId(hz_rec_id(#[trigger] rvs[ii])) == k,
        decreases n - i,
    {
        proof {
            lemma_record_views_index(rs@, i as int);
            lemma_views_of_len(rs@[i as int]@);
        }
        let rec = &rs[i];
        if rec.len() != 12 {
            proof {
                assert(!hz_rec_ok(rvs[i as int]));
            }
            return Err(LoadError::MalformedField);
        }
        let id: u32 = match &rec[0] {
            FieldValue::Dword(x) => {
                proof {
                    lemma_views_of_index(rs@[i as int]@, 0);
                }
                *x
            },
            _ => {
                proof {
                    lemma_views_of_index(rs@[i as int]@, 0);
                    assert(!hz_rec_ok(rvs[i as int]));
                }
                return Err(LoadError::MalformedField);
            },
        };
        let desc: String = match &rec[5] {
            FieldValue::Ascf(b) => {
                proof {
                    lemma_views_of_index(rs@[i as int]@, 5);
                }
                let bytes = copy_bytes(b);
                match bytes_to_string(bytes) {
                    Some(s) => s,
                    None => {
                        proof {
                            assert(!hz_rec_ok(rvs[i as int]));
                        }
                        return Err(LoadError::MalformedField);
                    },
                }
            },
            _ => {
                proof {
                    lemma_views_of_index(rs@[i as int]@, 5);
                    assert(!hz_rec_ok(rvs[i as int]));
                }
                return Err(LoadError::MalformedField);
            },
        };
        let search_zone: u32 = match &rec[6] {
            FieldValue::Dword(x) => {
                proof {
                    lemma_views_of_index(rs@[i as int]@, 6);
                }
                *x
            },
            _ => {
                proof {
                    lemma_views_of_index(rs@[i as int]@, 6);
                    assert(!hz_rec_ok(rvs[i as int]));
                }
                return Err(LoadError::MalformedField);
            },
        };
        let name: String = match &rec[7] {
            FieldValue::Ascf(b) => {
                proof {
                    lemma_views_of_index(rs@[i as int]@, 7);
                }
                let bytes = copy_bytes(b);
                match bytes_to_string(bytes) {
                    Some(s) => s,
                    None => {
                        proof {
                            assert(!hz_rec_ok(rvs[i as int]));
                        }
                        return Err(LoadError::MalformedField);
                    },
                }
            },
            _ => {
                proof {
                    lemma_views_of_index(rs@[i as int]@, 7);
                    assert(!hz_rec_ok(rvs[i as int]));
                }
                return Err(LoadError::MalformedField);
            },
        };
        let instance_zone: u32 = match &rec[11] {
            FieldValue::Dword(x) => {
                proof {
                    lemma_views_of_index(rs@[i as int]@, 11);
                }
                *x
            },
            _ => {
                proof {
                    lemma_views_of_index(rs@[i as int]@, 11);
                    assert(!hz_rec_ok(rvs[i as int]));
                }
                return Err(LoadError::MalformedField);
            },
        };
        let zone = HuntingZone {
            id: HuntingZoneId(id),
            name,
            desc,
            _search_zone_id: SearchZoneId(search_zone),
            _instant_zone_id: InstantZoneId(instance_zone),
        };
        proof {
            assert(hz_rec_id(rvs[i as int]) == id);
            assert(hz_value_of(zone, rvs[i as int]));
        }
        let ghost t0 = t;
        t.insert(HuntingZoneId(id), zone);
        proof {
            assert forall|ii: int| #![trigger rvs[ii]]
                (0 <= ii < i + 1 && (forall|j: int|
                    ii < j < i + 1 ==> hz_rec_id(#[trigger] rvs[j]) != hz_rec_id(
                        rvs[ii],
                    ))) implies (match t.spec_get(HuntingZoneId(hz_rec_id(rvs[ii]))) {
                Some(z) => hz_value_of(z, rvs[ii]),
                None => false,
            }) by {
                if ii < i {
                    assert(hz_rec_id(rvs[i as int]) != hz_rec_id(rvs[ii]));
                    assert(HuntingZoneId(hz_rec_id(rvs[ii])) != HuntingZoneId(id));
                    assert(t.spec_get(HuntingZoneId(hz_rec_id(rvs[ii]))) == t0.spec_get(
                        HuntingZoneId(hz_rec_id(rvs[ii])),
                    ));
                }
            }
            assert forall|k: HuntingZoneId| t.has_key(k) implies exists|ii: int|
                0 <= ii < i + 1 && HuntingZoneId(hz_rec_id(#[trigger] rvs[ii])) == k by {
                if k == HuntingZoneId(id) {
                    assert(HuntingZoneId(hz_rec_id(rvs[i as int])) == k);
                } else {
                    assert(t0.has_key(k));
                }
            }
        }
        i = i + 1;
    }
    Ok(t)
}

} // verus!

verus! {

/// The loader and serializer of one session's table files, for the one
/// supported protocol revision. It owns the decoded tables between the
/// load and the handover to the session holder, and the snapshots
/// between a save's start and its writer tasks.
pub struct Loader110 {
    pub game_data_name: L2GeneralStringTable,
    pub dat_paths: Vec<(String, String)>,
    pub quests: FHashMap<crate::entity::QuestId, crate::entity::Quest>,
    pub skills: FHashMap<crate::entity::SkillId, crate::entity::Skill>,
    pub npcs: FHashMap<crate::entity::NpcId, crate::entity::Npc>,
    pub all_items: FHashMap<crate::entity::ItemId, crate::entity::Item>,
    pub weapons: FHashMap<crate::entity::ItemId, crate::entity::Weapon>,
    pub armor: FHashMap<crate::entity::ItemId, crate::entity::Armor>,
    pub etc_items: FHashMap<crate::entity::ItemId, crate::entity::EtcItem>,
    pub item_sets: FHashMap<crate::entity::ItemSetId, crate::entity::ItemSet>,
    pub recipes: FHashMap<crate::entity::RecipeId, crate::entity::Recipe>,
    pub npc_strings: FHashMap<u32, String>,
    pub hunting_zones: FHashMap<crate::entity::HuntingZoneId, HuntingZone>,
}

/// Whether `failed` reports the table file `name`.
pub open spec fn reports_failed(failed: Seq<String>, name: Seq<char>) -> bool {
    exists|i: int| 0 <= i < failed.len() && (#[trigger] failed[i])@ == name
}

impl Loader110 {
    /// A loader with no tables.
    pub fn new() -> (r: Self)
        ensures
            r.game_data_name.wf(),
            r.game_data_name.strings().len() == 0,
            r.npc_strings.wf(),
            r.npc_strings.pairs().len() == 0,
            r.hunting_zones.wf(),
            r.hunting_zones.pairs().len() == 0,
            r.quests.wf() && r.skills.wf() && r.npcs.wf() && r.all_items.wf() && r.weapons.wf()
                && r.armor.wf() && r.etc_items.wf() && r.item_sets.wf() && r.recipes.wf(),
    {
        Loader110 {
            game_data_name: L2GeneralStringTable::new(),
            dat_paths: Vec::new(),
            quests: FHashMap::new(),
            skills: FHashMap::new(),
            npcs: FHashMap::new(),
            all_items: FHashMap::new(),
            weapons: FHashMap::new(),
            armor: FHashMap::new(),
            etc_items: FHashMap::new(),
            item_sets: FHashMap::new(),
            recipes: FHashMap::new(),
            npc_strings: FHashMap::new(),
            hunting_zones: FHashMap::new(),
        }
    }

    /// Loads a session from the table files of one directory scan:
    /// first the required interned-string table, then each remaining
    /// known table independently. A missing or unreadable string table
    /// is fatal; any other table's failure is reported by name and the
    /// load goes on.
    #[verifier::loop_isolation(false)]
    pub fn load(&mut self, files: Vec<DatFile>) -> (r: Result<Vec<String>, LoadError>)
        ensures
            match r {
                Ok(failed) => {
                    let gi = find_file(files@, "l2gamedataname.dat"@);
                    let ni = find_file(files@, "npcstring-ru.dat"@);
                    let hi = find_file(files@, "huntingzone-ru.dat"@);
                    &&& gi >= 0
                    &&& dec_records(gdn_fields(), files@[gi].data@) is Some
                    &&& gdn_loaded(
                        final(self).game_data_name,
                        dec_records(gdn_fields(), files@[gi].data@).unwrap(),
                    )
                    &&& final(self).dat_paths@.len() == files@.len()
                    &&& forall|i: int|
                        0 <= i < files@.len() ==> (#[trigger] final(self).dat_paths@[i]).0@
                            == files@[i].name@ && final(self).dat_paths@[i].1@ == files@[i].path@
                    &&& (ni == -1 ==> reports_failed(failed@, "npcstring-ru.dat"@) && final(self).npc_strings == old(self).npc_strings)
                    &&& (ni >= 0 && npc_file_ok(files@[ni].data@) ==> npc_strings_loaded(
                        final(self).npc_strings,
                        dec_records(npc_string_fields(), files@[ni].data@).unwrap(),
                    ) && !reports_failed(failed@, "npcstring-ru.dat"@))
                    &&& (ni >= 0 && !npc_file_ok(files@[ni].data@) ==> (reports_failed(
                        failed@,
                        "npcstring-ru.dat"@,
                    ) && final(self).npc_strings == old(self).npc_strings) || npc_strings_loaded(
                        final(self).npc_strings,
                        dec_records(npc_string_fields(), files@[ni].data@).unwrap(),
                    ))
                    &&& (hi == -1 ==> reports_failed(failed@, "huntingzone-ru.dat"@) && final(self).hunting_zones == old(self).hunting_zones)
                    &&& (hi >= 0 && hz_file_ok(files@[hi].data@) ==> hunting_zones_loaded(
                        final(self).hunting_zones,
                        dec_records(hunting_zone_fields(), files@[hi].data@).unwrap(),
                    ) && !reports_failed(failed@, "huntingzone-ru.dat"@))
                    &&& (hi >= 0 && !hz_file_ok(files@[hi].data@) ==> (reports_failed(
                        failed@,
                        "huntingzone-ru.dat"@,
                    ) && final(self).hunting_zones == old(self).hunting_zones)
                        || hunting_zones_loaded(
                        final(self).hunting_zones,
                        dec_records(hunting_zone_fields(), files@[hi].data@).unwrap(),
                    ))
                    &&& forall|i: int|
                        0 <= i < failed@.len() ==> (#[trigger] failed@[i])@
                            == "npcstring-ru.dat"@ || failed@[i]@ == "huntingzone-ru.dat"@
                },
                Err(e) => {
                    &&& e == LoadError::MissingRequiredTable
                    &&& (find_file(files@, "l2gamedataname.dat"@) == -1 || !gdn_file_ok(
                        files@[find_file(files@, "l2gamedataname.dat"@)].data@,
                    ))
                    &&& *final(self) == *old(self)
                },
            },
            (find_file(files@, "l2gamedataname.dat"@) >= 0 && gdn_file_ok(
                files@[find_file(files@, "l2gamedataname.dat"@)].data@,
            )) ==> r is Ok,
    {
        proof {
            reveal_strlit("l2gamedataname.dat");
            reveal_strlit("npcstring-ru.dat");
            reveal_strlit("huntingzone-ru.dat");
        }
        let table = match find_dat(&files, "l2gamedataname.dat") {
            Some(f) => match load_game_data_name(&f.data) {
                Ok(t) => t,
                Err(_) => {
                    return Err(LoadError::MissingRequiredTable);
                },
            },
            None => {
                return Err(LoadError::MissingRequiredTable);
            },
        };
        self.game_data_name = table;
        let mut paths: Vec<(String, String)> = Vec::new();
        let nfiles = files.len();
        let mut i: usize = 0;
        while i < nfiles
            invariant
                i <= nfiles,
                nfiles == files@.len(),
                paths@.len() == i,
                forall|q: int|
                    0 <= q < i ==> (#[trigger] paths@[q]).0@ == files@[q].name@ && paths@[q].1@
                        == files@[q].path@,
            decreases nfiles - i,
        {
            paths.push((files[i].name.clone(), files[i].path.clone()));
            i = i + 1;
        }
        self.dat_paths = paths;
        let mut npc_failed: bool = false;
        match find_dat(&files, "npcstring-ru.dat") {
            Some(f) => match load_npc_strings(&f.data) {
                Ok(t) => {
                    self.npc_strings = t;
                },
                Err(_) => {
                    npc_failed = true;
                },
            },
            None => {
                npc_failed = true;
            },
        }
        let mut hz_failed: bool = false;
        match find_dat(&files, "huntingzone-ru.dat") {
            Some(f) => match load_hunting_zones(&f.data) {
                Ok(t) => {
                    self.hunting_zones = t;
                },
                Err(_) => {
                    hz_failed = true;
                },
            },
            None => {
                hz_failed = true;
            },
        }
        let mut failed: Vec<String> = Vec::new();
        if npc_failed {
            failed.push(String::from_str("npcstring-ru.dat"));
        }
        if hz_failed {
            failed.push(String::from_str("huntingzone-ru.dat"));
        }
        proof {
            if npc_failed {
                assert(failed@[0]@ == "npcstring-ru.dat"@);
            }
            if hz_failed {
                assert(failed@[failed@.len() - 1]@ == "huntingzone-ru.dat"@);
            }
            assert forall|i: int| 0 <= i < failed@.len() implies (#[trigger] failed@[i])@
                == "npcstring-ru.dat"@ || failed@[i]@ == "huntingzone-ru.dat"@ by {}
            if !npc_failed {
                assert(forall|i: int|
                    0 <= i < failed@.len() ==> (#[trigger] failed@[i])@ != "npcstring-ru.dat"@);
            }
            if !hz_failed {
                assert(forall|i: int|
                    0 <= i < failed@.len() ==> (#[trigger] failed@[i])@ != "huntingzone-ru.dat"@);
            }
        }
        Ok(failed)
    }

    /// A cloned string from the interned-string table. The caller
    /// answers for the index.
    pub fn gdns_cloned(&self, index: &u32) -> (r: String)
        requires
            *index < self.game_data_name.strings().len(),
        ensures
            r@ == self.game_data_name.strings()[*index as int],
    {
        self.game_data_name.index(*index).clone()
    }

    /// Cloned strings from the interned-string table, one per index.
    /// The caller answers for every index.
    pub fn vec_gdns_cloned(&self, indexes: &Vec<u32>) -> (r: Vec<String>)
        requires
            forall|i: int|
                0 <= i < indexes@.len() ==> (#[trigger] indexes@[i])
                    < self.game_data_name.strings().len(),
        ensures
            r@.len() == indexes@.len(),
            forall|i: int|
                0 <= i < r@.len() ==> (#[trigger] r@[i])@ == self.game_data_name.strings()[
                    indexes@[i] as int
                ],
    {
        let mut r: Vec<String> = Vec::new();
        let n = indexes.len();
        let mut i: usize = 0;
        while i < n
            invariant
                i <= n,
                n == indexes@.len(),
                r@.len() == i,
                forall|q: int|
                    0 <= q < indexes@.len() ==> (#[trigger] indexes@[q])
                        < self.game_data_name.strings().len(),
                forall|q: int|
                    0 <= q < i ==> (#[trigger] r@[q])@ == self.game_data_name.strings()[
                        indexes@[q] as int
                    ],
            decreases n - i,
        {
            r.push(self.gdns_cloned(&indexes[i]));
            i = i + 1;
        }
        r
    }
}

} // verus!

verus! {

impl Loader110 {
    /// Takes the snapshots a save works from: each table travels as a
    /// full clone when dirty and as an empty, clean table when not; the
    /// three item tables travel together, because they are rewritten
    /// into one file. The interned-string table always travels whole.
    pub fn from_holder(game_data_holder: &GameDataHolder) -> (r: Self)
        requires
            game_data_holder.wf(),
        ensures
            r.game_data_name.strings() == game_data_holder.game_string_table.strings(),
            r.game_data_name.changed() == game_data_holder.game_string_table.changed(),
            r.game_data_name.wf(),
            r.dat_paths@ == game_data_holder.initial_dat_paths@,
            crate::holder::changed_or_empty_of(r.quests, game_data_holder.quest_holder),
            crate::holder::changed_or_empty_of(r.skills, game_data_holder.skill_holder),
            crate::holder::changed_or_empty_of(r.npcs, game_data_holder.npc_holder),
            crate::holder::changed_or_empty_of(r.npc_strings, game_data_holder.npc_strings),
            crate::holder::changed_or_empty_of(r.item_sets, game_data_holder.item_set_holder),
            crate::holder::changed_or_empty_of(r.recipes, game_data_holder.recipe_holder),
            r.all_items.pairs().len() == 0,
            r.hunting_zones.pairs().len() == 0,
            ({
                let items_changed = game_data_holder.armor_holder.changed()
                    || game_data_holder.etc_item_holder.changed()
                    || game_data_holder.weapon_holder.changed();
                if items_changed {
                    &&& crate::holder::snapshot_of(r.weapons, game_data_holder.weapon_holder)
                    &&& crate::holder::snapshot_of(r.armor, game_data_holder.armor_holder)
                    &&& crate::holder::snapshot_of(r.etc_items, game_data_holder.etc_item_holder)
                } else {
                    &&& r.weapons.pairs().len() == 0 && !r.weapons.changed()
                    &&& r.armor.pairs().len() == 0 && !r.armor.changed()
                    &&& r.etc_items.pairs().len() == 0 && !r.etc_items.changed()
                }
            }),
    {
        let items_changed = game_data_holder.armor_holder.is_changed()
            || game_data_holder.etc_item_holder.is_changed()
            || game_data_holder.weapon_holder.is_changed();
        let mut dat_paths: Vec<(String, String)> = Vec::new();
        let n = game_data_holder.initial_dat_paths.len();
        let mut i: usize = 0;
        while i < n
            invariant
                i <= n,
                n == game_data_holder.initial_dat_paths@.len(),
                dat_paths@ == game_data_holder.initial_dat_paths@.take(i as int),
            decreases n - i,
        {
            let p = &game_data_holder.initial_dat_paths[i];
            dat_paths.push((p.0.clone(), p.1.clone()));
            proof {
                assert(dat_paths@ =~= game_data_holder.initial_dat_paths@.take(i as int + 1));
            }
            i = i + 1;
        }
        proof {
            assert(game_data_holder.initial_dat_paths@.take(n as int)
                =~= game_data_holder.initial_dat_paths@);
        }
        Loader110 {
            game_data_name: game_data_holder.game_string_table.clone(),
            dat_paths,
            quests: game_data_holder.quest_holder.changed_or_empty(),
            skills: game_data_holder.skill_holder.changed_or_empty(),
            npcs: game_data_holder.npc_holder.changed_or_empty(),
            npc_strings: game_data_holder.npc_strings.changed_or_empty(),
            all_items: FHashMap::new(),
            weapons: if items_changed {
                game_data_holder.weapon_holder.snapshot()
            } else {
                FHashMap::new()
            },
            etc_items: if items_changed {
                game_data_holder.etc_item_holder.snapshot()
            } else {
                FHashMap::new()
            },
            armor: if items_changed {
                game_data_holder.armor_holder.snapshot()
            } else {
                FHashMap::new()
            },
            item_sets: game_data_holder.item_set_holder.changed_or_empty(),
            recipes: game_data_holder.recipe_holder.changed_or_empty(),
            hunting_zones: FHashMap::new(),
        }
    }

    /// Hands the loaded tables over to the session holder, with every
    /// table's dirty flag cleared: a fresh load has nothing unsaved.
    /// The interned-string table keeps its flag, which records interned
    /// strings not yet written back.
    pub fn to_holder(self) -> (r: GameDataHolder)
        ensures
            r.protocol_version == ChroniclesProtocol::GrandCrusade110,
            r.initial_dat_paths@ == self.dat_paths@,
            r.game_string_table == self.game_data_name,
            r.npc_holder.pairs() == self.npcs.pairs() && !r.npc_holder.changed(),
            r.quest_holder.pairs() == self.quests.pairs() && !r.quest_holder.changed(),
            r.skill_holder.pairs() == self.skills.pairs() && !r.skill_holder.changed(),
            r.item_holder.pairs() == self.all_items.pairs(),
            r.weapon_holder.pairs() == self.weapons.pairs() && !r.weapon_holder.changed(),
            r.armor_holder.pairs() == self.armor.pairs() && !r.armor_holder.changed(),
            r.etc_item_holder.pairs() == self.etc_items.pairs() && !r.etc_item_holder.changed(),
            r.item_set_holder.pairs() == self.item_sets.pairs() && !r.item_set_holder.changed(),
            r.recipe_holder.pairs() == self.recipes.pairs() && !r.recipe_holder.changed(),
            r.npc_strings.pairs() == self.npc_strings.pairs() && !r.npc_strings.changed(),
            r.hunting_zone_holder.pairs() == self.hunting_zones.pairs()
                && !r.hunting_zone_holder.changed(),
            r.npc_holder.wf() == self.npcs.wf(),
            r.quest_holder.wf() == self.quests.wf(),
            r.skill_holder.wf() == self.skills.wf(),
            r.weapon_holder.wf() == self.weapons.wf(),
            r.armor_holder.wf() == self.armor.wf(),
            r.etc_item_holder.wf() == self.etc_items.wf(),
            r.item_set_holder.wf() == self.item_sets.wf(),
            r.recipe_holder.wf() == self.recipes.wf(),
            r.npc_strings.wf() == self.npc_strings.wf(),
            r.hunting_zone_holder.wf() == self.hunting_zones.wf(),
            r.item_holder.wf() == self.all_items.wf(),
    {
        let mut r = GameDataHolder {
            protocol_version: ChroniclesProtocol::GrandCrusade110,
            initial_dat_paths: self.dat_paths,
            npc_holder: self.npcs,
            npc_strings: self.npc_strings,
            item_holder: self.all_items,
            quest_holder: self.quests,
            skill_holder: self.skills,
            weapon_holder: self.weapons,
            armor_holder: self.armor,
            etc_item_holder: self.etc_items,
            item_set_holder: self.item_sets,
            recipe_holder: self.recipes,
            hunting_zone_holder: self.hunting_zones,
            game_string_table: self.game_data_name,
        };
        r.npc_holder.clear_changed();
        r.npc_strings.clear_changed();
        r.quest_holder.clear_changed();
        r.skill_holder.clear_changed();
        r.weapon_holder.clear_changed();
        r.armor_holder.clear_changed();
        r.etc_item_holder.clear_changed();
        r.hunting_zone_holder.clear_changed();
        r.item_set_holder.clear_changed();
        r.recipe_holder.clear_changed();
        r
    }
}

} // verus!

verus! {

/// Whether `it` is the all-items row of the weapon `w`.
pub open spec fn item_of_weapon(it: crate::entity::Item, w: crate::entity::Weapon) -> bool {
    &&& it.id == w.base_info.id
    &&& it.name@ == w.base_info.name@
    &&& it.additional_name@ == w.base_info.additional_name@
}

/// Whether `it` is the all-items row of the plain item `e`.
pub open spec fn item_of_etc(it: crate::entity::Item, e: crate::entity::EtcItem) -> bool {
    &&& it.id == e.base_info.id
    &&& it.name@ == e.base_info.name@
    &&& it.additional_name@ == e.base_info.additional_name@
}

/// Whether `it` is the all-items row of the armor piece `a`.
pub open spec fn item_of_armor(it: crate::entity::Item, a: crate::entity::Armor) -> bool {
    &&& it.id == a.base_info.id
    &&& it.name@ == a.base_info.name@
    &&& it.additional_name@ == a.base_info.additional_name@
}

impl Loader110 {
    /// Rebuilds the derived all-items index from the three typed item
    /// tables. It is recomputed on every load and never persisted; for
    /// an id in more than one table, armor wins over plain items, which
    /// win over weapons.
    #[verifier::loop_isolation(false)]
    pub fn refill_all_items(&mut self)
        requires
            old(self).weapons.wf(),
            old(self).etc_items.wf(),
            old(self).armor.wf(),
        ensures
            final(self).all_items.wf(),
            final(self).weapons == old(self).weapons,
            final(self).etc_items == old(self).etc_items,
            final(self).armor == old(self).armor,
            final(self).quests == old(self).quests,
            final(self).skills == old(self).skills,
            final(self).npcs == old(self).npcs,
            final(self).item_sets == old(self).item_sets,
            final(self).recipes == old(self).recipes,
            final(self).npc_strings == old(self).npc_strings,
            final(self).hunting_zones == old(self).hunting_zones,
            final(self).game_data_name == old(self).game_data_name,
            final(self).dat_paths == old(self).dat_paths,
            forall|id: crate::entity::ItemId|
                match #[trigger] final(self).all_items.spec_get(id) {
                    Some(it) => {
                        match old(self).armor.spec_get(id) {
                            Some(a) => item_of_armor(it, a),
                            None => match old(self).etc_items.spec_get(id) {
                                Some(e) => item_of_etc(it, e),
                                None => match old(self).weapons.spec_get(id) {
                                    Some(w) => item_of_weapon(it, w),
                                    None => false,
                                },
                            },
                        }
                    },
                    None => {
                        &&& old(self).armor.spec_get(id) is None
                        &&& old(self).etc_items.spec_get(id) is None
                        &&& old(self).weapons.spec_get(id) is None
                    },
                },
    {
        let ghost wp = self.weapons.pairs();
        let ghost ep = self.etc_items.pairs();
        let ghost ap = self.armor.pairs();
        proof {
            crate::holder::lemma_wf_unique(&self.weapons);
            crate::holder::lemma_wf_unique(&self.etc_items);
            crate::holder::lemma_wf_unique(&self.armor);
        }
        let mut items: FHashMap<crate::entity::ItemId, crate::entity::Item> = FHashMap::new();
        let n1 = self.weapons.len();
        let mut i: usize = 0;
        while i < n1
            invariant
                i <= n1,
                n1 == wp.len(),
                wp == self.weapons.pairs(),
                items.wf(),
                forall|id: crate::entity::ItemId|
                    match #[trigger] items.spec_get(id) {
                        Some(it) => exists|q: int|
                            0 <= q < i && (#[trigger] wp[q]).0 == id && item_of_weapon(
                                it,
                                wp[q].1,
                            ),
                        None => forall|q: int| 0 <= q < i ==> (#[trigger] wp[q]).0 != id,
                    },
            decreases n1 - i,
        {
            let (k, w) = self.weapons.pair_at(i);
            let it = w.to_item();
            let ghost items0 = items;
            items.insert(k, it);
            proof {
                assert forall|id: crate::entity::ItemId|
                    match #[trigger] items.spec_get(id) {
                        Some(itx) => exists|q: int|
                            0 <= q < i + 1 && (#[trigger] wp[q]).0 == id && item_of_weapon(
                                itx,
                                wp[q].1,
                            ),
                        None => forall|q: int| 0 <= q < i + 1 ==> (#[trigger] wp[q]).0 != id,
                    } by {
                    if id == k {
                        assert(wp[i as int].0 == id);
                        crate::holder::lemma_assoc_lookup_found(wp, id, i as int);
                    } else {
                        assert(items.spec_get(id) == items0.spec_get(id));
                    }
                }
            }
            i = i + 1;
        }
        proof {
            assert forall|id: crate::entity::ItemId|
                match #[trigger] items.spec_get(id) {
                    Some(it) => (match self.weapons.spec_get(id) {
                        Some(w) => item_of_weapon(it, w),
                        None => false,
                    }),
                    None => self.weapons.spec_get(id) is None,
                } by {
                match items.spec_get(id) {
                    Some(it) => {
                        let q = choose|q: int|
                            0 <= q < wp.len() && (#[trigger] wp[q]).0 == id && item_of_weapon(
                                it,
                                wp[q].1,
                            );
                        crate::holder::lemma_assoc_lookup_found(wp, id, q);
                    },
                    None => {
                        crate::holder::lemma_assoc_lookup_absent(wp, id);
                    },
                }
            }
        }
        let ghost after_w = items;
        let n2 = self.etc_items.len();
        let mut j: usize = 0;
        while j < n2
            invariant
                j <= n2,
                n2 == ep.len(),
                ep == self.etc_items.pairs(),
                items.wf(),
                forall|id: crate::entity::ItemId|
                    match #[trigger] items.spec_get(id) {
                        Some(it) => (exists|q: int|
                            0 <= q < j && (#[trigger] ep[q]).0 == id && item_of_etc(it, ep[q].1))
                            || ((forall|q: int| 0 <= q < j ==> (#[trigger] ep[q]).0 != id) && (
                            match after_w.spec_get(id) {
                                Some(it2) => it2 == it,
                                None => false,
                            })),
                        None => (forall|q: int| 0 <= q < j ==> (#[trigger] ep[q]).0 != id)
                            && after_w.spec_get(id) is None,
                    },
            decreases n2 - j,
        {
            let (k, e) = self.etc_items.pair_at(j);
            let it = e.to_item();
            let ghost items0 = items;
            items.insert(k, it);
            proof {
                assert forall|id: crate::entity::ItemId|
                    match #[trigger] items.spec_get(id) {
                        Some(itx) => (exists|q: int|
                            0 <= q < j + 1 && (#[trigger] ep[q]).0 == id && item_of_etc(
                                itx,
                                ep[q].1,
                            )) || ((forall|q: int| 0 <= q < j + 1 ==> (#[trigger] ep[q]).0 != id)
                            && (match after_w.spec_get(id) {
                            Some(it2) => it2 == itx,
                            None => false,
                        })),
                        None => (forall|q: int| 0 <= q < j + 1 ==> (#[trigger] ep[q]).0 != id)
                            && after_w.spec_get(id) is None,
                    } by {
                    if id == k {
                        assert(ep[j as int].0 == id);
                    } else {
                        assert(items.spec_get(id) == items0.spec_get(id));
                    }
                }
            }
            j = j + 1;
        }
        proof {
            assert forall|id: crate::entity::ItemId|
                match #[trigger] items.spec_get(id) {
                    Some(it) => (match self.etc_items.spec_get(id) {
                        Some(e) => item_of_etc(it, e),
                        None => match self.weapons.spec_get(id) {
                            Some(w) => item_of_weapon(it, w),
                            None => false,
                        },
                    }),
                    None => self.etc_items.spec_get(id) is None && self.weapons.spec_get(id)
                        is None,
                } by {
                match items.spec_get(id) {
                    Some(it) => {
                        if exists|q: int|
                            0 <= q < ep.len() && (#[trigger] ep[q]).0 == id && item_of_etc(
                                it,
                                ep[q].1,
                            ) {
                            let q = choose|q: int|
                                0 <= q < ep.len() && (#[trigger] ep[q]).0 == id && item_of_etc(
                                    it,
                                    ep[q].1,
                                );
                            crate::holder::lemma_assoc_lookup_found(ep, id, q);
                        } else {
                            crate::holder::lemma_assoc_lookup_absent(ep, id);
                        }
                    },
                    None => {
                        crate::holder::lemma_assoc_lookup_absent(ep, id);
                    },
                }
            }
        }
        let ghost after_e = items;
        let n3 = self.armor.len();
        let mut m: usize = 0;
        while m < n3
            invariant
                m <= n3,
                n3 == ap.len(),
                ap == self.armor.pairs(),
                items.wf(),
                forall|id: crate::entity::ItemId|
                    match #[trigger] items.spec_get(id) {
                        Some(it) => (exists|q: int|
                            0 <= q < m && (#[trigger] ap[q]).0 == id && item_of_armor(it, ap[q].1))
                            || ((forall|q: int| 0 <= q < m ==> (#[trigger] ap[q]).0 != id) && (
                            match after_e.spec_get(id) {
                                Some(it2) => it2 == it,
                                None => false,
                            })),
                        None => (forall|q: int| 0 <= q < m ==> (#[trigger] ap[q]).0 != id)
                            && after_e.spec_get(id) is None,
                    },
            decreases n3 - m,
        {
            let (k, a) = self.armor.pair_at(m);
            let it = a.to_item();
            let ghost items0 = items;
            items.insert(k, it);
            proof {
                assert forall|id: crate::entity::ItemId|
                    match #[trigger] items.spec_get(id) {
                        Some(itx) => (exists|q: int|
                            0 <= q < m + 1 && (#[trigger] ap[q]).0 == id && item_of_armor(
                                itx,
                                ap[q].1,
                            )) || ((forall|q: int| 0 <= q < m + 1 ==> (#[trigger] ap[q]).0 != id)
                            && (match after_e.spec_get(id) {
                            Some(it2) => it2 == itx,
                            None => false,
                        })),
                        None => (forall|q: int| 0 <= q < m + 1 ==> (#[trigger] ap[q]).0 != id)
                            && after_e.spec_get(id) is None,
                    } by {
                    if id == k {
                        assert(ap[m as int].0 == id);
                    } else {
                        assert(items.spec_get(id) == items0.spec_get(id));
                    }
                }
            }
            m = m + 1;
        }
        proof {
            assert forall|id: crate::entity::ItemId|
                match #[trigger] items.spec_get(id) {
                    Some(it) => (match self.armor.spec_get(id) {
                        Some(a) => item_of_armor(it, a),
                        None => match self.etc_items.spec_get(id) {
                            Some(e) => item_of_etc(it, e),
                            None => match self.weapons.spec_get(id) {
                                Some(w) => item_of_weapon(it, w),
                                None => false,
                            },
                        },
                    }),
                    None => self.armor.spec_get(id) is None && self.etc_items.spec_get(id) is None
                        && self.weapons.spec_get(id) is None,
                } by {
                match items.spec_get(id) {
                    Some(it) => {
                        if exists|q: int|
                            0 <= q < ap.len() && (#[trigger] ap[q]).0 == id && item_of_armor(
                                it,
                                ap[q].1,
                            ) {
                            let q = choose|q: int|
                                0 <= q < ap.len() && (#[trigger] ap[q]).0 == id && item_of_armor(
                                    it,
                                    ap[q].1,
                                );
                            crate::holder::lemma_assoc_lookup_found(ap, id, q);
                        } else {
                            crate::holder::lemma_assoc_lookup_absent(ap, id);
                        }
                    },
                    None => {
                        crate::holder::lemma_assoc_lookup_absent(ap, id);
                    },
                }
            }
        }
        self.all_items = items;
    }
}

} // verus!
