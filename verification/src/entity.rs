use vstd::prelude::*;
use vstd::string::*;
use crate::holder::TableKey;
use crate::text::dec_digits;
use crate::text::u32_to_decimal;

verus! {

/// The numeric identifier of an NPC record.
#[derive(Copy, Clone, Debug, PartialEq, Eq, Structural)]
pub struct NpcId(pub u32);

/// The numeric identifier of a quest record.
#[derive(Copy, Clone, Debug, PartialEq, Eq, Structural)]
pub struct QuestId(pub u32);

/// The numeric identifier of a skill record.
#[derive(Copy, Clone, Debug, PartialEq, Eq, Structural)]
pub struct SkillId(pub u32);

/// The numeric identifier of an item record, shared by weapons, armor
/// and everything else.
#[derive(Copy, Clone, Debug, PartialEq, Eq, Structural)]
pub struct ItemId(pub u32);

/// The numeric identifier of an item-set record.
#[derive(Copy, Clone, Debug, PartialEq, Eq, Structural)]
pub struct ItemSetId(pub u32);

/// The numeric identifier of a recipe record.
#[derive(Copy, Clone, Debug, PartialEq, Eq, Structural)]
pub struct RecipeId(pub u32);

/// The numeric identifier of a hunting-zone record.
#[derive(Copy, Clone, Debug, PartialEq, Eq, Structural)]
pub struct HuntingZoneId(pub u32);

/// The numeric identifier of a search zone.
#[derive(Copy, Clone, Debug, PartialEq, Eq, Structural)]
pub struct SearchZoneId(pub u32);

/// The numeric identifier of an instant zone.
#[derive(Copy, Clone, Debug, PartialEq, Eq, Structural)]
pub struct InstantZoneId(pub u32);

impl TableKey for NpcId {
    fn key_eq(&self, other: &Self) -> (r: bool)
        ensures
            r == (*self == *other),
    {
        self.0 == other.0
    }
}

impl TableKey for QuestId {
    fn key_eq(&self, other: &Self) -> (r: bool)
        ensures
            r == (*self == *other),
    {
        self.0 == other.0
    }
}

impl TableKey for SkillId {
    fn key_eq(&self, other: &Self) -> (r: bool)
        ensures
            r == (*self == *other),
    {
        self.0 == other.0
    }
}

impl TableKey for ItemId {
    fn key_eq(&self, other: &Self) -> (r: bool)
        ensures
            r == (*self == *other),
    {
        self.0 == other.0
    }
}

impl TableKey for ItemSetId {
    fn key_eq(&self, other: &Self) -> (r: bool)
        ensures
            r == (*self == *other),
    {
        self.0 == other.0
    }
}

impl TableKey for RecipeId {
    fn key_eq(&self, other: &Self) -> (r: bool)
        ensures
            r == (*self == *other),
    {
        self.0 == other.0
    }
}

impl TableKey for HuntingZoneId {
    fn key_eq(&self, other: &Self) -> (r: bool)
        ensures
            r == (*self == *other),
    {
        self.0 == other.0
    }
}

/// A world location in integral game units.
#[derive(Copy, Clone, Debug, PartialEq, Eq, Structural)]
pub struct Location {
    pub x: i32,
    pub y: i32,
    pub z: i32,
}

/// A world position as it stands on the wire: three IEEE-754 bit
/// patterns, carried opaquely by the codec.
#[derive(Copy, Clone, Debug, PartialEq, Eq, Structural, Default)]
pub struct Position {
    pub x: u32,
    pub y: u32,
    pub z: u32,
}

/// The wire form of a position triple: three IEEE-754 bit patterns in
/// x, y, z order.
#[derive(Copy, Clone, Debug, PartialEq, Eq, Structural, Default)]
pub struct CoordsXYZ {
    pub x: u32,
    pub y: u32,
    pub z: u32,
}

impl From<CoordsXYZ> for Position {
    fn from(value: CoordsXYZ) -> (r: Self) {
        Position { x: value.x, y: value.y, z: value.z }
    }
}

impl vstd::std_specs::convert::FromSpecImpl<CoordsXYZ> for Position {
    open spec fn obeys_from_spec() -> bool {
        true
    }

    open spec fn from_spec(value: CoordsXYZ) -> Self {
        Position { x: value.x, y: value.y, z: value.z }
    }
}

impl From<Position> for CoordsXYZ {
    fn from(value: Position) -> (r: Self) {
        CoordsXYZ { x: value.x, y: value.y, z: value.z }
    }
}

impl vstd::std_specs::convert::FromSpecImpl<Position> for CoordsXYZ {
    open spec fn obeys_from_spec() -> bool {
        true
    }

    open spec fn from_spec(value: Position) -> Self {
        CoordsXYZ { x: value.x, y: value.y, z: value.z }
    }
}

/// What every editable entity offers the editor: a key, a display name,
/// and a fresh value for a given key.
pub trait CommonEntity<Id: TableKey>: Sized {
    /// The entity's key.
    spec fn spec_id(&self) -> Id;

    /// The entity's display name.
    spec fn spec_name(&self) -> Seq<char>;

    /// Returns the entity's key.
    fn id(&self) -> (r: Id)
        ensures
            r == self.spec_id(),
    ;

    /// Returns the entity's display name.
    fn name(&self) -> (r: String)
        ensures
            r@ == self.spec_name(),
    ;

    /// A fresh entity carrying the given key and empty content.
    fn new(id: Id) -> (r: Self)
        ensures
            r.spec_id() == id,
    ;
}

} // verus!

verus! {

/// A non-player character, as the editor sees it.
#[derive(Debug)]
pub struct Npc {
    pub id: NpcId,
    pub name: String,
}

impl CommonEntity<NpcId> for Npc {
    open spec fn spec_id(&self) -> NpcId {
        self.id
    }

    open spec fn spec_name(&self) -> Seq<char> {
        self.name@
    }

    fn id(&self) -> (r: NpcId) {
        self.id
    }

    fn name(&self) -> (r: String) {
        self.name.clone()
    }

    fn new(id: NpcId) -> (r: Self) {
        Npc { id, name: String::new() }
    }
}

/// A quest, with the editor's working copy of its script source.
#[derive(Debug)]
pub struct Quest {
    pub id: QuestId,
    pub title: String,
    pub java_class: Option<String>,
}

impl CommonEntity<QuestId> for Quest {
    open spec fn spec_id(&self) -> QuestId {
        self.id
    }

    open spec fn spec_name(&self) -> Seq<char> {
        self.title@
    }

    fn id(&self) -> (r: QuestId) {
        self.id
    }

    fn name(&self) -> (r: String) {
        self.title.clone()
    }

    fn new(id: QuestId) -> (r: Self) {
        Quest { id, title: String::new(), java_class: None }
    }
}

/// One enchant step of a skill enchant route.
#[derive(Copy, Clone, Debug, PartialEq, Eq, Structural, Default)]
pub struct EnchantLevelInfo {
    pub level: u32,
}

/// One enchant route of a skill level.
#[derive(Debug)]
pub struct EnchantInfo {
    pub enchant_type: u32,
    pub enchant_levels: Vec<EnchantLevelInfo>,
}

/// A reference to a skill at a level, used by use conditions.
#[derive(Copy, Clone, Debug, PartialEq, Eq, Structural)]
pub struct PriorSkill {
    pub id: SkillId,
    pub level: u32,
}

/// The conditions under which a skill can be used.
#[derive(Debug)]
pub struct SkillUseCondition {
    pub weapon_types: Vec<u32>,
    pub caster_prior_skill: Vec<PriorSkill>,
    pub target_prior_skill: Vec<PriorSkill>,
}

/// One level of a skill, with the enchant routes available from it.
#[derive(Debug)]
pub struct SkillLevelInfo {
    pub level: u32,
    pub available_enchants: Vec<
        crate::backend::WindowParams<
            EnchantInfo,
            (),
            crate::backend::skill::SkillEnchantAction,
            crate::backend::skill::SkillEnchantEditWindowParams,
        >,
    >,
}

/// A skill: its levels and, optionally, its use condition, each level
/// carrying its enchant routes.
#[derive(Debug)]
pub struct Skill {
    pub id: SkillId,
    pub name: String,
    pub skill_levels: Vec<SkillLevelInfo>,
    pub use_condition: Option<
        crate::backend::WindowParams<
            SkillUseCondition,
            (),
            crate::backend::skill::SkillUceConditionAction,
            (),
        >,
    >,
}

/// Whether two enchant routes carry the same data.
pub open spec fn enchant_info_equiv(a: &EnchantInfo, b: &EnchantInfo) -> bool {
    &&& a.enchant_type == b.enchant_type
    &&& a.enchant_levels@ == b.enchant_levels@
}

/// Whether two skill levels carry the same data; window bookkeeping
/// around the enchant routes is not compared.
pub open spec fn skill_level_equiv(a: &SkillLevelInfo, b: &SkillLevelInfo) -> bool {
    &&& a.level == b.level
    &&& a.available_enchants@.len() == b.available_enchants@.len()
    &&& forall|i: int|
        0 <= i < a.available_enchants@.len() ==> enchant_info_equiv(
            &(#[trigger] a.available_enchants@[i]).inner,
            &b.available_enchants@[i].inner,
        )
}

/// Whether two use conditions carry the same data.
pub open spec fn use_condition_equiv(a: &SkillUseCondition, b: &SkillUseCondition) -> bool {
    &&& a.weapon_types@ == b.weapon_types@
    &&& a.caster_prior_skill@ == b.caster_prior_skill@
    &&& a.target_prior_skill@ == b.target_prior_skill@
}

fn enchant_levels_eq(a: &Vec<EnchantLevelInfo>, b: &Vec<EnchantLevelInfo>) -> (r: bool)
    ensures
        r == (a@ == b@),
{
    if a.len() != b.len() {
        proof {
            assert(a@ != b@);
        }
        return false;
    }
    let n = a.len();
    let mut i: usize = 0;
    while i < n
        invariant
            i <= n,
            n == a@.len(),
            a@.len() == b@.len(),
            forall|q: int| 0 <= q < i ==> a@[q] == b@[q],
        decreases n - i,
    {
        if a[i] != b[i] {
            return false;
        }
        i = i + 1;
    }
    proof {
        assert(a@ =~= b@);
    }
    true
}

fn vec_u32_eq(a: &Vec<u32>, b: &Vec<u32>) -> (r: bool)
    ensures
        r == (a@ == b@),
{
    if a.len() != b.len() {
        proof {
            assert(a@ != b@);
        }
        return false;
    }
    let n = a.len();
    let mut i: usize = 0;
    while i < n
        invariant
            i <= n,
            n == a@.len(),
            a@.len() == b@.len(),
            forall|q: int| 0 <= q < i ==> a@[q] == b@[q],
        decreases n - i,
    {
        if a[i] != b[i] {
            return false;
        }
        i = i + 1;
    }
    proof {
        assert(a@ =~= b@);
    }
    true
}

fn prior_skills_eq(a: &Vec<PriorSkill>, b: &Vec<PriorSkill>) -> (r: bool)
    ensures
        r == (a@ == b@),
{
    if a.len() != b.len() {
        proof {
            assert(a@ != b@);
        }
        return false;
    }
    let n = a.len();
    let mut i: usize = 0;
    while i < n
        invariant
            i <= n,
            n == a@.len(),
            a@.len() == b@.len(),
            forall|q: int| 0 <= q < i ==> a@[q] == b@[q],
        decreases n - i,
    {
        if a[i] != b[i] {
            return false;
        }
        i = i + 1;
    }
    proof {
        assert(a@ =~= b@);
    }
    true
}

impl Skill {
    /// Whether two skills carry the same data: key, name, levels with
    /// their enchant routes, and use condition. Window bookkeeping is
    /// not compared.
    pub open spec fn equiv(&self, o: &Skill) -> bool {
        &&& self.id == o.id
        &&& self.name@ == o.name@
        &&& self.skill_levels@.len() == o.skill_levels@.len()
        &&& forall|i: int|
            0 <= i < self.skill_levels@.len() ==> skill_level_equiv(
                &(#[trigger] self.skill_levels@[i]),
                &o.skill_levels@[i],
            )
        &&& match (&self.use_condition, &o.use_condition) {
            (Some(a), Some(b)) => use_condition_equiv(&a.inner, &b.inner),
            (None, None) => true,
            _ => false,
        }
    }

    /// Decides `equiv`: the equality check a caller performs before
    /// `insert`, so that saving an untouched skill does not dirty its
    /// table.
    #[verifier::loop_isolation(false)]
    pub fn same_as(&self, o: &Skill) -> (r: bool)
        ensures
            r == self.equiv(o),
    {
        if !self.id.key_eq(&o.id) {
            return false;
        }
        if !(self.name == o.name) {
            return false;
        }
        if self.skill_levels.len() != o.skill_levels.len() {
            return false;
        }
        let n = self.skill_levels.len();
        let mut i: usize = 0;
        while i < n
            invariant
                i <= n,
                n == self.skill_levels@.len(),
                self.skill_levels@.len() == o.skill_levels@.len(),
                forall|q: int|
                    0 <= q < i ==> skill_level_equiv(
                        &(#[trigger] self.skill_levels@[q]),
                        &o.skill_levels@[q],
                    ),
            decreases n - i,
        {
            let a = &self.skill_levels[i];
            let b = &o.skill_levels[i];
            if a.level != b.level {
                proof {
                    assert(!skill_level_equiv(
                        &self.skill_levels@[i as int],
                        &o.skill_levels@[i as int],
                    ));
                }
                return false;
            }
            if a.available_enchants.len() != b.available_enchants.len() {
                proof {
                    assert(!skill_level_equiv(
                        &self.skill_levels@[i as int],
                        &o.skill_levels@[i as int],
                    ));
                }
                return false;
            }
            let m = a.available_enchants.len();
            let mut j: usize = 0;
            while j < m
                invariant
                    j <= m,
                    m == a.available_enchants@.len(),
                    a.available_enchants@.len() == b.available_enchants@.len(),
                    forall|q: int|
                        0 <= q < j ==> enchant_info_equiv(
                            &(#[trigger] a.available_enchants@[q]).inner,
                            &b.available_enchants@[q].inner,
                        ),
                decreases m - j,
            {
                let ea = &a.available_enchants[j].inner;
                let eb = &b.available_enchants[j].inner;
                if ea.enchant_type != eb.enchant_type {
                    proof {
                        assert(!enchant_info_equiv(
                            &a.available_enchants@[j as int].inner,
                            &b.available_enchants@[j as int].inner,
                        ));
                        assert(!skill_level_equiv(
                            &self.skill_levels@[i as int],
                            &o.skill_levels@[i as int],
                        ));
                    }
                    return false;
                }
                if !enchant_levels_eq(&ea.enchant_levels, &eb.enchant_levels) {
                    proof {
                        assert(!enchant_info_equiv(
                            &a.available_enchants@[j as int].inner,
                            &b.available_enchants@[j as int].inner,
                        ));
                        assert(!skill_level_equiv(
                            &self.skill_levels@[i as int],
                            &o.skill_levels@[i as int],
                        ));
                    }
                    return false;
                }
                j = j + 1;
            }
            i = i + 1;
        }
        match (&self.use_condition, &o.use_condition) {
            (Some(a), Some(b)) => {
                if !vec_u32_eq(&a.inner.weapon_types, &b.inner.weapon_types) {
                    return false;
                }
                if !prior_skills_eq(&a.inner.caster_prior_skill, &b.inner.caster_prior_skill) {
                    return false;
                }
                if !prior_skills_eq(&a.inner.target_prior_skill, &b.inner.target_prior_skill) {
                    return false;
                }
                true
            },
            (None, None) => true,
            _ => false,
        }
    }
}

impl CommonEntity<SkillId> for Skill {
    open spec fn spec_id(&self) -> SkillId {
        self.id
    }

    open spec fn spec_name(&self) -> Seq<char> {
        self.name@
    }

    fn id(&self) -> (r: SkillId) {
        self.id
    }

    fn name(&self) -> (r: String) {
        self.name.clone()
    }

    fn new(id: SkillId) -> (r: Self) {
        Skill { id, name: String::new(), skill_levels: Vec::new(), use_condition: None }
    }
}

} // verus!

verus! {

/// The extra data of an item shown in its own sub-window.
#[derive(Debug)]
pub struct ItemAdditionalInfo {
    pub include_items: Vec<ItemId>,
}

/// The drop visuals of an item shown in its own sub-window.
#[derive(Debug)]
pub struct ItemDropInfo {
    pub drop_mesh_info: Vec<String>,
}

/// What every concrete item kind shares.
#[derive(Debug)]
pub struct ItemBaseInfo {
    pub id: ItemId,
    pub name: String,
    pub additional_name: String,
    pub additional_info: crate::backend::WindowParams<
        ItemAdditionalInfo,
        (),
        crate::backend::armor::ItemAdditionalInfoAction,
        (),
    >,
    pub drop_info: crate::backend::WindowParams<
        ItemDropInfo,
        (),
        crate::backend::armor::ItemDropInfoAction,
        (),
    >,
}

impl ItemBaseInfo {
    /// A fresh, empty base for a new item.
    pub fn empty(id: ItemId) -> (r: Self)
        ensures
            r.id == id,
            r.name@.len() == 0,
            r.additional_name@.len() == 0,
    {
        ItemBaseInfo {
            id,
            name: String::new(),
            additional_name: String::new(),
            additional_info: crate::backend::WindowParams {
                inner: ItemAdditionalInfo { include_items: Vec::new() },
                opened: false,
                initial_id: (),
                action: crate::backend::armor::ItemAdditionalInfoAction::Nothing,
                params: (),
            },
            drop_info: crate::backend::WindowParams {
                inner: ItemDropInfo { drop_mesh_info: Vec::new() },
                opened: false,
                initial_id: (),
                action: crate::backend::armor::ItemDropInfoAction::Nothing,
                params: (),
            },
        }
    }
}

/// A weapon item.
#[derive(Debug)]
pub struct Weapon {
    pub base_info: ItemBaseInfo,
}

impl CommonEntity<ItemId> for Weapon {
    open spec fn spec_id(&self) -> ItemId {
        self.base_info.id
    }

    open spec fn spec_name(&self) -> Seq<char> {
        self.base_info.name@
    }

    fn id(&self) -> (r: ItemId) {
        self.base_info.id
    }

    fn name(&self) -> (r: String) {
        self.base_info.name.clone()
    }

    fn new(id: ItemId) -> (r: Self) {
        Weapon { base_info: ItemBaseInfo::empty(id) }
    }
}

/// An armor item, with the sound set the editor can trim.
#[derive(Debug)]
pub struct Armor {
    pub base_info: ItemBaseInfo,
    pub item_sound: Vec<String>,
}

impl CommonEntity<ItemId> for Armor {
    open spec fn spec_id(&self) -> ItemId {
        self.base_info.id
    }

    open spec fn spec_name(&self) -> Seq<char> {
        self.base_info.name@
    }

    fn id(&self) -> (r: ItemId) {
        self.base_info.id
    }

    fn name(&self) -> (r: String) {
        self.base_info.name.clone()
    }

    fn new(id: ItemId) -> (r: Self) {
        Armor { base_info: ItemBaseInfo::empty(id), item_sound: Vec::new() }
    }
}

/// Whether two item bases carry the same data; window bookkeeping is not
/// compared.
pub open spec fn item_base_equiv(a: &ItemBaseInfo, b: &ItemBaseInfo) -> bool {
    &&& a.id == b.id
    &&& a.name@ == b.name@
    &&& a.additional_name@ == b.additional_name@
    &&& a.additional_info.inner.include_items@ == b.additional_info.inner.include_items@
    &&& a.drop_info.inner.drop_mesh_info@.len() == b.drop_info.inner.drop_mesh_info@.len()
    &&& forall|i: int|
        0 <= i < a.drop_info.inner.drop_mesh_info@.len() ==> (
        #[trigger] a.drop_info.inner.drop_mesh_info@[i])@ == b.drop_info.inner.drop_mesh_info@[i]@
}

fn item_ids_eq(a: &Vec<ItemId>, b: &Vec<ItemId>) -> (r: bool)
    ensures
        r == (a@ == b@),
{
    if a.len() != b.len() {
        proof {
            assert(a@ != b@);
        }
        return false;
    }
    let n = a.len();
    let mut i: usize = 0;
    while i < n
        invariant
            i <= n,
            n == a@.len(),
            a@.len() == b@.len(),
            forall|q: int| 0 <= q < i ==> a@[q] == b@[q],
        decreases n - i,
    {
        if !a[i].key_eq(&b[i]) {
            return false;
        }
        i = i + 1;
    }
    proof {
        assert(a@ =~= b@);
    }
    true
}

fn string_views_eq(a: &Vec<String>, b: &Vec<String>) -> (r: bool)
    ensures
        r == (a@.len() == b@.len() && (forall|i: int|
            0 <= i < a@.len() ==> (#[trigger] a@[i])@ == b@[i]@)),
{
    if a.len() != b.len() {
        return false;
    }
    let n = a.len();
    let mut i: usize = 0;
    while i < n
        invariant
            i <= n,
            n == a@.len(),
            a@.len() == b@.len(),
            forall|q: int| 0 <= q < i ==> (#[trigger] a@[q])@ == b@[q]@,
        decreases n - i,
    {
        if !(a[i] == b[i]) {
            return false;
        }
        i = i + 1;
    }
    true
}

fn item_base_same(a: &ItemBaseInfo, b: &ItemBaseInfo) -> (r: bool)
    ensures
        r == item_base_equiv(a, b),
{
    if !a.id.key_eq(&b.id) {
        return false;
    }
    if !(a.name == b.name) {
        return false;
    }
    if !(a.additional_name == b.additional_name) {
        return false;
    }
    if !item_ids_eq(&a.additional_info.inner.include_items, &b.additional_info.inner.include_items)
        {
        return false;
    }
    string_views_eq(&a.drop_info.inner.drop_mesh_info, &b.drop_info.inner.drop_mesh_info)
}

impl Armor {
    /// Whether two armor pieces carry the same data.
    pub open spec fn equiv(&self, o: &Armor) -> bool {
        &&& item_base_equiv(&self.base_info, &o.base_info)
        &&& self.item_sound@.len() == o.item_sound@.len()
        &&& forall|i: int|
            0 <= i < self.item_sound@.len() ==> (#[trigger] self.item_sound@[i])@
                == o.item_sound@[i]@
    }

    /// Decides `equiv`: the equality check a caller performs before
    /// `insert`, so that saving an untouched armor piece does not dirty
    /// its table.
    pub fn same_as(&self, o: &Armor) -> (r: bool)
        ensures
            r == self.equiv(o),
    {
        if !item_base_same(&self.base_info, &o.base_info) {
            return false;
        }
        string_views_eq(&self.item_sound, &o.item_sound)
    }
}

/// An item of no special kind.
#[derive(Debug)]
pub struct EtcItem {
    pub base_info: ItemBaseInfo,
}

impl CommonEntity<ItemId> for EtcItem {
    open spec fn spec_id(&self) -> ItemId {
        self.base_info.id
    }

    open spec fn spec_name(&self) -> Seq<char> {
        self.base_info.name@
    }

    fn id(&self) -> (r: ItemId) {
        self.base_info.id
    }

    fn name(&self) -> (r: String) {
        self.base_info.name.clone()
    }

    fn new(id: ItemId) -> (r: Self) {
        EtcItem { base_info: ItemBaseInfo::empty(id) }
    }
}

/// The common face of any item, as the derived all-items index holds it.
#[derive(Clone, Debug)]
pub struct Item {
    pub id: ItemId,
    pub name: String,
    pub additional_name: String,
}

impl Weapon {
    /// This weapon's row in the derived all-items index.
    pub fn to_item(&self) -> (r: Item)
        ensures
            r.id == self.base_info.id,
            r.name@ == self.base_info.name@,
            r.additional_name@ == self.base_info.additional_name@,
    {
        Item {
            id: self.base_info.id,
            name: self.base_info.name.clone(),
            additional_name: self.base_info.additional_name.clone(),
        }
    }
}

impl Armor {
    /// This armor piece's row in the derived all-items index.
    pub fn to_item(&self) -> (r: Item)
        ensures
            r.id == self.base_info.id,
            r.name@ == self.base_info.name@,
            r.additional_name@ == self.base_info.additional_name@,
    {
        Item {
            id: self.base_info.id,
            name: self.base_info.name.clone(),
            additional_name: self.base_info.additional_name.clone(),
        }
    }
}

impl EtcItem {
    /// This item's row in the derived all-items index.
    pub fn to_item(&self) -> (r: Item)
        ensures
            r.id == self.base_info.id,
            r.name@ == self.base_info.name@,
            r.additional_name@ == self.base_info.additional_name@,
    {
        Item {
            id: self.base_info.id,
            name: self.base_info.name.clone(),
            additional_name: self.base_info.additional_name.clone(),
        }
    }
}

/// One ingredient of a recipe.
#[derive(Copy, Clone, Debug, PartialEq, Eq, Structural)]
pub struct RecipeMaterial {
    pub id: ItemId,
    pub count: u32,
}

/// A crafting recipe: what it makes, from what, out of which
/// ingredients.
#[derive(Debug)]
pub struct Recipe {
    pub id: RecipeId,
    pub name: String,
    pub recipe_item: ItemId,
    pub product: ItemId,
    pub materials: Vec<RecipeMaterial>,
}

impl Recipe {
    /// Whether two recipes carry the same data.
    pub open spec fn equiv(&self, o: &Recipe) -> bool {
        &&& self.id == o.id
        &&& self.name@ == o.name@
        &&& self.recipe_item == o.recipe_item
        &&& self.product == o.product
        &&& self.materials@ == o.materials@
    }

    /// Decides `equiv`: the equality check a caller performs before
    /// `insert`, so that saving an untouched recipe does not dirty its
    /// table.
    #[verifier::loop_isolation(false)]
    pub fn same_as(&self, o: &Recipe) -> (r: bool)
        ensures
            r == self.equiv(o),
    {
        if !self.id.key_eq(&o.id) {
            return false;
        }
        if !(self.name == o.name) {
            return false;
        }
        if !self.recipe_item.key_eq(&o.recipe_item) {
            return false;
        }
        if !self.product.key_eq(&o.product) {
            return false;
        }
        let a = &self.materials;
        let b = &o.materials;
        if a.len() != b.len() {
            proof {
                assert(a@ != b@);
            }
            return false;
        }
        let n = a.len();
        let mut i: usize = 0;
        while i < n
            invariant
                i <= n,
                n == a@.len(),
                a@.len() == b@.len(),
                forall|q: int| 0 <= q < i ==> a@[q] == b@[q],
            decreases n - i,
        {
            if a[i] != b[i] {
                return false;
            }
            i = i + 1;
        }
        proof {
            assert(a@ =~= b@);
        }
        true
    }
}

impl CommonEntity<RecipeId> for Recipe {
    open spec fn spec_id(&self) -> RecipeId {
        self.id
    }

    open spec fn spec_name(&self) -> Seq<char> {
        self.name@
    }

    fn id(&self) -> (r: RecipeId) {
        self.id
    }

    fn name(&self) -> (r: String) {
        self.name.clone()
    }

    fn new(id: RecipeId) -> (r: Self) {
        Recipe {
            id,
            name: String::new(),
            recipe_item: ItemId(0),
            product: ItemId(0),
            materials: Vec::new(),
        }
    }
}

/// A hunting zone, as the editor lists it.
#[derive(Clone, Debug)]
pub struct HuntingZone {
    pub id: HuntingZoneId,
    pub name: String,
    pub desc: String,
    pub _search_zone_id: SearchZoneId,
    pub _instant_zone_id: InstantZoneId,
}

/// One enchant bonus of an item set.
#[derive(Clone, Debug)]
pub struct ItemSetEnchantInfo {
    pub enchant_level: u32,
    pub enchant_description: String,
}

/// A set of items with per-piece and full-set bonuses.
#[derive(Clone, Debug)]
pub struct ItemSet {
    pub id: ItemSetId,
    pub base_items: Vec<Vec<ItemId>>,
    pub base_descriptions: Vec<String>,
    pub additional_items: Vec<Vec<ItemId>>,
    pub additional_descriptions: Vec<String>,
    pub unk1: u32,
    pub unk2: u32,
    pub enchant_info: Vec<ItemSetEnchantInfo>,
}

/// The rendered description of an item set from position `i` on: each
/// base description on its own numbered line.
pub open spec fn item_set_desc_from(ds: Seq<Seq<char>>, i: int) -> Seq<char>
    decreases ds.len() - i,
{
    if i < 0 || i >= ds.len() {
        Seq::empty()
    } else {
        dec_digits((i + 1) as nat) + ": "@ + ds[i] + "\n"@ + item_set_desc_from(ds, i + 1)
    }
}

impl CommonEntity<ItemSetId> for ItemSet {
    open spec fn spec_id(&self) -> ItemSetId {
        self.id
    }

    open spec fn spec_name(&self) -> Seq<char> {
        dec_digits(self.id.0 as nat)
    }

    fn id(&self) -> (r: ItemSetId) {
        self.id
    }

    fn name(&self) -> (r: String) {
        u32_to_decimal(self.id.0)
    }

    fn new(id: ItemSetId) -> (r: Self) {
        ItemSet {
            id,
            base_items: Vec::new(),
            base_descriptions: Vec::new(),
            additional_items: Vec::new(),
            additional_descriptions: Vec::new(),
            unk1: 0,
            unk2: 0,
            enchant_info: Vec::new(),
        }
    }
}

impl ItemSet {
    /// The set's description: each base description on its own line,
    /// numbered from one.
    #[verifier::loop_isolation(false)]
    pub fn desc(&self) -> (r: String)
        requires
            self.base_descriptions@.len() < u32::MAX,
        ensures
            r@ == item_set_desc_from(
                self.base_descriptions@.map_values(|s: String| s@),
                0,
            ),
    {
        let ghost ds = self.base_descriptions@.map_values(|s: String| s@);
        let mut r = String::new();
        let n = self.base_descriptions.len();
        let mut i: usize = 0;
        while i < n
            invariant
                i <= n,
                n == ds.len(),
                item_set_desc_from(ds, 0) == r@ + item_set_desc_from(ds, i as int),
            decreases n - i,
        {
            let ghost r0 = r@;
            let num = u32_to_decimal((i as u32) + 1);
            r.append(num.as_str());
            r.append(": ");
            r.append(self.base_descriptions[i].as_str());
            r.append("\n");
            proof {
                assert(r@ =~= r0 + (dec_digits((i + 1) as nat) + ": "@ + ds[i as int] + "\n"@));
                assert(item_set_desc_from(ds, i as int) == dec_digits((i + 1) as nat) + ": "@
                    + ds[i as int] + "\n"@ + item_set_desc_from(ds, i as int + 1));
                assert(r0 + (dec_digits((i + 1) as nat) + ": "@ + ds[i as int] + "\n"@)
                    + item_set_desc_from(ds, i as int + 1) =~= r0 + (dec_digits((i + 1) as nat)
                    + ": "@ + ds[i as int] + "\n"@ + item_set_desc_from(ds, i as int + 1)));
            }
            i = i + 1;
        }
        proof {
            assert(item_set_desc_from(ds, n as int) == Seq::<char>::empty());
            assert(r@ + Seq::<char>::empty() =~= r@);
        }
        r
    }
}

} // verus!

verus! {

fn copy_item_ids(v: &Vec<ItemId>) -> (r: Vec<ItemId>)
    ensures
        r@ == v@,
{
    let mut r: Vec<ItemId> = Vec::new();
    let n = v.len();
    let mut i: usize = 0;
    while i < n
        invariant
            i <= n,
            n == v@.len(),
            r@ == v@.take(i as int),
        decreases n - i,
    {
        r.push(v[i]);
        proof {
            assert(r@ =~= v@.take(i as int + 1));
        }
        i = i + 1;
    }
    proof {
        assert(v@.take(n as int) =~= v@);
    }
    r
}

fn copy_strings(v: &Vec<String>) -> (r: Vec<String>)
    ensures
        r@ == v@,
{
    let mut r: Vec<String> = Vec::new();
    let n = v.len();
    let mut i: usize = 0;
    while i < n
        invariant
            i <= n,
            n == v@.len(),
            r@ == v@.take(i as int),
        decreases n - i,
    {
        r.push(v[i].clone());
        proof {
            assert(r@ =~= v@.take(i as int + 1));
        }
        i = i + 1;
    }
    proof {
        assert(v@.take(n as int) =~= v@);
    }
    r
}

impl Clone for Npc {
    /// A working copy with the same key and name.
    fn clone(&self) -> (r: Self)
        ensures
            r.id == self.id,
            r.name@ == self.name@,
    {
        Npc { id: self.id, name: self.name.clone() }
    }
}

impl Clone for Quest {
    /// A working copy with the same key, title and script source.
    fn clone(&self) -> (r: Self)
        ensures
            r.id == self.id,
            r.title@ == self.title@,
            match (&r.java_class, &self.java_class) {
                (Some(a), Some(b)) => a@ == b@,
                (None, None) => true,
                _ => false,
            },
    {
        Quest {
            id: self.id,
            title: self.title.clone(),
            java_class: match &self.java_class {
                Some(c) => Some(c.clone()),
                None => None,
            },
        }
    }
}

pub(crate) fn clone_enchant_info_pub(e: &EnchantInfo) -> (r: EnchantInfo)
    ensures
        enchant_info_equiv(&r, e),
{
    let mut levels: Vec<EnchantLevelInfo> = Vec::new();
    let n = e.enchant_levels.len();
    let mut i: usize = 0;
    while i < n
        invariant
            i <= n,
            n == e.enchant_levels@.len(),
            levels@ == e.enchant_levels@.take(i as int),
        decreases n - i,
    {
        levels.push(e.enchant_levels[i]);
        proof {
            assert(levels@ =~= e.enchant_levels@.take(i as int + 1));
        }
        i = i + 1;
    }
    proof {
        assert(e.enchant_levels@.take(n as int) =~= e.enchant_levels@);
    }
    EnchantInfo { enchant_type: e.enchant_type, enchant_levels: levels }
}

impl Clone for Skill {
    /// A working copy that `equiv` cannot tell from the original.
    fn clone(&self) -> (r: Self)
        ensures
            r.equiv(self),
    {
        let mut levels: Vec<
            SkillLevelInfo,
        > = Vec::new();
        let n = self.skill_levels.len();
        let mut i: usize = 0;
        while i < n
            invariant
                i <= n,
                n == self.skill_levels@.len(),
                levels@.len() == i,
                forall|q: int|
                    0 <= q < i ==> skill_level_equiv(
                        &(#[trigger] levels@[q]),
                        &self.skill_levels@[q],
                    ),
            decreases n - i,
        {
            let src = &self.skill_levels[i];
            let mut enchants: Vec<
                crate::backend::WindowParams<
                    EnchantInfo,
                    (),
                    crate::backend::skill::SkillEnchantAction,
                    crate::backend::skill::SkillEnchantEditWindowParams,
                >,
            > = Vec::new();
            let m = src.available_enchants.len();
            let mut j: usize = 0;
            while j < m
                invariant
                    j <= m,
                    m == src.available_enchants@.len(),
                    enchants@.len() == j,
                    forall|q: int|
                        0 <= q < j ==> enchant_info_equiv(
                            &(#[trigger] enchants@[q]).inner,
                            &src.available_enchants@[q].inner,
                        ),
                decreases m - j,
            {
                let w = &src.available_enchants[j];
                enchants.push(
                    crate::backend::WindowParams {
                        inner: clone_enchant_info_pub(&w.inner),
                        opened: w.opened,
                        initial_id: (),
                        action: w.action,
                        params: w.params,
                    },
                );
                j = j + 1;
            }
            levels.push(SkillLevelInfo { level: src.level, available_enchants: enchants });
            i = i + 1;
        }
        let use_condition = match &self.use_condition {
            Some(w) => Some(
                crate::backend::WindowParams {
                    inner: SkillUseCondition {
                        weapon_types: {
                            let mut ws: Vec<u32> = Vec::new();
                            let wn = w.inner.weapon_types.len();
                            let mut k: usize = 0;
                            while k < wn
                                invariant
                                    k <= wn,
                                    wn == w.inner.weapon_types@.len(),
                                    ws@ == w.inner.weapon_types@.take(k as int),
                                decreases wn - k,
                            {
                                ws.push(w.inner.weapon_types[k]);
                                proof {
                                    assert(ws@ =~= w.inner.weapon_types@.take(k as int + 1));
                                }
                                k = k + 1;
                            }
                            proof {
                                assert(w.inner.weapon_types@.take(wn as int)
                                    =~= w.inner.weapon_types@);
                            }
                            ws
                        },
                        caster_prior_skill: {
                            let mut ps: Vec<PriorSkill> = Vec::new();
                            let pn = w.inner.caster_prior_skill.len();
                            let mut k: usize = 0;
                            while k < pn
                                invariant
                                    k <= pn,
                                    pn == w.inner.caster_prior_skill@.len(),
                                    ps@ == w.inner.caster_prior_skill@.take(k as int),
                                decreases pn - k,
                            {
                                ps.push(w.inner.caster_prior_skill[k]);
                                proof {
                                    assert(ps@ =~= w.inner.caster_prior_skill@.take(k as int + 1));
                                }
                                k = k + 1;
                            }
                            proof {
                                assert(w.inner.caster_prior_skill@.take(pn as int)
                                    =~= w.inner.caster_prior_skill@);
                            }
                            ps
                        },
                        target_prior_skill: {
                            let mut ps: Vec<PriorSkill> = Vec::new();
                            let pn = w.inner.target_prior_skill.len();
                            let mut k: usize = 0;
                            while k < pn
                                invariant
                                    k <= pn,
                                    pn == w.inner.target_prior_skill@.len(),
                                    ps@ == w.inner.target_prior_skill@.take(k as int),
                                decreases pn - k,
                            {
                                ps.push(w.inner.target_prior_skill[k]);
                                proof {
                                    assert(ps@ =~= w.inner.target_prior_skill@.take(k as int + 1));
                                }
                                k = k + 1;
                            }
                            proof {
                                assert(w.inner.target_prior_skill@.take(pn as int)
                                    =~= w.inner.target_prior_skill@);
                            }
                            ps
                        },
                    },
                    opened: w.opened,
                    initial_id: (),
                    action: w.action,
                    params: (),
                },
            ),
            None => None,
        };
        Skill { id: self.id, name: self.name.clone(), skill_levels: levels, use_condition }
    }
}

fn clone_base_info(b: &ItemBaseInfo) -> (r: ItemBaseInfo)
    ensures
        item_base_equiv(&r, b),
{
    ItemBaseInfo {
        id: b.id,
        name: b.name.clone(),
        additional_name: b.additional_name.clone(),
        additional_info: crate::backend::WindowParams {
            inner: ItemAdditionalInfo {
                include_items: copy_item_ids(&b.additional_info.inner.include_items),
            },
            opened: b.additional_info.opened,
            initial_id: (),
            action: b.additional_info.action,
            params: (),
        },
        drop_info: crate::backend::WindowParams {
            inner: ItemDropInfo { drop_mesh_info: copy_strings(&b.drop_info.inner.drop_mesh_info) },
            opened: b.drop_info.opened,
            initial_id: (),
            action: b.drop_info.action,
            params: (),
        },
    }
}

impl Clone for Weapon {
    /// A working copy whose item base carries the same data.
    fn clone(&self) -> (r: Self)
        ensures
            item_base_equiv(&r.base_info, &self.base_info),
    {
        Weapon { base_info: clone_base_info(&self.base_info) }
    }
}

impl Clone for Armor {
    /// A working copy that `equiv` cannot tell from the original.
    fn clone(&self) -> (r: Self)
        ensures
            r.equiv(self),
    {
        Armor {
            base_info: clone_base_info(&self.base_info),
            item_sound: copy_strings(&self.item_sound),
        }
    }
}

impl Clone for EtcItem {
    /// A working copy whose item base carries the same data.
    fn clone(&self) -> (r: Self)
        ensures
            item_base_equiv(&r.base_info, &self.base_info),
    {
        EtcItem { base_info: clone_base_info(&self.base_info) }
    }
}

impl Clone for Recipe {
    /// A working copy with the same key, name and ingredients.
    fn clone(&self) -> (r: Self)
        ensures
            r.equiv(self),
    {
        let mut ms: Vec<RecipeMaterial> = Vec::new();
        let n = self.materials.len();
        let mut i: usize = 0;
        while i < n
            invariant
                i <= n,
                n == self.materials@.len(),
                ms@ == self.materials@.take(i as int),
            decreases n - i,
        {
            ms.push(self.materials[i]);
            proof {
                assert(ms@ =~= self.materials@.take(i as int + 1));
            }
            i = i + 1;
        }
        proof {
            assert(self.materials@.take(n as int) =~= self.materials@);
        }
        Recipe {
            id: self.id,
            name: self.name.clone(),
            recipe_item: self.recipe_item,
            product: self.product,
            materials: ms,
        }
    }
}

} // verus!

verus! {

/// A working copy of one skill level: same level number, same enchant
/// routes.
pub(crate) fn clone_skill_level(src: &SkillLevelInfo) -> (r: SkillLevelInfo)
    ensures
        skill_level_equiv(&r, src),
{
    let mut enchants: Vec<
        crate::backend::WindowParams<
            EnchantInfo,
            (),
            crate::backend::skill::SkillEnchantAction,
            crate::backend::skill::SkillEnchantEditWindowParams,
        >,
    > = Vec::new();
    let m = src.available_enchants.len();
    let mut j: usize = 0;
    while j < m
        invariant
            j <= m,
            m == src.available_enchants@.len(),
            enchants@.len() == j,
            forall|q: int|
                0 <= q < j ==> enchant_info_equiv(
                    &(#[trigger] enchants@[q]).inner,
                    &src.available_enchants@[q].inner,
                ),
        decreases m - j,
    {
        let w = &src.available_enchants[j];
        enchants.push(
            crate::backend::WindowParams {
                inner: clone_enchant_info_pub(&w.inner),
                opened: w.opened,
                initial_id: (),
                action: w.action,
                params: w.params,
            },
        );
        j = j + 1;
    }
    SkillLevelInfo { level: src.level, available_enchants: enchants }
}

} // verus!
