use vstd::prelude::*;
use crate::codec::le16;
use crate::codec::le16_val;
use crate::codec::le32;
use crate::codec::le32_val;
use crate::codec::lemma_le16_val_of_le16;
use crate::codec::lemma_le32_val_of_le32;
use crate::codec::lemma_le16_of_le16_val;
use crate::codec::lemma_le32_of_le32_val;

verus! {

/// The width of the count that prefixes a repeated field on the wire.
#[derive(Clone, Copy, Debug, PartialEq, Eq, Structural)]
pub enum CountWidth {
    Word,
    Dword,
}

/// One field of a record schema. The wire shape of every tag is fixed:
/// `Word` is a 2-byte little-endian integer; `Dword`, `Float` (an IEEE-754
/// bit pattern, carried opaquely) and `StrRef` (an index into the string
/// table) are 4-byte little-endian integers; `Ascf` is a 4-byte length
/// prefix followed by that many text bytes; `Str` (the file-table string
/// variant) is a 2-byte length prefix followed by that many bytes; `Floc`
/// is three consecutive 4-byte float bit patterns; `Vector` is a count in
/// the declared width followed by that many elements; `Nested` is the
/// fields of a sub-record in order, with no framing of its own.
#[derive(Debug, PartialEq, Eq)]
pub enum FieldType {
    Word,
    Dword,
    Float,
    StrRef,
    Ascf,
    Str,
    Floc,
    Vector(CountWidth, Box<FieldType>),
    Nested(Vec<FieldType>),
}

/// A decoded field value. `Float` and `Floc` hold IEEE-754 bit patterns;
/// the codec never interprets them.
#[derive(Debug, PartialEq, Eq)]
pub enum FieldValue {
    Word(u16),
    Dword(u32),
    Float(u32),
    StrRef(u32),
    Ascf(Vec<u8>),
    Str(Vec<u8>),
    Floc(u32, u32, u32),
    Vector(Vec<FieldValue>),
    Nested(Vec<FieldValue>),
}

/// The mathematical model of a field value: byte payloads are sequences,
/// repeated and nested values are sequences of models.
pub enum AbsValue {
    Word(u16),
    Dword(u32),
    Float(u32),
    StrRef(u32),
    Ascf(Seq<u8>),
    Str(Seq<u8>),
    Floc(u32, u32, u32),
    Vector(Seq<AbsValue>),
    Nested(Seq<AbsValue>),
}

/// The models of the elements of `s`, in order.
pub open spec fn views_of(s: Seq<FieldValue>) -> Seq<AbsValue>
    decreases s,
{
    if s.len() == 0 {
        Seq::empty()
    } else {
        seq![s[0]@] + views_of(s.drop_first())
    }
}

impl View for FieldValue {
    type V = AbsValue;

    open spec fn view(&self) -> AbsValue
        decreases self,
    {
        match self {
            FieldValue::Word(x) => AbsValue::Word(*x),
            FieldValue::Dword(x) => AbsValue::Dword(*x),
            FieldValue::Float(x) => AbsValue::Float(*x),
            FieldValue::StrRef(x) => AbsValue::StrRef(*x),
            FieldValue::Ascf(b) => AbsValue::Ascf(b@),
            FieldValue::Str(b) => AbsValue::Str(b@),
            FieldValue::Floc(x, y, z) => AbsValue::Floc(*x, *y, *z),
            FieldValue::Vector(vs) => AbsValue::Vector(views_of(vs@)),
            FieldValue::Nested(vs) => AbsValue::Nested(views_of(vs@)),
        }
    }
}

pub proof fn lemma_views_of_len(s: Seq<FieldValue>)
    ensures
        views_of(s).len() == s.len(),
    decreases s,
{
    if s.len() > 0 {
        lemma_views_of_len(s.drop_first());
        assert(views_of(s) == seq![s[0]@] + views_of(s.drop_first()));
    } else {
        assert(views_of(s).len() == 0);
    }
}

pub proof fn lemma_views_of_index(s: Seq<FieldValue>, i: int)
    requires
        0 <= i < s.len(),
    ensures
        views_of(s).len() == s.len(),
        views_of(s)[i] == s[i]@,
    decreases s,
{
    lemma_views_of_len(s);
    if i == 0 {
        assert(views_of(s)[0] == s[0]@);
    } else {
        lemma_views_of_index(s.drop_first(), i - 1);
        assert(views_of(s) == seq![s[0]@] + views_of(s.drop_first()));
        assert(views_of(s)[i] == views_of(s.drop_first())[i - 1]);
        assert(s.drop_first()[i - 1] == s[i]);
    }
}

pub proof fn lemma_views_of_push(s: Seq<FieldValue>, x: FieldValue)
    ensures
        views_of(s.push(x)) == views_of(s).push(x@),
    decreases s,
{
    if s.len() == 0 {
        assert(s.push(x)[0] == x);
        assert(s.push(x).drop_first() =~= s);
        assert(views_of(s.push(x)) == seq![x@] + views_of(s));
        assert(views_of(s.push(x)) =~= views_of(s).push(x@));
    } else {
        assert(s.push(x).drop_first() =~= s.drop_first().push(x));
        lemma_views_of_push(s.drop_first(), x);
        assert(s.push(x)[0] == s[0]);
        assert(views_of(s.push(x)) == seq![s[0]@] + views_of(s.drop_first().push(x)));
        assert(views_of(s) == seq![s[0]@] + views_of(s.drop_first()));
        assert(views_of(s.push(x)) =~= views_of(s).push(x@));
    }
}

/// The largest count a repeated field of this width can carry.
pub open spec fn count_max(cw: CountWidth) -> nat {
    match cw {
        CountWidth::Word => 0xffff,
        CountWidth::Dword => 0xffffffff,
    }
}

/// The number of bytes the count itself occupies.
pub open spec fn count_len(cw: CountWidth) -> nat {
    match cw {
        CountWidth::Word => 2,
        CountWidth::Dword => 4,
    }
}

/// The wire bytes of a count of `n` in width `cw`.
pub open spec fn count_wire(cw: CountWidth, n: nat) -> Seq<u8> {
    match cw {
        CountWidth::Word => le16(n as u16),
        CountWidth::Dword => le32(n as u32),
    }
}

/// The count stored at the front of `s` in width `cw`.
pub open spec fn count_val(cw: CountWidth, s: Seq<u8>) -> nat {
    match cw {
        CountWidth::Word => le16_val(s[0], s[1]) as nat,
        CountWidth::Dword => le32_val(s[0], s[1], s[2], s[3]) as nat,
    }
}

/// Whether the value's shape matches the field type, ignoring size limits.
pub open spec fn shape_ok(t: FieldType, a: AbsValue) -> bool
    decreases t,
{
    match (t, a) {
        (FieldType::Word, AbsValue::Word(_)) => true,
        (FieldType::Dword, AbsValue::Dword(_)) => true,
        (FieldType::Float, AbsValue::Float(_)) => true,
        (FieldType::StrRef, AbsValue::StrRef(_)) => true,
        (FieldType::Ascf, AbsValue::Ascf(_)) => true,
        (FieldType::Str, AbsValue::Str(_)) => true,
        (FieldType::Floc, AbsValue::Floc(_, _, _)) => true,
        (FieldType::Vector(_, et), AbsValue::Vector(vs)) => forall|i: int|
            0 <= i < vs.len() ==> shape_ok(*et, #[trigger] vs[i]),
        (FieldType::Nested(ts), AbsValue::Nested(vs)) => {
            &&& vs.len() == ts@.len()
            &&& forall|i: int| 0 <= i < ts@.len() ==> shape_ok(ts@[i], #[trigger] vs[i])
        },
        _ => false,
    }
}

/// Whether the value matches the field type and every length and count in
/// it is representable in the width its prefix is stored in. Exactly the
/// valid values can be encoded.
pub open spec fn valid(t: FieldType, a: AbsValue) -> bool
    decreases t,
{
    match (t, a) {
        (FieldType::Word, AbsValue::Word(_)) => true,
        (FieldType::Dword, AbsValue::Dword(_)) => true,
        (FieldType::Float, AbsValue::Float(_)) => true,
        (FieldType::StrRef, AbsValue::StrRef(_)) => true,
        (FieldType::Ascf, AbsValue::Ascf(b)) => b.len() <= 0xffffffff,
        (FieldType::Str, AbsValue::Str(b)) => b.len() <= 0xffff,
        (FieldType::Floc, AbsValue::Floc(_, _, _)) => true,
        (FieldType::Vector(cw, et), AbsValue::Vector(vs)) => {
            &&& vs.len() <= count_max(cw)
            &&& forall|i: int| 0 <= i < vs.len() ==> valid(*et, #[trigger] vs[i])
        },
        (FieldType::Nested(ts), AbsValue::Nested(vs)) => {
            &&& vs.len() == ts@.len()
            &&& forall|i: int| 0 <= i < ts@.len() ==> valid(ts@[i], #[trigger] vs[i])
        },
        _ => false,
    }
}

/// Whether `vs` is a well-shaped record for the field list `ts`.
pub open spec fn fields_shape(ts: Seq<FieldType>, vs: Seq<AbsValue>) -> bool {
    &&& vs.len() == ts.len()
    &&& forall|i: int| 0 <= i < ts.len() ==> shape_ok(ts[i], #[trigger] vs[i])
}

/// Whether `vs` is an encodable record for the field list `ts`.
pub open spec fn fields_valid(ts: Seq<FieldType>, vs: Seq<AbsValue>) -> bool {
    &&& vs.len() == ts.len()
    &&& forall|i: int| 0 <= i < ts.len() ==> valid(ts[i], #[trigger] vs[i])
}

/// The wire bytes of a valid value of type `t`: field order and widths are
/// reproduced exactly, with no padding and no alignment.
pub open spec fn wire(t: FieldType, a: AbsValue) -> Seq<u8>
    decreases t, 0nat,
{
    match (t, a) {
        (FieldType::Word, AbsValue::Word(x)) => le16(x),
        (FieldType::Dword, AbsValue::Dword(x)) => le32(x),
        (FieldType::Float, AbsValue::Float(x)) => le32(x),
        (FieldType::StrRef, AbsValue::StrRef(x)) => le32(x),
        (FieldType::Ascf, AbsValue::Ascf(b)) => le32(b.len() as u32) + b,
        (FieldType::Str, AbsValue::Str(b)) => le16(b.len() as u16) + b,
        (FieldType::Floc, AbsValue::Floc(x, y, z)) => le32(x) + le32(y) + le32(z),
        (FieldType::Vector(cw, et), AbsValue::Vector(vs)) => count_wire(cw, vs.len())
            + wire_many(*et, vs),
        (FieldType::Nested(ts), AbsValue::Nested(vs)) => wire_fields(ts@, vs),
        _ => Seq::empty(),
    }
}

pub open spec fn wire_many(t: FieldType, vs: Seq<AbsValue>) -> Seq<u8>
    decreases t, vs.len(),
{
    if vs.len() == 0 {
        Seq::empty()
    } else {
        wire(t, vs[0]) + wire_many(t, vs.drop_first())
    }
}

pub open spec fn wire_fields(ts: Seq<FieldType>, vs: Seq<AbsValue>) -> Seq<u8>
    decreases ts, 0nat,
{
    if ts.len() == 0 || vs.len() == 0 {
        Seq::empty()
    } else {
        wire(ts[0], vs[0]) + wire_fields(ts.drop_first(), vs.drop_first())
    }
}

pub proof fn lemma_wire_many_push(t: FieldType, vs: Seq<AbsValue>, a: AbsValue)
    ensures
        wire_many(t, vs.push(a)) == wire_many(t, vs) + wire(t, a),
    decreases vs,
{
    if vs.len() == 0 {
        assert(vs.push(a).drop_first() =~= vs);
        assert(wire_many(t, vs.push(a)) =~= wire_many(t, vs) + wire(t, a));
    } else {
        assert(vs.push(a).drop_first() =~= vs.drop_first().push(a));
        lemma_wire_many_push(t, vs.drop_first(), a);
        assert(wire_many(t, vs.push(a)) =~= wire_many(t, vs) + wire(t, a));
    }
}

pub proof fn lemma_wire_fields_push(ts: Seq<FieldType>, vs: Seq<AbsValue>, t: FieldType, a: AbsValue)
    requires
        ts.len() == vs.len(),
    ensures
        wire_fields(ts.push(t), vs.push(a)) == wire_fields(ts, vs) + wire(t, a),
    decreases ts,
{
    if ts.len() == 0 {
        assert(ts.push(t)[0] == t);
        assert(vs.push(a)[0] == a);
        assert(ts.push(t).drop_first() =~= ts);
        assert(vs.push(a).drop_first() =~= vs);
        assert(wire_fields(ts.push(t), vs.push(a)) == wire(t, a) + wire_fields(ts, vs));
        assert(wire_fields(ts, vs) == Seq::<u8>::empty());
        assert(wire(t, a) + Seq::<u8>::empty() =~= Seq::<u8>::empty() + wire(t, a));
    } else {
        assert(ts.push(t).drop_first() =~= ts.drop_first().push(t));
        assert(vs.push(a).drop_first() =~= vs.drop_first().push(a));
        lemma_wire_fields_push(ts.drop_first(), vs.drop_first(), t, a);
        assert(ts.push(t)[0] == ts[0]);
        assert(vs.push(a)[0] == vs[0]);
        assert(wire_fields(ts.push(t), vs.push(a)) == wire(ts.push(t)[0], vs.push(a)[0])
            + wire_fields(ts.push(t).drop_first(), vs.push(a).drop_first()));
        assert(wire_fields(ts, vs) == wire(ts[0], vs[0]) + wire_fields(
            ts.drop_first(),
            vs.drop_first(),
        ));
        let x = wire(ts[0], vs[0]);
        let y = wire_fields(ts.drop_first(), vs.drop_first());
        let z = wire(t, a);
        assert(x + (y + z) =~= (x + y) + z);
        assert(wire_fields(ts.push(t), vs.push(a)) == wire_fields(ts, vs) + wire(t, a));
    }
}

/// The decoder, as a total function on byte sequences: `Some((a, n))` means
/// the front of `s` holds exactly one value of type `t`, spanning `n` bytes;
/// `None` means `s` is too short.
pub open spec fn dec(t: FieldType, s: Seq<u8>) -> Option<(AbsValue, nat)>
    decreases t, 0nat,
{
    match t {
        FieldType::Word => if s.len() >= 2 {
            Some((AbsValue::Word(le16_val(s[0], s[1])), 2nat))
        } else {
            None
        },
        FieldType::Dword => if s.len() >= 4 {
            Some((AbsValue::Dword(le32_val(s[0], s[1], s[2], s[3])), 4nat))
        } else {
            None
        },
        FieldType::Float => if s.len() >= 4 {
            Some((AbsValue::Float(le32_val(s[0], s[1], s[2], s[3])), 4nat))
        } else {
            None
        },
        FieldType::StrRef => if s.len() >= 4 {
            Some((AbsValue::StrRef(le32_val(s[0], s[1], s[2], s[3])), 4nat))
        } else {
            None
        },
        FieldType::Ascf => if s.len() >= 4 {
            {
                let n = le32_val(s[0], s[1], s[2], s[3]) as nat;
                if s.len() >= 4 + n {
                    Some((AbsValue::Ascf(s.subrange(4, 4 + n as int)), (4 + n) as nat))
                } else {
                    None
                }
            }
        } else {
            None
        },
        FieldType::Str => if s.len() >= 2 {
            {
                let n = le16_val(s[0], s[1]) as nat;
                if s.len() >= 2 + n {
                    Some((AbsValue::Str(s.subrange(2, 2 + n as int)), (2 + n) as nat))
                } else {
                    None
                }
            }
        } else {
            None
        },
        FieldType::Floc => if s.len() >= 12 {
            Some((AbsValue::Floc(
                le32_val(s[0], s[1], s[2], s[3]),
                le32_val(s[4], s[5], s[6], s[7]),
                le32_val(s[8], s[9], s[10], s[11]),
            ), 12nat))
        } else {
            None
        },
        FieldType::Vector(cw, et) => if s.len() >= count_len(cw) {
            {
                let n = count_val(cw, s);
                match dec_many(*et, n, s.skip(count_len(cw) as int)) {
                    Some((vs, u)) => Some((AbsValue::Vector(vs), (count_len(cw) + u) as nat)),
                    None => None,
                }
            }
        } else {
            None
        },
        FieldType::Nested(ts) => match dec_fields(ts@, s) {
            Some((vs, u)) => Some((AbsValue::Nested(vs), u)),
            None => None,
        },
    }
}

/// Decodes `n` consecutive values of type `t` from the front of `s`.
pub open spec fn dec_many(t: FieldType, n: nat, s: Seq<u8>) -> Option<(Seq<AbsValue>, nat)>
    decreases t, n,
{
    if n == 0 {
        Some((Seq::empty(), 0nat))
    } else {
        match dec(t, s) {
            Some((a, u)) => match dec_many(t, (n - 1) as nat, s.skip(u as int)) {
                Some((vs, u2)) => Some((seq![a] + vs, (u + u2) as nat)),
                None => None,
            },
            None => None,
        }
    }
}

/// Decodes one value for each field of `ts`, in order, from the front of `s`.
pub open spec fn dec_fields(ts: Seq<FieldType>, s: Seq<u8>) -> Option<(Seq<AbsValue>, nat)>
    decreases ts, 0nat,
{
    if ts.len() == 0 {
        Some((Seq::empty(), 0nat))
    } else {
        match dec(ts[0], s) {
            Some((a, u)) => match dec_fields(ts.drop_first(), s.skip(u as int)) {
                Some((vs, u2)) => Some((seq![a] + vs, (u + u2) as nat)),
                None => None,
            },
            None => None,
        }
    }
}

} // verus!

verus! {

/// Round trip, decoding after encoding: the wire bytes of a valid value
/// decode to exactly that value and span exactly their own length,
/// whatever bytes follow them.
pub proof fn lemma_dec_of_wire(t: FieldType, a: AbsValue, rest: Seq<u8>)
    requires
        valid(t, a),
    ensures
        dec(t, wire(t, a) + rest) == Some((a, wire(t, a).len())),
    decreases t, 0nat,
{
    let s = wire(t, a) + rest;
    match (t, a) {
        (FieldType::Word, AbsValue::Word(x)) => {
            assert(s[0] == le16(x)[0] && s[1] == le16(x)[1]);
            lemma_le16_val_of_le16(x);
        },
        (FieldType::Dword, AbsValue::Dword(x)) => {
            assert(s[0] == le32(x)[0] && s[1] == le32(x)[1] && s[2] == le32(x)[2] && s[3]
                == le32(x)[3]);
            lemma_le32_val_of_le32(x);
        },
        (FieldType::Float, AbsValue::Float(x)) => {
            assert(s[0] == le32(x)[0] && s[1] == le32(x)[1] && s[2] == le32(x)[2] && s[3]
                == le32(x)[3]);
            lemma_le32_val_of_le32(x);
        },
        (FieldType::StrRef, AbsValue::StrRef(x)) => {
            assert(s[0] == le32(x)[0] && s[1] == le32(x)[1] && s[2] == le32(x)[2] && s[3]
                == le32(x)[3]);
            lemma_le32_val_of_le32(x);
        },
        (FieldType::Ascf, AbsValue::Ascf(b)) => {
            let lw = le32(b.len() as u32);
            assert(s[0] == lw[0] && s[1] == lw[1] && s[2] == lw[2] && s[3] == lw[3]);
            lemma_le32_val_of_le32(b.len() as u32);
            assert(le32_val(s[0], s[1], s[2], s[3]) as nat == b.len());
            assert(s.subrange(4, 4 + b.len() as int) =~= b);
        },
        (FieldType::Str, AbsValue::Str(b)) => {
            let lw = le16(b.len() as u16);
            assert(s[0] == lw[0] && s[1] == lw[1]);
            lemma_le16_val_of_le16(b.len() as u16);
            assert(le16_val(s[0], s[1]) as nat == b.len());
            assert(s.subrange(2, 2 + b.len() as int) =~= b);
        },
        (FieldType::Floc, AbsValue::Floc(x, y, z)) => {
            assert(s[0] == le32(x)[0] && s[1] == le32(x)[1] && s[2] == le32(x)[2] && s[3]
                == le32(x)[3]);
            assert(s[4] == le32(y)[0] && s[5] == le32(y)[1] && s[6] == le32(y)[2] && s[7]
                == le32(y)[3]);
            assert(s[8] == le32(z)[0] && s[9] == le32(z)[1] && s[10] == le32(z)[2] && s[11]
                == le32(z)[3]);
            lemma_le32_val_of_le32(x);
            lemma_le32_val_of_le32(y);
            lemma_le32_val_of_le32(z);
        },
        (FieldType::Vector(cw, et), AbsValue::Vector(vs)) => {
            let cl = count_len(cw) as int;
            let cwr = count_wire(cw, vs.len());
            match cw {
                CountWidth::Word => {
                    assert(s[0] == cwr[0] && s[1] == cwr[1]);
                    lemma_le16_val_of_le16(vs.len() as u16);
                    assert(count_val(cw, s) == vs.len());
                },
                CountWidth::Dword => {
                    assert(s[0] == cwr[0] && s[1] == cwr[1] && s[2] == cwr[2] && s[3] == cwr[3]);
                    lemma_le32_val_of_le32(vs.len() as u32);
                    assert(count_val(cw, s) == vs.len());
                },
            }
            assert(s.skip(cl) =~= wire_many(*et, vs) + rest);
            lemma_dec_many_of_wire_many(*et, vs, rest);
        },
        (FieldType::Nested(ts), AbsValue::Nested(vs)) => {
            lemma_dec_fields_of_wire_fields(ts@, vs, rest);
        },
        _ => {
            assert(false);
        },
    }
}

pub proof fn lemma_dec_many_of_wire_many(t: FieldType, vs: Seq<AbsValue>, rest: Seq<u8>)
    requires
        forall|i: int| 0 <= i < vs.len() ==> valid(t, #[trigger] vs[i]),
    ensures
        dec_many(t, vs.len(), wire_many(t, vs) + rest) == Some((vs, wire_many(t, vs).len())),
    decreases t, vs.len(),
{
    let s = wire_many(t, vs) + rest;
    if vs.len() == 0 {
        assert(wire_many(t, vs) == Seq::<u8>::empty());
        assert(dec_many(t, 0, s) == Some((Seq::<AbsValue>::empty(), 0nat)));
        assert(vs =~= Seq::<AbsValue>::empty());
    } else {
        let w0 = wire(t, vs[0]);
        let wrest = wire_many(t, vs.drop_first());
        assert(wire_many(t, vs) == w0 + wrest);
        assert(s =~= w0 + (wrest + rest));
        lemma_dec_of_wire(t, vs[0], wrest + rest);
        assert(dec(t, s) == Some((vs[0], w0.len())));
        assert(s.skip(w0.len() as int) =~= wrest + rest);
        assert(forall|i: int| 0 <= i < vs.drop_first().len() ==> vs.drop_first()[i] == vs[i + 1]);
        lemma_dec_many_of_wire_many(t, vs.drop_first(), rest);
        assert(dec_many(t, vs.drop_first().len(), wrest + rest) == Some((
            vs.drop_first(),
            wrest.len(),
        )));
        assert(seq![vs[0]] + vs.drop_first() =~= vs);
        assert(dec_many(t, vs.len(), s) == Some((vs, (w0.len() + wrest.len()) as nat)));
    }
}

pub proof fn lemma_dec_fields_of_wire_fields(ts: Seq<FieldType>, vs: Seq<AbsValue>, rest: Seq<u8>)
    requires
        fields_valid(ts, vs),
    ensures
        dec_fields(ts, wire_fields(ts, vs) + rest) == Some((vs, wire_fields(ts, vs).len())),
    decreases ts, 0nat,
{
    let s = wire_fields(ts, vs) + rest;
    if ts.len() == 0 {
        assert(wire_fields(ts, vs) == Seq::<u8>::empty());
        assert(dec_fields(ts, s) == Some((Seq::<AbsValue>::empty(), 0nat)));
        assert(vs =~= Seq::<AbsValue>::empty());
    } else {
        let w0 = wire(ts[0], vs[0]);
        let wrest = wire_fields(ts.drop_first(), vs.drop_first());
        assert(wire_fields(ts, vs) == w0 + wrest);
        assert(s =~= w0 + (wrest + rest));
        lemma_dec_of_wire(ts[0], vs[0], wrest + rest);
        assert(dec(ts[0], s) == Some((vs[0], w0.len())));
        assert(s.skip(w0.len() as int) =~= wrest + rest);
        assert(forall|i: int| 0 <= i < ts.drop_first().len() ==> ts.drop_first()[i] == ts[i + 1]);
        assert(forall|i: int| 0 <= i < vs.drop_first().len() ==> vs.drop_first()[i] == vs[i + 1]);
        lemma_dec_fields_of_wire_fields(ts.drop_first(), vs.drop_first(), rest);
        assert(seq![vs[0]] + vs.drop_first() =~= vs);
        assert(dec_fields(ts, s) == Some((vs, (w0.len() + wrest.len()) as nat)));
    }
}

/// Round trip, encoding after decoding: whatever one decode consumed
/// re-encodes to exactly the consumed bytes.
pub proof fn lemma_wire_of_dec(t: FieldType, s: Seq<u8>)
    requires
        dec(t, s) is Some,
    ensures
        valid(t, dec(t, s).unwrap().0),
        dec(t, s).unwrap().1 <= s.len(),
        wire(t, dec(t, s).unwrap().0) == s.take(dec(t, s).unwrap().1 as int),
    decreases t, 0nat,
{
    match t {
        FieldType::Word => {
            lemma_le16_of_le16_val(s[0], s[1]);
            assert(wire(t, dec(t, s).unwrap().0) =~= s.take(2));
        },
        FieldType::Dword => {
            lemma_le32_of_le32_val(s[0], s[1], s[2], s[3]);
            assert(wire(t, dec(t, s).unwrap().0) =~= s.take(4));
        },
        FieldType::Float => {
            lemma_le32_of_le32_val(s[0], s[1], s[2], s[3]);
            assert(wire(t, dec(t, s).unwrap().0) =~= s.take(4));
        },
        FieldType::StrRef => {
            lemma_le32_of_le32_val(s[0], s[1], s[2], s[3]);
            assert(wire(t, dec(t, s).unwrap().0) =~= s.take(4));
        },
        FieldType::Ascf => {
            let n = le32_val(s[0], s[1], s[2], s[3]) as nat;
            let b = s.subrange(4, 4 + n as int);
            assert(b.len() == n);
            lemma_le32_of_le32_val(s[0], s[1], s[2], s[3]);
            assert(le32(b.len() as u32) =~= s.take(4));
            assert(wire(t, dec(t, s).unwrap().0) =~= s.take(4 + n as int));
        },
        FieldType::Str => {
            let n = le16_val(s[0], s[1]) as nat;
            let b = s.subrange(2, 2 + n as int);
            assert(b.len() == n);
            lemma_le16_of_le16_val(s[0], s[1]);
            assert(le16(b.len() as u16) =~= s.take(2));
            assert(wire(t, dec(t, s).unwrap().0) =~= s.take(2 + n as int));
        },
        FieldType::Floc => {
            lemma_le32_of_le32_val(s[0], s[1], s[2], s[3]);
            lemma_le32_of_le32_val(s[4], s[5], s[6], s[7]);
            lemma_le32_of_le32_val(s[8], s[9], s[10], s[11]);
            assert(wire(t, dec(t, s).unwrap().0) =~= s.take(12));
        },
        FieldType::Vector(cw, et) => {
            let cl = count_len(cw) as int;
            let n = count_val(cw, s);
            lemma_wire_of_dec_many(*et, n, s.skip(cl));
            let vs = dec_many(*et, n, s.skip(cl)).unwrap().0;
            let u = dec_many(*et, n, s.skip(cl)).unwrap().1;
            match cw {
                CountWidth::Word => {
                    lemma_le16_of_le16_val(s[0], s[1]);
                    assert(count_wire(cw, vs.len()) =~= s.take(cl));
                },
                CountWidth::Dword => {
                    lemma_le32_of_le32_val(s[0], s[1], s[2], s[3]);
                    assert(count_wire(cw, vs.len()) =~= s.take(cl));
                },
            }
            assert(s.take(cl) + s.skip(cl).take(u as int) =~= s.take(cl + u as int));
            assert(wire(t, dec(t, s).unwrap().0) == s.take(cl + u as int));
        },
        FieldType::Nested(ts) => {
            lemma_wire_of_dec_fields(ts@, s);
        },
    }
}

pub proof fn lemma_wire_of_dec_many(t: FieldType, n: nat, s: Seq<u8>)
    requires
        dec_many(t, n, s) is Some,
    ensures
        dec_many(t, n, s).unwrap().0.len() == n,
        forall|i: int|
            0 <= i < n ==> valid(t, #[trigger] dec_many(t, n, s).unwrap().0[i]),
        dec_many(t, n, s).unwrap().1 <= s.len(),
        wire_many(t, dec_many(t, n, s).unwrap().0) == s.take(dec_many(t, n, s).unwrap().1 as int),
    decreases t, n,
{
    if n == 0 {
        assert(wire_many(t, dec_many(t, n, s).unwrap().0) =~= s.take(0));
    } else {
        lemma_wire_of_dec(t, s);
        let a = dec(t, s).unwrap().0;
        let u1 = dec(t, s).unwrap().1;
        lemma_wire_of_dec_many(t, (n - 1) as nat, s.skip(u1 as int));
        let vs2 = dec_many(t, (n - 1) as nat, s.skip(u1 as int)).unwrap().0;
        let u2 = dec_many(t, (n - 1) as nat, s.skip(u1 as int)).unwrap().1;
        let vs = dec_many(t, n, s).unwrap().0;
        assert(vs == seq![a] + vs2);
        assert(vs[0] == a);
        assert(vs.drop_first() =~= vs2);
        assert(wire_many(t, vs) == wire(t, vs[0]) + wire_many(t, vs.drop_first()));
        assert(s.take(u1 as int) + s.skip(u1 as int).take(u2 as int) =~= s.take(u1 as int + u2 as int));
        assert(wire_many(t, vs) == s.take(u1 as int + u2 as int));
    }
}

pub proof fn lemma_wire_of_dec_fields(ts: Seq<FieldType>, s: Seq<u8>)
    requires
        dec_fields(ts, s) is Some,
    ensures
        fields_valid(ts, dec_fields(ts, s).unwrap().0),
        dec_fields(ts, s).unwrap().1 <= s.len(),
        wire_fields(ts, dec_fields(ts, s).unwrap().0) == s.take(
            dec_fields(ts, s).unwrap().1 as int,
        ),
    decreases ts, 0nat,
{
    if ts.len() == 0 {
        assert(wire_fields(ts, dec_fields(ts, s).unwrap().0) =~= s.take(0));
    } else {
        lemma_wire_of_dec(ts[0], s);
        let a = dec(ts[0], s).unwrap().0;
        let u1 = dec(ts[0], s).unwrap().1;
        lemma_wire_of_dec_fields(ts.drop_first(), s.skip(u1 as int));
        let vs2 = dec_fields(ts.drop_first(), s.skip(u1 as int)).unwrap().0;
        let u2 = dec_fields(ts.drop_first(), s.skip(u1 as int)).unwrap().1;
        let vs = dec_fields(ts, s).unwrap().0;
        assert(vs == seq![a] + vs2);
        assert(vs[0] == a);
        assert(vs.drop_first() =~= vs2);
        assert(forall|i: int| 0 <= i < ts.drop_first().len() ==> ts.drop_first()[i] == ts[i + 1]);
        assert(wire_fields(ts, vs) == wire(ts[0], vs[0]) + wire_fields(
            ts.drop_first(),
            vs.drop_first(),
        ));
        assert(s.take(u1 as int) + s.skip(u1 as int).take(u2 as int) =~= s.take(u1 as int + u2 as int));
        assert(wire_fields(ts, vs) == s.take(u1 as int + u2 as int));
        assert(forall|i: int|
            0 <= i < ts.len() ==> valid(ts[i], #[trigger] vs[i])) by {
            assert(valid(ts[0], vs[0]));
            assert(forall|i: int| 1 <= i < ts.len() ==> ts[i] == ts.drop_first()[i - 1]);
            assert(forall|i: int| 1 <= i < vs.len() ==> vs[i] == vs.drop_first()[i - 1]);
        }
    }
}

} // verus!
