use vstd::prelude::*;
use crate::codec::CodecError;
use crate::codec::le16;
use crate::codec::le32;
use crate::codec::le16_val;
use crate::codec::le32_val;
use crate::codec::lemma_le16_val_of_le16;
use crate::codec::lemma_le32_val_of_le32;
use crate::codec::read_u16;
use crate::codec::read_u32;
use crate::codec::read_bytes;
use crate::codec::write_u16;
use crate::codec::write_u32;
use crate::codec::write_bytes;
use crate::schema::AbsValue;
use crate::schema::CountWidth;
use crate::schema::FieldType;
use crate::schema::FieldValue;
use crate::schema::count_len;
use crate::schema::count_max;
use crate::schema::count_val;
use crate::schema::count_wire;
use crate::schema::dec;
use crate::schema::dec_fields;
use crate::schema::dec_many;
use crate::schema::fields_shape;
use crate::schema::fields_valid;
use crate::schema::lemma_views_of_index;
use crate::schema::lemma_views_of_len;
use crate::schema::lemma_views_of_push;
use crate::schema::lemma_wire_fields_push;
use crate::schema::lemma_wire_many_push;
use crate::schema::shape_ok;
use crate::schema::valid;
use crate::schema::views_of;
use crate::schema::wire;
use crate::schema::wire_fields;
use crate::schema::wire_many;

verus! {

/// Whether the value's shape matches `t`, and whether it is fully
/// encodable (shape and every size limit).
#[verifier::loop_isolation(false)]
fn check_value(t: &FieldType, v: &FieldValue) -> (r: (bool, bool))
    ensures
        r.0 == shape_ok(*t, v@),
        r.1 == valid(*t, v@),
    decreases *t,
{
    match t {
        FieldType::Word => match v {
            FieldValue::Word(_) => (true, true),
            _ => (false, false),
        },
        FieldType::Dword => match v {
            FieldValue::Dword(_) => (true, true),
            _ => (false, false),
        },
        FieldType::Float => match v {
            FieldValue::Float(_) => (true, true),
            _ => (false, false),
        },
        FieldType::StrRef => match v {
            FieldValue::StrRef(_) => (true, true),
            _ => (false, false),
        },
        FieldType::Ascf => match v {
            FieldValue::Ascf(b) => (true, b.len() <= 0xffffffffusize),
            _ => (false, false),
        },
        FieldType::Str => match v {
            FieldValue::Str(b) => (true, b.len() <= 0xffffusize),
            _ => (false, false),
        },
        FieldType::Floc => match v {
            FieldValue::Floc(_, _, _) => (true, true),
            _ => (false, false),
        },
        FieldType::Vector(cw, et) => match v {
            FieldValue::Vector(vs) => {
                let fits: bool = match cw {
                    CountWidth::Word => vs.len() <= 0xffffusize,
                    CountWidth::Dword => vs.len() <= 0xffffffffusize,
                };
                proof {
                    lemma_views_of_len(vs@);
                    assert(v@ == AbsValue::Vector(views_of(vs@)));
                }
                let ghost va = views_of(vs@);
                let mut all_shape = true;
                let mut all_valid = true;
                let mut i: usize = 0;
                while i < vs.len()
                    invariant
                        i <= vs@.len(),
                        va == views_of(vs@),
                        va.len() == vs@.len(),
                        all_shape <==> (forall|q: int|
                            0 <= q < i ==> shape_ok(**et, #[trigger] va[q])),
                        all_valid <==> (forall|q: int| 0 <= q < i ==> valid(**et, #[trigger] va[q])),
                    decreases vs@.len() - i,
                {
                    let (si, vi) = check_value(et, &vs[i]);
                    proof {
                        lemma_views_of_index(vs@, i as int);
                    }
                    all_shape = all_shape && si;
                    all_valid = all_valid && vi;
                    i = i + 1;
                }
                (all_shape, fits && all_valid)
            },
            _ => (false, false),
        },
        FieldType::Nested(ts) => match v {
            FieldValue::Nested(vs) => {
                proof {
                    assert(v@ == AbsValue::Nested(views_of(vs@)));
                }
                let (s, val) = check_fields(ts, vs);
                (s, val)
            },
            _ => (false, false),
        },
    }
}

/// Whether `vs` is a well-shaped, respectively encodable, record for the
/// field list `ts`.
fn check_fields(ts: &Vec<FieldType>, vs: &Vec<FieldValue>) -> (r: (bool, bool))
    ensures
        r.0 == fields_shape(ts@, views_of(vs@)),
        r.1 == fields_valid(ts@, views_of(vs@)),
    decreases ts@,
{
    proof {
        lemma_views_of_len(vs@);
    }
    if ts.len() != vs.len() {
        return (false, false);
    }
    let ghost va = views_of(vs@);
    let mut all_shape = true;
    let mut all_valid = true;
    let mut j: usize = 0;
    while j < ts.len()
        invariant
            j <= ts@.len(),
            ts@.len() == vs@.len(),
            va == views_of(vs@),
            va.len() == vs@.len(),
            all_shape <==> (forall|q: int| 0 <= q < j ==> shape_ok(ts@[q], #[trigger] va[q])),
            all_valid <==> (forall|q: int| 0 <= q < j ==> valid(ts@[q], #[trigger] va[q])),
        decreases ts@.len() - j,
    {
        let (sj, vj) = check_value(&ts[j], &vs[j]);
        proof {
            lemma_views_of_index(vs@, j as int);
        }
        all_shape = all_shape && sj;
        all_valid = all_valid && vj;
        j = j + 1;
    }
    (all_shape, all_valid)
}

/// Appends the wire bytes of `v` to `out`. Only valid values are encoded;
/// encoding reproduces field order and widths exactly.
#[verifier::loop_isolation(false)]
fn encode_value(out: &mut Vec<u8>, t: &FieldType, v: &FieldValue)
    requires
        valid(*t, v@),
    ensures
        final(out)@ == old(out)@ + wire(*t, v@),
    decreases *t,
{
    match t {
        FieldType::Word => match v {
            FieldValue::Word(x) => {
                write_u16(out, *x);
            },
            _ => {
                proof {
                    assert(false);
                }
            },
        },
        FieldType::Dword => match v {
            FieldValue::Dword(x) => {
                write_u32(out, *x);
            },
            _ => {
                proof {
                    assert(false);
                }
            },
        },
        FieldType::Float => match v {
            FieldValue::Float(x) => {
                write_u32(out, *x);
            },
            _ => {
                proof {
                    assert(false);
                }
            },
        },
        FieldType::StrRef => match v {
            FieldValue::StrRef(x) => {
                write_u32(out, *x);
            },
            _ => {
                proof {
                    assert(false);
                }
            },
        },
        FieldType::Ascf => match v {
            FieldValue::Ascf(b) => {
                let ghost out0 = out@;
                write_u32(out, b.len() as u32);
                write_bytes(out, b);
                proof {
                    assert(out@ =~= out0 + (le32(b@.len() as u32) + b@));
                }
            },
            _ => {
                proof {
                    assert(false);
                }
            },
        },
        FieldType::Str => match v {
            FieldValue::Str(b) => {
                let ghost out0 = out@;
                write_u16(out, b.len() as u16);
                write_bytes(out, b);
                proof {
                    assert(out@ =~= out0 + (le16(b@.len() as u16) + b@));
                }
            },
            _ => {
                proof {
                    assert(false);
                }
            },
        },
        FieldType::Floc => match v {
            FieldValue::Floc(x, y, z) => {
                let ghost out0 = out@;
                write_u32(out, *x);
                write_u32(out, *y);
                write_u32(out, *z);
                proof {
                    assert(out@ =~= out0 + (le32(*x) + le32(*y) + le32(*z)));
                }
            },
            _ => {
                proof {
                    assert(false);
                }
            },
        },
        FieldType::Vector(cw, et) => match v {
            FieldValue::Vector(vs) => {
                let ghost out0 = out@;
                proof {
                    lemma_views_of_len(vs@);
                    assert(v@ == AbsValue::Vector(views_of(vs@)));
                }
                let ghost va = views_of(vs@);
                match cw {
                    CountWidth::Word => {
                        write_u16(out, vs.len() as u16);
                    },
                    CountWidth::Dword => {
                        write_u32(out, vs.len() as u32);
                    },
                }
                proof {
                    assert(out@ == out0 + count_wire(*cw, va.len()));
                }
                let ghost out1 = out@;
                let mut i: usize = 0;
                while i < vs.len()
                    invariant
                        i <= vs@.len(),
                        va == views_of(vs@),
                        va.len() == vs@.len(),
                        forall|q: int| 0 <= q < va.len() ==> valid(**et, #[trigger] va[q]),
                        out@ == out1 + wire_many(**et, va.take(i as int)),
                    decreases vs@.len() - i,
                {
                    proof {
                        lemma_views_of_index(vs@, i as int);
                    }
                    encode_value(out, et, &vs[i]);
                    proof {
                        lemma_wire_many_push(**et, va.take(i as int), va[i as int]);
                        assert(va.take(i as int).push(va[i as int]) =~= va.take(i as int + 1));
                    }
                    i = i + 1;
                }
                proof {
                    assert(va.take(va.len() as int) =~= va);
                    assert(out@ =~= out0 + (count_wire(*cw, va.len()) + wire_many(**et, va)));
                }
            },
            _ => {
                proof {
                    assert(false);
                }
            },
        },
        FieldType::Nested(ts) => match v {
            FieldValue::Nested(vs) => {
                proof {
                    assert(v@ == AbsValue::Nested(views_of(vs@)));
                }
                encode_fields(out, ts, vs);
            },
            _ => {
                proof {
                    assert(false);
                }
            },
        },
    }
}

/// Appends the wire bytes of the record `vs` for field list `ts` to `out`.
fn encode_fields(out: &mut Vec<u8>, ts: &Vec<FieldType>, vs: &Vec<FieldValue>)
    requires
        fields_valid(ts@, views_of(vs@)),
    ensures
        final(out)@ == old(out)@ + wire_fields(ts@, views_of(vs@)),
    decreases ts@,
{
    proof {
        lemma_views_of_len(vs@);
    }
    let ghost out0 = out@;
    let ghost va = views_of(vs@);
    let mut j: usize = 0;
    while j < ts.len()
        invariant
            j <= ts@.len(),
            ts@.len() == vs@.len(),
            va == views_of(vs@),
            va.len() == vs@.len(),
            fields_valid(ts@, va),
            out@ == out0 + wire_fields(ts@.take(j as int), va.take(j as int)),
        decreases ts@.len() - j,
    {
        proof {
            lemma_views_of_index(vs@, j as int);
        }
        encode_value(out, &ts[j], &vs[j]);
        proof {
            lemma_wire_fields_push(ts@.take(j as int), va.take(j as int), ts@[j as int], va[j as int]);
            assert(ts@.take(j as int).push(ts@[j as int]) =~= ts@.take(j as int + 1));
            assert(va.take(j as int).push(va[j as int]) =~= va.take(j as int + 1));
        }
        j = j + 1;
    }
    proof {
        assert(ts@.take(ts@.len() as int) =~= ts@);
        assert(va.take(va.len() as int) =~= va);
    }
}

} // verus!

verus! {

/// Decodes one value of type `t` at `*pos`, advancing `*pos` past it on
/// success. Fails with `TruncatedInput`, leaving `*pos` unchanged, exactly
/// when the remaining bytes do not hold a whole value.
#[verifier::loop_isolation(false)]
#[verifier::rlimit(100)]
#[verifier::spinoff_prover]
fn decode_value(data: &Vec<u8>, pos: &mut usize, t: &FieldType) -> (r: Result<
    FieldValue,
    CodecError,
>)
    requires
        *old(pos) <= data@.len(),
    ensures
        ({
            let s = data@.skip(*old(pos) as int);
            match r {
                Ok(v) => {
                    &&& *old(pos) <= *final(pos) <= data@.len()
                    &&& dec(*t, s) == Some((v@, (*final(pos) - *old(pos)) as nat))
                },
                Err(e) => {
                    &&& e == CodecError::TruncatedInput
                    &&& dec(*t, s) is None
                    &&& *final(pos) == *old(pos)
                },
            }
        }),
    decreases *t,
{
    let ghost s = data@.skip(*pos as int);
    match t {
        FieldType::Word => match read_u16(data, pos) {
            Ok(x) => {
                proof {
                    assert(s[0] == le16(x)[0] && s[1] == le16(x)[1]);
                    lemma_le16_val_of_le16(x);
                }
                Ok(FieldValue::Word(x))
            },
            Err(_) => Err(CodecError::TruncatedInput),
        },
        FieldType::Dword => match read_u32(data, pos) {
            Ok(x) => {
                proof {
                    assert(s[0] == le32(x)[0] && s[1] == le32(x)[1] && s[2] == le32(x)[2] && s[3]
                        == le32(x)[3]);
                    lemma_le32_val_of_le32(x);
                }
                Ok(FieldValue::Dword(x))
            },
            Err(_) => Err(CodecError::TruncatedInput),
        },
        FieldType::Float => match read_u32(data, pos) {
            Ok(x) => {
                proof {
                    assert(s[0] == le32(x)[0] && s[1] == le32(x)[1] && s[2] == le32(x)[2] && s[3]
                        == le32(x)[3]);
                    lemma_le32_val_of_le32(x);
                }
                Ok(FieldValue::Float(x))
            },
            Err(_) => Err(CodecError::TruncatedInput),
        },
        FieldType::StrRef => match read_u32(data, pos) {
            Ok(x) => {
                proof {
                    assert(s[0] == le32(x)[0] && s[1] == le32(x)[1] && s[2] == le32(x)[2] && s[3]
                        == le32(x)[3]);
                    lemma_le32_val_of_le32(x);
                }
                Ok(FieldValue::StrRef(x))
            },
            Err(_) => Err(CodecError::TruncatedInput),
        },
        FieldType::Ascf => {
            let start = *pos;
            match read_u32(data, pos) {
                Ok(n) => {
                    proof {
                        assert(s[0] == le32(n)[0] && s[1] == le32(n)[1] && s[2] == le32(n)[2]
                            && s[3] == le32(n)[3]);
                        lemma_le32_val_of_le32(n);
                        assert(le32_val(s[0], s[1], s[2], s[3]) == n);
                    }
                    match read_bytes(data, pos, n as usize) {
                        Ok(b) => {
                            proof {
                                assert(b@ =~= s.subrange(4, 4 + n as int));
                            }
                            Ok(FieldValue::Ascf(b))
                        },
                        Err(_) => {
                            proof {
                                assert(s.len() < 4 + n as nat);
                            }
                            *pos = start;
                            Err(CodecError::TruncatedInput)
                        },
                    }
                },
                Err(_) => Err(CodecError::TruncatedInput),
            }
        },
        FieldType::Str => {
            let start = *pos;
            match read_u16(data, pos) {
                Ok(n) => {
                    proof {
                        assert(s[0] == le16(n)[0] && s[1] == le16(n)[1]);
                        lemma_le16_val_of_le16(n);
                        assert(le16_val(s[0], s[1]) == n);
                    }
                    match read_bytes(data, pos, n as usize) {
                        Ok(b) => {
                            proof {
                                assert(b@ =~= s.subrange(2, 2 + n as int));
                            }
                            Ok(FieldValue::Str(b))
                        },
                        Err(_) => {
                            proof {
                                assert(s.len() < 2 + n as nat);
                            }
                            *pos = start;
                            Err(CodecError::TruncatedInput)
                        },
                    }
                },
                Err(_) => Err(CodecError::TruncatedInput),
            }
        },
        FieldType::Floc => {
            let start = *pos;
            match read_u32(data, pos) {
                Ok(x) => match read_u32(data, pos) {
                    Ok(y) => match read_u32(data, pos) {
                        Ok(z) => {
                            proof {
                                assert(s[0] == le32(x)[0] && s[1] == le32(x)[1] && s[2]
                                    == le32(x)[2] && s[3] == le32(x)[3]);
                                assert(s[4] == le32(y)[0] && s[5] == le32(y)[1] && s[6]
                                    == le32(y)[2] && s[7] == le32(y)[3]);
                                assert(s[8] == le32(z)[0] && s[9] == le32(z)[1] && s[10]
                                    == le32(z)[2] && s[11] == le32(z)[3]);
                                lemma_le32_val_of_le32(x);
                                lemma_le32_val_of_le32(y);
                                lemma_le32_val_of_le32(z);
                            }
                            Ok(FieldValue::Floc(x, y, z))
                        },
                        Err(_) => {
                            *pos = start;
                            Err(CodecError::TruncatedInput)
                        },
                    },
                    Err(_) => {
                        *pos = start;
                        Err(CodecError::TruncatedInput)
                    },
                },
                Err(_) => Err(CodecError::TruncatedInput),
            }
        },
        FieldType::Vector(cw, et) => {
            let start = *pos;
            let n32: u32 = match cw {
                CountWidth::Word => match read_u16(data, pos) {
                    Ok(c) => c as u32,
                    Err(_) => {
                        return Err(CodecError::TruncatedInput);
                    },
                },
                CountWidth::Dword => match read_u32(data, pos) {
                    Ok(c) => c,
                    Err(_) => {
                        return Err(CodecError::TruncatedInput);
                    },
                },
            };
            proof {
                match *cw {
                    CountWidth::Word => {
                        assert(s[0] == le16(n32 as u16)[0] && s[1] == le16(n32 as u16)[1]);
                        lemma_le16_val_of_le16(n32 as u16);
                    },
                    CountWidth::Dword => {
                        assert(s[0] == le32(n32)[0] && s[1] == le32(n32)[1] && s[2] == le32(
                            n32,
                        )[2] && s[3] == le32(n32)[3]);
                        lemma_le32_val_of_le32(n32);
                    },
                }
                assert(count_val(*cw, s) == n32 as nat);
                assert(data@.skip(*pos as int) =~= s.skip(count_len(*cw) as int));
            }
            let mut out: Vec<FieldValue> = Vec::new();
            let mut k: u32 = 0;
            while k < n32
                invariant
                    k <= n32,
                    out@.len() == k as nat,
                    start + count_len(*cw) <= *pos <= data@.len(),
                    ({
                        let remk = data@.skip(*pos as int);
                        match dec_many(**et, (n32 - k) as nat, remk) {
                            Some((vs2, u2)) => dec_many(**et, n32 as nat, s.skip(
                                count_len(*cw) as int,
                            )) == Some((
                                views_of(out@) + vs2,
                                ((*pos - start - count_len(*cw)) + u2) as nat,
                            )),
                            None => dec_many(**et, n32 as nat, s.skip(count_len(*cw) as int))
                                is None,
                        }
                    }),
                decreases n32 - k,
            {
                let ghost p0 = *pos;
                match decode_value(data, pos, et) {
                    Ok(v) => {
                        proof {
                            let rem0 = data@.skip(p0 as int);
                            let rem1 = data@.skip(*pos as int);
                            let u1 = (*pos - p0) as nat;
                            assert(rem0.skip(u1 as int) =~= rem1);
                            assert(dec(**et, rem0) == Some((v@, u1)));
                            lemma_views_of_push(out@, v);
                            let nk1 = (n32 - k - 1) as nat;
                            if dec_many(**et, nk1, rem1) is Some {
                                let vs2 = dec_many(**et, nk1, rem1).unwrap().0;
                                let u2 = dec_many(**et, nk1, rem1).unwrap().1;
                                assert(dec_many(**et, (n32 - k) as nat, rem0) == Some((
                                    seq![v@] + vs2,
                                    (u1 + u2) as nat,
                                )));
                                assert(views_of(out@) + (seq![v@] + vs2) =~= views_of(out@).push(
                                    v@,
                                ) + vs2);
                            } else {
                                assert(dec_many(**et, (n32 - k) as nat, rem0) is None);
                            }
                        }
                        out.push(v);
                        k = k + 1;
                    },
                    Err(_) => {
                        proof {
                            let rem0 = data@.skip(p0 as int);
                            assert(dec_many(**et, (n32 - k) as nat, rem0) is None);
                        }
                        *pos = start;
                        return Err(CodecError::TruncatedInput);
                    },
                }
            }
            proof {
                assert(dec_many(**et, 0nat, data@.skip(*pos as int)) == Some((
                    Seq::<AbsValue>::empty(),
                    0nat,
                )));
                assert(views_of(out@) + Seq::<AbsValue>::empty() =~= views_of(out@));
                assert(dec(*t, s) == Some((
                    AbsValue::Vector(views_of(out@)),
                    ((*pos - start) as nat),
                )));
            }
            Ok(FieldValue::Vector(out))
        },
        FieldType::Nested(ts) => match decode_fields(data, pos, ts) {
            Ok(vs) => {
                proof {
                    assert(FieldValue::Nested(vs)@ == AbsValue::Nested(views_of(vs@)));
                }
                Ok(FieldValue::Nested(vs))
            },
            Err(e) => Err(e),
        },
    }
}

/// Decodes one value for each field of `ts` at `*pos`, in declared order,
/// advancing `*pos` on success and leaving it unchanged on failure.
#[verifier::loop_isolation(false)]
fn decode_fields(data: &Vec<u8>, pos: &mut usize, ts: &Vec<FieldType>) -> (r: Result<
    Vec<FieldValue>,
    CodecError,
>)
    requires
        *old(pos) <= data@.len(),
    ensures
        ({
            let s = data@.skip(*old(pos) as int);
            match r {
                Ok(vs) => {
                    &&& *old(pos) <= *final(pos) <= data@.len()
                    &&& dec_fields(ts@, s) == Some((
                        views_of(vs@),
                        (*final(pos) - *old(pos)) as nat,
                    ))
                },
                Err(e) => {
                    &&& e == CodecError::TruncatedInput
                    &&& dec_fields(ts@, s) is None
                    &&& *final(pos) == *old(pos)
                },
            }
        }),
    decreases ts@,
{
    let ghost s = data@.skip(*pos as int);
    let start = *pos;
    let mut out: Vec<FieldValue> = Vec::new();
    proof {
        assert(ts@.skip(0int) =~= ts@);
        assert(views_of(out@) =~= Seq::<AbsValue>::empty());
        if dec_fields(ts@, s) is Some {
            let vs2 = dec_fields(ts@, s).unwrap().0;
            assert(Seq::<AbsValue>::empty() + vs2 =~= vs2);
        }
    }
    let mut j: usize = 0;
    while j < ts.len()
        invariant
            j <= ts@.len(),
            out@.len() == j as nat,
            start <= *pos <= data@.len(),
            ({
                let remj = data@.skip(*pos as int);
                match dec_fields(ts@.skip(j as int), remj) {
                    Some((vs2, u2)) => dec_fields(ts@, s) == Some((
                        views_of(out@) + vs2,
                        ((*pos - start) + u2) as nat,
                    )),
                    None => dec_fields(ts@, s) is None,
                }
            }),
        decreases ts@.len() - j,
    {
        let ghost p0 = *pos;
        match decode_value(data, pos, &ts[j]) {
            Ok(v) => {
                proof {
                    let rem0 = data@.skip(p0 as int);
                    let rem1 = data@.skip(*pos as int);
                    let u1 = (*pos - p0) as nat;
                    assert(rem0.skip(u1 as int) =~= rem1);
                    assert(ts@.skip(j as int)[0] == ts@[j as int]);
                    assert(ts@.skip(j as int).drop_first() =~= ts@.skip(j as int + 1));
                    assert(dec(ts@[j as int], rem0) == Some((v@, u1)));
                    lemma_views_of_push(out@, v);
                    if dec_fields(ts@.skip(j as int + 1), rem1) is Some {
                        let vs2 = dec_fields(ts@.skip(j as int + 1), rem1).unwrap().0;
                        let u2 = dec_fields(ts@.skip(j as int + 1), rem1).unwrap().1;
                        assert(dec_fields(ts@.skip(j as int), rem0) == Some((
                            seq![v@] + vs2,
                            (u1 + u2) as nat,
                        )));
                        assert(views_of(out@) + (seq![v@] + vs2) =~= views_of(out@).push(v@)
                            + vs2);
                    } else {
                        assert(dec_fields(ts@.skip(j as int), rem0) is None);
                    }
                }
                out.push(v);
                j = j + 1;
            },
            Err(_) => {
                proof {
                    let rem0 = data@.skip(p0 as int);
                    assert(ts@.skip(j as int)[0] == ts@[j as int]);
                    assert(dec_fields(ts@.skip(j as int), rem0) is None);
                }
                *pos = start;
                return Err(CodecError::TruncatedInput);
            },
        }
    }
    proof {
        assert(ts@.skip(ts@.len() as int) =~= Seq::<FieldType>::empty());
        assert(dec_fields(Seq::<FieldType>::empty(), data@.skip(*pos as int)) == Some((
            Seq::<AbsValue>::empty(),
            0nat,
        )));
        assert(views_of(out@) + Seq::<AbsValue>::empty() =~= views_of(out@));
    }
    Ok(out)
}

} // verus!

verus! {

/// An ordered, fixed list of typed fields: the declarative description
/// that drives decoding and encoding for one entity kind.
pub struct RecordSchema {
    pub fields: Vec<FieldType>,
}

/// One decoded record: one value per schema field, in declared order.
pub type Record = Vec<FieldValue>;

/// The models of a sequence of records.
pub open spec fn record_views(rs: Seq<Record>) -> Seq<Seq<AbsValue>>
    decreases rs.len(),
{
    if rs.len() == 0 {
        Seq::empty()
    } else {
        seq![views_of(rs[0]@)] + record_views(rs.drop_first())
    }
}

pub proof fn lemma_record_views_len(rs: Seq<Record>)
    ensures
        record_views(rs).len() == rs.len(),
    decreases rs.len(),
{
    if rs.len() > 0 {
        lemma_record_views_len(rs.drop_first());
        assert(record_views(rs) == seq![views_of(rs[0]@)] + record_views(rs.drop_first()));
    } else {
        assert(record_views(rs).len() == 0);
    }
}

pub proof fn lemma_record_views_push(rs: Seq<Record>, r: Record)
    ensures
        record_views(rs.push(r)) == record_views(rs).push(views_of(r@)),
    decreases rs.len(),
{
    if rs.len() == 0 {
        assert(rs.push(r)[0] == r);
        assert(rs.push(r).drop_first() =~= rs);
        assert(record_views(rs.push(r)) == seq![views_of(r@)] + record_views(rs));
        assert(record_views(rs.push(r)) =~= record_views(rs).push(views_of(r@)));
    } else {
        assert(rs.push(r).drop_first() =~= rs.drop_first().push(r));
        lemma_record_views_push(rs.drop_first(), r);
        assert(rs.push(r)[0] == rs[0]);
        assert(record_views(rs.push(r)) == seq![views_of(rs[0]@)] + record_views(
            rs.drop_first().push(r),
        ));
        assert(record_views(rs) == seq![views_of(rs[0]@)] + record_views(rs.drop_first()));
        assert(record_views(rs.push(r)) =~= record_views(rs).push(views_of(r@)));
    }
}

/// Decodes a whole table file: the entire buffer is a back-to-back
/// sequence of records, with no header and no padding. `None` means the
/// buffer does not parse as such a sequence.
pub open spec fn dec_records(ts: Seq<FieldType>, s: Seq<u8>) -> Option<Seq<Seq<AbsValue>>>
    decreases s.len(),
{
    if s.len() == 0 {
        Some(Seq::empty())
    } else {
        match dec_fields(ts, s) {
            Some((vs, u)) => if u == 0 || u > s.len() {
                None
            } else {
                match dec_records(ts, s.skip(u as int)) {
                    Some(rs) => Some(seq![vs] + rs),
                    None => None,
                }
            },
            None => None,
        }
    }
}

/// The wire bytes of a whole table: the concatenation of its records'
/// bytes, in order.
pub open spec fn wire_records(ts: Seq<FieldType>, rs: Seq<Seq<AbsValue>>) -> Seq<u8>
    decreases rs.len(),
{
    if rs.len() == 0 {
        Seq::empty()
    } else {
        wire_fields(ts, rs[0]) + wire_records(ts, rs.drop_first())
    }
}

pub proof fn lemma_wire_records_push(ts: Seq<FieldType>, rs: Seq<Seq<AbsValue>>, r: Seq<AbsValue>)
    ensures
        wire_records(ts, rs.push(r)) == wire_records(ts, rs) + wire_fields(ts, r),
    decreases rs.len(),
{
    if rs.len() == 0 {
        assert(rs.push(r).drop_first() =~= rs);
        assert(wire_records(ts, rs.push(r)) =~= wire_records(ts, rs) + wire_fields(ts, r));
    } else {
        assert(rs.push(r).drop_first() =~= rs.drop_first().push(r));
        lemma_wire_records_push(ts, rs.drop_first(), r);
        assert(rs.push(r)[0] == rs[0]);
        assert(wire_records(ts, rs.push(r)) =~= wire_records(ts, rs) + wire_fields(ts, r));
    }
}

impl RecordSchema {
    /// Decodes one record at `*pos`, applying each field rule in declared
    /// order and failing fast, with `*pos` unchanged, on truncated input.
    pub fn decode_record(&self, data: &Vec<u8>, pos: &mut usize) -> (r: Result<
        Record,
        CodecError,
    >)
        requires
            *old(pos) <= data@.len(),
        ensures
            ({
                let s = data@.skip(*old(pos) as int);
                match r {
                    Ok(vs) => {
                        &&& *old(pos) <= *final(pos) <= data@.len()
                        &&& dec_fields(self.fields@, s) == Some((
                            views_of(vs@),
                            (*final(pos) - *old(pos)) as nat,
                        ))
                    },
                    Err(e) => {
                        &&& e == CodecError::TruncatedInput
                        &&& dec_fields(self.fields@, s) is None
                        &&& *final(pos) == *old(pos)
                    },
                }
            }),
    {
        decode_fields(data, pos, &self.fields)
    }

    /// Encodes one record, reproducing field order and widths exactly.
    /// Fails with `MalformedField` when a value's shape does not match its
    /// field, and with `ValueOutOfRange` when a length or count exceeds
    /// what its wire width can store; succeeds otherwise.
    pub fn encode_record(&self, rec: &Record) -> (r: Result<Vec<u8>, CodecError>)
        ensures
            ({
                let va = views_of(rec@);
                match r {
                    Ok(bytes) => {
                        &&& fields_valid(self.fields@, va)
                        &&& bytes@ == wire_fields(self.fields@, va)
                    },
                    Err(e) => {
                        &&& !fields_valid(self.fields@, va)
                        &&& (e == CodecError::MalformedField <==> !fields_shape(
                            self.fields@,
                            va,
                        ))
                        &&& (e == CodecError::ValueOutOfRange <==> fields_shape(self.fields@, va))
                    },
                }
            }),
    {
        let (sh, va) = check_fields(&self.fields, rec);
        if !va {
            if !sh {
                Err(CodecError::MalformedField)
            } else {
                Err(CodecError::ValueOutOfRange)
            }
        } else {
            let mut out: Vec<u8> = Vec::new();
            encode_fields(&mut out, &self.fields, rec);
            Ok(out)
        }
    }

    /// Decodes a whole table file as a back-to-back sequence of records.
    /// Succeeds exactly when the buffer parses completely, with no bytes
    /// left over.
    #[verifier::loop_isolation(false)]
    pub fn decode_table(&self, data: &Vec<u8>) -> (r: Result<Vec<Record>, CodecError>)
        ensures
            match r {
                Ok(rs) => dec_records(self.fields@, data@) == Some(record_views(rs@)),
                Err(e) => {
                    &&& e == CodecError::TruncatedInput
                    &&& dec_records(self.fields@, data@) is None
                },
            },
    {
        let ghost ts = self.fields@;
        let mut out: Vec<Record> = Vec::new();
        let mut pos: usize = 0;
        proof {
            assert(data@.skip(0int) =~= data@);
            assert(record_views(out@) =~= Seq::<Seq<AbsValue>>::empty());
            if dec_records(ts, data@) is Some {
                let rs2 = dec_records(ts, data@).unwrap();
                assert(Seq::<Seq<AbsValue>>::empty() + rs2 =~= rs2);
            }
        }
        while pos < data.len()
            invariant
                pos <= data@.len(),
                ({
                    let remp = data@.skip(pos as int);
                    match dec_records(ts, remp) {
                        Some(rs2) => dec_records(ts, data@) == Some(record_views(out@) + rs2),
                        None => dec_records(ts, data@) is None,
                    }
                }),
            decreases data@.len() - pos,
        {
            let p0 = pos;
            match decode_fields(data, &mut pos, &self.fields) {
                Ok(rec) => {
                    proof {
                        let rem0 = data@.skip(p0 as int);
                        let rem1 = data@.skip(pos as int);
                        let u1 = (pos - p0) as nat;
                        assert(rem0.skip(u1 as int) =~= rem1);
                        assert(dec_fields(ts, rem0) == Some((views_of(rec@), u1)));
                        lemma_record_views_push(out@, rec);
                    }
                    if pos == p0 {
                        proof {
                            assert(dec_records(ts, data@.skip(p0 as int)) is None);
                        }
                        return Err(CodecError::TruncatedInput);
                    }
                    proof {
                        let rem0 = data@.skip(p0 as int);
                        let rem1 = data@.skip(pos as int);
                        let u1 = (pos - p0) as nat;
                        if dec_records(ts, rem1) is Some {
                            let rs2 = dec_records(ts, rem1).unwrap();
                            assert(dec_records(ts, rem0) == Some((seq![views_of(rec@)] + rs2)));
                            assert(record_views(out@) + (seq![views_of(rec@)] + rs2)
                                =~= record_views(out@).push(views_of(rec@)) + rs2);
                        } else {
                            assert(dec_records(ts, rem0) is None);
                        }
                    }
                    out.push(rec);
                },
                Err(_) => {
                    proof {
                        assert(dec_records(ts, data@.skip(p0 as int)) is None);
                    }
                    return Err(CodecError::TruncatedInput);
                },
            }
        }
        proof {
            assert(data@.skip(pos as int) =~= Seq::<u8>::empty());
            assert(dec_records(ts, data@.skip(pos as int)) == Some(Seq::<Seq<AbsValue>>::empty()));
            assert(record_views(out@) + Seq::<Seq<AbsValue>>::empty() =~= record_views(out@));
        }
        Ok(out)
    }

    /// Encodes a whole table: the concatenation of its records' bytes, in
    /// order. Succeeds exactly when every record is encodable.
    #[verifier::loop_isolation(false)]
    pub fn encode_table(&self, rs: &Vec<Record>) -> (r: Result<Vec<u8>, CodecError>)
        ensures
            ({
                let rvs = record_views(rs@);
                match r {
                    Ok(bytes) => {
                        &&& forall|i: int|
                            0 <= i < rs@.len() ==> fields_valid(self.fields@, #[trigger] rvs[i])
                        &&& bytes@ == wire_records(self.fields@, rvs)
                    },
                    Err(e) => {
                        &&& exists|i: int|
                            0 <= i < rs@.len() && !fields_valid(self.fields@, #[trigger] rvs[i])
                        &&& (e == CodecError::MalformedField || e == CodecError::ValueOutOfRange)
                    },
                }
            }),
    {
        let ghost rvs = record_views(rs@);
        proof {
            lemma_record_views_len(rs@);
        }
        let mut out: Vec<u8> = Vec::new();
        let mut i: usize = 0;
        while i < rs.len()
            invariant
                i <= rs@.len(),
                rvs == record_views(rs@),
                rvs.len() == rs@.len(),
                forall|q: int| 0 <= q < i ==> fields_valid(self.fields@, #[trigger] rvs[q]),
                out@ == wire_records(self.fields@, rvs.take(i as int)),
            decreases rs@.len() - i,
        {
            proof {
                lemma_record_views_index(rs@, i as int);
            }
            match self.encode_record(&rs[i]) {
                Ok(bytes) => {
                    write_bytes(&mut out, &bytes);
                    proof {
                        lemma_wire_records_push(self.fields@, rvs.take(i as int), rvs[i as int]);
                        assert(rvs.take(i as int).push(rvs[i as int]) =~= rvs.take(i as int + 1));
                    }
                    i = i + 1;
                },
                Err(e) => {
                    return Err(e);
                },
            }
        }
        proof {
            assert(rvs.take(rvs.len() as int) =~= rvs);
        }
        Ok(out)
    }
}

pub proof fn lemma_record_views_index(rs: Seq<Record>, i: int)
    requires
        0 <= i < rs.len(),
    ensures
        record_views(rs).len() == rs.len(),
        record_views(rs)[i] == views_of(rs[i]@),
    decreases rs.len(),
{
    lemma_record_views_len(rs);
    if i == 0 {
        assert(record_views(rs)[0] == views_of(rs[0]@));
    } else {
        lemma_record_views_index(rs.drop_first(), i - 1);
        assert(record_views(rs) == seq![views_of(rs[0]@)] + record_views(rs.drop_first()));
        assert(record_views(rs)[i] == record_views(rs.drop_first())[i - 1]);
        assert(rs.drop_first()[i - 1] == rs[i]);
    }
}

} // verus!
