use vstd::prelude::*;
use vstd::string::*;

verus! {

/// The lowercase form of a string, as `str::to_lowercase` computes it.
/// The full Unicode mapping takes pages to state, so the library names
/// the result and never claims what it is on particular characters.
pub uninterp spec fn lower_of(s: Seq<char>) -> Seq<char>;

/// Relies on str::to_lowercase: the result depends on the characters
/// alone, and the empty string stays empty.
#[verifier::external_body]
pub(crate) fn lowercase(s: &str) -> (r: String)
    ensures
        r@ == lower_of(s@),
        s@.len() == 0 ==> r@.len() == 0,
{
    s.to_lowercase()
}

/// The character for the decimal digit `d`.
pub open spec fn digit_char(d: nat) -> char {
    ((48 + d) as u8) as char
}

/// Whether `c` is a decimal digit.
pub open spec fn is_dec_digit(c: char) -> bool {
    48 <= c as int <= 57
}

/// The value of the decimal digit `c`.
pub open spec fn digit_val(c: char) -> nat {
    (c as int - 48) as nat
}

/// The decimal digits of `n`, most significant first, with no sign and no
/// leading zero (except for zero itself).
pub open spec fn dec_digits(n: nat) -> Seq<char>
    decreases n,
{
    if n < 10 {
        seq![digit_char(n)]
    } else {
        dec_digits(n / 10).push(digit_char(n % 10))
    }
}

/// Relies on the `Display` impl of u32 through format!: it renders the
/// value in decimal with no sign, no separators and no leading zeros.
#[verifier::external_body]
pub(crate) fn u32_to_decimal(n: u32) -> (r: String)
    ensures
        r@ == dec_digits(n as nat),
{
    format!("{}", n)
}

/// The numeric value of a digit string, most significant digit first.
pub open spec fn dec_val(s: Seq<char>) -> nat
    decreases s.len(),
{
    if s.len() == 0 {
        0
    } else {
        dec_val(s.drop_last()) * 10 + digit_val(s.last())
    }
}

/// The digits of a numeral as `u32::from_str` reads it: an optional
/// leading plus sign is dropped.
pub open spec fn numeral_digits(s: Seq<char>) -> Seq<char> {
    if s.len() > 0 && s[0] == '+' {
        s.drop_first()
    } else {
        s
    }
}

/// Whether `s` is a numeral `u32::from_str` accepts: at least one digit,
/// digits only after the optional sign, value within u32.
pub open spec fn is_u32_numeral(s: Seq<char>) -> bool {
    let ds = numeral_digits(s);
    &&& ds.len() > 0
    &&& forall|i: int| 0 <= i < ds.len() ==> is_dec_digit(#[trigger] ds[i])
    &&& dec_val(ds) <= u32::MAX
}

proof fn lemma_dec_val_take_step(ds: Seq<char>, i: int)
    requires
        0 <= i < ds.len(),
    ensures
        dec_val(ds.take(i + 1)) == dec_val(ds.take(i)) * 10 + digit_val(ds[i]),
{
    assert(ds.take(i + 1).drop_last() =~= ds.take(i));
    assert(ds.take(i + 1).last() == ds[i]);
}

proof fn lemma_dec_val_take_le(ds: Seq<char>, i: int, j: int)
    requires
        0 <= i <= j <= ds.len(),
    ensures
        dec_val(ds.take(i)) <= dec_val(ds.take(j)),
    decreases j - i,
{
    if i < j {
        lemma_dec_val_take_le(ds, i, j - 1);
        lemma_dec_val_take_step(ds, j - 1);
    }
}

/// Reads a decimal numeral the way `u32::from_str` does: an optional
/// leading plus sign, then decimal digits. Returns the value exactly when
/// the whole string is such a numeral and the value fits in a u32.
#[verifier::loop_isolation(false)]
pub fn parse_u32(s: &str) -> (r: Option<u32>)
    ensures
        match r {
            Some(v) => is_u32_numeral(s@) && v as nat == dec_val(numeral_digits(s@)),
            None => !is_u32_numeral(s@),
        },
{
    let n = s.unicode_len();
    let start: usize = if n > 0 && s.get_char(0) == '+' {
        1
    } else {
        0
    };
    let ghost ds = numeral_digits(s@);
    proof {
        assert(ds =~= s@.skip(start as int));
    }
    if n == start {
        return None;
    }
    let mut acc: u64 = 0;
    let mut i: usize = start;
    while i < n
        invariant
            start <= i <= n,
            n == s@.len(),
            ds == s@.skip(start as int),
            forall|q: int| 0 <= q < i - start ==> is_dec_digit(#[trigger] ds[q]),
            acc as nat == dec_val(ds.take(i - start)),
            acc <= u32::MAX,
        decreases n - i,
    {
        let c = s.get_char(i);
        let cv = c as u32;
        if cv < 48 || cv > 57 {
            proof {
                assert(ds[i - start] == s@[i as int]);
                assert(!is_dec_digit(ds[i - start]));
            }
            return None;
        }
        let d: u64 = (cv - 48) as u64;
        let next: u64 = acc * 10 + d;
        proof {
            lemma_dec_val_take_step(ds, i - start);
            assert(ds[i - start] == s@[i as int]);
        }
        if next > 0xffffffff {
            proof {
                lemma_dec_val_take_le(ds, i - start + 1, ds.len() as int);
                assert(ds.take(ds.len() as int) =~= ds);
            }
            return None;
        }
        acc = next;
        i = i + 1;
    }
    proof {
        assert(ds.take(ds.len() as int) =~= ds);
    }
    Some(acc as u32)
}

/// Whether `nee` occurs in `hay` as a contiguous run of characters.
pub open spec fn contains_seq(hay: Seq<char>, nee: Seq<char>) -> bool {
    exists|k: int|
        0 <= k <= hay.len() - nee.len() && #[trigger] hay.subrange(k, k + nee.len() as int) == nee
}

/// Substring search: whether `nee` occurs contiguously in `hay`.
#[verifier::loop_isolation(false)]
pub fn str_contains(hay: &str, nee: &str) -> (b: bool)
    ensures
        b == contains_seq(hay@, nee@),
{
    let hl = hay.unicode_len();
    let nl = nee.unicode_len();
    if nl > hl {
        return false;
    }
    if nl == 0 {
        proof {
            assert(hay@.subrange(0, 0 + nee@.len() as int) =~= nee@);
        }
        return true;
    }
    let mut k: usize = 0;
    while k <= hl - nl
        invariant
            k <= hl - nl + 1,
            hl == hay@.len(),
            nl == nee@.len(),
            0 < nl <= hl,
            forall|q: int| 0 <= q < k ==> #[trigger] hay@.subrange(q, q + nl as int) != nee@,
        decreases hl - nl - k + 1,
    {
        let mut j: usize = 0;
        let mut matched = true;
        while j < nl
            invariant
                j <= nl,
                k + nl <= hl,
                k <= hl - nl,
                matched ==> forall|p: int| 0 <= p < j ==> hay@[k + p] == nee@[p],
                !matched ==> hay@.subrange(k as int, k + nl as int) != nee@,
            decreases nl - j,
        {
            if hay.get_char(k + j) != nee.get_char(j) {
                matched = false;
                proof {
                    assert(hay@.subrange(k as int, k + nl as int)[j as int] == hay@[k + j]);
                    assert(hay@.subrange(k as int, k + nl as int) != nee@);
                }
                j = nl;
            } else {
                j = j + 1;
            }
        }
        if matched {
            proof {
                assert(hay@.subrange(k as int, k + nl as int) =~= nee@);
            }
            return true;
        }
        proof {
            assert(hay@.subrange(k as int, k + nl as int) != nee@);
        }
        k = k + 1;
    }
    proof {
        assert forall|q: int| 0 <= q <= hay@.len() - nee@.len() implies #[trigger] hay@.subrange(
            q,
            q + nee@.len() as int,
        ) != nee@ by {
            assert(q < k);
        }
    }
    false
}

} // verus!

verus! {

/// Whether a byte sequence is well-formed UTF-8, as `String::from_utf8`
/// decides it.
pub uninterp spec fn utf8_ok(b: Seq<u8>) -> bool;

/// The characters a well-formed UTF-8 byte sequence decodes to.
pub uninterp spec fn utf8_chars(b: Seq<u8>) -> Seq<char>;

/// The UTF-8 bytes of a character sequence.
pub uninterp spec fn utf8_bytes(s: Seq<char>) -> Seq<u8>;

/// Relies on String::from_utf8: it succeeds exactly on well-formed
/// UTF-8, the result depends on the bytes alone, and the returned
/// string's own UTF-8 bytes are exactly the input.
#[verifier::external_body]
pub(crate) fn bytes_to_string(b: Vec<u8>) -> (r: Option<String>)
    ensures
        r is Some <==> utf8_ok(b@),
        r is Some ==> r.unwrap()@ == utf8_chars(b@) && utf8_bytes(r.unwrap()@) == b@,
{
    match String::from_utf8(b) {
        Ok(s) => Some(s),
        Err(_) => None,
    }
}

/// Relies on str::as_bytes: the UTF-8 bytes of the string, which depend
/// on its characters alone.
#[verifier::external_body]
pub(crate) fn string_to_bytes(s: &str) -> (r: Vec<u8>)
    ensures
        r@ == utf8_bytes(s@),
{
    s.as_bytes().to_vec()
}

} // verus!
