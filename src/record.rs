//! Decoded input records.
use crate::error::RecordError;
use crate::protocol::{bytes_equal, kind_of_name, TransactionKind};
use vstd::prelude::*;

verus! {

/// One instruction of the input stream, already decoded. For a dispute, a
/// resolve or a chargeback the amount carries no meaning.
#[derive(Debug, Clone, Copy, PartialEq, Eq, Structural)]
pub struct Record {
    pub transaction_kind: TransactionKind,
    pub client: u16,
    pub tx: u32,
    pub amount: i64,
}

impl Record {
    /// Whether the record's amount is not negative.
    pub fn is_valid(&self) -> (r: bool)
        ensures
            r == (self.amount >= 0),
    {
        self.amount >= 0
    }
}

/// The largest amount a record may carry, in ten-thousandths: one hundred
/// trillion currency units.
pub const MAX_AMOUNT: u64 = 1_000_000_000_000_000_000;

/// Whether `b` is an ASCII decimal digit.
pub open spec fn is_digit(b: u8) -> bool {
    48 <= b <= 57
}

/// Whether every byte of `s` is an ASCII decimal digit.
pub open spec fn all_digits(s: Seq<u8>) -> bool {
    forall|i: int| 0 <= i < s.len() ==> #[trigger] is_digit(s[i])
}

/// The number written in decimal by the digits `s` (zero when `s` is empty).
pub open spec fn digits_value(s: Seq<u8>) -> nat
    decreases s.len(),
{
    if s.len() == 0 {
        0
    } else {
        digits_value(s.drop_last()) * 10 + (s.last() - 48) as nat
    }
}

/// How many ASCII digits `s` starts with.
pub open spec fn leading_digits(s: Seq<u8>) -> nat
    decreases s.len(),
{
    if s.len() > 0 && is_digit(s[0]) {
        1 + leading_digits(s.skip(1))
    } else {
        0
    }
}

/// The unsigned integer written by `s`: an optional `+` and then one or more
/// decimal digits.
pub open spec fn unsigned_text(s: Seq<u8>) -> Option<nat> {
    let d = if s.len() > 0 && s[0] == 43 {
        s.skip(1)
    } else {
        s
    };
    if d.len() > 0 && all_digits(d) {
        Some(digits_value(d))
    } else {
        None
    }
}

/// The amount written by `s`, in ten-thousandths. An empty field reads as
/// zero. Otherwise: an optional sign, decimal digits, and optionally a `.`
/// followed by at most four digits, with at least one digit in all; the
/// magnitude may not exceed `MAX_AMOUNT`.
pub open spec fn amount_text(s: Seq<u8>) -> Option<int> {
    if s.len() == 0 {
        Some(0)
    } else {
        let neg = s[0] == 45;
        let body = if s[0] == 45 || s[0] == 43 {
            s.skip(1)
        } else {
            s
        };
        let p = leading_digits(body) as int;
        let whole = body.take(p);
        let frac = if p < body.len() {
            body.skip(p + 1)
        } else {
            Seq::<u8>::empty()
        };
        if p < body.len() && (body[p] != 46 || !all_digits(frac) || frac.len() > 4) {
            None
        } else if whole.len() + frac.len() == 0 {
            None
        } else {
            let magnitude = digits_value(whole + frac + Seq::new((4 - frac.len()) as nat, |i: int| 48u8));
            if magnitude > MAX_AMOUNT {
                None
            } else if neg {
                Some(-magnitude)
            } else {
                Some(magnitude as int)
            }
        }
    }
}

/// A shorter run of leading digits has no greater value.
proof fn lemma_digits_prefix_le(s: Seq<u8>, k: int)
    requires
        0 <= k <= s.len(),
    ensures
        digits_value(s.take(k)) <= digits_value(s),
    decreases s.len(),
{
    if k < s.len() {
        lemma_digits_prefix_le(s.drop_last(), k);
        assert(s.drop_last().take(k) =~= s.take(k));
    } else {
        assert(s.take(k) =~= s);
    }
}

/// The run of leading digits of `s` counts the first `i` bytes, when those
/// are digits, and then the run that follows them.
proof fn lemma_leading_digits_split(s: Seq<u8>, i: int)
    requires
        0 <= i <= s.len(),
        all_digits(s.take(i)),
    ensures
        leading_digits(s) == i + leading_digits(s.skip(i)),
    decreases i,
{
    if i == 0 {
        assert(s.skip(0) =~= s);
    } else {
        assert(is_digit(s.take(i)[0]));
        assert(all_digits(s.skip(1).take(i - 1))) by {
            assert forall|j: int| 0 <= j < i - 1 implies #[trigger] is_digit(s.skip(1).take(i - 1)[j]) by {
                assert(s.skip(1).take(i - 1)[j] == s.take(i)[j + 1]);
            }
        }
        lemma_leading_digits_split(s.skip(1), i - 1);
        assert(s.skip(1).skip(i - 1) =~= s.skip(i));
    }
}

/// The value of the digits `s[start..]`, or `None` when it exceeds `max`.
fn digits_value_up_to(s: &[u8], start: usize, max: u64) -> (r: Option<u64>)
    requires
        start <= s@.len(),
        all_digits(s@.skip(start as int)),
    ensures
        r == (if digits_value(s@.skip(start as int)) <= max {
            Some(digits_value(s@.skip(start as int)) as u64)
        } else {
            None
        }),
{
    let ghost d = s@.skip(start as int);
    let mut v: u64 = 0;
    let mut i: usize = start;
    assert(d.take(0) =~= Seq::<u8>::empty());
    while i < s.len()
        invariant
            start <= i <= s@.len(),
            d == s@.skip(start as int),
            all_digits(d),
            v as nat == digits_value(d.take(i - start)),
            v <= max,
        decreases s@.len() - i,
    {
        assert(is_digit(d[i - start]));
        assert(d.take(i - start + 1).drop_last() =~= d.take(i - start));
        let next: u128 = (v as u128) * 10 + ((s[i] - 48) as u128);
        if next > max as u128 {
            proof {
                lemma_digits_prefix_le(d, i - start + 1);
            }
            return None;
        }
        v = next as u64;
        i = i + 1;
    }
    assert(d.take(i - start) =~= d);
    Some(v)
}

/// The unsigned integer written by `x`, when it is at most `max`.
pub fn parse_unsigned(x: &[u8], max: u64) -> (r: Option<u64>)
    ensures
        r == (match unsigned_text(x@) {
            Some(v) => if v <= max {
                Some(v as u64)
            } else {
                None
            },
            None => None,
        }),
{
    let start: usize = if x.len() > 0 && x[0] == 43 {
        1
    } else {
        0
    };
    assert(start == 0 ==> x@.skip(0) =~= x@);
    if start >= x.len() {
        return None;
    }
    let mut i: usize = start;
    while i < x.len()
        invariant
            start <= i <= x@.len(),
            forall|j: int| start <= j < i ==> is_digit(x@[j]),
            x@.skip(start as int) == (if x@.len() > 0 && x@[0] == 43 {
                x@.skip(1)
            } else {
                x@
            }),
        decreases x@.len() - i,
    {
        if x[i] < 48 || x[i] > 57 {
            assert(!is_digit(x@.skip(start as int)[i - start]));
            return None;
        }
        i = i + 1;
    }
    assert(all_digits(x@.skip(start as int))) by {
        assert forall|j: int| 0 <= j < x@.skip(start as int).len() implies #[trigger] is_digit(
            x@.skip(start as int)[j],
        ) by {
            assert(x@.skip(start as int)[j] == x@[start + j]);
        }
    }
    digits_value_up_to(x, start, max)
}

/// The amount written by `x`, in ten-thousandths (see `amount_text`).
#[verifier::rlimit(40)]
pub fn parse_amount(x: &[u8]) -> (r: Option<i64>)
    ensures
        r == (match amount_text(x@) {
            Some(v) => Some(v as i64),
            None => None,
        }),
{
    if x.len() == 0 {
        return Some(0);
    }
    let neg = x[0] == 45;
    let start: usize = if x[0] == 45 || x[0] == 43 {
        1
    } else {
        0
    };
    let ghost body = x@.skip(start as int);
    assert(start == 0 ==> body =~= x@);
    let mut p: usize = start;
    while p < x.len() && 48 <= x[p] && x[p] <= 57
        invariant
            start <= p <= x@.len(),
            forall|j: int| start <= j < p ==> is_digit(x@[j]),
        decreases x@.len() - p,
    {
        p = p + 1;
    }
    let ghost q = p - start;
    proof {
        assert(all_digits(body.take(q))) by {
            assert forall|j: int| 0 <= j < q implies #[trigger] is_digit(body.take(q)[j]) by {
                assert(body.take(q)[j] == x@[start + j]);
            }
        }
        lemma_leading_digits_split(body, q);
        if q < body.len() {
            assert(body.skip(q)[0] == x@[p as int]);
        }
        assert(leading_digits(body) == q);
    }
    let mut digits: Vec<u8> = Vec::new();
    let mut k: usize = start;
    while k < p
        invariant
            start <= k <= p <= x@.len(),
            body == x@.skip(start as int),
            forall|j: int| start <= j < p ==> is_digit(x@[j]),
            digits@ == x@.subrange(start as int, k as int),
        decreases p - k,
    {
        digits.push(x[k]);
        k = k + 1;
        assert(digits@ =~= x@.subrange(start as int, k as int));
    }
    assert(body.take(q) =~= x@.subrange(start as int, p as int));
    let mut frac_len: usize = 0;
    if p < x.len() {
        if x[p] != 46 {
            return None;
        }
        let mut k: usize = p + 1;
        while k < x.len()
            invariant
                p < k <= x@.len(),
                start <= p,
                body == x@.skip(start as int),
                body == (if x@[0] == 45 || x@[0] == 43 {
                    x@.skip(1)
                } else {
                    x@
                }),
                q == p - start,
                leading_digits(body) == q,
                digits@ == x@.subrange(start as int, p as int) + x@.subrange(p + 1, k as int),
                forall|j: int| p + 1 <= j < k ==> is_digit(x@[j]),
            decreases x@.len() - k,
        {
            if x[k] < 48 || x[k] > 57 {
                assert(body.skip(q + 1)[k - p - 1] == x@[k as int]);
                assert(!is_digit(body.skip(q + 1)[k - p - 1]));
                assert(!all_digits(body.skip(q + 1)));
                return None;
            }
            digits.push(x[k]);
            k = k + 1;
            assert(digits@ =~= x@.subrange(start as int, p as int) + x@.subrange(p + 1, k as int));
        }
        frac_len = x.len() - p - 1;
        assert(body.skip(q + 1) =~= x@.subrange(p + 1, x@.len() as int));
        if frac_len > 4 {
            return None;
        }
    }
    let ghost frac = if q < body.len() {
        body.skip(q + 1)
    } else {
        Seq::<u8>::empty()
    };
    assert(digits@ =~= body.take(q) + frac);
    if digits.len() == 0 {
        return None;
    }
    let ghost base = digits@;
    let mut z: usize = 0;
    while z < 4 - frac_len
        invariant
            frac_len <= 4,
            z <= 4 - frac_len,
            digits@ == base + Seq::new(z as nat, |i: int| 48u8),
        decreases 4 - frac_len - z,
    {
        digits.push(48);
        z = z + 1;
        assert(digits@ =~= base + Seq::new(z as nat, |i: int| 48u8));
    }
    assert(all_digits(digits@.skip(0))) by {
        assert(digits@.skip(0) =~= digits@);
        assert forall|j: int| 0 <= j < digits@.len() implies #[trigger] is_digit(digits@[j]) by {
            if j < base.len() {
                if j < q {
                    assert(digits@[j] == x@[start + j]);
                } else {
                    assert(digits@[j] == x@[start + j + 1]);
                }
            }
        }
    }
    assert(digits@.skip(0) =~= digits@);
    let magnitude = match digits_value_up_to(digits.as_slice(), 0, MAX_AMOUNT) {
        Some(v) => v,
        None => return None,
    };
    if neg {
        Some(-(magnitude as i64))
    } else {
        Some(magnitude as i64)
    }
}

#[verifier::external_type_specification]
#[verifier::external_body]
pub struct ExByteRecord(csv::ByteRecord);

/// The fields of a csv row, as bytes.
pub uninterp spec fn byte_record_fields(r: csv::ByteRecord) -> Seq<Seq<u8>>;

/// Whether `b` is ASCII whitespace: space, tab, line feed, form feed or
/// carriage return.
pub open spec fn is_ascii_space(b: u8) -> bool {
    b == 32 || b == 9 || b == 10 || b == 12 || b == 13
}

/// `s` without its leading ASCII whitespace.
pub open spec fn trim_start(s: Seq<u8>) -> Seq<u8>
    decreases s.len(),
{
    if s.len() > 0 && is_ascii_space(s[0]) {
        trim_start(s.skip(1))
    } else {
        s
    }
}

/// `s` without its trailing ASCII whitespace.
pub open spec fn trim_end(s: Seq<u8>) -> Seq<u8>
    decreases s.len(),
{
    if s.len() > 0 && is_ascii_space(s.last()) {
        trim_end(s.drop_last())
    } else {
        s
    }
}

/// `s` without its leading and trailing ASCII whitespace.
pub open spec fn trim_ascii(s: Seq<u8>) -> Seq<u8> {
    trim_start(trim_end(s))
}

/// Relies on csv::ByteRecord::trim: every field loses its leading and
/// trailing ASCII whitespace, and the number of fields stays the same.
#[verifier::external_body]
fn trim_fields(record: &mut csv::ByteRecord)
    ensures
        byte_record_fields(*final(record)) == byte_record_fields(*old(record)).map_values(
            |f: Seq<u8>| trim_ascii(f),
        ),
{
    record.trim()
}

/// Relies on csv::ByteRecord::get: the field at index `i`, or `None` past
/// the last field.
#[verifier::external_body]
fn field<'a>(record: &'a csv::ByteRecord, i: usize) -> (r: Option<&'a [u8]>)
    ensures
        match r {
            Some(f) => i < byte_record_fields(*record).len() && f@ == byte_record_fields(*record)[i as int],
            None => i >= byte_record_fields(*record).len(),
        },
{
    record.get(i)
}

/// The record that the fields `fs` describe: a kind name, a client id that
/// fits `u16`, a transaction id that fits `u32` and an amount. Fields past
/// the fourth are ignored. A malformed or missing field is a `Parse` error;
/// a negative amount makes the record `Invalid`.
pub open spec fn decode_fields(fs: Seq<Seq<u8>>) -> Result<Record, RecordError> {
    if fs.len() < 4 {
        Err(RecordError::Parse)
    } else {
        let kind = kind_of_name(fs[0]);
        let client = unsigned_text(fs[1]);
        let tx = unsigned_text(fs[2]);
        let amount = amount_text(fs[3]);
        if kind is Some && client is Some && client->0 <= u16::MAX && tx is Some && tx->0 <= u32::MAX
            && amount is Some {
            if amount->0 >= 0 {
                Ok(
                    Record {
                        transaction_kind: kind->0,
                        client: client->0 as u16,
                        tx: tx->0 as u32,
                        amount: amount->0 as i64,
                    },
                )
            } else {
                Err(RecordError::Invalid)
            }
        } else {
            Err(RecordError::Parse)
        }
    }
}

/// The names of the four columns of an input file, in order.
pub open spec fn record_header_names() -> Seq<Seq<u8>> {
    seq![
        seq![116u8, 121, 112, 101],
        seq![99u8, 108, 105, 101, 110, 116],
        seq![116u8, 120],
        seq![97u8, 109, 111, 117, 110, 116],
    ]
}

impl Record {
    /// Trims every field of the csv row `record`, then decodes it.
    pub fn from_byterecord(record: &mut csv::ByteRecord) -> (r: Result<Self, RecordError>)
        ensures
            byte_record_fields(*final(record)) == byte_record_fields(*old(record)).map_values(
                |f: Seq<u8>| trim_ascii(f),
            ),
            r == decode_fields(byte_record_fields(*final(record))),
    {
        trim_fields(record);
        let row: &csv::ByteRecord = record;
        let (f0, f1, f2, f3) = match (field(row, 0), field(row, 1), field(row, 2), field(row, 3)) {
            (Some(a), Some(b), Some(c), Some(d)) => (a, b, c, d),
            _ => return Err(RecordError::Parse),
        };
        let kind = TransactionKind::new(f0);
        let client = parse_unsigned(f1, 65535);
        let tx = parse_unsigned(f2, 4294967295);
        let amount = parse_amount(f3);
        match (kind, client, tx, amount) {
            (Some(k), Some(c), Some(t), Some(a)) => {
                let rec = Record { transaction_kind: k, client: c as u16, tx: t as u32, amount: a };
                if rec.is_valid() {
                    Ok(rec)
                } else {
                    Err(RecordError::Invalid)
                }
            },
            _ => Err(RecordError::Parse),
        }
    }
}

/// Whether field `i` of `row` is there and is exactly `name`.
fn field_is(row: &csv::ByteRecord, i: usize, name: &[u8]) -> (r: bool)
    ensures
        r == (i < byte_record_fields(*row).len() && byte_record_fields(*row)[i as int] == name@),
{
    match field(row, i) {
        Some(f) => bytes_equal(f, name),
        None => false,
    }
}

/// Whether the csv row `headers` names exactly the four columns of an input
/// file: `type`, `client`, `tx` and `amount`.
pub fn is_record_header(headers: &csv::ByteRecord) -> (r: bool)
    ensures
        r == (byte_record_fields(*headers) == record_header_names()),
{
    let kind_col: [u8; 4] = [116, 121, 112, 101];
    let client_col: [u8; 6] = [99, 108, 105, 101, 110, 116];
    let tx_col: [u8; 2] = [116, 120];
    let amount_col: [u8; 6] = [97, 109, 111, 117, 110, 116];
    let ghost names = record_header_names();
    assert(kind_col@ =~= names[0]);
    assert(client_col@ =~= names[1]);
    assert(tx_col@ =~= names[2]);
    assert(amount_col@ =~= names[3]);
    let r = field_is(headers, 0, kind_col.as_slice()) && field_is(headers, 1, client_col.as_slice())
        && field_is(headers, 2, tx_col.as_slice()) && field_is(headers, 3, amount_col.as_slice())
        && field(headers, 4).is_none();
    assert(r ==> byte_record_fields(*headers) =~= names);
    r
}

} // verus!
