//! The transaction record and the decoding of its fields from bytes.

use vstd::prelude::*;

verus! {

/// The kind of a transaction, decoded from its type tag.
#[derive(Clone, Copy, Debug, PartialEq, Eq, Structural)]
pub enum TxKind {
    Deposit,
    Withdrawal,
    Dispute,
    Resolve,
    Chargeback,
    /// A tag that names none of the five kinds; such a record is dropped.
    Unknown,
}

/// One transaction of the input log.
#[derive(Clone, Copy, Debug, PartialEq, Eq, Structural)]
pub struct Record {
    pub kind: TxKind,
    /// The client; absent where the cell was empty or not a valid `u16`.
    pub client: Option<u16>,
    pub tx: u32,
    /// Ten-thousandths of a unit; absent where the cell was empty or invalid.
    pub amount: Option<i64>,
}

/// Why a row could not be decoded. Such a row ends the whole run.
#[derive(Clone, Copy, Debug, PartialEq, Eq, Structural)]
pub enum RowError {
    /// The row does not have the four cells `type, client, tx, amount`.
    ColumnCount,
    /// The `tx` cell is not an unsigned 32-bit integer.
    InvalidTx,
}

pub open spec fn is_digit(c: u8) -> bool {
    48 <= c <= 57
}

pub open spec fn all_digits(s: Seq<u8>) -> bool {
    forall|i: int| 0 <= i < s.len() ==> is_digit(#[trigger] s[i])
}

/// The number that the decimal digits `s` write; zero for no digits.
pub open spec fn digits_value(s: Seq<u8>) -> nat
    decreases s.len(),
{
    if s.len() == 0 {
        0
    } else {
        digits_value(s.drop_last()) * 10 + (s.last() - 48) as nat
    }
}

/// `s` without one leading `+`.
pub open spec fn unsigned_body(s: Seq<u8>) -> Seq<u8> {
    if s.len() > 0 && s[0] == 43 {
        s.drop_first()
    } else {
        s
    }
}

/// The unsigned integer that `s` writes, an optional `+` then at least one
/// decimal digit, where it is at most `max`.
pub open spec fn unsigned_value(s: Seq<u8>, max: nat) -> Option<nat> {
    let d = unsigned_body(s);
    if d.len() > 0 && all_digits(d) && digits_value(d) <= max {
        Some(digits_value(d))
    } else {
        None
    }
}

/// The kind that a type tag names.
pub open spec fn kind_of(tag: Seq<u8>) -> TxKind {
    if tag == seq![100u8, 101, 112, 111, 115, 105, 116] {
        TxKind::Deposit
    } else if tag == seq![119u8, 105, 116, 104, 100, 114, 97, 119, 97, 108] {
        TxKind::Withdrawal
    } else if tag == seq![100u8, 105, 115, 112, 117, 116, 101] {
        TxKind::Dispute
    } else if tag == seq![114u8, 101, 115, 111, 108, 118, 101] {
        TxKind::Resolve
    } else if tag == seq![99u8, 104, 97, 114, 103, 101, 98, 97, 99, 107] {
        TxKind::Chargeback
    } else {
        TxKind::Unknown
    }
}

/// A longer prefix of digits writes a number at least as large.
proof fn lemma_prefix_value_le(s: Seq<u8>, i: int)
    requires
        all_digits(s),
        0 <= i <= s.len(),
    ensures
        digits_value(s.subrange(0, i)) <= digits_value(s),
    decreases s.len() - i,
{
    if i == s.len() {
        assert(s.subrange(0, i) =~= s);
    } else {
        lemma_prefix_value_le(s, i + 1);
        assert(s.subrange(0, i + 1).drop_last() =~= s.subrange(0, i));
    }
}

pub open spec fn pow10(n: nat) -> nat
    decreases n,
{
    if n == 0 {
        1
    } else {
        10 * pow10((n - 1) as nat)
    }
}

/// `n` digits write a number below `10^n`.
proof fn lemma_value_below_pow10(s: Seq<u8>)
    requires
        all_digits(s),
    ensures
        digits_value(s) < pow10(s.len()),
    decreases s.len(),
{
    if s.len() > 0 {
        lemma_value_below_pow10(s.drop_last());
        assert(is_digit(s[s.len() - 1]));
    }
}

/// The value of the digits `s[lo..hi]`, where all are digits and the value
/// is at most `max`.
fn digit_run_value(s: &[u8], lo: usize, hi: usize, max: u64) -> (r: Option<u64>)
    requires
        lo <= hi <= s@.len(),
        max <= 1_000_000_000_000_000_000,
    ensures
        r == (if all_digits(s@.subrange(lo as int, hi as int)) && digits_value(
            s@.subrange(lo as int, hi as int),
        ) <= max {
            Some(digits_value(s@.subrange(lo as int, hi as int)) as u64)
        } else {
            None::<u64>
        }),
{
    let ghost d = s@.subrange(lo as int, hi as int);
    let mut acc: u64 = 0;
    let mut i: usize = lo;
    assert(d.subrange(0, 0) =~= Seq::<u8>::empty());
    while i < hi
        invariant
            lo <= i <= hi <= s@.len(),
            d == s@.subrange(lo as int, hi as int),
            max <= 1_000_000_000_000_000_000,
            all_digits(d.subrange(0, i - lo)),
            acc == digits_value(d.subrange(0, i - lo)),
            acc <= max,
        decreases hi - i,
    {
        let c = s[i];
        assert(d[i - lo] == c);
        if c < 48 || c > 57 {
            assert(!is_digit(d[i - lo]));
            return None;
        }
        let next = acc * 10 + (c - 48) as u64;
        assert(d.subrange(0, i - lo + 1).drop_last() =~= d.subrange(0, i - lo));
        assert(digits_value(d.subrange(0, i - lo + 1)) == next);
        assert(all_digits(d.subrange(0, i - lo + 1)));
        if next > max {
            proof {
                if all_digits(d) {
                    lemma_prefix_value_le(d, i - lo + 1);
                }
            }
            return None;
        }
        acc = next;
        i += 1;
    }
    assert(d.subrange(0, i - lo) =~= d);
    Some(acc)
}

/// The unsigned integer that `s` writes, where it is at most `max`.
pub fn parse_unsigned(s: &[u8], max: u64) -> (r: Option<u64>)
    requires
        max <= u32::MAX,
    ensures
        r == (match unsigned_value(s@, max as nat) {
            Some(v) => Some(v as u64),
            None => None::<u64>,
        }),
{
    let lo: usize = if s.len() > 0 && s[0] == 43 { 1 } else { 0 };
    assert(unsigned_body(s@) =~= s@.subrange(lo as int, s@.len() as int));
    if lo == s.len() {
        return None;
    }
    digit_run_value(s, lo, s.len(), max)
}

/// The client id that a `client` cell writes; absent where the cell is empty
/// or is not a `u16`.
pub fn parse_client(s: &[u8]) -> (r: Option<u16>)
    ensures
        r == (match unsigned_value(s@, u16::MAX as nat) {
            Some(v) => Some(v as u16),
            None => None::<u16>,
        }),
{
    match parse_unsigned(s, 0xffff) {
        Some(v) => Some(v as u16),
        None => None,
    }
}

/// The transaction id that a `tx` cell writes.
pub fn parse_tx(s: &[u8]) -> (r: Result<u32, RowError>)
    ensures
        r == (match unsigned_value(s@, u32::MAX as nat) {
            Some(v) => Ok::<u32, RowError>(v as u32),
            None => Err(RowError::InvalidTx),
        }),
{
    match parse_unsigned(s, 0xffff_ffff) {
        Some(v) => Ok(v as u32),
        None => Err(RowError::InvalidTx),
    }
}

/// Whether the bytes `s` are the word `w`.
fn is_word(s: &[u8], w: &[u8]) -> (r: bool)
    ensures
        r == (s@ == w@),
{
    if s.len() != w.len() {
        return false;
    }
    let mut i: usize = 0;
    while i < s.len()
        invariant
            s@.len() == w@.len(),
            i <= s@.len(),
            forall|j: int| 0 <= j < i ==> s@[j] == w@[j],
        decreases s@.len() - i,
    {
        if s[i] != w[i] {
            return false;
        }
        i += 1;
    }
    assert(s@ =~= w@);
    true
}

/// The kind that a `type` cell names; `Unknown` for any other tag.
pub fn parse_kind(tag: &[u8]) -> (k: TxKind)
    ensures
        k == kind_of(tag@),
{
    let deposit: [u8; 7] = [100, 101, 112, 111, 115, 105, 116];
    let withdrawal: [u8; 10] = [119, 105, 116, 104, 100, 114, 97, 119, 97, 108];
    let dispute: [u8; 7] = [100, 105, 115, 112, 117, 116, 101];
    let resolve: [u8; 7] = [114, 101, 115, 111, 108, 118, 101];
    let chargeback: [u8; 10] = [99, 104, 97, 114, 103, 101, 98, 97, 99, 107];
    assert(deposit@ =~= seq![100u8, 101, 112, 111, 115, 105, 116]);
    assert(withdrawal@ =~= seq![119u8, 105, 116, 104, 100, 114, 97, 119, 97, 108]);
    assert(dispute@ =~= seq![100u8, 105, 115, 112, 117, 116, 101]);
    assert(resolve@ =~= seq![114u8, 101, 115, 111, 108, 118, 101]);
    assert(chargeback@ =~= seq![99u8, 104, 97, 114, 103, 101, 98, 97, 99, 107]);
    if is_word(tag, deposit.as_slice()) {
        TxKind::Deposit
    } else if is_word(tag, withdrawal.as_slice()) {
        TxKind::Withdrawal
    } else if is_word(tag, dispute.as_slice()) {
        TxKind::Dispute
    } else if is_word(tag, resolve.as_slice()) {
        TxKind::Resolve
    } else if is_word(tag, chargeback.as_slice()) {
        TxKind::Chargeback
    } else {
        TxKind::Unknown
    }
}

/// `s` without one leading sign.
pub open spec fn signed_body(s: Seq<u8>) -> Seq<u8> {
    if s.len() > 0 && (s[0] == 45 || s[0] == 43) {
        s.drop_first()
    } else {
        s
    }
}

/// The index of the first `.` in `s`, or its length where it has none.
pub open spec fn first_dot(s: Seq<u8>) -> int
    decreases s.len(),
{
    if s.len() == 0 {
        0
    } else if s[0] == 46 {
        0
    } else {
        1 + first_dot(s.drop_first())
    }
}

/// Ten-thousandths in one unit of the last of `n` fraction digits.
pub open spec fn fraction_scale(n: nat) -> nat {
    if n == 0 {
        10000
    } else if n == 1 {
        1000
    } else if n == 2 {
        100
    } else if n == 3 {
        10
    } else {
        1
    }
}

/// The digits of an unsigned amount before its `.`.
pub open spec fn int_part(b: Seq<u8>) -> Seq<u8> {
    b.subrange(0, first_dot(b))
}

/// The digits of an unsigned amount after its `.`; none where it has no `.`.
pub open spec fn frac_part(b: Seq<u8>) -> Seq<u8> {
    if first_dot(b) < b.len() {
        b.subrange(first_dot(b) + 1, b.len() as int)
    } else {
        Seq::empty()
    }
}

/// The size, in ten-thousandths, of the amount with digits `ip . fp`.
pub open spec fn magnitude(ip: Seq<u8>, fp: Seq<u8>) -> int {
    (digits_value(ip) * 10000 + digits_value(fp) * fraction_scale(fp.len())) as int
}

/// The size, in ten-thousandths, that an unsigned amount `b` writes: decimal
/// digits, then optionally `.` and at most four more digits, with at least
/// one digit in all, where that fits in an `i64`.
pub open spec fn magnitude_value(b: Seq<u8>) -> Option<int> {
    let ip = int_part(b);
    let fp = frac_part(b);
    if all_digits(ip) && all_digits(fp) && ip.len() + fp.len() > 0 && fp.len() <= 4
        && magnitude(ip, fp) <= i64::MAX {
        Some(magnitude(ip, fp))
    } else {
        None
    }
}

/// The amount, in ten-thousandths, that an `amount` cell writes: an optional
/// sign before an unsigned amount. Absent where the cell is not of that form
/// or the amount does not fit in an `i64`.
pub open spec fn amount_value(s: Seq<u8>) -> Option<int> {
    match magnitude_value(signed_body(s)) {
        Some(m) => Some(
            if s.len() > 0 && s[0] == 45 {
                -m
            } else {
                m
            },
        ),
        None => None,
    }
}

/// The index of the first `.` of `s` at or after `lo`, or the length of `s`.
fn find_dot(s: &[u8], lo: usize) -> (k: usize)
    requires
        lo <= s@.len(),
    ensures
        lo <= k <= s@.len(),
        k - lo == first_dot(s@.subrange(lo as int, s@.len() as int)),
{
    let mut i: usize = lo;
    while i < s.len()
        invariant
            lo <= i <= s@.len(),
            first_dot(s@.subrange(lo as int, s@.len() as int)) == (i - lo) + first_dot(
                s@.subrange(i as int, s@.len() as int),
            ),
        decreases s@.len() - i,
    {
        if s[i] == 46 {
            return i;
        }
        assert(s@.subrange(i as int, s@.len() as int).drop_first() =~= s@.subrange(
            i + 1,
            s@.len() as int,
        ));
        i += 1;
    }
    i
}

/// The size that the unsigned amount `s[lo..]` writes.
#[verifier::rlimit(30)]
fn parse_magnitude(s: &[u8], lo: usize) -> (r: Option<u64>)
    requires
        lo <= s@.len(),
    ensures
        r == (match magnitude_value(s@.subrange(lo as int, s@.len() as int)) {
            Some(v) => Some(v as u64),
            None => None::<u64>,
        }),
{
    let ghost b = s@.subrange(lo as int, s@.len() as int);
    let k = find_dot(s, lo);
    let fl: usize = if k < s.len() { k + 1 } else { k };
    let ghost ips = s@.subrange(lo as int, k as int);
    let ghost fps = s@.subrange(fl as int, s@.len() as int);
    assert(int_part(b) =~= ips);
    assert(frac_part(b) =~= fps);
    let flen = s.len() - fl;
    if (k - lo) + flen == 0 || flen > 4 {
        return None;
    }
    let ip = match digit_run_value(s, lo, k, 922_337_203_685_477) {
        Some(v) => v,
        None => {
            return None;
        },
    };
    let fp = match digit_run_value(s, fl, s.len(), 9999) {
        Some(v) => v,
        None => {
            proof {
                if all_digits(fps) {
                    lemma_value_below_pow10(fps);
                    assert(pow10(fps.len()) <= 10000) by {
                        reveal_with_fuel(pow10, 5);
                    }
                }
            }
            return None;
        },
    };
    let scale: u64 = if flen == 0 {
        10000
    } else if flen == 1 {
        1000
    } else if flen == 2 {
        100
    } else if flen == 3 {
        10
    } else {
        1
    };
    assert(scale == fraction_scale(fps.len()));
    assert(fp * scale <= 9999 * 10000) by (nonlinear_arith)
        requires
            fp <= 9999,
            scale <= 10000,
    ;
    let mag: u64 = ip * 10000 + fp * scale;
    assert(mag == magnitude(ips, fps));
    if mag > 0x7fff_ffff_ffff_ffff {
        return None;
    }
    Some(mag)
}

/// The amount that an `amount` cell writes, in ten-thousandths; absent where
/// the cell is empty or malformed.
pub fn parse_amount(s: &[u8]) -> (r: Option<i64>)
    ensures
        r == (match amount_value(s@) {
            Some(v) => Some(v as i64),
            None => None::<i64>,
        }),
{
    let lo: usize = if s.len() > 0 && (s[0] == 45 || s[0] == 43) { 1 } else { 0 };
    assert(signed_body(s@) =~= s@.subrange(lo as int, s@.len() as int));
    match parse_magnitude(s, lo) {
        Some(mag) => if lo == 1 && s[0] == 45 {
            Some(-(mag as i64))
        } else {
            Some(mag as i64)
        },
        None => None,
    }
}

/// The client cell decoded: absent where it is not a `u16`.
pub open spec fn client_value(s: Seq<u8>) -> Option<u16> {
    match unsigned_value(s, u16::MAX as nat) {
        Some(v) => Some(v as u16),
        None => None,
    }
}

/// The record that the cells `type, client, tx, amount` of a row write.
pub open spec fn row_value(cells: Seq<Seq<u8>>) -> Result<Record, RowError> {
    if cells.len() != 4 {
        Err(RowError::ColumnCount)
    } else {
        match unsigned_value(cells[2], u32::MAX as nat) {
            None => Err(RowError::InvalidTx),
            Some(tx) => Ok(
                Record {
                    kind: kind_of(cells[0]),
                    client: client_value(cells[1]),
                    tx: tx as u32,
                    amount: match amount_value(cells[3]) {
                        Some(a) => Some(a as i64),
                        None => None,
                    },
                },
            ),
        }
    }
}

/// Decodes one row of cells, already trimmed of surrounding whitespace.
pub fn parse_row(cells: &Vec<Vec<u8>>) -> (r: Result<Record, RowError>)
    ensures
        r == row_value(cells.deep_view()),
{
    if cells.len() != 4 {
        return Err(RowError::ColumnCount);
    }
    let ghost d = cells.deep_view();
    assert(d[0] == cells@[0]@ && d[1] == cells@[1]@ && d[2] == cells@[2]@ && d[3] == cells@[3]@);
    let tx = match parse_tx(cells[2].as_slice()) {
        Ok(t) => t,
        Err(e) => {
            return Err(e);
        },
    };
    Ok(
        Record {
            kind: parse_kind(cells[0].as_slice()),
            client: parse_client(cells[1].as_slice()),
            tx,
            amount: parse_amount(cells[3].as_slice()),
        },
    )
}

} // verus!
