//! The wire-frame codec.
//!
//! Every protocol message travels as one binary websocket message. Its first
//! byte is a tag: `0` marks raw terminal data, `1` marks a resize request
//! whose payload is the text `{"cols":C,"rows":R}`, and any other tag is
//! ignored for forward compatibility.

use vstd::prelude::*;

verus! {

/// Tag byte that marks a raw terminal-data frame.
pub const TAG_DATA: u8 = 0;

/// Tag byte that marks a client-originated resize request.
pub const TAG_RESIZE: u8 = 1;

/// Terminal geometry requested by the client, so the remote terminal
/// emulator and the pseudo-terminal agree on their dimensions.
/// Zero values carry no special meaning and are passed through as they are.
#[derive(Clone, Copy, PartialEq, Eq, Structural, Debug)]
pub struct WindowSize {
    pub cols: u16,
    pub rows: u16,
}

/// One unit of the multiplexing protocol.
pub enum Frame {
    /// Raw terminal bytes, in either direction.
    Data(Vec<u8>),
    /// A terminal geometry change, client to process only.
    Resize(WindowSize),
}

/// Mathematical model of a [`Frame`].
pub enum FrameModel {
    Data(Seq<u8>),
    Resize(u16, u16),
}

impl View for Frame {
    type V = FrameModel;

    open spec fn view(&self) -> FrameModel {
        match self {
            Frame::Data(b) => FrameModel::Data(b@),
            Frame::Resize(ws) => FrameModel::Resize(ws.cols, ws.rows),
        }
    }
}

/// Result of decoding one inbound binary message.
pub enum Decoded {
    /// A well-formed frame.
    Valid(Frame),
    /// An unknown tag, or an empty message: dropped for forward
    /// compatibility, never an error.
    Ignored,
    /// A resize frame whose payload is not a well-formed geometry text.
    MalformedControlFrame,
}

/// Mathematical model of a [`Decoded`].
pub enum DecodedModel {
    Valid(FrameModel),
    Ignored,
    MalformedControlFrame,
}

impl View for Decoded {
    type V = DecodedModel;

    open spec fn view(&self) -> DecodedModel {
        match self {
            Decoded::Valid(f) => DecodedModel::Valid(f@),
            Decoded::Ignored => DecodedModel::Ignored,
            Decoded::MalformedControlFrame => DecodedModel::MalformedControlFrame,
        }
    }
}

/// An ASCII decimal digit.
pub open spec fn is_digit(b: u8) -> bool {
    48 <= b <= 57
}

/// The canonical decimal numeral of `n`, most significant digit first.
pub open spec fn dec_digits(n: nat) -> Seq<u8>
    decreases n,
{
    if n < 10 {
        seq![(48 + n) as u8]
    } else {
        dec_digits(n / 10).push((48 + n % 10) as u8)
    }
}

/// The number denoted by a digit sequence, most significant digit first.
pub open spec fn digits_val(d: Seq<u8>) -> nat
    decreases d.len(),
{
    if d.len() == 0 {
        0
    } else {
        digits_val(d.drop_last()) * 10 + (d.last() - 48) as nat
    }
}

/// Every byte of `d` is an ASCII digit.
pub open spec fn all_digits(d: Seq<u8>) -> bool {
    forall|i: int| 0 <= i < d.len() ==> is_digit(d[i])
}

/// A canonical `u16` numeral: nonempty, digits only, no leading zero,
/// and a value that fits in sixteen bits.
pub open spec fn valid_numeral(d: Seq<u8>) -> bool {
    &&& d.len() > 0
    &&& all_digits(d)
    &&& (d[0] != 48 || d.len() == 1)
    &&& digits_val(d) <= 65535
}

/// The eight bytes of `{"cols":`.
pub open spec fn resize_prefix() -> Seq<u8> {
    seq![123u8, 34u8, 99u8, 111u8, 108u8, 115u8, 34u8, 58u8]
}

/// The eight bytes of `,"rows":`.
pub open spec fn resize_mid() -> Seq<u8> {
    seq![44u8, 34u8, 114u8, 111u8, 119u8, 115u8, 34u8, 58u8]
}

/// The resize payload text `{"cols":C,"rows":R}` for the given geometry.
pub open spec fn resize_payload_spec(cols: u16, rows: u16) -> Seq<u8> {
    resize_prefix() + dec_digits(cols as nat) + resize_mid() + dec_digits(rows as nat)
        + seq![125u8]
}

/// End of the run of ASCII digits that starts at position `i`.
pub open spec fn digit_run_end(s: Seq<u8>, i: int) -> int
    decreases s.len() - i,
    when 0 <= i <= s.len()
{
    if i < s.len() && is_digit(s[i]) {
        digit_run_end(s, i + 1)
    } else {
        i
    }
}

/// What a resize payload means: `Some((cols, rows))` exactly when the
/// payload is the canonical geometry text, `None` otherwise.
pub open spec fn parse_resize_spec(p: Seq<u8>) -> Option<(u16, u16)> {
    if p.len() < 8 || p.subrange(0, 8) != resize_prefix() {
        None
    } else {
        let e1 = digit_run_end(p, 8);
        let d1 = p.subrange(8, e1);
        if !valid_numeral(d1) {
            None
        } else if p.len() < e1 + 8 || p.subrange(e1, e1 + 8) != resize_mid() {
            None
        } else {
            let e2 = digit_run_end(p, e1 + 8);
            let d2 = p.subrange(e1 + 8, e2);
            if !valid_numeral(d2) {
                None
            } else if e2 + 1 != p.len() || p[e2] != 125 {
                None
            } else {
                Some((digits_val(d1) as u16, digits_val(d2) as u16))
            }
        }
    }
}

/// What decoding one binary message means.
pub open spec fn decode_spec(raw: Seq<u8>) -> DecodedModel {
    if raw.len() == 0 {
        DecodedModel::Ignored
    } else if raw[0] == TAG_DATA {
        DecodedModel::Valid(FrameModel::Data(raw.drop_first()))
    } else if raw[0] == TAG_RESIZE {
        match parse_resize_spec(raw.drop_first()) {
            Some((c, r)) => DecodedModel::Valid(FrameModel::Resize(c, r)),
            None => DecodedModel::MalformedControlFrame,
        }
    } else {
        DecodedModel::Ignored
    }
}

/// The encoding of a whole frame.
pub open spec fn encode_spec(f: FrameModel) -> Seq<u8> {
    match f {
        FrameModel::Data(p) => encode_data_spec(p),
        FrameModel::Resize(c, r) => seq![TAG_RESIZE] + resize_payload_spec(c, r),
    }
}

/// A digit run stays inside the sequence.
proof fn lemma_digit_run_end_bounds(s: Seq<u8>, i: int)
    requires
        0 <= i <= s.len(),
    ensures
        i <= digit_run_end(s, i) <= s.len(),
    decreases s.len() - i,
{
    if i < s.len() && is_digit(s[i]) {
        lemma_digit_run_end_bounds(s, i + 1);
    }
}

/// A digit run ends exactly at the first non-digit position.
proof fn lemma_digit_run_end_at(s: Seq<u8>, i: int, j: int)
    requires
        0 <= i <= j <= s.len(),
        forall|k: int| i <= k < j ==> is_digit(s[k]),
        j == s.len() || !is_digit(s[j]),
    ensures
        digit_run_end(s, i) == j,
    decreases j - i,
{
    if i < j {
        lemma_digit_run_end_at(s, i + 1, j);
    }
}

/// Appending a digit multiplies the value by ten and adds the digit.
proof fn lemma_digits_val_push(d: Seq<u8>, x: u8)
    requires
        x >= 48,
    ensures
        digits_val(d.push(x)) == digits_val(d) * 10 + (x - 48) as nat,
{
    assert(d.push(x).drop_last() =~= d);
    assert(d.push(x).last() == x);
}

/// The canonical numeral of `n` is a valid numeral and denotes `n`.
proof fn lemma_dec_digits_val(n: nat)
    ensures
        dec_digits(n).len() >= 1,
        all_digits(dec_digits(n)),
        digits_val(dec_digits(n)) == n,
        n >= 10 ==> dec_digits(n)[0] != 48,
        n < 10 ==> dec_digits(n).len() == 1,
    decreases n,
{
    if n < 10 {
        let d = dec_digits(n);
        assert(d =~= seq![(48 + n) as u8]);
        assert(d.drop_last() =~= Seq::<u8>::empty());
        assert(digits_val(d) == digits_val(d.drop_last()) * 10 + (d.last() - 48) as nat);
    } else {
        lemma_dec_digits_val(n / 10);
        lemma_digits_val_push(dec_digits(n / 10), (48 + n % 10) as u8);
        assert(digits_val(dec_digits(n)) == (n / 10) * 10 + n % 10);
        assert(dec_digits(n)[0] == dec_digits(n / 10)[0]);
        if n / 10 >= 10 {
        } else {
            assert(n / 10 >= 1);
        }
    }
}

/// A nonempty digit sequence without a leading zero denotes at least one.
proof fn lemma_digits_val_lower(d: Seq<u8>)
    requires
        d.len() >= 1,
        all_digits(d),
        d[0] != 48,
    ensures
        digits_val(d) >= 1,
    decreases d.len(),
{
    if d.len() == 1 {
        assert(d.drop_last() =~= Seq::<u8>::empty());
    } else {
        lemma_digits_val_lower(d.drop_last());
    }
}

/// A valid numeral is the canonical numeral of its own value.
proof fn lemma_dec_digits_of_val(d: Seq<u8>)
    requires
        d.len() >= 1,
        all_digits(d),
        d[0] != 48 || d.len() == 1,
    ensures
        dec_digits(digits_val(d)) == d,
    decreases d.len(),
{
    let v = digits_val(d);
    if d.len() == 1 {
        assert(d.drop_last() =~= Seq::<u8>::empty());
        assert(d.last() == d[0]);
        assert(digits_val(d.drop_last()) == 0);
        assert(digits_val(d) == digits_val(d.drop_last()) * 10 + (d.last() - 48) as nat);
        assert(v == (d[0] - 48) as nat);
        assert(dec_digits(v) =~= d);
    } else {
        let dl = d.drop_last();
        assert(dl[0] == d[0]);
        lemma_digits_val_lower(dl);
        let q = digits_val(dl);
        let x = (d.last() - 48) as nat;
        assert(v == q * 10 + x);
        assert(x < 10);
        assert(v / 10 == q && v % 10 == x) by (nonlinear_arith)
            requires
                v == q * 10 + x,
                x < 10,
        ;
        assert(v >= 10);
        lemma_dec_digits_of_val(dl);
        assert(dec_digits(v) == dec_digits(q).push((48 + x) as u8));
        assert((48 + x) as u8 == d.last());
        assert(dl.push(d.last()) =~= d);
    }
}

/// The value of a digit sequence never drops when digits are appended.
proof fn lemma_digits_val_prefix(d: Seq<u8>, k: int)
    requires
        0 <= k <= d.len(),
    ensures
        digits_val(d.subrange(0, k)) <= digits_val(d),
    decreases d.len(),
{
    if k == d.len() {
        assert(d.subrange(0, k) =~= d);
    } else {
        let dl = d.drop_last();
        assert(d.subrange(0, k) =~= dl.subrange(0, k));
        lemma_digits_val_prefix(dl, k);
        assert(digits_val(d) == digits_val(dl) * 10 + (d.last() - 48) as nat);
        assert(digits_val(dl) * 10 >= digits_val(dl));
    }
}

/// The encoding of a data frame: the tag byte followed by the raw payload.
pub open spec fn encode_data_spec(payload: Seq<u8>) -> Seq<u8> {
    seq![TAG_DATA] + payload
}

/// Encode raw terminal bytes as a data frame for the outbound path.
pub fn encode_data(payload: &[u8]) -> (r: Vec<u8>)
    ensures
        r@ == encode_data_spec(payload@),
{
    let mut out: Vec<u8> = Vec::new();
    out.push(TAG_DATA);
    let mut i: usize = 0;
    while i < payload.len()
        invariant
            i <= payload.len(),
            out@ == seq![TAG_DATA] + payload@.subrange(0, i as int),
        decreases payload.len() - i,
    {
        out.push(payload[i]);
        i += 1;
        proof {
            assert(out@ =~= seq![TAG_DATA] + payload@.subrange(0, i as int));
        }
    }
    proof {
        assert(payload@.subrange(0, payload@.len() as int) =~= payload@);
    }
    out
}

/// Print the canonical decimal numeral of `n`.
fn u16_to_dec(n: u16) -> (r: Vec<u8>)
    ensures
        r@ == dec_digits(n as nat),
    decreases n,
{
    if n < 10 {
        let mut v: Vec<u8> = Vec::new();
        v.push(48 + n as u8);
        proof {
            assert(v@ =~= dec_digits(n as nat));
        }
        v
    } else {
        let mut v = u16_to_dec(n / 10);
        v.push(48 + (n % 10) as u8);
        proof {
            assert((n / 10) as nat == (n as nat) / 10);
            assert((n % 10) as nat == (n as nat) % 10);
        }
        v
    }
}

/// Does `p` start with the eight bytes of `{"cols":`?
fn has_resize_prefix(p: &[u8]) -> (r: bool)
    requires
        p@.len() >= 8,
    ensures
        r == (p@.subrange(0, 8) == resize_prefix()),
{
    let r = p[0] == 123 && p[1] == 34 && p[2] == 99 && p[3] == 111 && p[4] == 108 && p[5] == 115
        && p[6] == 34 && p[7] == 58;
    proof {
        if r {
            assert(p@.subrange(0, 8) =~= resize_prefix());
        } else {
            if p@.subrange(0, 8) == resize_prefix() {
                assert(forall|i: int|
                    0 <= i < 8 ==> p@[i] == #[trigger] resize_prefix()[i]) by {
                    assert(forall|i: int|
                        0 <= i < 8 ==> p@.subrange(0, 8)[i] == #[trigger] resize_prefix()[i]);
                }
                assert(false);
            }
        }
    }
    r
}

/// Do the eight bytes of `,"rows":` stand at position `at` of `p`?
fn has_resize_mid_at(p: &[u8], at: usize) -> (r: bool)
    requires
        at + 8 <= p@.len(),
    ensures
        r == (p@.subrange(at as int, at as int + 8) == resize_mid()),
{
    let r = p[at] == 44 && p[at + 1] == 34 && p[at + 2] == 114 && p[at + 3] == 111
        && p[at + 4] == 119 && p[at + 5] == 115 && p[at + 6] == 34 && p[at + 7] == 58;
    proof {
        if r {
            assert(p@.subrange(at as int, at as int + 8) =~= resize_mid());
        } else {
            if p@.subrange(at as int, at as int + 8) == resize_mid() {
                assert(forall|i: int|
                    0 <= i < 8 ==> p@[at + i] == #[trigger] resize_mid()[i]) by {
                    assert(forall|i: int|
                        0 <= i < 8 ==> p@.subrange(at as int, at as int + 8)[i]
                            == #[trigger] resize_mid()[i]);
                }
                assert(false);
            }
        }
    }
    r
}

/// Read the canonical `u16` numeral that starts at position `at`: its value
/// and the position just past it. `None` when the digit run starting there
/// is not a valid numeral.
fn parse_u16_at(p: &[u8], at: usize) -> (r: Option<(u16, usize)>)
    requires
        at <= p@.len(),
    ensures
        match r {
            Some(ve) => {
                &&& at <= ve.1 <= p@.len()
                &&& ve.1 == digit_run_end(p@, at as int)
                &&& valid_numeral(p@.subrange(at as int, ve.1 as int))
                &&& digits_val(p@.subrange(at as int, ve.1 as int)) == ve.0 as nat
            },
            None => !valid_numeral(p@.subrange(at as int, digit_run_end(p@, at as int))),
        },
{
    if at >= p.len() || !(p[at] >= 48 && p[at] <= 57) {
        proof {
            assert(digit_run_end(p@, at as int) == at as int);
            assert(p@.subrange(at as int, at as int).len() == 0);
        }
        return None;
    }
    if p[at] == 48 && at + 1 < p.len() && p[at + 1] >= 48 && p[at + 1] <= 57 {
        proof {
            let e = digit_run_end(p@, at as int);
            assert(e == digit_run_end(p@, at as int + 1));
            assert(digit_run_end(p@, at as int + 1) == digit_run_end(p@, at as int + 2));
            lemma_digit_run_end_bounds(p@, at as int + 2);
            let run = p@.subrange(at as int, e);
            assert(run.len() >= 2);
            assert(run[0] == 48);
        }
        return None;
    }
    let mut end: usize = at;
    let mut val: u32 = 0;
    while end < p.len() && p[end] >= 48 && p[end] <= 57
        invariant
            at <= end <= p@.len(),
            at < p@.len() && is_digit(p@[at as int]),
            forall|k: int| at <= k < end ==> is_digit(p@[k]),
            digit_run_end(p@, at as int) == digit_run_end(p@, end as int),
            val as nat == digits_val(p@.subrange(at as int, end as int)),
            val <= 65535,
            p@[at as int] == 48 ==> (at + 1 == p@.len() || !is_digit(p@[at as int + 1])),
            p@[at as int] == 48 ==> end <= at + 1,
        decreases p@.len() - end,
    {
        let d = p[end];
        let newval = val * 10 + (d - 48) as u32;
        proof {
            lemma_digits_val_push(p@.subrange(at as int, end as int), d);
            assert(p@.subrange(at as int, end as int + 1)
                =~= p@.subrange(at as int, end as int).push(d));
            assert(digit_run_end(p@, end as int) == digit_run_end(p@, end as int + 1));
        }
        if newval > 65535 {
            proof {
                lemma_digit_run_end_bounds(p@, end as int + 1);
                let e = digit_run_end(p@, at as int);
                assert(e == digit_run_end(p@, end as int + 1));
                assert(e >= end + 1);
                let run = p@.subrange(at as int, e);
                assert(run.subrange(0, end + 1 - at) =~= p@.subrange(at as int, end as int + 1));
                lemma_digits_val_prefix(run, end + 1 - at);
                assert(digits_val(run) > 65535);
            }
            return None;
        }
        val = newval;
        end = end + 1;
    }
    proof {
        assert(digit_run_end(p@, end as int) == end as int);
        assert(end > at);
        let run = p@.subrange(at as int, end as int);
        assert(run.len() >= 1);
        assert(run[0] == p@[at as int]);
        assert(forall|i: int| 0 <= i < run.len() ==> is_digit(#[trigger] run[i]));
    }
    Some((val as u16, end))
}

/// Parse a resize payload: the exact meaning is [`parse_resize_spec`].
pub fn parse_resize_payload(p: &[u8]) -> (r: Option<WindowSize>)
    ensures
        match r {
            Some(ws) => parse_resize_spec(p@) == Some((ws.cols, ws.rows)),
            None => parse_resize_spec(p@) is None,
        },
{
    if p.len() < 8 {
        return None;
    }
    if !has_resize_prefix(p) {
        return None;
    }
    let first = match parse_u16_at(p, 8) {
        Some(x) => x,
        None => {
            return None;
        },
    };
    let cols: u16 = first.0;
    let e1: usize = first.1;
    if p.len() - e1 < 8 {
        return None;
    }
    if !has_resize_mid_at(p, e1) {
        return None;
    }
    let second = match parse_u16_at(p, e1 + 8) {
        Some(x) => x,
        None => {
            return None;
        },
    };
    let rows: u16 = second.0;
    let e2: usize = second.1;
    if p.len() - e2 != 1 {
        return None;
    }
    if p[e2] != 125 {
        return None;
    }
    Some(WindowSize { cols, rows })
}

/// Decode one inbound binary message: the exact meaning is [`decode_spec`].
pub fn decode(raw: &[u8]) -> (d: Decoded)
    ensures
        d@ == decode_spec(raw@),
{
    if raw.len() == 0 {
        return Decoded::Ignored;
    }
    let tag = raw[0];
    if tag == TAG_DATA {
        let tail = vstd::slice::slice_subrange(raw, 1, raw.len());
        let payload = vstd::slice::slice_to_vec(tail);
        proof {
            assert(raw@.subrange(1, raw@.len() as int) =~= raw@.drop_first());
        }
        Decoded::Valid(Frame::Data(payload))
    } else if tag == TAG_RESIZE {
        let tail = vstd::slice::slice_subrange(raw, 1, raw.len());
        proof {
            assert(raw@.subrange(1, raw@.len() as int) =~= raw@.drop_first());
        }
        match parse_resize_payload(tail) {
            Some(ws) => Decoded::Valid(Frame::Resize(ws)),
            None => Decoded::MalformedControlFrame,
        }
    } else {
        Decoded::Ignored
    }
}

/// Encode a resize frame: the tag byte, then the canonical geometry text.
pub fn encode_resize(ws: WindowSize) -> (r: Vec<u8>)
    ensures
        r@ == seq![TAG_RESIZE] + resize_payload_spec(ws.cols, ws.rows),
{
    let mut out: Vec<u8> = Vec::new();
    out.push(TAG_RESIZE);
    out.push(123);
    out.push(34);
    out.push(99);
    out.push(111);
    out.push(108);
    out.push(115);
    out.push(34);
    out.push(58);
    let mut cdig = u16_to_dec(ws.cols);
    out.append(&mut cdig);
    out.push(44);
    out.push(34);
    out.push(114);
    out.push(111);
    out.push(119);
    out.push(115);
    out.push(34);
    out.push(58);
    let mut rdig = u16_to_dec(ws.rows);
    out.append(&mut rdig);
    out.push(125);
    proof {
        assert(out@ =~= seq![TAG_RESIZE] + resize_payload_spec(ws.cols, ws.rows));
    }
    out
}

/// The canonical geometry text parses back to its own numbers.
pub proof fn lemma_parse_resize_canonical(cols: u16, rows: u16)
    ensures
        parse_resize_spec(resize_payload_spec(cols, rows)) == Some((cols, rows)),
{
    let d1 = dec_digits(cols as nat);
    let d2 = dec_digits(rows as nat);
    lemma_dec_digits_val(cols as nat);
    lemma_dec_digits_val(rows as nat);
    let p = resize_payload_spec(cols, rows);
    let n1 = d1.len() as int;
    let n2 = d2.len() as int;
    assert(p.len() == 8 + n1 + 8 + n2 + 1);
    assert(p.subrange(0, 8) =~= resize_prefix());
    assert(forall|k: int| 8 <= k < 8 + n1 ==> p[k] == #[trigger] d1[k - 8]);
    assert(p[8 + n1] == 44);
    lemma_digit_run_end_at(p, 8, 8 + n1);
    assert(p.subrange(8, 8 + n1) =~= d1);
    assert(p.subrange(8 + n1, 8 + n1 + 8) =~= resize_mid());
    assert(forall|k: int| 8 + n1 + 8 <= k < 8 + n1 + 8 + n2 ==> p[k] == #[trigger] d2[k - (
    8 + n1 + 8)]);
    assert(p[8 + n1 + 8 + n2] == 125);
    lemma_digit_run_end_at(p, 8 + n1 + 8, 8 + n1 + 8 + n2);
    assert(p.subrange(8 + n1 + 8, 8 + n1 + 8 + n2) =~= d2);
    assert(valid_numeral(d1));
    assert(valid_numeral(d2));
}

/// Law: a data frame with nonempty payload survives the round trip
/// through encode and decode.
pub proof fn lemma_data_round_trip(b: Seq<u8>)
    requires
        b.len() > 0,
    ensures
        decode_spec(encode_spec(FrameModel::Data(b))) == DecodedModel::Valid(FrameModel::Data(b)),
{
    assert((seq![TAG_DATA] + b).drop_first() =~= b);
}

/// Law: a resize frame survives the round trip through encode and decode,
/// for every pair of dimensions.
pub proof fn lemma_resize_round_trip(cols: u16, rows: u16)
    ensures
        decode_spec(encode_spec(FrameModel::Resize(cols, rows))) == DecodedModel::Valid(
            FrameModel::Resize(cols, rows),
        ),
{
    let p = resize_payload_spec(cols, rows);
    assert((seq![TAG_RESIZE] + p).drop_first() =~= p);
    lemma_parse_resize_canonical(cols, rows);
    assert(p.len() >= 8);
    assert(p[0] == 123);
}

/// Law: only the canonical geometry text parses, and only to its own
/// numbers — the grammar admits exactly one spelling per geometry.
pub proof fn lemma_parse_resize_sound(p: Seq<u8>, cols: u16, rows: u16)
    requires
        parse_resize_spec(p) == Some((cols, rows)),
    ensures
        p == resize_payload_spec(cols, rows),
{
    lemma_digit_run_end_bounds(p, 8);
    let e1 = digit_run_end(p, 8);
    let d1 = p.subrange(8, e1);
    lemma_digit_run_end_bounds(p, e1 + 8);
    let e2 = digit_run_end(p, e1 + 8);
    let d2 = p.subrange(e1 + 8, e2);
    lemma_dec_digits_of_val(d1);
    lemma_dec_digits_of_val(d2);
    assert(digits_val(d1) == cols as nat);
    assert(digits_val(d2) == rows as nat);
    assert(p.subrange(e2, p.len() as int) =~= seq![125u8]);
    assert(p =~= p.subrange(0, 8) + d1 + p.subrange(e1, e1 + 8) + d2 + p.subrange(
        e2,
        p.len() as int,
    ));
}

/// Encode a whole frame for the wire: the exact meaning is [`encode_spec`].
pub fn encode(f: &Frame) -> (r: Vec<u8>)
    ensures
        r@ == encode_spec(f@),
{
    match f {
        Frame::Data(b) => encode_data(b.as_slice()),
        Frame::Resize(ws) => encode_resize(*ws),
    }
}

} // verus!
