//! Push delivery decisions: classifying a push service's response, and
//! building the minimal notification payload (post id and title) as JSON
//! bytes with verified escaping.

use vstd::prelude::*;

verus! {

/// How one push delivery ended, by the endpoint's HTTP status.
#[derive(Debug, PartialEq, Eq, Structural)]
pub enum DeliveryOutcome {
    /// A success status: the message was delivered.
    Delivered,
    /// 410 Gone: the subscription is invalid and must be deleted.
    Invalid,
    /// Any other non-success status: a delivery error; the caller logs
    /// it and the subscription is kept.
    Failed,
}

/// The classification of a push response status: 410 means the
/// subscription is gone; any 2xx is a delivery; everything else is an
/// error that keeps the subscription.
pub open spec fn classify_delivery_spec(status: u16) -> DeliveryOutcome {
    if status == 410 {
        DeliveryOutcome::Invalid
    } else if 200 <= status < 300 {
        DeliveryOutcome::Delivered
    } else {
        DeliveryOutcome::Failed
    }
}

/// Classify one push delivery response per [`classify_delivery_spec`].
pub fn classify_delivery(status: u16) -> (r: DeliveryOutcome)
    ensures
        r == classify_delivery_spec(status),
{
    if status == 410 {
        DeliveryOutcome::Invalid
    } else if 200 <= status && status < 300 {
        DeliveryOutcome::Delivered
    } else {
        DeliveryOutcome::Failed
    }
}

/// The lower-case hex digit for `n < 16`.
pub open spec fn hex_digit(n: u8) -> u8 {
    if n < 10 {
        (48 + n) as u8
    } else {
        (87 + n) as u8
    }
}

/// The decimal digits of `n`, most significant first.
pub open spec fn dec_digits(n: nat) -> Seq<u8>
    decreases n,
{
    if n < 10 {
        seq![(48 + n) as u8]
    } else {
        dec_digits(n / 10).push((48 + n % 10) as u8)
    }
}

/// The JSON string escape of one byte: quote, backslash and control
/// bytes are escaped; everything else (UTF-8 continuation bytes
/// included) passes through.
pub open spec fn esc_byte(b: u8) -> Seq<u8> {
    if b == 34 {
        seq![92u8, 34u8]
    } else if b == 92 {
        seq![92u8, 92u8]
    } else if b == 10 {
        seq![92u8, 110u8]
    } else if b == 13 {
        seq![92u8, 114u8]
    } else if b == 9 {
        seq![92u8, 116u8]
    } else if b < 32 {
        seq![92u8, 117u8, 48u8, 48u8, hex_digit(b / 16), hex_digit(b % 16)]
    } else {
        seq![b]
    }
}

/// The JSON string escape of a byte sequence.
pub open spec fn escaped(s: Seq<u8>) -> Seq<u8>
    decreases s.len(),
{
    if s.len() == 0 {
        Seq::empty()
    } else {
        escaped(s.drop_last()) + esc_byte(s.last())
    }
}

/// The notification payload for a post: a JSON object with the post's id
/// as a number and its title as an escaped string — the bytes of
/// `{"id":N,"title":"T"}`.
pub open spec fn payload_spec(id: u64, title: Seq<u8>) -> Seq<u8> {
    seq![123u8, 34u8, 105u8, 100u8, 34u8, 58u8] + dec_digits(id as nat) + seq![
        44u8,
        34u8,
        116u8,
        105u8,
        116u8,
        108u8,
        101u8,
        34u8,
        58u8,
        34u8,
    ] + escaped(title) + seq![34u8, 125u8]
}

/// The lower-case hex digit for `n < 16`, as executable code.
fn hex_digit_exec(n: u8) -> (r: u8)
    requires
        n < 16,
    ensures
        r == hex_digit(n),
{
    if n < 10 {
        48 + n
    } else {
        87 + n
    }
}

/// Append the decimal digits of `n` to `out`.
fn push_decimal(out: &mut Vec<u8>, n: u64)
    ensures
        final(out)@ == old(out)@ + dec_digits(n as nat),
    decreases n,
{
    if n < 10 {
        out.push(48 + (n as u8));
        proof {
            assert(out@ =~= old(out)@ + dec_digits(n as nat));
        }
    } else {
        push_decimal(out, n / 10);
        out.push(48 + ((n % 10) as u8));
        proof {
            assert(out@ =~= old(out)@ + dec_digits(n as nat));
        }
    }
}

/// Append the JSON escape of `s` to `out`.
fn push_escaped(out: &mut Vec<u8>, s: &[u8])
    ensures
        final(out)@ == old(out)@ + escaped(s@),
{
    let mut i: usize = 0;
    while i < s.len()
        invariant
            i <= s.len(),
            out@ == old(out)@ + escaped(s@.take(i as int)),
        decreases s.len() - i,
    {
        let b = s[i];
        if b == 34 {
            out.push(92);
            out.push(34);
        } else if b == 92 {
            out.push(92);
            out.push(92);
        } else if b == 10 {
            out.push(92);
            out.push(110);
        } else if b == 13 {
            out.push(92);
            out.push(114);
        } else if b == 9 {
            out.push(92);
            out.push(116);
        } else if b < 32 {
            out.push(92);
            out.push(117);
            out.push(48);
            out.push(48);
            out.push(hex_digit_exec(b / 16));
            out.push(hex_digit_exec(b % 16));
        } else {
            out.push(b);
        }
        proof {
            assert(s@.take(i as int + 1).drop_last() =~= s@.take(i as int));
            assert(s@.take(i as int + 1).last() == b);
            assert(out@ =~= old(out)@ + escaped(s@.take(i as int + 1)));
        }
        i += 1;
    }
    proof {
        assert(s@.take(s@.len() as int) =~= s@);
    }
}

/// Build the notification payload for a post: `id` as a JSON number and
/// `title` (UTF-8 bytes) as a JSON string, escaped per [`escaped`].
pub fn notification_payload(id: u64, title: &[u8]) -> (r: Vec<u8>)
    ensures
        r@ == payload_spec(id, title@),
{
    let mut out: Vec<u8> = Vec::new();
    out.push(123);
    out.push(34);
    out.push(105);
    out.push(100);
    out.push(34);
    out.push(58);
    push_decimal(&mut out, id);
    out.push(44);
    out.push(34);
    out.push(116);
    out.push(105);
    out.push(116);
    out.push(108);
    out.push(101);
    out.push(34);
    out.push(58);
    out.push(34);
    push_escaped(&mut out, title);
    out.push(34);
    out.push(125);
    proof {
        assert(out@ =~= payload_spec(id, title@));
    }
    out
}

} // verus!
