//! Line-protocol encoder: a pure function from a measurement name, ordered
//! tag pairs, a numeric value and a unix-seconds timestamp to one text line
//!
//! `<escaped measurement>[,<escaped key>=<escaped value>]* value=<value> <timestamp>\n`
//!
//! Within the measurement name a comma and a space are escaped with a
//! preceding backslash; within tag keys and values an equals sign is escaped
//! as well. Lines are byte strings; the payload for one cycle is their
//! concatenation.

use vstd::prelude::*;

verus! {

/// `,`
pub const COMMA: u8 = 44;

/// ` `
pub const SPACE: u8 = 32;

/// `=`
pub const EQUALS: u8 = 61;

/// `\`
pub const BACKSLASH: u8 = 92;

/// `\n`
pub const NEWLINE: u8 = 10;

/// `0`
pub const DIGIT_ZERO: u8 = 48;

/// One byte of a measurement name after escaping: a comma or a space gets a
/// preceding backslash, every other byte passes through.
pub open spec fn escape_meas_byte(b: u8) -> Seq<u8> {
    if b == COMMA || b == SPACE {
        seq![BACKSLASH, b]
    } else {
        seq![b]
    }
}

/// A measurement name after escaping.
pub open spec fn escape_meas_bytes(s: Seq<u8>) -> Seq<u8>
    decreases s.len(),
{
    if s.len() == 0 {
        Seq::empty()
    } else {
        escape_meas_bytes(s.drop_last()) + escape_meas_byte(s.last())
    }
}

/// One byte of a tag key or tag value after escaping: as in a measurement
/// name, and an equals sign is escaped too.
pub open spec fn escape_tag_byte(b: u8) -> Seq<u8> {
    if b == COMMA || b == SPACE || b == EQUALS {
        seq![BACKSLASH, b]
    } else {
        seq![b]
    }
}

/// A tag key or tag value after escaping.
pub open spec fn escape_tag_bytes(s: Seq<u8>) -> Seq<u8>
    decreases s.len(),
{
    if s.len() == 0 {
        Seq::empty()
    } else {
        escape_tag_bytes(s.drop_last()) + escape_tag_byte(s.last())
    }
}

/// The decimal digits of `n`, most significant first, no leading zeros
/// (`0` itself is the single digit `0`).
pub open spec fn dec_rep(n: nat) -> Seq<u8>
    decreases n,
{
    if n < 10 {
        seq![(DIGIT_ZERO + n) as u8]
    } else {
        dec_rep(n / 10) + seq![(DIGIT_ZERO + n % 10) as u8]
    }
}

/// One encoded tag pair: `,<escaped key>=<escaped value>`.
pub open spec fn tag_enc(k: Seq<u8>, v: Seq<u8>) -> Seq<u8> {
    seq![COMMA] + escape_tag_bytes(k) + seq![EQUALS] + escape_tag_bytes(v)
}

/// All tag pairs encoded in order.
pub open spec fn tags_enc(tags: Seq<(Seq<u8>, Seq<u8>)>) -> Seq<u8>
    decreases tags.len(),
{
    if tags.len() == 0 {
        Seq::empty()
    } else {
        tags_enc(tags.drop_last()) + tag_enc(tags.last().0, tags.last().1)
    }
}

/// The literal ` value=` between the tag set and the numeric value.
pub open spec fn value_field() -> Seq<u8> {
    seq![SPACE, 118u8, 97u8, 108u8, 117u8, 101u8, EQUALS]
}

/// One whole line:
/// `<escaped measurement><tags> value=<value> <timestamp>\n`.
pub open spec fn line_enc(meas: Seq<u8>, tags: Seq<(Seq<u8>, Seq<u8>)>, value: u64, ts: u64) -> Seq<
    u8,
> {
    escape_meas_bytes(meas) + tags_enc(tags) + value_field() + dec_rep(value as nat) + seq![SPACE]
        + dec_rep(ts as nat) + seq![NEWLINE]
}

/// The byte-sequence view of a list of tag pairs held in vectors.
pub open spec fn pairs_view(tags: Seq<(Vec<u8>, Vec<u8>)>) -> Seq<(Seq<u8>, Seq<u8>)> {
    tags.map_values(|p: (Vec<u8>, Vec<u8>)| (p.0@, p.1@))
}

/// Append the decimal digits of `n` to `out`.
pub fn push_dec(out: &mut Vec<u8>, n: u64)
    ensures
        final(out)@ =~= old(out)@ + dec_rep(n as nat),
    decreases n,
{
    if n < 10 {
        out.push(DIGIT_ZERO + n as u8);
    } else {
        push_dec(out, n / 10);
        out.push(DIGIT_ZERO + (n % 10) as u8);
    }
}

/// Append a measurement name to `out`, escaping commas and spaces.
pub fn push_escaped_meas(out: &mut Vec<u8>, s: &Vec<u8>)
    ensures
        final(out)@ =~= old(out)@ + escape_meas_bytes(s@),
{
    let mut i: usize = 0;
    while i < s.len()
        invariant
            0 <= i <= s@.len(),
            out@ =~= old(out)@ + escape_meas_bytes(s@.take(i as int)),
        decreases s@.len() - i,
    {
        proof {
            assert(s@.take(i + 1).drop_last() =~= s@.take(i as int));
            assert(s@.take(i + 1).last() == s@[i as int]);
        }
        let b = s[i];
        if b == COMMA || b == SPACE {
            out.push(BACKSLASH);
        }
        out.push(b);
        i = i + 1;
    }
    proof {
        assert(s@.take(s@.len() as int) =~= s@);
    }
}

/// Append a tag key or value to `out`, escaping commas, spaces and equals
/// signs.
pub fn push_escaped_tag(out: &mut Vec<u8>, s: &Vec<u8>)
    ensures
        final(out)@ =~= old(out)@ + escape_tag_bytes(s@),
{
    let mut i: usize = 0;
    while i < s.len()
        invariant
            0 <= i <= s@.len(),
            out@ =~= old(out)@ + escape_tag_bytes(s@.take(i as int)),
        decreases s@.len() - i,
    {
        proof {
            assert(s@.take(i + 1).drop_last() =~= s@.take(i as int));
            assert(s@.take(i + 1).last() == s@[i as int]);
        }
        let b = s[i];
        if b == COMMA || b == SPACE || b == EQUALS {
            out.push(BACKSLASH);
        }
        out.push(b);
        i = i + 1;
    }
    proof {
        assert(s@.take(s@.len() as int) =~= s@);
    }
}

/// Append one encoded line to `out`.
pub fn push_line(out: &mut Vec<u8>, meas: &Vec<u8>, tags: &Vec<(Vec<u8>, Vec<u8>)>, value: u64, ts: u64)
    ensures
        final(out)@ =~= old(out)@ + line_enc(meas@, pairs_view(tags@), value, ts),
{
    push_escaped_meas(out, meas);
    let mut i: usize = 0;
    while i < tags.len()
        invariant
            0 <= i <= tags@.len(),
            out@ =~= old(out)@ + escape_meas_bytes(meas@) + tags_enc(
                pairs_view(tags@.take(i as int)),
            ),
        decreases tags@.len() - i,
    {
        proof {
            assert(pairs_view(tags@.take(i + 1)).drop_last() =~= pairs_view(tags@.take(i as int)));
            assert(pairs_view(tags@.take(i + 1)).last() == (tags@[i as int].0@, tags@[i as int].1@));
        }
        out.push(COMMA);
        push_escaped_tag(out, &tags[i].0);
        out.push(EQUALS);
        push_escaped_tag(out, &tags[i].1);
        i = i + 1;
    }
    proof {
        assert(pairs_view(tags@.take(tags@.len() as int)) =~= pairs_view(tags@));
    }
    out.push(SPACE);
    out.push(118);
    out.push(97);
    out.push(108);
    out.push(117);
    out.push(101);
    out.push(EQUALS);
    push_dec(out, value);
    out.push(SPACE);
    push_dec(out, ts);
    out.push(NEWLINE);
}

/// Encode one line: the pure entry point of the encoder.
pub fn encode_line(meas: &Vec<u8>, tags: &Vec<(Vec<u8>, Vec<u8>)>, value: u64, ts: u64) -> (out:
    Vec<u8>)
    ensures
        out@ =~= line_enc(meas@, pairs_view(tags@), value, ts),
{
    let mut out: Vec<u8> = Vec::new();
    push_line(&mut out, meas, tags, value, ts);
    out
}

} // verus!
