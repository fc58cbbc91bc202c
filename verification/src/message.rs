//! Chat line formatting.
//!
//! Every relayed chat message travels as the text line
//! `[HH:MM:SS] name: text`, built here from a wall-clock time handed in by
//! the caller (the clock itself lives outside the library), the sender's
//! display name and the message body.

use vstd::prelude::*;

verus! {

/// The two ASCII digits of `n`, zero-padded.
pub open spec fn two_digits(n: u8) -> Seq<u8>
    recommends
        n < 100,
{
    seq![(48 + n / 10) as u8, (48 + n % 10) as u8]
}

/// The chat line `[HH:MM:SS] name: text` as bytes.
pub open spec fn chat_line(h: u8, m: u8, s: u8, name: Seq<u8>, text: Seq<u8>) -> Seq<u8>
    recommends
        h < 24,
        m < 60,
        s < 60,
{
    seq![91u8] + two_digits(h) + seq![58u8] + two_digits(m) + seq![58u8] + two_digits(s) + seq![
        93u8,
        32u8,
    ] + name + seq![58u8, 32u8] + text
}

/// Push the two zero-padded ASCII digits of `n` onto `out`.
fn push_two_digits(out: &mut Vec<u8>, n: u8)
    requires
        n < 100,
    ensures
        final(out)@ == old(out)@ + two_digits(n),
{
    out.push(48 + n / 10);
    out.push(48 + n % 10);
    assert(out@ =~= old(out)@ + two_digits(n));
}

/// The chat line `[HH:MM:SS] name: text`, 13 bytes longer than name and
/// text together.
pub fn format_chat_line(h: u8, m: u8, s: u8, name: &Vec<u8>, text: &Vec<u8>) -> (r: Vec<u8>)
    requires
        h < 24,
        m < 60,
        s < 60,
    ensures
        r@ == chat_line(h, m, s, name@, text@),
        r@.len() == 13 + name@.len() + text@.len(),
{
    let mut r: Vec<u8> = Vec::new();
    r.push(91);
    push_two_digits(&mut r, h);
    r.push(58);
    push_two_digits(&mut r, m);
    r.push(58);
    push_two_digits(&mut r, s);
    r.push(93);
    r.push(32);
    r.extend_from_slice(name.as_slice());
    r.push(58);
    r.push(32);
    r.extend_from_slice(text.as_slice());
    assert(r@ =~= chat_line(h, m, s, name@, text@));
    r
}

} // verus!
