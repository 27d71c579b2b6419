//! Small string helpers shared by the formatting functions.
use vstd::prelude::*;

verus! {

/// Appends one character to a string.
///
/// Trusted: calls `String::push`, which std documents as appending the given
/// `char` to the end of the string; the contract states exactly that.
#[verifier::external_body]
pub(crate) fn push_char(s: &mut String, c: char)
    ensures
        final(s)@ == old(s)@.push(c),
{
    s.push(c);
}

/// Appends the characters of `t` to `s`.
pub fn push_str(s: &mut String, t: &str)
    ensures
        final(s)@ == old(s)@ + t@,
{
    s.append(t);
}

/// An empty string.
pub fn empty_string() -> (s: String)
    ensures
        s@ == Seq::<char>::empty(),
{
    String::new()
}

/// The decimal digit for `d`.
pub open spec fn digit_char(d: int) -> char {
    if d == 0 { '0' }
    else if d == 1 { '1' }
    else if d == 2 { '2' }
    else if d == 3 { '3' }
    else if d == 4 { '4' }
    else if d == 5 { '5' }
    else if d == 6 { '6' }
    else if d == 7 { '7' }
    else if d == 8 { '8' }
    else { '9' }
}

/// The decimal notation of `n`, without leading zeros ("0" for zero).
pub open spec fn decimal(n: nat) -> Seq<char>
    decreases n,
{
    if n < 10 {
        seq![digit_char(n as int)]
    } else {
        decimal(n / 10).push(digit_char((n % 10) as int))
    }
}

fn digit(d: usize) -> (c: char)
    requires
        d < 10,
    ensures
        c == digit_char(d as int),
{
    if d == 0 { '0' }
    else if d == 1 { '1' }
    else if d == 2 { '2' }
    else if d == 3 { '3' }
    else if d == 4 { '4' }
    else if d == 5 { '5' }
    else if d == 6 { '6' }
    else if d == 7 { '7' }
    else if d == 8 { '8' }
    else { '9' }
}

/// Appends the decimal notation of `n` to `s`.
pub fn push_decimal(s: &mut String, n: usize)
    ensures
        final(s)@ == old(s)@ + decimal(n as nat),
    decreases n,
{
    if n < 10 {
        push_char(s, digit(n));
        assert(decimal(n as nat) =~= seq![digit_char(n as int)]);
    } else {
        push_decimal(s, n / 10);
        push_char(s, digit(n % 10));
        assert(old(s)@ + decimal((n / 10) as nat) + seq![digit_char((n % 10) as int)] =~= old(s)@
            + decimal(n as nat));
    }
}

} // verus!

verus! {

/// The pieces joined with `sep` between consecutive pieces.
pub open spec fn join_with(ws: Seq<Seq<char>>, sep: Seq<char>) -> Seq<char>
    decreases ws.len(),
{
    if ws.len() == 0 {
        Seq::empty()
    } else if ws.len() == 1 {
        ws[0]
    } else {
        join_with(ws.drop_last(), sep) + sep + ws.last()
    }
}

/// The text of a numbered step: `Step <k>: <body>`.
pub open spec fn step_line(k: nat, body: Seq<char>) -> Seq<char> {
    "Step "@ + decimal(k) + ": "@ + body
}

/// Appends `piece` to a text being joined: `sep` first unless it is the first piece.
pub proof fn lemma_join_with_push(ws: Seq<Seq<char>>, sep: Seq<char>, w: Seq<char>)
    ensures
        join_with(ws.push(w), sep) == if ws.len() == 0 { w } else { join_with(ws, sep) + sep + w },
{
    assert(ws.push(w).drop_last() =~= ws);
}

/// Numbered lines, one per text: `<indent>Step <k>: <text>` followed by a newline.
pub open spec fn numbered_lines(indent: Seq<char>, texts: Seq<Seq<char>>) -> Seq<char>
    decreases texts.len(),
{
    if texts.len() == 0 {
        Seq::empty()
    } else {
        numbered_lines(indent, texts.drop_last()) + indent + step_line(texts.len(), texts.last()) + "\n"@
    }
}

/// Appends line `k` of a numbered listing.
pub fn push_numbered_line(s: &mut String, indent: &str, k: usize, text: &str)
    ensures
        final(s)@ == old(s)@ + indent@ + step_line(k as nat, text@) + "\n"@,
{
    push_str(s, indent);
    push_str(s, "Step ");
    push_decimal(s, k);
    push_str(s, ": ");
    push_str(s, text);
    push_str(s, "\n");
    assert(final(s)@ =~= old(s)@ + indent@ + step_line(k as nat, text@) + "\n"@);
}

/// The `Debug` text of a list of bytes: `[a, b, ...]`.
pub open spec fn bytes_debug(v: Seq<u8>) -> Seq<char> {
    "["@ + join_with(v.map_values(|b: u8| decimal(b as nat)), ", "@) + "]"@
}

/// Appends the `Debug` text of a list of bytes.
pub fn push_bytes_debug(s: &mut String, v: &[u8])
    ensures
        final(s)@ == old(s)@ + bytes_debug(v@),
{
    let ghost texts = v@.map_values(|b: u8| decimal(b as nat));
    let mut body = String::new();
    let mut i: usize = 0;
    while i < v.len()
        invariant
            i <= v.len(),
            texts == v@.map_values(|b: u8| decimal(b as nat)),
            body@ == join_with(texts.take(i as int), ", "@),
        decreases v.len() - i,
    {
        proof {
            lemma_join_with_push(texts.take(i as int), ", "@, texts[i as int]);
            assert(texts.take(i + 1) =~= texts.take(i as int).push(texts[i as int]));
        }
        let ghost before = body@;
        if i > 0 {
            push_str(&mut body, ", ");
        }
        push_decimal(&mut body, v[i] as usize);
        proof {
            if i == 0 {
                assert(body@ =~= texts[0]);
            } else {
                assert(body@ =~= before + ", "@ + texts[i as int]);
            }
        }
        i = i + 1;
    }
    assert(texts.take(v@.len() as int) =~= texts);
    push_str(s, "[");
    push_str(s, body.as_str());
    push_str(s, "]");
}

} // verus!
