use vstd::prelude::*;
use encoding::all::ASCII;
use encoding::{DecoderTrap, EncoderTrap, Encoding};

verus! {

pub open spec fn is_term(b: u8) -> bool {
    b == 10u8 || b == 13u8
}

/// Two terminator bytes that form one line break: CR LF or LF CR.
pub open spec fn is_pair(a: u8, b: u8) -> bool {
    (a == 13u8 && b == 10u8) || (a == 10u8 && b == 13u8)
}

/// The 7-bit text of a byte sequence: bytes above 0x7f are dropped.
pub open spec fn ascii_text(b: Seq<u8>) -> Seq<char>
    decreases b.len(),
{
    if b.len() == 0 {
        Seq::empty()
    } else if b[0] < 128u8 {
        seq![(b[0] as u32) as char] + ascii_text(b.drop_first())
    } else {
        ascii_text(b.drop_first())
    }
}

/// The single-byte form of a text: characters above U+007F are dropped.
pub open spec fn ascii_bytes(s: Seq<char>) -> Seq<u8>
    decreases s.len(),
{
    if s.len() == 0 {
        Seq::empty()
    } else if (s[0] as u32) < 128 {
        seq![(s[0] as u32) as u8] + ascii_bytes(s.drop_first())
    } else {
        ascii_bytes(s.drop_first())
    }
}

/// Index of the first terminator byte, if any.
pub open spec fn line_end(b: Seq<u8>) -> Option<nat>
    decreases b.len(),
{
    if b.len() == 0 {
        None
    } else if is_term(b[0]) {
        Some(0)
    } else {
        match line_end(b.drop_first()) {
            Some(i) => Some(i + 1),
            None => None,
        }
    }
}

/// How many bytes the line break at index `i` takes.
pub open spec fn break_len(b: Seq<u8>, i: int) -> int {
    if i + 1 < b.len() && is_pair(b[i], b[i + 1]) {
        2
    } else {
        1
    }
}

/// One decoding step: the first complete line and the bytes left after it.
pub open spec fn decode_spec(b: Seq<u8>) -> Option<(Seq<char>, Seq<u8>)> {
    match line_end(b) {
        None => None,
        Some(i) => Some(
            (ascii_text(b.subrange(0, i as int)), b.subrange(i + break_len(b, i as int), b.len() as int)),
        ),
    }
}

/// The bytes that `encode` appends for a line.
pub open spec fn encode_spec(s: Seq<char>) -> Seq<u8> {
    ascii_bytes(s) + seq![13u8, 10u8]
}

/// Relies on encoding's `ASCII.decode` with `DecoderTrap::Ignore`: every byte
/// below 0x80 becomes its character, every other byte is skipped, and the call
/// never fails.
#[verifier::external_body]
fn ascii_decode(b: &[u8]) -> (r: Option<String>)
    ensures
        r is Some,
        r->0@ == ascii_text(b@),
{
    ASCII.decode(b, DecoderTrap::Ignore).ok()
}

/// Relies on encoding's `ASCII.encode` with `EncoderTrap::Ignore`: every
/// character below U+0080 becomes its byte, every other character is skipped,
/// and the call never fails.
#[verifier::external_body]
fn ascii_encode(s: &str) -> (r: Option<Vec<u8>>)
    ensures
        r is Some,
        r->0@ == ascii_bytes(s@),
{
    ASCII.encode(s, EncoderTrap::Ignore).ok()
}

/// Line framing over a byte buffer of received, not yet consumed bytes.
pub struct ASCIILineBased;

impl ASCIILineBased {
    /// Takes the first complete line off the front of `buf`, or returns `None`
    /// and leaves `buf` as it is when no terminator has arrived yet.
    pub fn decode(&mut self, buf: &mut Vec<u8>) -> (r: Option<String>)
        ensures
            match decode_spec(old(buf)@) {
                None => r is None && final(buf)@ == old(buf)@,
                Some((line, rest)) => r is Some && r->0@ == line && final(buf)@ == rest,
            },
    {
        let n = buf.len();
        let mut i: usize = 0;
        while i < n && buf[i] != 10u8 && buf[i] != 13u8
            invariant
                n == buf@.len(),
                i <= n,
                forall|k: int| 0 <= k < i ==> !is_term(#[trigger] buf@[k]),
            decreases n - i,
        {
            i = i + 1;
        }
        proof {
            lemma_line_end_at(buf@, i as int);
        }
        if i == n {
            return None;
        }
        let t = buf[i];
        let mut tail = buf.split_off(i);
        let brk: usize = if tail.len() > 1 && ((t == 13u8 && tail[1] == 10u8) || (t == 10u8 && tail[1] == 13u8)) {
            2
        } else {
            1
        };
        let rest = tail.split_off(brk);
        let line = ascii_decode(buf.as_slice());
        *buf = rest;
        line
    }

    /// Appends the single-byte form of `data` and then CR LF to `buf`.
    pub fn encode(&mut self, data: String, buf: &mut Vec<u8>)
        ensures
            final(buf)@ == old(buf)@ + encode_spec(data@),
    {
        let bytes = ascii_encode(data.as_str());
        let mut bytes = match bytes {
            Some(b) => b,
            None => Vec::new(),
        };
        bytes.push(13u8);
        bytes.push(10u8);
        buf.append(&mut bytes);
    }
}

proof fn lemma_line_end_at(b: Seq<u8>, i: int)
    requires
        0 <= i <= b.len(),
        forall|k: int| 0 <= k < i ==> !is_term(#[trigger] b[k]),
        i < b.len() ==> is_term(b[i]),
    ensures
        i == b.len() ==> line_end(b) is None,
        i < b.len() ==> line_end(b) == Some(i as nat),
    decreases i,
{
    if b.len() > 0 && i > 0 {
        let d = b.drop_first();
        assert forall|k: int| 0 <= k < i - 1 implies !is_term(#[trigger] d[k]) by {
            assert(d[k] == b[k + 1]);
        }
        lemma_line_end_at(d, i - 1);
    }
}

/// Every complete line of a buffer, decoded in turn, and the bytes left after them.
pub open spec fn decode_all(b: Seq<u8>) -> (Seq<Seq<char>>, Seq<u8>)
    decreases b.len(),
{
    match decode_spec(b) {
        None => (Seq::empty(), b),
        Some((line, rest)) => if rest.len() < b.len() {
            (seq![line] + decode_all(rest).0, decode_all(rest).1)
        } else {
            (seq![line], rest)
        },
    }
}

/// Lines each followed by the same line break `t`.
pub open spec fn frame(lines: Seq<Seq<u8>>, t: Seq<u8>) -> Seq<u8>
    decreases lines.len(),
{
    if lines.len() == 0 {
        Seq::empty()
    } else {
        lines[0] + t + frame(lines.drop_first(), t)
    }
}

pub open spec fn is_break(t: Seq<u8>) -> bool {
    t == seq![13u8, 10u8] || t == seq![10u8] || t == seq![13u8] || t == seq![10u8, 13u8]
}

pub open spec fn ascii_line(s: Seq<char>) -> bool {
    forall|k: int| 0 <= k < s.len() ==> (#[trigger] s[k] as u32) < 128 && s[k] != '\r' && s[k] != '\n'
}

pub open spec fn no_term(b: Seq<u8>) -> bool {
    forall|k: int| 0 <= k < b.len() ==> !is_term(#[trigger] b[k])
}

proof fn lemma_ascii_identity(s: Seq<char>)
    requires
        ascii_line(s),
    ensures
        ascii_text(ascii_bytes(s)) == s,
        no_term(ascii_bytes(s)),
    decreases s.len(),
{
    if s.len() > 0 {
        let d = s.drop_first();
        assert(ascii_line(d)) by {
            assert forall|k: int| 0 <= k < d.len() implies (#[trigger] d[k] as u32) < 128 && d[k] != '\r'
                && d[k] != '\n' by {
                assert(d[k] == s[k + 1]);
            }
        }
        lemma_ascii_identity(d);
        let c = s[0];
        assert((c as u32) < 128);
        let b = seq![(c as u32) as u8] + ascii_bytes(d);
        assert(ascii_bytes(s) == b);
        assert(b.drop_first() =~= ascii_bytes(d));
        let cb = (c as u32) as u8;
        assert(cb as u32 == c as u32);
        vstd::utf8::char_u32_cast(c, c as u32);
        assert(((cb as u32) as char) == c);
        assert(ascii_text(b) =~= seq![c] + s.drop_first());
        assert(seq![c] + s.drop_first() =~= s);
        assert forall|k: int| 0 <= k < b.len() implies !is_term(#[trigger] b[k]) by {
            if k > 0 {
                assert(b[k] == ascii_bytes(d)[k - 1]);
            }
        }
    }
}

/// Encoding a 7-bit line that holds no CR or LF, then decoding the bytes
/// produced, gives back that line and leaves nothing over.
pub proof fn lemma_round_trip(line: Seq<char>)
    requires
        ascii_line(line),
    ensures
        decode_spec(encode_spec(line)) == Some((line, Seq::<u8>::empty())),
        decode_all(encode_spec(line)) == (seq![line], Seq::<u8>::empty()),
{
    lemma_ascii_identity(line);
    let a = ascii_bytes(line);
    let b = encode_spec(line);
    lemma_line_end_at(b, a.len() as int);
    assert(b.subrange(0, a.len() as int) =~= a);
    assert(b.subrange(a.len() + 2int, b.len() as int) =~= Seq::<u8>::empty());
    let e = Seq::<u8>::empty();
    assert(decode_spec(e) is None);
    assert(decode_all(e) == (Seq::<Seq<char>>::empty(), e));
    assert(seq![line] + Seq::<Seq<char>>::empty() =~= seq![line]);
}

/// Lines free of CR and LF, each followed by the same line break (CR LF, LF,
/// CR or LF CR), decode to the same lines whichever break is used.
pub proof fn lemma_breaks_agree(lines: Seq<Seq<u8>>, t: Seq<u8>)
    requires
        is_break(t),
        forall|k: int| 0 <= k < lines.len() ==> no_term(#[trigger] lines[k]),
    ensures
        decode_all(frame(lines, t)) == (lines.map_values(|l: Seq<u8>| ascii_text(l)), Seq::<u8>::empty()),
    decreases lines.len(),
{
    let b = frame(lines, t);
    if lines.len() == 0 {
        assert(decode_spec(b) is None);
        assert(lines.map_values(|l: Seq<u8>| ascii_text(l)) =~= Seq::<Seq<char>>::empty());
    } else {
        let l = lines[0];
        let d = lines.drop_first();
        assert forall|k: int| 0 <= k < d.len() implies no_term(#[trigger] d[k]) by {
            assert(d[k] == lines[k + 1]);
        }
        lemma_breaks_agree(d, t);
        let r = frame(d, t);
        assert(no_term(l));
        assert(b == l + t + r);
        assert forall|k: int| 0 <= k < l.len() implies !is_term(#[trigger] b[k]) by {
            assert(b[k] == l[k]);
        }
        assert(b[l.len() as int] == t[0]);
        lemma_line_end_at(b, l.len() as int);
        if r.len() > 0 {
            if d.len() > 0 && d[0].len() > 0 {
                assert(r[0] == d[0][0]);
                assert(!is_term(d[0][0]));
            } else if d.len() > 0 {
                assert(r[0] == t[0]);
            }
        }
        assert(break_len(b, l.len() as int) == t.len());
        assert(b.subrange(0, l.len() as int) =~= l);
        assert(b.subrange((l.len() + t.len()) as int, b.len() as int) =~= r);
        assert(lines.map_values(|l: Seq<u8>| ascii_text(l)) =~= seq![ascii_text(l)] + d.map_values(
            |l: Seq<u8>| ascii_text(l),
        ));
    }
}

proof fn lemma_step_extends(a: Seq<u8>, b: Seq<u8>)
    requires
        line_end(a) is Some,
        !(a.len() > 0 && b.len() > 0 && is_pair(a.last(), b[0])),
    ensures
        match decode_spec(a) {
            Some((l, r)) => decode_spec(a + b) == Some((l, r + b)),
            None => false,
        },
{
    let i = line_end(a)->0 as int;
    lemma_line_end_bounds(a);
    let ab = a + b;
    assert forall|k: int| 0 <= k < i implies !is_term(#[trigger] ab[k]) by {
        lemma_line_end_before(a, k);
    }
    lemma_line_end_before(a, i);
    lemma_line_end_at(ab, i);
    if i + 1 == a.len() && b.len() > 0 {
        assert(ab[i + 1] == b[0]);
        assert(a.last() == a[i]);
    }
    assert(break_len(ab, i) == break_len(a, i));
    assert(ab.subrange(0, i) =~= a.subrange(0, i));
    assert(ab.subrange(i + break_len(a, i), ab.len() as int) =~= a.subrange(i + break_len(a, i), a.len() as int)
        + b);
}

proof fn lemma_line_end_bounds(b: Seq<u8>)
    ensures
        line_end(b) is Some ==> line_end(b)->0 < b.len() && is_term(b[line_end(b)->0 as int]),
    decreases b.len(),
{
    if b.len() > 0 && !is_term(b[0]) {
        lemma_line_end_bounds(b.drop_first());
    }
}

proof fn lemma_line_end_before(b: Seq<u8>, k: int)
    requires
        line_end(b) is Some,
        0 <= k <= line_end(b)->0,
    ensures
        k < line_end(b)->0 ==> !is_term(b[k]),
        k == line_end(b)->0 ==> is_term(b[k]),
    decreases b.len(),
{
    lemma_line_end_bounds(b);
    if k > 0 {
        lemma_line_end_before(b.drop_first(), k - 1);
    }
}

/// Decoding `a` as far as it goes and then the rest of `a` followed by `b`
/// gives the same lines, and leaves the same bytes, as decoding `a + b` at
/// once, unless the cut separates the two bytes of a CR LF or LF CR pair.
pub proof fn lemma_split_input(a: Seq<u8>, b: Seq<u8>)
    requires
        !(a.len() > 0 && b.len() > 0 && is_pair(a.last(), b[0])),
    ensures
        decode_all(a + b) == (decode_all(a).0 + decode_all(decode_all(a).1 + b).0, decode_all(
            decode_all(a).1 + b,
        ).1),
    decreases a.len(),
{
    match decode_spec(a) {
        None => {
            assert(decode_all(a).0 + decode_all(a + b).0 =~= decode_all(a + b).0);
        },
        Some((line, ra)) => {
            lemma_step_extends(a, b);
            lemma_line_end_bounds(a);
            assert(ra.len() < a.len());
            if ra.len() > 0 {
                assert(ra.last() == a.last());
            }
            lemma_split_input(ra, b);
            assert((ra + b).len() < (a + b).len());
            let tail = decode_all(decode_all(ra).1 + b);
            assert(seq![line] + (decode_all(ra).0 + tail.0) =~= (seq![line] + decode_all(ra).0) + tail.0);
        },
    }
}

} // verus!
