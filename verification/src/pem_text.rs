//! PEM framing: a tagged header line, the base64 body, a footer line.
//! This is the textual format of the persisted certificate and key
//! artifacts, and decoding is proved to invert encoding — reloading a
//! persisted artifact yields the DER bytes that were written, bit for
//! bit.

use vstd::prelude::*;
use crate::base64::{
    base64_decode,
    base64_encode,
    lemma_b64_round_trip,
    lemma_encode_no_eol,
    spec_b64_decode,
    spec_b64_encode,
};

verus! {

/// Five dashes, as they open and close each boundary line.
pub open spec fn spec_dashes() -> Seq<u8> {
    seq![45u8, 45u8, 45u8, 45u8, 45u8]
}

/// The bytes of `BEGIN` and a space.
pub open spec fn spec_begin_word() -> Seq<u8> {
    seq![66u8, 69u8, 71u8, 73u8, 78u8, 32u8]
}

/// The bytes of `END` and a space.
pub open spec fn spec_end_word() -> Seq<u8> {
    seq![69u8, 78u8, 68u8, 32u8]
}

/// The header line of a PEM block with the given tag, newline included.
pub open spec fn spec_header(tag: Seq<u8>) -> Seq<u8> {
    spec_dashes() + spec_begin_word() + tag + spec_dashes() + seq![10u8]
}

/// The footer line of a PEM block with the given tag, newline included.
pub open spec fn spec_footer(tag: Seq<u8>) -> Seq<u8> {
    spec_dashes() + spec_end_word() + tag + spec_dashes() + seq![10u8]
}

/// `s` with every line-feed and carriage-return byte removed.
pub open spec fn strip_eol(s: Seq<u8>) -> Seq<u8>
    decreases s.len(),
{
    if s.len() == 0 {
        s
    } else if s[0] == 10 || s[0] == 13 {
        strip_eol(s.drop_first())
    } else {
        seq![s[0]] + strip_eol(s.drop_first())
    }
}

/// `s` broken into lines of at most 64 bytes, each closed by a line
/// feed; empty input yields no line at all.
pub open spec fn wrap64(s: Seq<u8>) -> Seq<u8>
    decreases s.len(),
{
    if s.len() == 0 {
        s
    } else if s.len() <= 64 {
        s + seq![10u8]
    } else {
        s.subrange(0, 64) + seq![10u8] + wrap64(s.skip(64))
    }
}

/// The PEM block for `der` under `tag`: header, the base64 body
/// wrapped at 64 characters, footer.
pub open spec fn spec_pem_encode(tag: Seq<u8>, der: Seq<u8>) -> Seq<u8> {
    spec_header(tag) + wrap64(spec_b64_encode(der)) + spec_footer(tag)
}

/// The DER bytes a PEM block holds: the text must open with the tag's
/// header and close with its footer, and the body between them —
/// however its lines are broken — must be well-formed base64.
pub open spec fn spec_pem_decode(tag: Seq<u8>, s: Seq<u8>) -> Option<Seq<u8>> {
    let h = spec_header(tag);
    let f = spec_footer(tag);
    if s.len() >= h.len() + f.len() && s.subrange(0, h.len() as int) == h && s.subrange(
        s.len() - f.len(),
        s.len() as int,
    ) == f {
        spec_b64_decode(strip_eol(s.subrange(h.len() as int, s.len() - f.len())))
    } else {
        None
    }
}

/// Removing line breaks distributes over concatenation.
proof fn lemma_strip_eol_add(a: Seq<u8>, b: Seq<u8>)
    ensures
        strip_eol(a + b) == strip_eol(a) + strip_eol(b),
    decreases a.len(),
{
    if a.len() == 0 {
        assert(a + b =~= b);
        assert(strip_eol(a) + strip_eol(b) =~= strip_eol(b));
    } else {
        assert((a + b).drop_first() =~= a.drop_first() + b);
        lemma_strip_eol_add(a.drop_first(), b);
        if a[0] == 10 || a[0] == 13 {
        } else {
            assert(seq![a[0]] + (strip_eol(a.drop_first()) + strip_eol(b)) =~= (seq![a[0]]
                + strip_eol(a.drop_first())) + strip_eol(b));
        }
    }
}

/// A sequence without line breaks is untouched by `strip_eol`.
proof fn lemma_strip_eol_clean(s: Seq<u8>)
    requires
        forall|i: int| 0 <= i < s.len() ==> #[trigger] s[i] != 10 && s[i] != 13,
    ensures
        strip_eol(s) == s,
    decreases s.len(),
{
    if s.len() == 0 {
    } else {
        lemma_strip_eol_clean(s.drop_first());
        assert(seq![s[0]] + s.drop_first() =~= s);
    }
}

/// `strip_eol` of a single byte: gone where it is a line break,
/// untouched otherwise.
proof fn lemma_strip_eol_single(c: u8)
    ensures
        strip_eol(seq![c]) == if c == 10 || c == 13 {
            Seq::<u8>::empty()
        } else {
            seq![c]
        },
{
    assert(seq![c].drop_first() =~= Seq::<u8>::empty());
    assert(strip_eol(Seq::<u8>::empty()) =~= Seq::<u8>::empty());
    if c == 10 || c == 13 {
    } else {
        assert(seq![c] + Seq::<u8>::empty() =~= seq![c]);
    }
}

/// Wrapping inserts only line feeds: removing them gives back the
/// unwrapped sequence, for any input without line breaks of its own.
proof fn lemma_strip_eol_wrap64(s: Seq<u8>)
    requires
        forall|i: int| 0 <= i < s.len() ==> #[trigger] s[i] != 10 && s[i] != 13,
    ensures
        strip_eol(wrap64(s)) == s,
    decreases s.len(),
{
    if s.len() == 0 {
    } else if s.len() <= 64 {
        lemma_strip_eol_add(s, seq![10u8]);
        lemma_strip_eol_clean(s);
        lemma_strip_eol_single(10u8);
        assert(strip_eol(wrap64(s)) =~= s);
    } else {
        let head = s.subrange(0, 64);
        let tail = s.skip(64);
        assert forall|i: int| 0 <= i < head.len() implies #[trigger] head[i] != 10 && head[i]
            != 13 by {
            assert(head[i] == s[i]);
        }
        assert forall|i: int| 0 <= i < tail.len() implies #[trigger] tail[i] != 10 && tail[i]
            != 13 by {
            assert(tail[i] == s[i + 64]);
        }
        assert(wrap64(s) =~= (head + seq![10u8]) + wrap64(tail));
        lemma_strip_eol_add(head + seq![10u8], wrap64(tail));
        lemma_strip_eol_add(head, seq![10u8]);
        lemma_strip_eol_clean(head);
        lemma_strip_eol_single(10u8);
        lemma_strip_eol_wrap64(tail);
        assert(strip_eol(wrap64(s)) =~= s);
    }
}

/// The round-trip law of the PEM codec: decoding an encoded block
/// under the same tag yields exactly the DER bytes that were encoded.
pub proof fn lemma_pem_round_trip(tag: Seq<u8>, der: Seq<u8>)
    ensures
        spec_pem_decode(tag, spec_pem_encode(tag, der)) == Some(der),
{
    let h = spec_header(tag);
    let f = spec_footer(tag);
    let body = spec_b64_encode(der);
    let wrapped = wrap64(body);
    let s = spec_pem_encode(tag, der);
    assert(s.len() == h.len() + wrapped.len() + f.len());
    assert(s.subrange(0, h.len() as int) =~= h);
    assert(s.subrange(s.len() - f.len(), s.len() as int) =~= f);
    assert(s.subrange(h.len() as int, s.len() - f.len()) =~= wrapped);
    lemma_encode_no_eol(der);
    assert forall|i: int| 0 <= i < body.len() implies #[trigger] body[i] != 10 && body[i] != 13 by {
        assert(spec_b64_encode(der)[i] >= 43);
    }
    lemma_strip_eol_wrap64(body);
    lemma_b64_round_trip(der);
}

/// Append all of `src` to `dst`.
fn push_all(dst: &mut Vec<u8>, src: &Vec<u8>)
    ensures
        final(dst)@ == old(dst)@ + src@,
{
    let n = src.len();
    let mut i: usize = 0;
    while i < n
        invariant
            i <= n,
            n == src@.len(),
            dst@ == old(dst)@ + src@.subrange(0, i as int),
        decreases n - i,
    {
        dst.push(src[i]);
        proof {
            assert(old(dst)@ + src@.subrange(0, i as int) + seq![src@[i as int]] =~= old(dst)@
                + src@.subrange(0, i + 1));
        }
        i = i + 1;
    }
    proof {
        assert(src@.subrange(0, n as int) =~= src@);
    }
}

/// Append the five-dash boundary to `dst`.
fn push_dashes(dst: &mut Vec<u8>)
    ensures
        final(dst)@ == old(dst)@ + spec_dashes(),
{
    dst.push(45);
    dst.push(45);
    dst.push(45);
    dst.push(45);
    dst.push(45);
    proof {
        assert(dst@ =~= old(dst)@ + spec_dashes());
    }
}

/// The header line for `tag`.
fn make_header(tag: &Vec<u8>) -> (r: Vec<u8>)
    ensures
        r@ == spec_header(tag@),
{
    let mut out: Vec<u8> = Vec::new();
    push_dashes(&mut out);
    out.push(66);
    out.push(69);
    out.push(71);
    out.push(73);
    out.push(78);
    out.push(32);
    push_all(&mut out, tag);
    push_dashes(&mut out);
    out.push(10);
    proof {
        assert(out@ =~= spec_header(tag@));
    }
    out
}

/// The footer line for `tag`.
fn make_footer(tag: &Vec<u8>) -> (r: Vec<u8>)
    ensures
        r@ == spec_footer(tag@),
{
    let mut out: Vec<u8> = Vec::new();
    push_dashes(&mut out);
    out.push(69);
    out.push(78);
    out.push(68);
    out.push(32);
    push_all(&mut out, tag);
    push_dashes(&mut out);
    out.push(10);
    proof {
        assert(out@ =~= spec_footer(tag@));
    }
    out
}

/// Append `src` to `dst`, broken into lines of at most 64 bytes.
fn push_wrapped(dst: &mut Vec<u8>, src: &Vec<u8>)
    ensures
        final(dst)@ == old(dst)@ + wrap64(src@),
{
    let n = src.len();
    let mut i: usize = 0;
    proof {
        assert(src@.skip(0) == src@);
    }
    while n - i > 64
        invariant
            i <= n,
            n == src@.len(),
            old(dst)@ + wrap64(src@) == dst@ + wrap64(src@.skip(i as int)),
        decreases n - i,
    {
        let ghost snap = dst@;
        let ghost tail = src@.skip(i as int);
        let mut j: usize = 0;
        while j < 64
            invariant
                j <= 64,
                i + 64 < n,
                n == src@.len(),
                dst@ == snap + src@.subrange(i as int, i + j),
            decreases 64 - j,
        {
            dst.push(src[i + j]);
            proof {
                assert(snap + src@.subrange(i as int, i + j) + seq![src@[i + j]] =~= snap
                    + src@.subrange(i as int, i + j + 1));
            }
            j = j + 1;
        }
        dst.push(10);
        proof {
            assert(tail.len() > 64);
            assert(wrap64(tail) == tail.subrange(0, 64) + seq![10u8] + wrap64(tail.skip(64)));
            assert(tail.subrange(0, 64) =~= src@.subrange(i as int, i + 64));
            assert(tail.skip(64) =~= src@.skip(i + 64));
            assert(dst@ =~= snap + src@.subrange(i as int, i + 64) + seq![10u8]);
            assert(dst@ + wrap64(src@.skip(i + 64)) =~= snap + wrap64(tail));
        }
        i = i + 64;
    }
    if i == n {
        proof {
            assert(src@.skip(i as int) =~= Seq::<u8>::empty());
            assert(dst@ + wrap64(Seq::<u8>::empty()) =~= dst@);
        }
    } else {
        let ghost snap = dst@;
        let ghost tail = src@.skip(i as int);
        let mut j: usize = i;
        while j < n
            invariant
                i <= j <= n,
                n == src@.len(),
                dst@ == snap + src@.subrange(i as int, j as int),
            decreases n - j,
        {
            dst.push(src[j]);
            proof {
                assert(snap + src@.subrange(i as int, j as int) + seq![src@[j as int]] =~= snap
                    + src@.subrange(i as int, j + 1));
            }
            j = j + 1;
        }
        dst.push(10);
        proof {
            assert(0 < tail.len() <= 64);
            assert(tail =~= src@.subrange(i as int, n as int));
            assert(wrap64(tail) == tail + seq![10u8]);
            assert(dst@ =~= snap + wrap64(tail));
        }
    }
}

/// Render the PEM block for `der` under `tag`.
pub fn pem_encode(tag: &Vec<u8>, der: &Vec<u8>) -> (r: Vec<u8>)
    ensures
        r@ == spec_pem_encode(tag@, der@),
{
    let mut out = make_header(tag);
    let body = base64_encode(der);
    push_wrapped(&mut out, &body);
    let footer = make_footer(tag);
    push_all(&mut out, &footer);
    proof {
        assert(out@ =~= spec_pem_encode(tag@, der@));
    }
    out
}

/// Whether `text` carries `pat` starting at `pos`.
fn matches_at(text: &Vec<u8>, pos: usize, pat: &Vec<u8>) -> (r: bool)
    requires
        pos + pat@.len() <= text@.len(),
    ensures
        r <==> text@.subrange(pos as int, pos + pat@.len()) == pat@,
{
    let n = pat.len();
    let tn = text.len();
    let mut i: usize = 0;
    while i < n
        invariant
            i <= n,
            n == pat@.len(),
            tn == text@.len(),
            pos + n <= tn,
            forall|j: int| 0 <= j < i ==> text@[pos + j] == pat@[j],
        decreases n - i,
    {
        if text[pos + i] != pat[i] {
            proof {
                assert(text@.subrange(pos as int, pos + pat@.len())[i as int] != pat@[i as int]);
            }
            return false;
        }
        i = i + 1;
    }
    proof {
        assert(text@.subrange(pos as int, pos + pat@.len()) =~= pat@);
    }
    true
}

/// Parse the PEM block `text` under `tag`, yielding its DER bytes.
/// Returns `None` exactly where the text is not a PEM block of that
/// tag with a well-formed base64 body.
pub fn pem_decode(tag: &Vec<u8>, text: &Vec<u8>) -> (r: Option<Vec<u8>>)
    ensures
        r matches Some(v) ==> spec_pem_decode(tag@, text@) == Some(v@),
        r is None ==> spec_pem_decode(tag@, text@) is None,
{
    let h = make_header(tag);
    let f = make_footer(tag);
    let n = text.len();
    if n < h.len() || n - h.len() < f.len() {
        return None;
    }
    if !matches_at(text, 0, &h) {
        return None;
    }
    if !matches_at(text, n - f.len(), &f) {
        return None;
    }
    // collect the body, dropping line breaks
    let mut body: Vec<u8> = Vec::new();
    let start = h.len();
    let stop = n - f.len();
    let mut i: usize = start;
    proof {
        assert(text@.subrange(start as int, start as int) =~= Seq::<u8>::empty());
        assert(strip_eol(Seq::<u8>::empty()) =~= Seq::<u8>::empty());
        assert(body@ =~= Seq::<u8>::empty());
    }
    while i < stop
        invariant
            start <= i <= stop <= text@.len(),
            body@ == strip_eol(text@.subrange(start as int, i as int)),
        decreases stop - i,
    {
        let c = text[i];
        proof {
            assert(text@.subrange(start as int, i + 1) =~= text@.subrange(start as int, i as int)
                + seq![text@[i as int]]);
            lemma_strip_eol_add(text@.subrange(start as int, i as int), seq![text@[i as int]]);
            lemma_strip_eol_single(text@[i as int]);
        }
        if c != 10 && c != 13 {
            body.push(c);
            proof {
                assert(body@ =~= strip_eol(text@.subrange(start as int, i + 1)));
            }
        } else {
            proof {
                assert(body@ =~= strip_eol(text@.subrange(start as int, i + 1)));
            }
        }
        i = i + 1;
    }
    match base64_decode(&body) {
        Some(der) => Some(der),
        None => None,
    }
}

} // verus!
