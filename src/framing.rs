//! Framing a multipart body from parts, and reading the parts back.

use crate::content::{
    blank_line, classifies, crlf, declared_media, delimiter, kind_of, part_body, part_headers,
    part_media, parts_from, raw_parts, strip_crlf, Data, Kind, MediaTypeView,
};
use crate::scan::{first_from, occurs_at};
use vstd::prelude::*;

verus! {

/// What follows the first delimiter of a framed body: each part, then a delimiter,
/// and `--` after the last.
pub open spec fn framed_rest(d: Seq<u8>, parts: Seq<Seq<u8>>) -> Seq<u8>
    decreases parts.len(),
{
    if parts.len() == 0 {
        seq![45u8, 45u8]
    } else {
        parts[0] + d + framed_rest(d, parts.drop_first())
    }
}

/// A multipart body: delimiter `d` before each part and a closing `--` after the last.
pub open spec fn framed(d: Seq<u8>, parts: Seq<Seq<u8>>) -> Seq<u8> {
    d + framed_rest(d, parts)
}

/// Whether `pat` first occurs in `p + pat` at its end: nowhere inside `p`, nor
/// straddling `p` and the `pat` that follows.
pub open spec fn ends_at_pattern(p: Seq<u8>, pat: Seq<u8>) -> bool {
    forall|k: int| 0 <= k < p.len() ==> !occurs_at(p + pat, pat, k)
}

/// Whether raw part `p` can stand between delimiters `d`: it does not open with
/// `--`, and `d` first occurs after it.
pub open spec fn separable(d: Seq<u8>, p: Seq<u8>) -> bool {
    &&& p.len() >= 2
    &&& !(p[0] == 45u8 && p[1] == 45u8)
    &&& ends_at_pattern(p, d)
}

/// Where `p + pat` stands in `s` at `pos` and `pat` first occurs in it at its end,
/// the search for `pat` from any position up to there finds that end.
pub proof fn lemma_first_at_end(s: Seq<u8>, pat: Seq<u8>, p: Seq<u8>, pos: int, k: int)
    requires
        0 <= pos <= k <= pos + p.len(),
        pos + p.len() + pat.len() <= s.len(),
        s.subrange(pos, pos + p.len() + pat.len()) == p + pat,
        ends_at_pattern(p, pat),
    ensures
        first_from(s, pat, k) == Some(pos + p.len()),
    decreases pos + p.len() - k,
{
    let w = p + pat;
    assert(s.subrange(k, k + pat.len()) =~= w.subrange(k - pos, k - pos + pat.len())) by {
        assert forall|i: int| 0 <= i < pat.len() implies #[trigger] s.subrange(k, k + pat.len())[i]
            == w.subrange(k - pos, k - pos + pat.len())[i] by {
            assert(s[k + i] == s.subrange(pos, pos + p.len() + pat.len())[k - pos + i]);
        }
    }
    if k == pos + p.len() {
        assert(w.subrange(p.len() as int, (p.len() + pat.len()) as int) =~= pat);
    } else {
        assert(!occurs_at(w, pat, k - pos));
        lemma_first_at_end(s, pat, p, pos, k + 1);
    }
}

/// Reading parts from `pos` of a body whose rest is framed from `parts` gives `parts`.
pub proof fn lemma_parts_from_framed(s: Seq<u8>, d: Seq<u8>, parts: Seq<Seq<u8>>, pos: int)
    requires
        d.len() > 0,
        0 <= pos <= s.len(),
        s.subrange(pos, s.len() as int) == framed_rest(d, parts),
        forall|i: int| 0 <= i < parts.len() ==> separable(d, #[trigger] parts[i]),
    ensures
        parts_from(s, d, pos) == parts,
    decreases parts.len(),
{
    let rest = s.subrange(pos, s.len() as int);
    if parts.len() == 0 {
        assert(s.subrange(pos, pos + 2) =~= seq![45u8, 45u8]) by {
            assert(s.subrange(pos, pos + 2) =~= rest.subrange(0, 2));
        }
        assert(parts_from(s, d, pos) =~= parts);
    } else {
        let p = parts[0];
        assert(separable(d, p));
        assert(rest =~= p + d + framed_rest(d, parts.drop_first()));
        assert(s[pos] == p[0] && s[pos + 1] == p[1]) by {
            assert(rest[0] == p[0] && rest[1] == p[1]);
        }
        assert(!occurs_at(s, seq![45u8, 45u8], pos)) by {
            if occurs_at(s, seq![45u8, 45u8], pos) {
                assert(s.subrange(pos, pos + 2)[0] == s[pos]);
                assert(s.subrange(pos, pos + 2)[1] == s[pos + 1]);
            }
        }
        assert(s.subrange(pos, pos + p.len() + d.len()) =~= p + d) by {
            assert forall|i: int| 0 <= i < p.len() + d.len() implies s.subrange(
                pos,
                pos + p.len() + d.len(),
            )[i] == (p + d)[i] by {
                assert(s[pos + i] == rest[i]);
            }
        }
        lemma_first_at_end(s, d, p, pos, pos);
        let next = pos + p.len() + d.len();
        assert(s.subrange(pos, pos + p.len()) =~= p) by {
            assert forall|i: int| 0 <= i < p.len() implies s.subrange(pos, pos + p.len())[i]
                == p[i] by {
                assert(s[pos + i] == rest[i]);
            }
        }
        assert(s.subrange(next, s.len() as int) =~= framed_rest(d, parts.drop_first())) by {
            assert forall|i: int| 0 <= i < s.len() - next implies s.subrange(
                next,
                s.len() as int,
            )[i] == framed_rest(d, parts.drop_first())[i] by {
                assert(s[next + i] == rest[p.len() + d.len() + i]);
            }
        }
        assert forall|i: int| 0 <= i < parts.drop_first().len() implies separable(
            d,
            #[trigger] parts.drop_first()[i],
        ) by {
            assert(parts.drop_first()[i] == parts[i + 1]);
        }
        lemma_parts_from_framed(s, d, parts.drop_first(), next);
        assert(parts_from(s, d, pos) =~= parts);
    }
}

/// Splitting a framed body on its delimiter gives back the parts it was framed from,
/// in order, where each part can stand between delimiters.
pub proof fn lemma_raw_parts_framed(d: Seq<u8>, parts: Seq<Seq<u8>>)
    requires
        d.len() > 0,
        forall|i: int| 0 <= i < parts.len() ==> separable(d, #[trigger] parts[i]),
    ensures
        raw_parts(framed(d, parts), d) == parts,
{
    let s = framed(d, parts);
    assert(s.subrange(0, d.len() as int) =~= d);
    assert(occurs_at(s, d, 0));
    assert(first_from(s, d, 0) == Some(0int));
    assert(s.subrange(d.len() as int, s.len() as int) =~= framed_rest(d, parts));
    lemma_parts_from_framed(s, d, parts, d.len() as int);
}

/// A raw part: a line break, the header block `h`, an empty line, the body `b`, and the
/// line break before the next delimiter.
pub open spec fn encode_part(h: Seq<u8>, b: Seq<u8>) -> Seq<u8> {
    crlf() + h + blank_line() + b + crlf()
}

/// The raw parts of header blocks `heads` and bodies `bodies`, pair by pair.
pub open spec fn encoded_parts(heads: Seq<Seq<u8>>, bodies: Seq<Seq<u8>>) -> Seq<Seq<u8>> {
    Seq::new(heads.len(), |i: int| encode_part(heads[i], bodies[i]))
}

/// A part whose header block holds no empty line reads back as that header block
/// and that body.
pub proof fn lemma_encoded_part(h: Seq<u8>, b: Seq<u8>)
    requires
        ends_at_pattern(crlf() + h, blank_line()),
    ensures
        part_headers(encode_part(h, b)) == crlf() + h,
        part_body(encode_part(h, b)) == b,
{
    let x = encode_part(h, b);
    let head = crlf() + h;
    let k = head.len() as int;
    assert(x =~= head + blank_line() + (b + crlf()));
    assert(x.subrange(0, k + 4) =~= head + blank_line());
    lemma_first_at_end(x, blank_line(), head, 0, 0);
    assert(x.subrange(0, k) =~= head);
    assert(x.subrange(k + 4, x.len() as int) =~= b + crlf());
    let t = b + crlf();
    assert(t.subrange(t.len() - 2, t.len() as int) =~= crlf());
    assert(t.subrange(0, t.len() - 2) =~= b);
    assert(strip_crlf(t) == b);
}

/// A multipart body framed from parts, each a header block and a body, decodes to a
/// multipart sequence of as many items, in the same order, each decoded from its own
/// body under the media type its own header block declares. The parts must be
/// separable by the boundary, and no header block may hold an empty line.
pub proof fn lemma_multipart_round_trip(
    m: MediaTypeView,
    heads: Seq<Seq<u8>>,
    bodies: Seq<Seq<u8>>,
    d: Data,
)
    requires
        kind_of(m) == Kind::Multipart,
        m.boundary is Some,
        heads.len() == bodies.len(),
        forall|i: int|
            0 <= i < heads.len() ==> ends_at_pattern(crlf() + #[trigger] heads[i], blank_line())
                && separable(delimiter(m.boundary->0), encode_part(heads[i], bodies[i])),
        classifies(m, framed(delimiter(m.boundary->0), encoded_parts(heads, bodies)), d),
    ensures
        d matches Data::Multipart(v) && v@.len() == heads.len() && forall|i: int|
            0 <= i < heads.len() ==> classifies(
                declared_media(crlf() + heads[i]),
                bodies[i],
                #[trigger] v@[i],
            ),
{
    let dl = delimiter(m.boundary->0);
    let parts = encoded_parts(heads, bodies);
    let body = framed(dl, parts);
    assert forall|i: int| 0 <= i < parts.len() implies separable(dl, #[trigger] parts[i]) by {
        assert(heads[i] == heads[i]);
    }
    lemma_raw_parts_framed(dl, parts);
    assert(raw_parts(body, dl) == parts);
    let v = d->Multipart_0;
    assert forall|i: int| 0 <= i < heads.len() implies classifies(
        declared_media(crlf() + heads[i]),
        bodies[i],
        #[trigger] v@[i],
    ) by {
        assert(heads[i] == heads[i]);
        lemma_encoded_part(heads[i], bodies[i]);
        assert(raw_parts(body, dl)[i] == encode_part(heads[i], bodies[i]));
        assert(part_media(raw_parts(body, dl)[i]) == declared_media(crlf() + heads[i]));
    }
}

} // verus!
