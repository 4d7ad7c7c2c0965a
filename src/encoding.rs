use vstd::prelude::*;
use vstd::string::StringSliceAdditionalSpecFns;

verus! {

/// Bytes that form-urlencoding leaves as they are: `*`, `-`, `.`, `_`,
/// ASCII digits and ASCII letters.
pub open spec fn is_unreserved(b: u8) -> bool {
    b == 42 || b == 45 || b == 46 || b == 95 || (48 <= b && b <= 57) || (65 <= b && b <= 90) || (
    97 <= b && b <= 122)
}

/// The upper-case hexadecimal digit for a value below sixteen.
pub open spec fn hex_digit(n: u8) -> u8 {
    if n < 10 {
        (48 + n) as u8
    } else {
        (55 + n) as u8
    }
}

/// The value of a hexadecimal digit of either case.
pub open spec fn hex_value(c: u8) -> Option<u8> {
    if 48 <= c && c <= 57 {
        Some((c - 48) as u8)
    } else if 65 <= c && c <= 70 {
        Some((c - 55) as u8)
    } else if 97 <= c && c <= 102 {
        Some((c - 87) as u8)
    } else {
        None
    }
}

/// How one byte is written in a form-urlencoded component.
pub open spec fn encode_byte(b: u8) -> Seq<u8> {
    if is_unreserved(b) {
        seq![b]
    } else if b == 32 {
        seq![43u8]
    } else {
        seq![37u8, hex_digit(b / 16), hex_digit(b % 16)]
    }
}

/// The form-urlencoding of a byte string.
pub open spec fn form_encode(s: Seq<u8>) -> Seq<u8>
    decreases s.len(),
{
    if s.len() == 0 {
        seq![]
    } else {
        encode_byte(s[0]) + form_encode(s.drop_first())
    }
}

/// Form-urldecoding: `+` is a space, `%` and two hex digits is a byte, any
/// other byte stands for itself.
pub open spec fn form_decode(s: Seq<u8>) -> Seq<u8>
    decreases s.len(),
{
    if s.len() == 0 {
        seq![]
    } else if s[0] == 43 {
        seq![32u8] + form_decode(s.drop_first())
    } else if s[0] == 37 && s.len() >= 3 && hex_value(s[1]) is Some && hex_value(s[2]) is Some {
        seq![(hex_value(s[1])->0 * 16 + hex_value(s[2])->0) as u8] + form_decode(
            s.subrange(3, s.len() as int),
        )
    } else {
        seq![s[0]] + form_decode(s.drop_first())
    }
}

/// One `key=value` pair of a query string.
pub open spec fn query_pair(k: Seq<u8>, v: Seq<u8>) -> Seq<u8> {
    form_encode(k) + seq![61u8] + form_encode(v)
}

/// The query string of a sequence of pairs: the encoded pairs, in order,
/// separated by `&`.
pub open spec fn query_string(pairs: Seq<(Seq<u8>, Seq<u8>)>) -> Seq<u8>
    decreases pairs.len(),
{
    if pairs.len() == 0 {
        seq![]
    } else if pairs.len() == 1 {
        query_pair(pairs[0].0, pairs[0].1)
    } else {
        query_string(pairs.drop_last()) + seq![38u8] + query_pair(
            pairs.last().0,
            pairs.last().1,
        )
    }
}

/// The bytes of each pair of string slices.
pub open spec fn pair_bytes(pairs: Seq<(&str, &str)>) -> Seq<(Seq<u8>, Seq<u8>)> {
    pairs.map_values(|p: (&str, &str)| (p.0.spec_bytes(), p.1.spec_bytes()))
}

pub proof fn lemma_form_encode_append(a: Seq<u8>, b: Seq<u8>)
    ensures
        form_encode(a + b) == form_encode(a) + form_encode(b),
    decreases a.len(),
{
    if a.len() == 0 {
        assert(a + b =~= b);
        assert(form_encode(a) =~= seq![]);
        assert(form_encode(a) + form_encode(b) =~= form_encode(b));
    } else {
        assert((a + b).drop_first() =~= a.drop_first() + b);
        lemma_form_encode_append(a.drop_first(), b);
        assert(encode_byte(a[0]) + (form_encode(a.drop_first()) + form_encode(b))
            =~= (encode_byte(a[0]) + form_encode(a.drop_first())) + form_encode(b));
    }
}

proof fn lemma_hex_round_trip(n: u8)
    requires
        n < 16,
    ensures
        hex_value(hex_digit(n)) == Some(n),
        is_unreserved(hex_digit(n)),
{
}

/// Decoding the form-urlencoding of any byte string gives the string back.
pub proof fn lemma_form_round_trip(s: Seq<u8>)
    ensures
        form_decode(form_encode(s)) == s,
    decreases s.len(),
{
    if s.len() == 0 {
        assert(form_encode(s) =~= seq![]);
    } else {
        let b = s[0];
        let rest = form_encode(s.drop_first());
        let e = form_encode(s);
        lemma_form_round_trip(s.drop_first());
        if is_unreserved(b) {
            assert(e.drop_first() =~= rest);
        } else if b == 32 {
            assert(e.drop_first() =~= rest);
        } else {
            lemma_hex_round_trip(b / 16);
            lemma_hex_round_trip(b % 16);
            assert(e.subrange(3, e.len() as int) =~= rest);
            assert(e[1] == hex_digit(b / 16));
            assert(e[2] == hex_digit(b % 16));
        }
        assert(s =~= seq![b] + s.drop_first());
    }
}

/// Every byte of a form-urlencoded string is unreserved, `+` or `%`: never
/// the `&` that separates pairs nor the `=` inside a pair.
pub proof fn lemma_form_encode_alphabet(s: Seq<u8>)
    ensures
        forall|i: int|
            0 <= i < form_encode(s).len() ==> {
                let c = #[trigger] form_encode(s)[i];
                is_unreserved(c) || c == 43 || c == 37
            },
    decreases s.len(),
{
    if s.len() > 0 {
        lemma_form_encode_alphabet(s.drop_first());
        let b = s[0];
        if !is_unreserved(b) && b != 32 {
            lemma_hex_round_trip(b / 16);
            lemma_hex_round_trip(b % 16);
        }
        let e = form_encode(s);
        let eb = encode_byte(b);
        assert forall|i: int| 0 <= i < e.len() implies {
            let c = #[trigger] e[i];
            is_unreserved(c) || c == 43 || c == 37
        } by {
            if i >= eb.len() {
                assert(e[i] == form_encode(s.drop_first())[i - eb.len()]);
            }
        }
    }
}

/// The index of the last `b` in `s`, or -1.
pub open spec fn last_index(s: Seq<u8>, b: u8) -> int
    decreases s.len(),
{
    if s.len() == 0 {
        -1
    } else if s.last() == b {
        s.len() - 1
    } else {
        last_index(s.drop_last(), b)
    }
}

/// The index of the first `b` in `s`, or the length of `s`.
pub open spec fn first_index(s: Seq<u8>, b: u8) -> int
    decreases s.len(),
{
    if s.len() == 0 {
        0
    } else if s[0] == b {
        0
    } else {
        1 + first_index(s.drop_first(), b)
    }
}

/// A `key=value` piece of a query string, split at its first `=` and
/// decoded.
pub open spec fn parse_pair(p: Seq<u8>) -> (Seq<u8>, Seq<u8>) {
    let k = first_index(p, 61u8);
    if k < p.len() {
        (form_decode(p.take(k)), form_decode(p.skip(k + 1)))
    } else {
        (form_decode(p), seq![])
    }
}

/// The pairs of a query string: its pieces between `&`, in order, each
/// parsed as a pair.
pub open spec fn parse_query(s: Seq<u8>) -> Seq<(Seq<u8>, Seq<u8>)>
    decreases s.len(),
{
    let j = last_index(s, 38u8);
    if s.len() == 0 {
        seq![]
    } else if 0 <= j < s.len() {
        parse_query(s.take(j)).push(parse_pair(s.skip(j + 1)))
    } else {
        seq![parse_pair(s)]
    }
}

proof fn lemma_last_index_absent(s: Seq<u8>, b: u8)
    requires
        forall|i: int| 0 <= i < s.len() ==> s[i] != b,
    ensures
        last_index(s, b) == -1,
    decreases s.len(),
{
    if s.len() > 0 {
        lemma_last_index_absent(s.drop_last(), b);
    }
}

proof fn lemma_last_index_split(a: Seq<u8>, b: u8, c: Seq<u8>)
    requires
        forall|i: int| 0 <= i < c.len() ==> c[i] != b,
    ensures
        last_index(a + seq![b] + c, b) == a.len(),
    decreases c.len(),
{
    let s = a + seq![b] + c;
    if c.len() > 0 {
        assert(s.drop_last() =~= a + seq![b] + c.drop_last());
        lemma_last_index_split(a, b, c.drop_last());
    }
}

proof fn lemma_first_index_split(a: Seq<u8>, b: u8, c: Seq<u8>)
    requires
        forall|i: int| 0 <= i < a.len() ==> a[i] != b,
    ensures
        first_index(a + seq![b] + c, b) == a.len(),
    decreases a.len(),
{
    let s = a + seq![b] + c;
    if a.len() > 0 {
        assert(s.drop_first() =~= a.drop_first() + seq![b] + c);
        lemma_first_index_split(a.drop_first(), b, c);
    }
}

proof fn lemma_query_pair_parts(k: Seq<u8>, v: Seq<u8>)
    ensures
        parse_pair(query_pair(k, v)) == (k, v),
        forall|i: int| 0 <= i < query_pair(k, v).len() ==> #[trigger] query_pair(k, v)[i] != 38u8,
{
    let ek = form_encode(k);
    let ev = form_encode(v);
    let p = query_pair(k, v);
    lemma_form_encode_alphabet(k);
    lemma_form_encode_alphabet(v);
    assert forall|i: int| 0 <= i < ek.len() implies ek[i] != 61u8 by {
        assert(is_unreserved(ek[i]) || ek[i] == 43 || ek[i] == 37);
    }
    lemma_first_index_split(ek, 61u8, ev);
    assert(p.take(ek.len() as int) =~= ek);
    assert(p.skip(ek.len() as int + 1) =~= ev);
    lemma_form_round_trip(k);
    lemma_form_round_trip(v);
    assert forall|i: int| 0 <= i < p.len() implies #[trigger] p[i] != 38u8 by {
        if i < ek.len() {
            assert(is_unreserved(ek[i]) || ek[i] == 43 || ek[i] == 37);
        } else if i > ek.len() {
            let j = i - ek.len() - 1;
            assert(p[i] == ev[j]);
            assert(is_unreserved(ev[j]) || ev[j] == 43 || ev[j] == 37);
        }
    }
}

/// Parsing the query string of any sequence of pairs gives back every pair,
/// key and value decoded to the bytes they were built from, in the same order.
pub proof fn lemma_query_round_trip(pairs: Seq<(Seq<u8>, Seq<u8>)>)
    ensures
        parse_query(query_string(pairs)) == pairs,
    decreases pairs.len(),
{
    if pairs.len() == 0 {
        assert(parse_query(query_string(pairs)) =~= pairs);
    } else if pairs.len() == 1 {
        let p = query_pair(pairs[0].0, pairs[0].1);
        lemma_query_pair_parts(pairs[0].0, pairs[0].1);
        lemma_last_index_absent(p, 38u8);
        assert(p.len() > 0);
        assert(parse_query(p) =~= seq![(pairs[0].0, pairs[0].1)]);
        assert(parse_query(query_string(pairs)) =~= pairs);
    } else {
        let q = query_string(pairs.drop_last());
        let p = query_pair(pairs.last().0, pairs.last().1);
        let s = q + seq![38u8] + p;
        lemma_query_pair_parts(pairs.last().0, pairs.last().1);
        lemma_last_index_split(q, 38u8, p);
        lemma_query_round_trip(pairs.drop_last());
        assert(s.take(q.len() as int) =~= q);
        assert(s.skip(q.len() as int + 1) =~= p);
        assert(query_string(pairs) == s);
        assert(parse_query(s) =~= pairs.drop_last().push((pairs.last().0, pairs.last().1)));
        assert(pairs.drop_last().push((pairs.last().0, pairs.last().1)) =~= pairs);
    }
}

fn hex_digit_exec(n: u8) -> (r: u8)
    requires
        n < 16,
    ensures
        r == hex_digit(n),
{
    if n < 10 {
        48 + n
    } else {
        55 + n
    }
}

/// Appends the form-urlencoding of `s` to `out`, as
/// `form_urlencoded::byte_serialize` writes it.
pub fn form_encode_into(out: &mut Vec<u8>, s: &[u8])
    ensures
        final(out)@ == old(out)@ + form_encode(s@),
{
    let ghost start = out@;
    let mut i: usize = 0;
    while i < s.len()
        invariant
            i <= s@.len(),
            out@ == start + form_encode(s@.take(i as int)),
        decreases s@.len() - i,
    {
        let b = s[i];
        proof {
            lemma_form_encode_append(s@.take(i as int), seq![b]);
            assert(s@.take(i as int) + seq![b] =~= s@.take(i as int + 1));
            assert(seq![b].drop_first() =~= Seq::<u8>::empty());
            assert(form_encode(seq![b]) =~= encode_byte(b) + form_encode(Seq::<u8>::empty()));
            assert(form_encode(Seq::<u8>::empty()) =~= Seq::<u8>::empty());
        }
        let ghost before = out@;
        if b == 42 || b == 45 || b == 46 || b == 95 || (48 <= b && b <= 57) || (65 <= b && b
            <= 90) || (97 <= b && b <= 122) {
            out.push(b);
        } else if b == 32 {
            out.push(43);
        } else {
            out.push(37);
            out.push(hex_digit_exec(b / 16));
            out.push(hex_digit_exec(b % 16));
        }
        assert(out@ =~= before + encode_byte(b));
        assert(out@ =~= start + form_encode(s@.take(i as int + 1)));
        i = i + 1;
    }
    assert(s@.take(i as int) =~= s@);
}

/// Bytes that stand for themselves in a path segment: ASCII letters and
/// digits, `-`, `.`, `_` and `~`.
pub open spec fn is_segment_byte(b: u8) -> bool {
    b == 45 || b == 46 || b == 95 || b == 126 || (48 <= b && b <= 57) || (65 <= b && b <= 90) || (
    97 <= b && b <= 122)
}

/// How one byte is written in a percent-encoded path segment.
pub open spec fn segment_encode_byte(b: u8) -> Seq<u8> {
    if is_segment_byte(b) {
        seq![b]
    } else {
        seq![37u8, hex_digit(b / 16), hex_digit(b % 16)]
    }
}

/// The percent-encoding of a byte string as one path segment.
pub open spec fn segment_encode(s: Seq<u8>) -> Seq<u8>
    decreases s.len(),
{
    if s.len() == 0 {
        seq![]
    } else {
        segment_encode_byte(s[0]) + segment_encode(s.drop_first())
    }
}

proof fn lemma_segment_encode_append(a: Seq<u8>, b: Seq<u8>)
    ensures
        segment_encode(a + b) == segment_encode(a) + segment_encode(b),
    decreases a.len(),
{
    if a.len() == 0 {
        assert(a + b =~= b);
        assert(segment_encode(a) + segment_encode(b) =~= segment_encode(b));
    } else {
        assert((a + b).drop_first() =~= a.drop_first() + b);
        lemma_segment_encode_append(a.drop_first(), b);
        assert(segment_encode_byte(a[0]) + (segment_encode(a.drop_first()) + segment_encode(b))
            =~= (segment_encode_byte(a[0]) + segment_encode(a.drop_first())) + segment_encode(b));
    }
}

/// Percent-encodes `s` as one path segment: each byte but ASCII letters,
/// digits, `-`, `.`, `_` and `~` becomes `%` and two upper-case hex digits.
pub fn urlencode(s: &str) -> (r: Vec<u8>)
    ensures
        r@ == segment_encode(s.spec_bytes()),
{
    let b = s.as_bytes();
    let mut out: Vec<u8> = Vec::new();
    let mut i: usize = 0;
    while i < b.len()
        invariant
            i <= b@.len(),
            out@ == segment_encode(b@.take(i as int)),
        decreases b@.len() - i,
    {
        let c = b[i];
        proof {
            lemma_segment_encode_append(b@.take(i as int), seq![c]);
            assert(b@.take(i as int) + seq![c] =~= b@.take(i as int + 1));
            assert(seq![c].drop_first() =~= Seq::<u8>::empty());
            assert(segment_encode(seq![c]) =~= segment_encode_byte(c) + segment_encode(
                Seq::<u8>::empty(),
            ));
            assert(segment_encode(Seq::<u8>::empty()) =~= Seq::<u8>::empty());
        }
        let ghost before = out@;
        if c == 45 || c == 46 || c == 95 || c == 126 || (48 <= c && c <= 57) || (65 <= c && c
            <= 90) || (97 <= c && c <= 122) {
            out.push(c);
        } else {
            out.push(37);
            out.push(hex_digit_exec(c / 16));
            out.push(hex_digit_exec(c % 16));
        }
        assert(out@ =~= before + segment_encode_byte(c));
        i = i + 1;
    }
    assert(b@.take(i as int) =~= b@);
    out
}

/// Appends the query string of `pairs` to `out`.
pub fn query_string_into(out: &mut Vec<u8>, pairs: &Vec<(&str, &str)>)
    ensures
        final(out)@ == old(out)@ + query_string(pair_bytes(pairs@)),
{
    let ghost start = out@;
    let ghost all = pair_bytes(pairs@);
    let mut i: usize = 0;
    while i < pairs.len()
        invariant
            i <= pairs@.len(),
            all == pair_bytes(pairs@),
            out@ == start + query_string(all.take(i as int)),
        decreases pairs@.len() - i,
    {
        if i > 0 {
            out.push(38);
        }
        let (k, v) = pairs[i];
        form_encode_into(out, k.as_bytes());
        out.push(61);
        form_encode_into(out, v.as_bytes());
        proof {
            let t = all.take(i as int + 1);
            assert(t.drop_last() =~= all.take(i as int));
            assert(t.last() == all[i as int]);
            assert(all[i as int] == (k.spec_bytes(), v.spec_bytes()));
            if i == 0 {
                assert(all.take(0) =~= Seq::<(Seq<u8>, Seq<u8>)>::empty());
                assert(out@ =~= start + query_string(t));
            } else {
                assert(out@ =~= start + query_string(t));
            }
        }
        i = i + 1;
    }
    assert(all.take(i as int) =~= all);
}

} // verus!
