//! URL-form percent encoding: each byte outside the unreserved set becomes
//! `%` followed by two uppercase hex digits, and field pairs are joined as
//! `key=value` with `&`. The encoding is proved lossless: two different pair
//! lists never produce the same encoded text.
use vstd::prelude::*;
use vstd::arithmetic::div_mod::lemma_fundamental_div_mod;

verus! {

/// Bytes written as themselves: ASCII alphanumerics and `-` `.` `_` `~`.
pub open spec fn is_unreserved(b: u8) -> bool {
    (0x41 <= b <= 0x5a) || (0x61 <= b <= 0x7a) || (0x30 <= b <= 0x39) || b == 0x2d || b == 0x2e
        || b == 0x5f || b == 0x7e
}

/// Uppercase hex digit for a value below 16.
pub open spec fn hex_char(n: u8) -> char {
    if n < 10 {
        (0x30 + n) as char
    } else {
        (0x37 + n) as char
    }
}

/// The characters one byte encodes to.
pub open spec fn encode_byte(b: u8) -> Seq<char> {
    if is_unreserved(b) {
        seq![b as char]
    } else {
        seq!['%', hex_char(b / 16), hex_char(b % 16)]
    }
}

/// Percent encoding of a byte string.
pub open spec fn pct_encode(bs: Seq<u8>) -> Seq<char>
    decreases bs.len(),
{
    if bs.len() == 0 {
        Seq::empty()
    } else {
        encode_byte(bs[0]) + pct_encode(bs.drop_first())
    }
}

/// The text of one `key=value` pair.
pub open spec fn pair_text(p: (Seq<u8>, Seq<u8>)) -> Seq<char> {
    pct_encode(p.0) + seq!['='] + pct_encode(p.1)
}

/// The full encoded form: pairs joined with `&`.
pub open spec fn form_encode(pairs: Seq<(Seq<u8>, Seq<u8>)>) -> Seq<char>
    decreases pairs.len(), 0int,
{
    if pairs.len() == 0 {
        Seq::empty()
    } else {
        pair_text(pairs[0]) + form_tail(pairs.drop_first())
    }
}

/// The encoded continuation after the first pair.
pub open spec fn form_tail(pairs: Seq<(Seq<u8>, Seq<u8>)>) -> Seq<char>
    decreases pairs.len(), 1int,
{
    if pairs.len() == 0 {
        Seq::empty()
    } else {
        seq!['&'] + form_encode(pairs)
    }
}

proof fn lemma_pct_snoc(bs: Seq<u8>, b: u8)
    ensures
        pct_encode(bs.push(b)) == pct_encode(bs) + encode_byte(b),
    decreases bs.len(),
{
    if bs.len() == 0 {
        assert(bs.push(b).len() == 1);
        assert(bs.push(b)[0] == b);
        assert(bs.push(b).drop_first() =~= Seq::<u8>::empty());
        assert(pct_encode(bs.push(b).drop_first()) =~= Seq::<char>::empty());
        assert(pct_encode(bs.push(b)) =~= encode_byte(b));
        assert(pct_encode(bs) + encode_byte(b) =~= encode_byte(b));
    } else {
        assert(bs.push(b).drop_first() =~= bs.drop_first().push(b));
        assert(bs.push(b)[0] == bs[0]);
        lemma_pct_snoc(bs.drop_first(), b);
        assert(pct_encode(bs.push(b)) == encode_byte(bs[0]) + (pct_encode(bs.drop_first())
            + encode_byte(b)));
        assert(pct_encode(bs.push(b)) =~= pct_encode(bs) + encode_byte(b));
    }
}

/// No character of a percent encoding is `=` or `&`, and none but the escape
/// marker itself is `%`.
proof fn lemma_pct_chars(bs: Seq<u8>, i: int)
    requires
        0 <= i < pct_encode(bs).len(),
    ensures
        pct_encode(bs)[i] != '=',
        pct_encode(bs)[i] != '&',
    decreases bs.len(),
{
    if bs.len() > 0 {
        let e = encode_byte(bs[0]);
        if i < e.len() {
        } else {
            lemma_pct_chars(bs.drop_first(), i - e.len());
        }
    }
}

proof fn lemma_hex_char_inj(m: u8, n: u8)
    requires
        m < 16,
        n < 16,
        hex_char(m) == hex_char(n),
    ensures
        m == n,
{
}

/// Percent encoding is injective: the encoded text determines the bytes.
pub proof fn lemma_pct_encode_injective(a: Seq<u8>, b: Seq<u8>)
    requires
        pct_encode(a) == pct_encode(b),
    ensures
        a == b,
    decreases a.len(),
{
    if a.len() == 0 {
        if b.len() > 0 {
            assert(pct_encode(b) == encode_byte(b[0]) + pct_encode(b.drop_first()));
            assert(pct_encode(b).len() >= 1);
        }
        assert(a =~= b);
    } else if b.len() == 0 {
        assert(pct_encode(a) == encode_byte(a[0]) + pct_encode(a.drop_first()));
        assert(pct_encode(a).len() >= 1);
    } else {
        let ea = encode_byte(a[0]);
        let eb = encode_byte(b[0]);
        let ta = pct_encode(a.drop_first());
        let tb = pct_encode(b.drop_first());
        assert(pct_encode(a) == ea + ta);
        assert(pct_encode(b) == eb + tb);
        if is_unreserved(a[0]) && is_unreserved(b[0]) {
            assert((ea + ta)[0] == a[0] as char);
            assert((eb + tb)[0] == b[0] as char);
            assert(a[0] == b[0]);
        } else if is_unreserved(a[0]) && !is_unreserved(b[0]) {
            assert((ea + ta)[0] == a[0] as char);
            assert((eb + tb)[0] == '%');
            assert(false);
        } else if !is_unreserved(a[0]) && is_unreserved(b[0]) {
            assert((ea + ta)[0] == '%');
            assert((eb + tb)[0] == b[0] as char);
            assert(false);
        } else {
            assert(pct_encode(a).len() >= 3);
            assert((ea + ta)[1] == hex_char(a[0] / 16));
            assert((ea + ta)[2] == hex_char(a[0] % 16));
            assert((eb + tb)[1] == hex_char(b[0] / 16));
            assert((eb + tb)[2] == hex_char(b[0] % 16));
            lemma_hex_char_inj(a[0] / 16, b[0] / 16);
            lemma_hex_char_inj(a[0] % 16, b[0] % 16);
            lemma_fundamental_div_mod(a[0] as int, 16);
            lemma_fundamental_div_mod(b[0] as int, 16);
            assert(a[0] == b[0]);
        }
        assert(ea == eb);
        assert(ta =~= (ea + ta).subrange(ea.len() as int, (ea + ta).len() as int));
        assert(tb =~= (eb + tb).subrange(eb.len() as int, (eb + tb).len() as int));
        lemma_pct_encode_injective(a.drop_first(), b.drop_first());
        assert(a.len() == b.len());
        assert forall|i: int| 0 <= i < a.len() implies a[i] == b[i] by {
            if i > 0 {
                assert(a[i] == a.drop_first()[i - 1]);
                assert(b[i] == b.drop_first()[i - 1]);
            }
        }
        assert(a =~= b);
    }
}

/// If a separator-free prefix meets a continuation that is empty or starts
/// with the separator, the split point is unique.
proof fn lemma_split_at_sep(x: Seq<char>, y: Seq<char>, x2: Seq<char>, y2: Seq<char>, c: char)
    requires
        x + y == x2 + y2,
        forall|i: int| 0 <= i < x.len() ==> x[i] != c,
        forall|i: int| 0 <= i < x2.len() ==> x2[i] != c,
        y.len() == 0 || y[0] == c,
        y2.len() == 0 || y2[0] == c,
    ensures
        x == x2,
        y == y2,
{
    assert((x + y).len() == x.len() + y.len());
    assert((x2 + y2).len() == x2.len() + y2.len());
    assert(x.len() + y.len() == x2.len() + y2.len());
    if x.len() < x2.len() {
        assert(y.len() > 0);
        assert((x + y)[x.len() as int] == c);
        assert((x2 + y2)[x.len() as int] == x2[x.len() as int]);
        assert(false);
    }
    if x2.len() < x.len() {
        assert(y2.len() > 0);
        assert((x2 + y2)[x2.len() as int] == c);
        assert((x + y)[x2.len() as int] == x[x2.len() as int]);
        assert(false);
    }
    assert forall|i: int| 0 <= i < x.len() implies x[i] == x2[i] by {
        assert((x + y)[i] == x[i]);
        assert((x2 + y2)[i] == x2[i]);
    }
    assert(x =~= x2);
    assert forall|i: int| 0 <= i < y.len() implies y[i] == y2[i] by {
        assert((x + y)[x.len() + i] == y[i]);
        assert((x2 + y2)[x2.len() + i] == y2[i]);
    }
    assert(y =~= y2);
}

/// The form encoding is injective: the encoded text determines the field
/// pairs exactly, so no information is lost on the wire.
#[verifier::rlimit(100)]
pub proof fn lemma_form_encode_injective(p1: Seq<(Seq<u8>, Seq<u8>)>, p2: Seq<(Seq<u8>, Seq<u8>)>)
    requires
        form_encode(p1) == form_encode(p2),
    ensures
        p1 == p2,
    decreases p1.len(),
{
    if p1.len() == 0 {
        if p2.len() > 0 {
            assert(form_encode(p2).len() >= 1);
        }
        assert(p1 =~= p2);
    } else if p2.len() == 0 {
        assert(form_encode(p1).len() >= 1);
    } else {
        let k1 = pct_encode(p1[0].0);
        let k2 = pct_encode(p2[0].0);
        let v1 = pct_encode(p1[0].1);
        let v2 = pct_encode(p2[0].1);
        let t1 = form_tail(p1.drop_first());
        let t2 = form_tail(p2.drop_first());
        let r1 = seq!['='] + v1 + t1;
        let r2 = seq!['='] + v2 + t2;
        assert(form_encode(p1) =~= k1 + r1);
        assert(form_encode(p2) =~= k2 + r2);
        assert forall|i: int| 0 <= i < k1.len() implies k1[i] != '=' by {
            lemma_pct_chars(p1[0].0, i);
        }
        assert forall|i: int| 0 <= i < k2.len() implies k2[i] != '=' by {
            lemma_pct_chars(p2[0].0, i);
        }
        lemma_split_at_sep(k1, r1, k2, r2, '=');
        lemma_pct_encode_injective(p1[0].0, p2[0].0);
        let s1 = v1 + t1;
        let s2 = v2 + t2;
        assert(s1 =~= r1.drop_first());
        assert(s2 =~= r2.drop_first());
        assert forall|i: int| 0 <= i < v1.len() implies v1[i] != '&' by {
            lemma_pct_chars(p1[0].1, i);
        }
        assert forall|i: int| 0 <= i < v2.len() implies v2[i] != '&' by {
            lemma_pct_chars(p2[0].1, i);
        }
        assert(t1.len() == 0 || t1[0] == '&');
        assert(t2.len() == 0 || t2[0] == '&');
        lemma_split_at_sep(v1, t1, v2, t2, '&');
        lemma_pct_encode_injective(p1[0].1, p2[0].1);
        if p1.drop_first().len() == 0 {
            if p2.drop_first().len() > 0 {
                assert(t2.len() >= 1);
                assert(t1.len() == 0);
            }
            assert(p1.drop_first() =~= p2.drop_first());
        } else if p2.drop_first().len() == 0 {
            assert(t1.len() >= 1);
            assert(t2.len() == 0);
        } else {
            assert(form_encode(p1.drop_first()) =~= t1.drop_first());
            assert(form_encode(p2.drop_first()) =~= t2.drop_first());
            lemma_form_encode_injective(p1.drop_first(), p2.drop_first());
        }
        assert(p1[0].0 == p2[0].0);
        assert(p1[0].1 == p2[0].1);
        assert(p1.len() == p2.len());
        assert forall|i: int| 0 <= i < p1.len() implies p1[i] == p2[i] by {
            if i > 0 {
                assert(p1[i] == p1.drop_first()[i - 1]);
                assert(p2[i] == p2.drop_first()[i - 1]);
            } else {
                assert(p1[0] == p2[0]);
            }
        }
        assert(p1 =~= p2);
    }
}

/// Relies on String::push: appends exactly one character.
#[verifier::external_body]
fn string_push(s: &mut String, c: char)
    ensures
        final(s)@ == old(s)@.push(c),
{
    s.push(c);
}

fn hex_char_exec(n: u8) -> (r: char)
    requires
        n < 16,
    ensures
        r == hex_char(n),
{
    if n < 10 {
        (0x30 + n) as char
    } else {
        (0x37 + n) as char
    }
}

fn is_unreserved_exec(b: u8) -> (r: bool)
    ensures
        r == is_unreserved(b),
{
    (0x41 <= b && b <= 0x5a) || (0x61 <= b && b <= 0x7a) || (0x30 <= b && b <= 0x39) || b == 0x2d
        || b == 0x2e || b == 0x5f || b == 0x7e
}

/// Percent-encode a byte string.
pub fn percent_encode(bs: &[u8]) -> (r: String)
    ensures
        r@ == pct_encode(bs@),
{
    let mut out = String::new();
    let mut i: usize = 0;
    let n = bs.len();
    while i < n
        invariant
            n == bs@.len(),
            i <= n,
            out@ == pct_encode(bs@.subrange(0, i as int)),
        decreases n - i,
    {
        let b = bs[i];
        if is_unreserved_exec(b) {
            string_push(&mut out, b as char);
        } else {
            string_push(&mut out, '%');
            string_push(&mut out, hex_char_exec(b / 16));
            string_push(&mut out, hex_char_exec(b % 16));
        }
        proof {
            lemma_pct_snoc(bs@.subrange(0, i as int), bs@[i as int]);
            assert(bs@.subrange(0, i as int).push(bs@[i as int]) =~= bs@.subrange(0, i + 1));
            assert(out@ =~= pct_encode(bs@.subrange(0, i as int)) + encode_byte(bs@[i as int]));
        }
        i += 1;
    }
    proof {
        assert(bs@.subrange(0, n as int) =~= bs@);
    }
    out
}

/// The byte strings of a field-pair list.
pub open spec fn pairs_bytes(pairs: Seq<(String, String)>) -> Seq<(Seq<u8>, Seq<u8>)> {
    pairs.map_values(
        |p: (String, String)| (vstd::utf8::encode_utf8(p.0@), vstd::utf8::encode_utf8(p.1@)),
    )
}

proof fn lemma_form_snoc(pairs: Seq<(Seq<u8>, Seq<u8>)>, p: (Seq<u8>, Seq<u8>))
    ensures
        form_encode(pairs.push(p)) == form_encode(pairs) + (if pairs.len() == 0 {
            pair_text(p)
        } else {
            seq!['&'] + pair_text(p)
        }),
    decreases pairs.len(),
{
    if pairs.len() == 0 {
        assert(pairs.push(p).drop_first() =~= Seq::<(Seq<u8>, Seq<u8>)>::empty());
        assert(form_encode(pairs.push(p)) =~= form_encode(pairs) + pair_text(p));
    } else {
        assert(pairs.push(p).drop_first() =~= pairs.drop_first().push(p));
        lemma_form_snoc(pairs.drop_first(), p);
        if pairs.drop_first().len() == 0 {
            assert(form_encode(pairs.push(p)) =~= form_encode(pairs) + (seq!['&'] + pair_text(p)));
        } else {
            assert(form_encode(pairs.push(p)) =~= form_encode(pairs) + (seq!['&'] + pair_text(p)));
        }
    }
}

/// Encode a field-pair list as `key=value` pairs joined with `&`.
pub fn form_urlencode(pairs: &Vec<(String, String)>) -> (r: String)
    ensures
        r@ == form_encode(pairs_bytes(pairs@)),
{
    let mut out = String::new();
    let mut i: usize = 0;
    let n = pairs.len();
    while i < n
        invariant
            n == pairs@.len(),
            i <= n,
            out@ == form_encode(pairs_bytes(pairs@.subrange(0, i as int))),
        decreases n - i,
    {
        if i > 0 {
            string_push(&mut out, '&');
        }
        let k = percent_encode(pairs[i].0.as_str().as_bytes());
        out.append(k.as_str());
        string_push(&mut out, '=');
        let v = percent_encode(pairs[i].1.as_str().as_bytes());
        out.append(v.as_str());
        proof {
            let prefix = pairs_bytes(pairs@.subrange(0, i as int));
            let p = (
                vstd::utf8::encode_utf8(pairs@[i as int].0@),
                vstd::utf8::encode_utf8(pairs@[i as int].1@),
            );
            lemma_form_snoc(prefix, p);
            assert(prefix.push(p) =~= pairs_bytes(pairs@.subrange(0, i + 1)));
            assert(out@ =~= form_encode(prefix) + (if prefix.len() == 0 {
                pair_text(p)
            } else {
                seq!['&'] + pair_text(p)
            }));
        }
        i += 1;
    }
    proof {
        assert(pairs@.subrange(0, n as int) =~= pairs@);
    }
    out
}

} // verus!
