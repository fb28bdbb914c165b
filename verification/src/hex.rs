use vstd::prelude::*;

verus! {

/// A byte is a lower-case ASCII hex digit, the only alphabet the
/// envelope encoding uses.
pub open spec fn is_hex_digit(b: u8) -> bool {
    (48 <= b && b <= 57) || (97 <= b && b <= 102)
}

/// The hex digit character standing for a value below 16.
pub open spec fn hex_digit_of(n: u8) -> u8 {
    if n < 10 {
        (48 + n) as u8
    } else {
        (97 + (n - 10)) as u8
    }
}

/// The numeric value of a hex digit character.
pub open spec fn hex_val(c: u8) -> u8 {
    if 48 <= c && c <= 57 {
        (c - 48) as u8
    } else {
        (c - 97 + 10) as u8
    }
}

/// The hex text for a byte sequence: two digit characters per byte,
/// high nibble first.
pub open spec fn hex_encoding(bs: Seq<u8>) -> Seq<u8>
    decreases bs.len(),
{
    if bs.len() == 0 {
        Seq::<u8>::empty()
    } else {
        seq![hex_digit_of(bs[0] / 16), hex_digit_of(bs[0] % 16)] + hex_encoding(bs.drop_first())
    }
}

/// A sequence is well-formed hex text: even length, digits throughout.
pub open spec fn is_hex_text(s: Seq<u8>) -> bool {
    s.len() % 2 == 0 && (forall|i: int| 0 <= i < s.len() ==> is_hex_digit(s[i]))
}

pub proof fn lemma_hex_encoding_len(bs: Seq<u8>)
    ensures
        hex_encoding(bs).len() == 2 * bs.len(),
    decreases bs.len(),
{
    if bs.len() > 0 {
        lemma_hex_encoding_len(bs.drop_first());
    }
}

pub proof fn lemma_hex_encoding_is_hex_text(bs: Seq<u8>)
    ensures
        is_hex_text(hex_encoding(bs)),
    decreases bs.len(),
{
    lemma_hex_encoding_len(bs);
    if bs.len() > 0 {
        lemma_hex_encoding_is_hex_text(bs.drop_first());
        let tail = hex_encoding(bs.drop_first());
        let whole = hex_encoding(bs);
        assert forall|i: int| 0 <= i < whole.len() implies is_hex_digit(whole[i]) by {
            if i >= 2 {
                assert(whole[i] == tail[i - 2]);
            }
        }
    }
}

pub proof fn lemma_hex_encoding_single(b: u8)
    ensures
        hex_encoding(seq![b]) == seq![hex_digit_of(b / 16), hex_digit_of(b % 16)],
{
    let s = seq![b];
    assert(hex_encoding(Seq::<u8>::empty()) =~= Seq::<u8>::empty());
    assert(s.drop_first() =~= Seq::<u8>::empty());
    assert(hex_encoding(s) =~= seq![hex_digit_of(b / 16), hex_digit_of(b % 16)]);
}

/// Appending byte sequences appends their hex texts.
pub proof fn lemma_hex_encoding_app(a: Seq<u8>, b: Seq<u8>)
    ensures
        hex_encoding(a + b) == hex_encoding(a) + hex_encoding(b),
    decreases a.len(),
{
    if a.len() == 0 {
        assert(a + b =~= b);
        assert(hex_encoding(a) + hex_encoding(b) =~= hex_encoding(b));
    } else {
        lemma_hex_encoding_app(a.drop_first(), b);
        assert((a + b).drop_first() =~= a.drop_first() + b);
        assert(hex_encoding(a + b) =~= hex_encoding(a) + hex_encoding(b));
    }
}

/// Two byte sequences with the same hex text are the same: the
/// encoding loses nothing.
pub proof fn lemma_hex_encoding_injective(a: Seq<u8>, b: Seq<u8>)
    requires
        hex_encoding(a) == hex_encoding(b),
    ensures
        a == b,
    decreases a.len(),
{
    lemma_hex_encoding_len(a);
    lemma_hex_encoding_len(b);
    if a.len() == 0 {
        assert(a =~= b);
    } else {
        let ea = hex_encoding(a);
        let eb = hex_encoding(b);
        assert(ea[0] == hex_digit_of(a[0] / 16) && ea[1] == hex_digit_of(a[0] % 16));
        assert(eb[0] == hex_digit_of(b[0] / 16) && eb[1] == hex_digit_of(b[0] % 16));
        assert(a[0] / 16 == b[0] / 16 && a[0] % 16 == b[0] % 16);
        assert(a[0] == b[0]);
        assert forall|i: int| 0 <= i < hex_encoding(a.drop_first()).len() implies hex_encoding(
            a.drop_first(),
        )[i] == hex_encoding(b.drop_first())[i] by {
            assert(hex_encoding(a.drop_first())[i] == ea[i + 2]);
            assert(hex_encoding(b.drop_first())[i] == eb[i + 2]);
        }
        lemma_hex_encoding_len(a.drop_first());
        lemma_hex_encoding_len(b.drop_first());
        assert(hex_encoding(a.drop_first()) =~= hex_encoding(b.drop_first()));
        lemma_hex_encoding_injective(a.drop_first(), b.drop_first());
        assert(a =~= seq![a[0]] + a.drop_first());
        assert(b =~= seq![b[0]] + b.drop_first());
    }
}

/// Hex-encode a byte sequence as lower-case digit characters.
pub fn hex_encode(bs: &Vec<u8>) -> (r: Vec<u8>)
    ensures
        r@ == hex_encoding(bs@),
        r@.len() == 2 * bs@.len(),
{
    proof {
        lemma_hex_encoding_len(bs@);
    }
    let mut r: Vec<u8> = Vec::new();
    let mut i: usize = 0;
    while i < bs.len()
        invariant
            0 <= i <= bs@.len(),
            r@ == hex_encoding(bs@.take(i as int)),
            r@.len() == 2 * i,
        decreases bs@.len() - i,
    {
        let b: u8 = bs[i];
        let hi: u8 = b / 16;
        let lo: u8 = b % 16;
        r.push(if hi < 10 { 48 + hi } else { 97 + (hi - 10) });
        r.push(if lo < 10 { 48 + lo } else { 97 + (lo - 10) });
        proof {
            let pre = bs@.take(i as int);
            let now = bs@.take(i + 1 as int);
            assert(now =~= pre + seq![bs@[i as int]]);
            lemma_hex_encoding_app(pre, seq![bs@[i as int]]);
            lemma_hex_encoding_len(pre);
            lemma_hex_encoding_single(bs@[i as int]);
            assert(r@ =~= hex_encoding(now));
        }
        i = i + 1;
    }
    proof {
        assert(bs@.take(bs@.len() as int) =~= bs@);
    }
    r
}

/// Decode lower-case hex text back to bytes. Returns `None` exactly on
/// text that no byte sequence encodes to: odd length or a character
/// outside the digit alphabet.
pub fn hex_decode(s: &Vec<u8>) -> (r: Option<Vec<u8>>)
    ensures
        r is Some <==> is_hex_text(s@),
        r matches Some(bs) ==> hex_encoding(bs@) == s@ && 2 * bs@.len() == s@.len(),
{
    if s.len() % 2 != 0 {
        return None;
    }
    let mut r: Vec<u8> = Vec::new();
    let mut i: usize = 0;
    while i + 1 < s.len()
        invariant
            s@.len() % 2 == 0,
            i % 2 == 0,
            0 <= i <= s@.len(),
            hex_encoding(r@) == s@.take(i as int),
            2 * r@.len() == i,
            forall|j: int| 0 <= j < i ==> is_hex_digit(s@[j]),
        decreases s@.len() - i,
    {
        let hi: u8 = s[i];
        let lo: u8 = s[i + 1];
        let hv: u8 = if 48 <= hi && hi <= 57 {
            hi - 48
        } else if 97 <= hi && hi <= 102 {
            hi - 97 + 10
        } else {
            return None;
        };
        let lv: u8 = if 48 <= lo && lo <= 57 {
            lo - 48
        } else if 97 <= lo && lo <= 102 {
            lo - 97 + 10
        } else {
            return None;
        };
        let b: u8 = hv * 16 + lv;
        let ghost pre = r@;
        r.push(b);
        proof {
            assert(hex_digit_of(b / 16) == s@[i as int]);
            assert(hex_digit_of(b % 16) == s@[i + 1 as int]);
            lemma_hex_encoding_app(pre, seq![b]);
            assert(r@ =~= pre + seq![b]);
            lemma_hex_encoding_single(b);
            assert(hex_encoding(r@) =~= s@.take(i + 2 as int));
        }
        i = i + 2;
    }
    proof {
        assert(i == s@.len());
        assert(s@.take(i as int) =~= s@);
    }
    Some(r)
}

} // verus!
