use vstd::prelude::*;

verus! {

/// Relies on zeroize: `Zeroize::zeroize` for `Vec<u8>` overwrites the
/// buffer with zeros, through a write the compiler may not elide, and
/// clears it.
#[verifier::external_body]
pub fn wipe_bytes(b: &mut Vec<u8>)
    ensures
        final(b)@.len() == 0,
{
    zeroize::Zeroize::zeroize(b);
}

/// Relies on rand: `OsRng.fill_bytes` fills the buffer from the
/// operating system's secure random source, keeping its length.
#[verifier::external_body]
pub fn os_random_bytes(n: usize) -> (r: Vec<u8>)
    ensures
        r@.len() == n,
{
    let mut rng = rand::rngs::OsRng;
    let mut buf: Vec<u8> = vec![0u8; n];
    rand::RngCore::fill_bytes(&mut rng, &mut buf);
    buf
}

/// Relies on uuid: `Uuid::new_v4` draws a random version-4 identifier,
/// whose hyphenated text form is 36 ASCII characters.
#[verifier::external_body]
pub fn fresh_id() -> (r: Vec<u8>)
    ensures
        r@.len() == 36,
{
    uuid::Uuid::new_v4().to_string().into_bytes()
}

/// An owned copy of a byte string.
pub fn copy_bytes(v: &Vec<u8>) -> (r: Vec<u8>)
    ensures
        r@ == v@,
{
    let mut r: Vec<u8> = Vec::new();
    let mut i: usize = 0;
    while i < v.len()
        invariant
            i <= v@.len(),
            r@ == v@.take(i as int),
        decreases v@.len() - i,
    {
        r.push(v[i]);
        proof {
            assert(r@ =~= v@.take(i + 1 as int));
        }
        i = i + 1;
    }
    proof {
        assert(v@.take(v@.len() as int) =~= v@);
    }
    r
}

/// A run of `n` mask characters (`*`), as wide as what it hides.
pub fn mask_bytes(n: usize) -> (r: Vec<u8>)
    ensures
        r@ == Seq::new(n as nat, |i: int| 42u8),
{
    let mut r: Vec<u8> = Vec::new();
    let mut i: usize = 0;
    while i < n
        invariant
            i <= n,
            r@ == Seq::new(i as nat, |j: int| 42u8),
        decreases n - i,
    {
        r.push(42u8);
        proof {
            assert(r@ =~= Seq::new((i + 1) as nat, |j: int| 42u8));
        }
        i = i + 1;
    }
    r
}

} // verus!
