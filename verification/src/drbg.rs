//! The generator: instantiation, reseeding, and the update step they share.

use crate::mac::KeyedHash;
use crate::model::{
    instantiated, keying_message, or_empty, reseeded, unseeded, updated, well_formed, DrbgState,
    FIRST_SEPARATOR, SECOND_SEPARATOR,
};
use core::marker::PhantomData;
use vstd::prelude::*;

verus! {

/// Appends the bytes of `src` to `dst`.
fn append(dst: &mut Vec<u8>, src: &[u8])
    ensures
        final(dst)@ == old(dst)@ + src@,
{
    let mut i: usize = 0;
    while i < src.len()
        invariant
            i <= src.len(),
            dst@ == old(dst)@ + src@.take(i as int),
        decreases src.len() - i,
    {
        dst.push(src[i]);
        proof {
            assert(src@.take(i + 1) =~= src@.take(i as int).push(src@[i as int]));
        }
        i += 1;
    }
    proof {
        assert(src@.take(src@.len() as int) =~= src@);
    }
}

/// A buffer of `len` bytes, each equal to `byte`.
pub fn filled(byte: u8, len: usize) -> (buf: Vec<u8>)
    ensures
        buf@ == Seq::new(len as nat, |i: int| byte),
{
    let mut buf: Vec<u8> = Vec::new();
    let mut i: usize = 0;
    while i < len
        invariant
            i <= len,
            buf@ == Seq::new(i as nat, |j: int| byte),
        decreases len - i,
    {
        buf.push(byte);
        proof {
            assert(buf@ =~= Seq::new((i + 1) as nat, |j: int| byte));
        }
        i += 1;
    }
    buf
}

/// Builds the message from which a new key is derived: `v`, then
/// `separator`, then every element of `seeds` in order.
pub fn build_keying_message(v: &[u8], separator: u8, seeds: &[&[u8]]) -> (msg: Vec<u8>)
    ensures
        msg@ == keying_message(v@, separator, seeds.deep_view()),
{
    let ghost chunks = seeds.deep_view();
    let mut msg: Vec<u8> = Vec::new();
    append(&mut msg, v);
    msg.push(separator);
    let mut i: usize = 0;
    proof {
        assert(chunks.take(0) =~= Seq::<Seq<u8>>::empty());
        assert(msg@ =~= v@.push(separator) + chunks.take(0).flatten());
    }
    while i < seeds.len()
        invariant
            i <= seeds.len(),
            chunks == seeds.deep_view(),
            msg@ == v@.push(separator) + chunks.take(i as int).flatten(),
        decreases seeds.len() - i,
    {
        let seed: &[u8] = seeds[i];
        append(&mut msg, seed);
        proof {
            assert(seed@ =~= chunks[i as int]);
            assert(chunks.take(i + 1) =~= chunks.take(i as int).push(chunks[i as int]));
            chunks.take(i as int).lemma_flatten_push(chunks[i as int]);
            assert(msg@ =~= v@.push(separator) + chunks.take(i + 1).flatten());
        }
        i += 1;
    }
    proof {
        assert(chunks.take(seeds.len() as int) =~= chunks);
    }
    msg
}

/// What an optional byte string stands for in contracts.
pub open spec fn view_of(input: Option<&[u8]>) -> Option<Seq<u8>> {
    match input {
        Some(bytes) => Some(bytes@),
        None => None,
    }
}

/// An HMAC-DRBG over the keyed hash `D`.
///
/// The key and the chaining value are each as long as a tag of `D` and never
/// leave the generator; the counter is at least 1.
pub struct HmacDrbg<D: KeyedHash> {
    k: Vec<u8>,
    v: Vec<u8>,
    count: usize,
    hash: PhantomData<D>,
}

impl<D: KeyedHash> View for HmacDrbg<D> {
    type V = DrbgState;

    closed spec fn view(&self) -> DrbgState {
        DrbgState { k: self.k@, v: self.v@, count: self.count as nat }
    }
}

impl<D: KeyedHash> HmacDrbg<D> {
    #[verifier::type_invariant]
    spec fn sized(self) -> bool {
        well_formed::<D>(self@)
    }

    /// Instantiates a generator from entropy, a nonce and a personalization
    /// string, each of any length.
    pub fn new(entropy: &[u8], nonce: &[u8], pers: &[u8]) -> (drbg: Self)
        ensures
            drbg@ == instantiated::<D>(entropy@, nonce@, pers@),
            drbg@.count == 1,
            well_formed::<D>(drbg@),
    {
        let len = D::output_len();
        let mut this = Self {
            k: filled(0x00, len),
            v: filled(0x01, len),
            count: 1,
            hash: PhantomData,
        };
        assert(this@ == unseeded::<D>());
        let seeds: [&[u8]; 3] = [entropy, nonce, pers];
        let seeds = seeds.as_slice();
        proof {
            let chunks = seeds.deep_view();
            assert(seeds@[0] == entropy && seeds@[1] == nonce && seeds@[2] == pers);
            assert(chunks[0] =~= entropy@ && chunks[1] =~= nonce@ && chunks[2] =~= pers@);
            assert(chunks =~= seq![entropy@, nonce@, pers@]);
        }
        this.update(seeds);
        this
    }

    /// The number of cycles counted since instantiation.
    pub fn count(&self) -> (count: usize)
        ensures
            count == self@.count,
            well_formed::<D>(self@),
    {
        proof {
            use_type_invariant(self);
        }
        self.count
    }

    /// Mixes fresh entropy, and additional input if there is any, into the
    /// state. The counter stays as it is.
    pub fn reseed(&mut self, entropy: &[u8], add: Option<&[u8]>)
        ensures
            final(self)@ == reseeded::<D>(old(self)@, entropy@, view_of(add)),
            final(self)@.count == old(self)@.count,
            well_formed::<D>(final(self)@),
    {
        let empty: [u8; 0] = [];
        let additional: &[u8] = match add {
            Some(bytes) => bytes,
            None => empty.as_slice(),
        };
        let seeds: [&[u8]; 2] = [entropy, additional];
        let seeds = seeds.as_slice();
        proof {
            let chunks = seeds.deep_view();
            assert(additional@ =~= or_empty(view_of(add)));
            assert(seeds@[0] == entropy && seeds@[1] == additional);
            assert(chunks[0] =~= entropy@ && chunks[1] =~= additional@);
            assert(chunks =~= seq![entropy@, additional@]);
        }
        self.update(seeds);
    }

    /// The tag of `msg` under the current key, computed by a MAC instance
    /// made for this one call.
    fn hmac(&self, msg: &[u8]) -> (tag: Vec<u8>)
        ensures
            tag@ == D::tag(self@.k, msg@),
            tag@.len() == D::output_size(),
    {
        D::mac(self.k.as_slice(), msg)
    }

    /// Advances the key and the chaining value with `seeds`.
    ///
    /// Two tags with separator `0x00` give a new key and then, under that new
    /// key, a new value. With no seeds the update ends there; otherwise two
    /// more tags with separator `0x01` do the same again from the state just
    /// reached.
    pub fn update(&mut self, seeds: &[&[u8]])
        ensures
            final(self)@ == updated::<D>(old(self)@, seeds.deep_view()),
            final(self)@.count == old(self)@.count,
            well_formed::<D>(final(self)@),
    {
        proof {
            use_type_invariant(&*self);
        }
        let msg = build_keying_message(self.v.as_slice(), FIRST_SEPARATOR, seeds);
        self.k = self.hmac(msg.as_slice());
        self.v = self.hmac(self.v.as_slice());
        if seeds.len() == 0 {
            return ;
        }
        let msg = build_keying_message(self.v.as_slice(), SECOND_SEPARATOR, seeds);
        self.k = self.hmac(msg.as_slice());
        self.v = self.hmac(self.v.as_slice());
    }

    /// Whether the secret key equals `expected`. Meant for known-answer
    /// checks: the key itself is never handed out.
    pub fn key_matches(&self, expected: &[u8]) -> (same: bool)
        ensures
            same == (self@.k == expected@),
            well_formed::<D>(self@),
    {
        proof {
            use_type_invariant(self);
        }
        same_bytes(self.k.as_slice(), expected)
    }

    /// Whether the secret chaining value equals `expected`. Meant for
    /// known-answer checks: the value itself is never handed out.
    pub fn value_matches(&self, expected: &[u8]) -> (same: bool)
        ensures
            same == (self@.v == expected@),
            well_formed::<D>(self@),
    {
        proof {
            use_type_invariant(self);
        }
        same_bytes(self.v.as_slice(), expected)
    }
}

/// Whether two byte strings are equal.
fn same_bytes(a: &[u8], b: &[u8]) -> (same: bool)
    ensures
        same == (a@ == b@),
{
    if a.len() != b.len() {
        return false;
    }
    let mut i: usize = 0;
    while i < a.len()
        invariant
            a@.len() == b@.len(),
            i <= a.len(),
            a@.take(i as int) == b@.take(i as int),
        decreases a.len() - i,
    {
        if a[i] != b[i] {
            assert(a@[i as int] != b@[i as int]);
            return false;
        }
        proof {
            assert(a@.take(i + 1) =~= a@.take(i as int).push(a@[i as int]));
            assert(b@.take(i + 1) =~= b@.take(i as int).push(b@[i as int]));
        }
        i += 1;
    }
    proof {
        assert(a@.take(a@.len() as int) =~= a@);
        assert(b@.take(b@.len() as int) =~= b@);
    }
    true
}

} // verus!
