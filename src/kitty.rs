use vstd::prelude::*;

verus! {

/// Position of the genome byte whose parity decides a kitty's gender.
pub const GENDER_BYTE: usize = 8;

/// A kitty's genome: sixteen bytes, fixed once the kitty exists.
#[derive(Clone, Copy, Debug, PartialEq, Eq)]
pub struct Kitty(pub [u8; 16]);

/// The gender of a kitty, derived from its genome.
#[derive(Clone, Copy, Debug, PartialEq, Eq, Structural)]
pub enum KittyGender {
    Male,
    Female,
}

/// Gender of a genome: male when the gender byte is even, female otherwise.
pub open spec fn gender_of(dna: Seq<u8>) -> KittyGender {
    if dna[GENDER_BYTE as int] % 2 == 0 {
        KittyGender::Male
    } else {
        KittyGender::Female
    }
}

impl Kitty {
    pub open spec fn dna(&self) -> Seq<u8> {
        self.0@
    }

    pub open spec fn spec_gender(&self) -> KittyGender {
        gender_of(self.dna())
    }

    /// The kitty's gender, read from the parity of its gender byte.
    pub fn gender(&self) -> (r: KittyGender)
        ensures
            r == self.spec_gender(),
    {
        if self.0[GENDER_BYTE] % 2 == 0 {
            return KittyGender::Male;
        }
        KittyGender::Female
    }
}

/// Genome of an offspring: at each position the byte of `dna2` where the
/// selector byte is even, the byte of `dna1` where it is odd.
pub open spec fn mix_of(dna1: Seq<u8>, dna2: Seq<u8>, selector: Seq<u8>) -> Seq<u8> {
    Seq::new(16, |i: int| if selector[i] % 2 == 0 { dna2[i] } else { dna1[i] })
}

/// Mixes two parents' genomes byte by byte, each position chosen by the
/// parity of the matching selector byte.
pub fn mix_dna(dna1: &[u8; 16], dna2: &[u8; 16], selector: &[u8; 16]) -> (r: [u8; 16])
    ensures
        r@ == mix_of(dna1@, dna2@, selector@),
        forall|i: int| 0 <= i < 16 ==> r@[i] == dna1@[i] || r@[i] == dna2@[i],
{
    let mut r = *dna1;
    let mut i: usize = 0;
    while i < 16
        invariant
            i <= 16,
            forall|j: int| 0 <= j < i ==> r@[j] == mix_of(dna1@, dna2@, selector@)[j],
            forall|j: int| i <= j < 16 ==> r@[j] == dna1@[j],
        decreases 16 - i,
    {
        if selector[i] % 2 == 0 {
            r[i] = dna2[i];
        }
        i = i + 1;
    }
    assert(r@ =~= mix_of(dna1@, dna2@, selector@));
    r
}

/// Gender depends on the parity of the gender byte and on nothing else: two
/// genomes have the same gender exactly when their gender bytes have the same
/// parity, whatever their other bytes hold.
pub proof fn lemma_gender_follows_parity(a: Kitty, b: Kitty)
    ensures
        (a.spec_gender() == b.spec_gender()) <==> (a.0[GENDER_BYTE as int] % 2 == b.0[
            GENDER_BYTE as int] % 2),
{
}

} // verus!
