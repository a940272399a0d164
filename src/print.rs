use vstd::prelude::*;
use vstd::string::StringSliceAdditionalSpecFns;
use crate::lemmas::lemma_after_bytes_concat;
use crate::writer::{after_bytes, Writer};

verus! {

/// The bytes of the pieces, one after another.
pub open spec fn joined(pieces: Seq<&str>) -> Seq<u8>
    decreases pieces.len(),
{
    if pieces.len() == 0 {
        Seq::empty()
    } else {
        joined(pieces.drop_last()) + pieces.last().spec_bytes()
    }
}

/// Writes the pieces of one formatted message in order. The writer is
/// borrowed exclusively for the whole message, so the pieces reach the
/// screen as one uninterrupted run.
pub fn _print(writer: &mut Writer, pieces: &[&str])
    ensures
        final(writer)@ == after_bytes(old(writer)@, joined(pieces@)),
{
    let mut i: usize = 0;
    while i < pieces.len()
        invariant
            i <= pieces@.len(),
            writer@ == after_bytes(old(writer)@, joined(pieces@.take(i as int))),
        decreases pieces@.len() - i,
    {
        let piece = pieces[i];
        let ghost before = writer@;
        writer.write_string(piece);
        proof {
            let done = pieces@.take(i as int);
            assert(pieces@.take(i + 1).drop_last() =~= done);
            assert(pieces@.take(i + 1).last() == piece);
            lemma_after_bytes_concat(old(writer)@, joined(done), piece.spec_bytes());
        }
        i += 1;
    }
    assert(pieces@.take(pieces@.len() as int) =~= pieces@);
}

} // verus!
