//! The run-length scheme used inside memory blocks of Z80-style snapshots.

use vstd::prelude::*;

verus! {

/// The byte that, written twice, opens a run.
pub const RUN_MARK: u8 = 0xED;

/// Whether `input` starts with a complete four-byte run `ED ED count value`.
pub open spec fn starts_with_run(input: Seq<u8>) -> bool {
    input.len() >= 4 && input[0] == RUN_MARK && input[1] == RUN_MARK
}

/// The whole stream that `input` stands for, however long.
///
/// A complete run expands to `count` copies of `value`. Every other byte,
/// also the bytes of a run cut short by the end of the input, stands for
/// itself.
pub open spec fn rle_expand(input: Seq<u8>) -> Seq<u8>
    decreases input.len(),
{
    if input.len() == 0 {
        Seq::empty()
    } else if starts_with_run(input) {
        Seq::new(input[2] as nat, |k: int| input[3]) + rle_expand(input.skip(4))
    } else {
        seq![input[0]] + rle_expand(input.skip(1))
    }
}

/// `base` with its first bytes replaced by `front`, as far as `base` reaches.
pub open spec fn overlay(front: Seq<u8>, base: Seq<u8>) -> Seq<u8> {
    Seq::new(base.len(), |k: int| if k < front.len() { front[k] } else { base[k] })
}

/// The expansion of what is left of `input` from `i` on, one step unfolded.
proof fn lemma_expand_step(input: Seq<u8>, i: int)
    requires
        0 <= i < input.len(),
    ensures
        starts_with_run(input.skip(i)) ==> rle_expand(input.skip(i)) == Seq::new(
            input[i + 2] as nat,
            |k: int| input[i + 3],
        ) + rle_expand(input.skip(i + 4)),
        !starts_with_run(input.skip(i)) ==> rle_expand(input.skip(i)) == seq![input[i]]
            + rle_expand(input.skip(i + 1)),
{
    let rest = input.skip(i);
    if starts_with_run(rest) {
        assert(rest.skip(4) == input.skip(i + 4));
    } else {
        assert(rest.skip(1) == input.skip(i + 1));
    }
}

/// Expands `input` into `output`, from its first byte on.
///
/// The buffer bounds the work: what the expansion holds beyond the buffer's
/// length is dropped, and the bytes of the buffer that the expansion does not
/// reach keep their value.
pub fn decompress_z80_block(input: &[u8], output: &mut [u8])
    ensures
        final(output)@ == overlay(rle_expand(input@), old(output)@),
{
    let ghost full = rle_expand(input@);
    let mut i: usize = 0;
    let mut j: usize = 0;
    assert(input@.skip(0) == input@);
    assert(full == full.take(0) + full);
    while i < input.len() && j < output.len()
        invariant
            full == rle_expand(input@),
            i <= input.len(),
            j <= output.len(),
            output.len() == old(output).len(),
            j <= full.len(),
            forall|k: int| 0 <= k < j ==> output@[k] == full[k],
            forall|k: int| j <= k < output.len() ==> output@[k] == old(output)@[k],
            j < output.len() ==> full == full.take(j as int) + rle_expand(input@.skip(i as int)),
        decreases input.len() - i,
    {
        let ghost here = rle_expand(input@.skip(i as int));
        proof {
            lemma_expand_step(input@, i as int);
        }
        if input.len() - i >= 4 && input[i] == RUN_MARK && input[i + 1] == RUN_MARK {
            let count: usize = input[i + 2] as usize;
            let value: u8 = input[i + 3];
            let ghost start = j as int;
            let ghost run = Seq::new(count as nat, |k: int| value);
            let ghost tail = rle_expand(input@.skip(i as int + 4));
            assert(starts_with_run(input@.skip(i as int)));
            assert(here == run + tail);
            assert forall|k: int| start <= k < start + count implies full[k] == value by {
                assert(full[k] == here[k - start]);
                assert(here[k - start] == run[k - start]);
            }
            i += 4;
            let mut n: usize = 0;
            while n < count && j < output.len()
                invariant
                    n <= count,
                    j == start + n,
                    j <= output.len(),
                    output.len() == old(output).len(),
                    start + count <= full.len(),
                    forall|k: int| 0 <= k < j ==> output@[k] == full[k],
                    forall|k: int| j <= k < output.len() ==> output@[k] == old(output)@[k],
                    forall|k: int| start <= k < start + count ==> full[k] == value,
                decreases count - n,
            {
                output[j] = value;
                j += 1;
                n += 1;
            }
            assert(j < output.len() ==> full =~= full.take(j as int) + tail);
        } else {
            let ghost rest = rle_expand(input@.skip(i as int + 1));
            assert(here == seq![input@[i as int]] + rest);
            assert(full[j as int] == here[0]);
            output[j] = input[i];
            j += 1;
            i += 1;
            assert(full =~= full.take(j as int) + rest);
        }
    }
    proof {
        if i >= input.len() && j < output.len() {
            assert(input@.skip(i as int).len() == 0);
            assert(full.len() == j);
        }
        assert(final(output)@ =~= overlay(full, old(output)@));
    }
}

} // verus!
