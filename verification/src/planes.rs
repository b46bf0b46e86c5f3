//! Spreading interleaved samples over one plane per channel.

use vstd::prelude::*;

verus! {

/// The samples of one of two channels: every second one, from `first` on.
pub open spec fn channel_of<T>(pcm: Seq<T>, first: int) -> Seq<T> {
    Seq::new(pcm.len() / 2, |i: int| pcm[2 * i + first])
}

/// The samples of two channels, in turn.
pub open spec fn interleave<T>(left: Seq<T>, right: Seq<T>) -> Seq<T> {
    Seq::new(
        2 * left.len(),
        |j: int|
            if j % 2 == 0 {
                left[j / 2]
            } else {
                right[j / 2]
            },
    )
}

/// `plane` with its first samples replaced.
pub open spec fn overwrite<T>(plane: Seq<T>, samples: Seq<T>) -> Seq<T> {
    samples + plane.skip(samples.len() as int)
}

/// Copies the samples of a single channel into its plane.
pub fn copy_mono<T: Copy>(pcm: &[T], plane: &mut [T])
    requires
        pcm@.len() == old(plane)@.len(),
    ensures
        final(plane)@ == pcm@,
{
    for i in 0..pcm.len()
        invariant
            plane@.len() == pcm@.len(),
            forall|k: int| 0 <= k < i ==> plane@[k] == pcm@[k],
    {
        plane[i] = pcm[i];
    }
}

/// Splits the samples of two channels over their planes. Samples of the planes that lie beyond what
/// there is to write stay as they were.
pub fn split_stereo<T: Copy>(pcm: &[T], left: &mut [T], right: &mut [T])
    requires
        pcm@.len() % 2 == 0,
        pcm@.len() / 2 <= old(left)@.len(),
        pcm@.len() / 2 <= old(right)@.len(),
    ensures
        final(left)@ == overwrite(old(left)@, channel_of(pcm@, 0)),
        final(right)@ == overwrite(old(right)@, channel_of(pcm@, 1)),
{
    let ghost l0 = left@;
    let ghost r0 = right@;
    let frames: usize = pcm.len() / 2;
    for i in 0..frames
        invariant
            frames == pcm.len() / 2,
            2 * frames <= usize::MAX,
            pcm@.len() % 2 == 0,
            left@.len() == l0.len(),
            right@.len() == r0.len(),
            frames <= l0.len(),
            frames <= r0.len(),
            forall|k: int| 0 <= k < i ==> left@[k] == pcm@[2 * k] && right@[k] == pcm@[2 * k + 1],
            forall|k: int| i <= k < l0.len() ==> left@[k] == l0[k],
            forall|k: int| i <= k < r0.len() ==> right@[k] == r0[k],
    {
        let j: usize = 2 * i;
        left[i] = pcm[j];
        right[i] = pcm[j + 1];
    }
}

/// Splitting loses nothing: the two channels, interleaved again, are the samples.
pub proof fn split_then_interleave<T>(pcm: Seq<T>)
    requires
        pcm.len() % 2 == 0,
    ensures
        interleave(channel_of(pcm, 0), channel_of(pcm, 1)) == pcm,
{
}

/// Splitting tells the channels apart: of two channels that were interleaved, each comes out as it
/// was.
pub proof fn interleave_then_split<T>(left: Seq<T>, right: Seq<T>)
    requires
        left.len() == right.len(),
    ensures
        channel_of(interleave(left, right), 0) == left,
        channel_of(interleave(left, right), 1) == right,
{
}

} // verus!
