//! Sampling of the integer-valued requests: a uniform integer, a color
//! between two colors, and a shuffle of bytes.
//!
//! Every sampler is split in two. A function ending in `_at` or named
//! `permute` takes the random draws as arguments and says exactly what comes
//! out for them. The sampler proper makes the draws and hands them on, so its
//! own contract states what holds whatever was drawn.

use crate::color::Color;
use rand::Rng;
use vstd::prelude::*;
use vstd::seq_lib::to_multiset_update;

verus! {

/// Draws from `rand::thread_rng().gen_range(0..bound)`.
///
/// Trusted: the result lies in `0..bound`. `gen_range` panics on an empty
/// range, which `bound > 0` rules out; `thread_rng` panics only where the
/// system gives it nothing to seed from. Nothing is claimed about which
/// value of the range comes back; `rand` documents the draw as uniform.
#[verifier::external_body]
fn random_below(bound: u64) -> (draw: u64)
    requires
        bound > 0,
    ensures
        draw < bound,
{
    rand::thread_rng().gen_range(0..bound)
}

/// The smaller of two channel values.
pub open spec fn low(a: u8, b: u8) -> u8 {
    if a <= b {
        a
    } else {
        b
    }
}

/// The larger of two channel values.
pub open spec fn high(a: u8, b: u8) -> u8 {
    if a <= b {
        b
    } else {
        a
    }
}

/// Whether each channel of `c` lies between the same channel of `from` and
/// of `to`, whichever of the two is smaller, both ends included.
pub open spec fn in_color_range(c: Color, from: Color, to: Color) -> bool {
    &&& low(from.red, to.red) <= c.red <= high(from.red, to.red)
    &&& low(from.green, to.green) <= c.green <= high(from.green, to.green)
    &&& low(from.blue, to.blue) <= c.blue <= high(from.blue, to.blue)
}

/// The number of integers in `start..end`; not positive where the range is
/// empty.
pub open spec fn width(start: i64, end: i64) -> int {
    end - start
}

/// The integer at `offset` in the half-open range `start..end`, or `None`
/// where the range has no such position.
pub fn uniform_at(start: i64, end: i64, offset: u64) -> (value: Option<i64>)
    ensures
        value == if offset < width(start, end) {
            Some((start + offset) as i64)
        } else {
            None
        },
        value matches Some(v) ==> start <= v < end,
{
    if start < end && (offset as i128) < (end as i128) - (start as i128) {
        Some(((start as i128) + (offset as i128)) as i64)
    } else {
        None
    }
}

/// Draws an integer from the half-open range `start..end`.
///
/// Where the range is empty (`end <= start`) there is nothing to draw, and
/// the result is `start`.
pub fn sample_uniform(start: i64, end: i64) -> (value: i64)
    ensures
        start < end ==> start <= value < end,
        end <= start ==> value == start,
{
    if start < end {
        let span: u64 = ((end as i128) - (start as i128)) as u64;
        let offset: u64 = random_below(span);
        match uniform_at(start, end, offset) {
            Some(value) => value,
            // Not reached: the offset was drawn below the width.
            None => start,
        }
    } else {
        start
    }
}

/// The channel value at `offset` above the smaller of `a` and `b`, or `None`
/// where that would pass the larger.
pub fn channel_at(a: u8, b: u8, offset: u64) -> (value: Option<u8>)
    ensures
        value == if offset <= high(a, b) - low(a, b) {
            Some((low(a, b) + offset) as u8)
        } else {
            None
        },
        value matches Some(v) ==> low(a, b) <= v <= high(a, b),
{
    let lo: u8 = if a <= b {
        a
    } else {
        b
    };
    let hi: u8 = if a <= b {
        b
    } else {
        a
    };
    if offset <= (hi - lo) as u64 {
        Some(lo + offset as u8)
    } else {
        None
    }
}

/// Draws a channel value between `a` and `b`, both included, whichever is
/// smaller.
fn sample_channel(a: u8, b: u8) -> (value: u8)
    ensures
        low(a, b) <= value <= high(a, b),
{
    let span: u64 = if a <= b {
        (b - a) as u64 + 1
    } else {
        (a - b) as u64 + 1
    };
    let offset: u64 = random_below(span);
    match channel_at(a, b, offset) {
        Some(value) => value,
        // Not reached: the offset was drawn within the span.
        None => a,
    }
}

/// The color whose channels stand at the given offsets above the smaller of
/// the two ends, or `None` where an offset passes the larger end of its
/// channel.
pub fn color_at(from: Color, to: Color, red: u64, green: u64, blue: u64) -> (c: Option<Color>)
    ensures
        c == if red <= high(from.red, to.red) - low(from.red, to.red) && green <= high(
            from.green,
            to.green,
        ) - low(from.green, to.green) && blue <= high(from.blue, to.blue) - low(
            from.blue,
            to.blue,
        ) {
            Some(
                Color {
                    red: (low(from.red, to.red) + red) as u8,
                    green: (low(from.green, to.green) + green) as u8,
                    blue: (low(from.blue, to.blue) + blue) as u8,
                },
            )
        } else {
            None
        },
        c matches Some(v) ==> in_color_range(v, from, to),
{
    match (
        channel_at(from.red, to.red, red),
        channel_at(from.green, to.green, green),
        channel_at(from.blue, to.blue, blue),
    ) {
        (Some(r), Some(g), Some(b)) => Some(Color { red: r, green: g, blue: b }),
        _ => None,
    }
}

/// Draws a color between `from` and `to`.
///
/// Each channel is drawn on its own, between the two ends of that channel,
/// both included. The result is therefore any color of the box that the two
/// ends span, not a point on the line between them.
pub fn sample_color_range(from: Color, to: Color) -> (c: Color)
    ensures
        in_color_range(c, from, to),
{
    let red: u8 = sample_channel(from.red, to.red);
    let green: u8 = sample_channel(from.green, to.green);
    let blue: u8 = sample_channel(from.blue, to.blue);
    Color { red, green, blue }
}

/// `s` with the items at `i` and `j` exchanged.
pub open spec fn swapped(s: Seq<u8>, i: int, j: int) -> Seq<u8>
    recommends
        0 <= i < s.len(),
        0 <= j < s.len(),
{
    s.update(i, s[j]).update(j, s[i])
}

/// Whether `picks` names, for each position of a sequence of length `n`, a
/// position at or after it.
pub open spec fn valid_picks(picks: Seq<usize>, n: nat) -> bool {
    &&& picks.len() == n
    &&& forall|i: int| 0 <= i < n ==> i <= #[trigger] picks[i] < n
}

/// `s` after the first `k` steps of the shuffle: step `i` exchanges the item
/// at `i` with the item at `picks[i]`.
pub open spec fn shuffled_to(s: Seq<u8>, picks: Seq<usize>, k: nat) -> Seq<u8>
    decreases k,
{
    if k == 0 {
        s
    } else {
        swapped(shuffled_to(s, picks, (k - 1) as nat), k - 1, picks[k - 1] as int)
    }
}

/// `s` after all steps of the shuffle with the given picks.
pub open spec fn shuffled(s: Seq<u8>, picks: Seq<usize>) -> Seq<u8> {
    shuffled_to(s, picks, s.len())
}

/// Exchanging two items changes neither the length nor the items.
pub proof fn lemma_swapped_permutes(s: Seq<u8>, i: int, j: int)
    requires
        0 <= i < s.len(),
        0 <= j < s.len(),
    ensures
        swapped(s, i, j).len() == s.len(),
        swapped(s, i, j).to_multiset() == s.to_multiset(),
{
    let t = s.update(i, s[j]);
    to_multiset_update(s, i, s[j]);
    to_multiset_update(t, j, s[i]);
    s.to_multiset_ensures();
    assert(s.to_multiset().count(s[i]) > 0);
    assert(s.to_multiset().count(s[j]) > 0);
    assert(swapped(s, i, j).to_multiset() =~= s.to_multiset());
}

/// The first `k` steps read only the first `k` picks.
proof fn lemma_shuffled_to_prefix(s: Seq<u8>, p: Seq<usize>, q: Seq<usize>, k: nat)
    requires
        k <= p.len(),
        k <= q.len(),
        forall|i: int| 0 <= i < k ==> p[i] == q[i],
    ensures
        shuffled_to(s, p, k) == shuffled_to(s, q, k),
    decreases k,
{
    if k > 0 {
        lemma_shuffled_to_prefix(s, p, q, (k - 1) as nat);
    }
}

/// Every prefix of the shuffle is a rearrangement of the input.
proof fn lemma_shuffled_to_permutes(s: Seq<u8>, picks: Seq<usize>, k: nat)
    requires
        k <= picks.len(),
        forall|i: int| 0 <= i < k ==> i <= #[trigger] picks[i] < s.len(),
    ensures
        shuffled_to(s, picks, k).len() == s.len(),
        shuffled_to(s, picks, k).to_multiset() == s.to_multiset(),
    decreases k,
{
    if k > 0 {
        lemma_shuffled_to_permutes(s, picks, (k - 1) as nat);
        assert(k - 1 <= picks[k - 1] < s.len());
        lemma_swapped_permutes(shuffled_to(s, picks, (k - 1) as nat), k - 1, picks[k - 1] as int);
    }
}

/// A shuffle is a permutation: whatever the picks, the result has the length
/// of the input and holds each byte as often as the input does.
pub proof fn lemma_shuffled_permutes(s: Seq<u8>, picks: Seq<usize>)
    requires
        valid_picks(picks, s.len()),
    ensures
        shuffled(s, picks).len() == s.len(),
        shuffled(s, picks).to_multiset() == s.to_multiset(),
{
    lemma_shuffled_to_permutes(s, picks, s.len());
}

/// Exchanges the items at `i` and `j`.
fn swap(data: &mut Vec<u8>, i: usize, j: usize)
    requires
        i < old(data).len(),
        j < old(data).len(),
    ensures
        final(data)@ == swapped(old(data)@, i as int, j as int),
{
    let a: u8 = data[i];
    let b: u8 = data[j];
    data.set(i, b);
    data.set(j, a);
}

/// Shuffles `data` with the given picks: for each position in turn, from the
/// first, the item there changes places with the item at the position picked
/// for it. `None` where the picks are not one per position, each at or after
/// its own position.
pub fn permute(data: Vec<u8>, picks: &Vec<usize>) -> (out: Option<Vec<u8>>)
    ensures
        valid_picks(picks@, data@.len()) <==> out is Some,
        out matches Some(v) ==> v@ == shuffled(data@, picks@) && v@.len() == data@.len()
            && v@.to_multiset() == data@.to_multiset(),
{
    let n: usize = data.len();
    if picks.len() != n {
        return None;
    }
    let mut out: Vec<u8> = data;
    let mut i: usize = 0;
    while i < n
        invariant
            i <= n,
            n == data@.len(),
            n == picks@.len(),
            out@.len() == n,
            out@ == shuffled_to(data@, picks@, i as nat),
            forall|t: int| 0 <= t < i ==> t <= #[trigger] picks@[t] < n,
        decreases n - i,
    {
        let j: usize = picks[i];
        if j < i || j >= n {
            return None;
        }
        swap(&mut out, i, j);
        i = i + 1;
    }
    proof {
        lemma_shuffled_permutes(data@, picks@);
    }
    Some(out)
}

/// Shuffles `data`: a Fisher-Yates shuffle whose pick for each position is
/// drawn from that position and those after it.
///
/// The result is a permutation of the input, of the same length, and it is
/// what `permute` gives for the picks that were drawn.
pub fn shuffle(data: Vec<u8>) -> (out: Vec<u8>)
    ensures
        out@.len() == data@.len(),
        out@.to_multiset() == data@.to_multiset(),
        exists|picks: Seq<usize>|
            valid_picks(picks, data@.len()) && out@ == #[trigger] shuffled(data@, picks),
{
    let n: usize = data.len();
    let mut out: Vec<u8> = data;
    let ghost mut picks: Seq<usize> = Seq::empty();
    let mut i: usize = 0;
    while i < n
        invariant
            i <= n,
            n == data@.len(),
            out@.len() == n,
            picks.len() == i,
            out@ == shuffled_to(data@, picks, i as nat),
            forall|t: int| 0 <= t < i ==> t <= #[trigger] picks[t] < n,
        decreases n - i,
    {
        let offset: u64 = random_below((n - i) as u64);
        let j: usize = i + offset as usize;
        proof {
            lemma_shuffled_to_prefix(data@, picks, picks.push(j), i as nat);
            picks = picks.push(j);
        }
        swap(&mut out, i, j);
        i = i + 1;
    }
    proof {
        lemma_shuffled_permutes(data@, picks);
        assert(valid_picks(picks, data@.len()));
        assert(out@ == shuffled(data@, picks));
    }
    out
}

/// A request for a sample that is an integer, a byte sequence or a color.
///
/// The normal and the Bernoulli distribution are real-valued: they are
/// sampled in floating point, outside this library, and have no variant
/// here.
#[derive(Clone, Debug, PartialEq, Eq)]
pub enum SamplingRequest {
    /// An integer of the half-open range `start..end`.
    Uniform { start: i64, end: i64 },
    /// The bytes of `data` in a random order.
    Shuffle { data: Vec<u8> },
    /// A color between `from` and `to`, channel by channel.
    ColorRange { from: Color, to: Color },
}

/// A sample.
#[derive(Clone, Debug, PartialEq, Eq)]
pub enum Sample {
    Integer(i64),
    Bytes(Vec<u8>),
    Color(Color),
}

/// Whether `s` is a sample that `request` allows: of the shape that belongs
/// to the request, and within what the request describes.
pub open spec fn answers(request: SamplingRequest, s: Sample) -> bool {
    match request {
        SamplingRequest::Uniform { start, end } => s matches Sample::Integer(v) && if start
            < end {
            start <= v < end
        } else {
            v == start
        },
        SamplingRequest::Shuffle { data } => s matches Sample::Bytes(out) && exists|
            picks: Seq<usize>,
        |
            valid_picks(picks, data@.len()) && out@ == #[trigger] shuffled(data@, picks),
        SamplingRequest::ColorRange { from, to } => s matches Sample::Color(c) && in_color_range(
            c,
            from,
            to,
        ),
    }
}

/// Draws the sample that a request asks for.
///
/// A uniform request gives an integer, a shuffle gives bytes, a color range
/// gives a color; no request fails.
pub fn sample(request: SamplingRequest) -> (s: Sample)
    ensures
        answers(request, s),
{
    match request {
        SamplingRequest::Uniform { start, end } => Sample::Integer(sample_uniform(start, end)),
        SamplingRequest::Shuffle { data } => Sample::Bytes(shuffle(data)),
        SamplingRequest::ColorRange { from, to } => Sample::Color(sample_color_range(from, to)),
    }
}

/// Every answer to a shuffle holds the bytes of the request, each as often
/// as the request does, and so is as long as the request.
pub proof fn lemma_shuffle_answer_permutes(data: Vec<u8>, out: Vec<u8>)
    requires
        answers(SamplingRequest::Shuffle { data }, Sample::Bytes(out)),
    ensures
        out@.len() == data@.len(),
        out@.to_multiset() == data@.to_multiset(),
{
    let picks = choose|picks: Seq<usize>|
        valid_picks(picks, data@.len()) && out@ == #[trigger] shuffled(data@, picks);
    lemma_shuffled_permutes(data@, picks);
}

} // verus!
