//! JPEG streams: finding them inside other files, and mending one that was cut
//! short.

use vstd::prelude::*;
use vstd::slice::slice_subrange;

verus! {

/// A preview inside a raw file counts only from this many bytes on.
pub const MIN_PREVIEW_BYTES: usize = 65_536;

/// Bytes of padding behind a mended stream.
pub const REPAIR_PADDING: usize = 1024;

/// A JPEG stream starts at `i`.
pub open spec fn starts_at(data: Seq<u8>, i: int) -> bool {
    0 <= i && i + 2 < data.len() && data[i] == 0xFF && data[i + 1] == 0xD8 && data[i + 2] == 0xFF
}

/// The end marker of a JPEG stream stands at `j`.
pub open spec fn ends_at(data: Seq<u8>, j: int) -> bool {
    0 <= j && j + 1 < data.len() && data[j] == 0xFF && data[j + 1] == 0xD9
}

/// How far from `j` the first end marker is.
pub open spec fn distance_to_end(data: Seq<u8>, j: nat) -> Option<nat>
    decreases data.len() - j,
{
    if j + 1 >= data.len() {
        None
    } else if ends_at(data, j as int) {
        Some(0nat)
    } else {
        match distance_to_end(data, j + 1) {
            Some(n) => Some(n + 1),
            None => None,
        }
    }
}

/// The JPEG streams from `i` on, each as the positions of its first byte and
/// past its last: a stream reaches from its start marker to the first end
/// marker, the next one starts behind it, and the search ends at a stream that
/// does not end.
pub open spec fn embedded(data: Seq<u8>, i: nat) -> Seq<(nat, nat)>
    decreases data.len() - i,
{
    if i + 2 >= data.len() {
        Seq::empty()
    } else if !starts_at(data, i as int) {
        embedded(data, i + 1)
    } else {
        proof {
            distance_is_to_end(data, i + 2);
        }
        match distance_to_end(data, i + 2) {
            Some(n) => seq![(i, i + n + 4)] + embedded(data, i + n + 4),
            None => Seq::empty(),
        }
    }
}

pub open spec fn span_len(span: (nat, nat)) -> int {
    span.1 - span.0
}

/// The longest span; of several that are equally long, the first.
pub open spec fn longest(spans: Seq<(nat, nat)>) -> Option<(nat, nat)>
    decreases spans.len(),
{
    if spans.len() == 0 {
        None
    } else {
        match longest(spans.drop_last()) {
            Some(best) if span_len(spans.last()) <= span_len(best) => Some(best),
            _ => Some(spans.last()),
        }
    }
}

/// No span is longer than the one that `longest` gives, and those before it
/// are shorter.
pub proof fn longest_is_longest(spans: Seq<(nat, nat)>)
    ensures
        longest(spans) is None <==> spans.len() == 0,
        spans.len() > 0 ==> exists|k: int|
            0 <= k < spans.len() && #[trigger] spans[k] == longest(spans)->0 && forall|j: int|
                0 <= j < spans.len() ==> span_len(#[trigger] spans[j]) <= span_len(spans[k]) && (j
                    < k ==> span_len(spans[j]) < span_len(spans[k])),
    decreases spans.len(),
{
    if spans.len() > 0 {
        let rest = spans.drop_last();
        longest_is_longest(rest);
        let last = spans.len() - 1;
        if rest.len() == 0 {
            assert(spans[0] == longest(spans)->0);
        } else {
            let m = choose|m: int|
                0 <= m < rest.len() && #[trigger] rest[m] == longest(rest)->0 && forall|j: int|
                    0 <= j < rest.len() ==> span_len(#[trigger] rest[j]) <= span_len(rest[m]) && (j
                        < m ==> span_len(rest[j]) < span_len(rest[m]));
            let k = if span_len(spans[last]) <= span_len(rest[m]) {
                m
            } else {
                last
            };
            assert forall|j: int| 0 <= j < spans.len() implies span_len(#[trigger] spans[j])
                <= span_len(spans[k]) && (j < k ==> span_len(spans[j]) < span_len(spans[k])) by {
                if j < last {
                    assert(rest[j] == spans[j]);
                }
            }
            assert(spans[k] == longest(spans)->0);
        }
    }
}

/// Each embedded stream lies inside the data, begins with a start marker and
/// ends with an end marker, and none begins before the one before it ends.
pub proof fn embedded_are_streams(data: Seq<u8>, i: nat)
    ensures
        forall|k: int|
            0 <= k < embedded(data, i).len() ==> {
                let span = #[trigger] embedded(data, i)[k];
                &&& i <= span.0
                &&& span.0 + 4 <= span.1 <= data.len()
                &&& starts_at(data, span.0 as int)
                &&& ends_at(data, span.1 - 2)
            },
        forall|k: int, m: int|
            0 <= k < m < embedded(data, i).len() ==> (#[trigger] embedded(data, i)[k]).1 <= (
            #[trigger] embedded(data, i)[m]).0,
    decreases data.len() - i,
{
    if i + 2 < data.len() {
        if !starts_at(data, i as int) {
            embedded_are_streams(data, i + 1);
            assert(embedded(data, i) == embedded(data, i + 1));
        } else {
            distance_is_to_end(data, i + 2);
            if let Some(n) = distance_to_end(data, i + 2) {
                embedded_are_streams(data, i + n + 4);
                let rest = embedded(data, i + n + 4);
                let all = embedded(data, i);
                assert forall|k: int| 0 <= k < all.len() implies {
                    let span = #[trigger] all[k];
                    &&& i <= span.0
                    &&& span.0 + 4 <= span.1 <= data.len()
                    &&& starts_at(data, span.0 as int)
                    &&& ends_at(data, span.1 - 2)
                } by {
                    if k > 0 {
                        assert(all[k] == rest[k - 1]);
                    }
                }
                assert forall|k: int, m: int| 0 <= k < m < all.len() implies (#[trigger] all[k]).1
                    <= (#[trigger] all[m]).0 by {
                    assert(all[m] == rest[m - 1]);
                    if k > 0 {
                        assert(all[k] == rest[k - 1]);
                    }
                }
            }
        }
    }
}

/// `distance_to_end` leads to an end marker, and there is none on the way.
pub proof fn distance_is_to_end(data: Seq<u8>, j: nat)
    ensures
        match distance_to_end(data, j) {
            Some(n) => ends_at(data, (j + n) as int) && forall|m: int|
                j <= m < j + n ==> !#[trigger] ends_at(data, m),
            None => forall|m: int| j <= m ==> !#[trigger] ends_at(data, m),
        },
    decreases data.len() - j,
{
    if j + 1 < data.len() && !ends_at(data, j as int) {
        distance_is_to_end(data, j + 1);
    }
}

/// The position of the first end marker from `from` on.
fn find_end(data: &[u8], from: usize) -> (r: Option<usize>)
    requires
        from <= data@.len(),
    ensures
        match r {
            Some(j) => from <= j && j + 1 < data@.len() && distance_to_end(data@, from as nat)
                == Some((j - from) as nat),
            None => distance_to_end(data@, from as nat) is None,
        },
{
    let len: usize = data.len();
    let mut j: usize = from;
    proof {
        distance_is_to_end(data@, from as nat);
    }
    while j < len && len - j > 1
        invariant
            len == data@.len(),
            from <= j <= len,
            distance_to_end(data@, from as nat) == (match distance_to_end(data@, j as nat) {
                Some(n) => Some((n + (j - from)) as nat),
                None => None,
            }),
        decreases len - j,
    {
        if data[j] == 0xFF && data[j + 1] == 0xD9 {
            return Some(j);
        }
        j = j + 1;
    }
    None
}

/// The longest JPEG stream inside the data; of several that are equally long,
/// the first.
pub fn find_largest_embedded_jpeg(data: &[u8]) -> (r: Option<&[u8]>)
    ensures
        match longest(embedded(data@, 0)) {
            Some(span) => r is Some && r->0@ == data@.subrange(span.0 as int, span.1 as int),
            None => r is None,
        },
{
    let len: usize = data.len();
    let mut best: Option<(usize, usize)> = None;
    let mut i: usize = 0;
    let ghost mut seen: Seq<(nat, nat)> = Seq::empty();
    let ghost all = embedded(data@, 0);
    assert(seen + all =~= all);
    while i < len && len - i > 2
        invariant_except_break
            seen + embedded(data@, i as nat) == all,
        invariant
            len == data@.len(),
            i <= len,
            all == embedded(data@, 0),
            best == (match longest(seen) {
                Some(span) => Some((span.0 as usize, span.1 as usize)),
                None => None,
            }),
            longest(seen) matches Some(span) ==> span.0 <= span.1 <= len,
        ensures
            seen == all,
        decreases len - i,
    {
        if data[i] == 0xFF && data[i + 1] == 0xD8 && data[i + 2] == 0xFF {
            match find_end(data, i + 2) {
                Some(j) => {
                    let end: usize = j + 2;
                    let longer = match best {
                        Some((a, b)) => end - i > b - a,
                        None => true,
                    };
                    if longer {
                        best = Some((i, end));
                    }
                    proof {
                        let span = (i as nat, end as nat);
                        let rest = embedded(data@, end as nat);
                        assert(embedded(data@, i as nat) == seq![span] + rest);
                        assert(seen + (seq![span] + rest) =~= seen.push(span) + rest);
                        assert(seen.push(span).drop_last() =~= seen);
                        seen = seen.push(span);
                    }
                    i = end;
                },
                None => {
                    assert(embedded(data@, i as nat) =~= Seq::empty());
                    assert(seen =~= all);
                    break;
                },
            }
        } else {
            i = i + 1;
        }
        proof {
            if i + 2 >= len {
                assert(embedded(data@, i as nat) =~= Seq::empty());
                assert(seen =~= all);
            }
        }
    }
    match best {
        Some((a, b)) => Some(slice_subrange(data, a, b)),
        None => None,
    }
}

/// The preview inside a camera raw file that stands for the whole picture: the
/// longest JPEG stream, if it is long enough not to be a mere thumbnail.
pub open spec fn preview_span(data: Seq<u8>) -> Option<(nat, nat)> {
    match longest(embedded(data, 0)) {
        Some(span) if span_len(span) >= MIN_PREVIEW_BYTES => Some(span),
        _ => None,
    }
}

/// The preview inside a camera raw file that stands for the whole picture.
pub fn raw_preview(data: &[u8]) -> (r: Option<&[u8]>)
    ensures
        match preview_span(data@) {
            Some(span) => r is Some && r->0@ == data@.subrange(span.0 as int, span.1 as int),
            None => r is None,
        },
{
    proof {
        longest_is_longest(embedded(data@, 0));
        embedded_are_streams(data@, 0);
    }
    match find_largest_embedded_jpeg(data) {
        Some(jpeg) => {
            if jpeg.len() >= MIN_PREVIEW_BYTES {
                Some(jpeg)
            } else {
                None
            }
        },
        None => None,
    }
}

/// The file looks like a JPEG stream.
pub open spec fn looks_like_jpeg(data: Seq<u8>) -> bool {
    data.len() > 2 && data[0] == 0xFF && data[1] == 0xD8
}

/// A stream that was cut short, with an end marker and padding put behind it.
pub open spec fn repaired(data: Seq<u8>) -> Seq<u8> {
    data + seq![0xFFu8, 0xD9u8] + Seq::new(REPAIR_PADDING as nat, |i: int| 0u8)
}

/// Mends a JPEG stream that may have been cut short. A file that does not look
/// like one is not touched.
pub fn repair_truncated_jpeg(data: &[u8]) -> (r: Option<Vec<u8>>)
    ensures
        r is Some <==> looks_like_jpeg(data@),
        r matches Some(v) ==> v@ == repaired(data@),
{
    if data.len() > 2 && data[0] == 0xFF && data[1] == 0xD8 {
        let mut bytes: Vec<u8> = Vec::new();
        bytes.extend_from_slice(data);
        assert(bytes@ =~= data@);
        bytes.push(0xFF);
        bytes.push(0xD9);
        let mut n: usize = 0;
        while n < REPAIR_PADDING
            invariant
                n <= REPAIR_PADDING,
                bytes@ == data@ + seq![0xFFu8, 0xD9u8] + Seq::new(n as nat, |i: int| 0u8),
            decreases REPAIR_PADDING - n,
        {
            bytes.push(0);
            n = n + 1;
            assert(bytes@ =~= data@ + seq![0xFFu8, 0xD9u8] + Seq::new(n as nat, |i: int| 0u8));
        }
        Some(bytes)
    } else {
        None
    }
}

/// Mending leaves the stream itself as it was.
pub proof fn repair_keeps_the_stream(data: Seq<u8>)
    ensures
        repaired(data).take(data.len() as int) == data,
        repaired(data).len() == data.len() + 2 + REPAIR_PADDING,
        ends_at(repaired(data), data.len() as int),
{
    assert(repaired(data).take(data.len() as int) =~= data);
}

/// No stream is missed: wherever a start marker stands with an end marker behind
/// it, from the third byte on, there is a stream in the list that the start marker
/// lies in.
pub proof fn no_stream_is_missed(data: Seq<u8>, i: nat, s: int, e: int)
    requires
        i <= s,
        s + 2 < data.len(),
        data[s] == 0xFF && data[s + 1] == 0xD8 && data[s + 2] == 0xFF,
        s + 2 <= e,
        e + 1 < data.len(),
        data[e] == 0xFF && data[e + 1] == 0xD9,
    ensures
        exists|k: int|
            0 <= k < embedded(data, i).len() && (#[trigger] embedded(data, i)[k]).0 <= s < embedded(
                data,
                i,
            )[k].1,
    decreases data.len() - i,
{
    let all = embedded(data, i);
    assert(ends_at(data, e));
    if starts_at(data, i as int) {
        distance_is_to_end(data, i + 2);
        match distance_to_end(data, i + 2) {
            Some(n) => {
                assert(all[0] == (i, i + n + 4));
                if s >= i + n + 4 {
                    let rest = embedded(data, i + n + 4);
                    no_stream_is_missed(data, i + n + 4, s, e);
                    let k = choose|k: int| 0 <= k < rest.len() && (#[trigger] rest[k]).0 <= s < rest[k].1;
                    assert(all[k + 1] == rest[k]);
                }
            },
            None => {},
        }
    } else {
        assert(i < s);
        no_stream_is_missed(data, i + 1, s, e);
        assert(all == embedded(data, i + 1));
    }
}

/// Every stream in the list goes from a start marker to the first end marker behind
/// it, and lies in the data.
pub proof fn streams_end_at_the_first_end_marker(data: Seq<u8>, i: nat, k: int)
    requires
        0 <= k < embedded(data, i).len(),
    ensures
        ({
            let (a, b) = embedded(data, i)[k];
            &&& i <= a && a + 4 <= b <= data.len()
            &&& data[a as int] == 0xFF && data[a + 1int] == 0xD8 && data[a + 2int] == 0xFF
            &&& data[b - 2] == 0xFF && data[b - 1] == 0xD9
            &&& forall|m: int|
                a + 2 <= m < b - 2 ==> !(#[trigger] data[m] == 0xFF && data[m + 1] == 0xD9)
        }),
    decreases data.len() - i,
{
    if i + 2 < data.len() {
        if !starts_at(data, i as int) {
            streams_end_at_the_first_end_marker(data, i + 1, k);
        } else {
            distance_is_to_end(data, i + 2);
            if let Some(n) = distance_to_end(data, i + 2) {
                let rest = embedded(data, i + n + 4);
                if k > 0 {
                    assert(embedded(data, i)[k] == rest[k - 1]);
                    streams_end_at_the_first_end_marker(data, i + n + 4, k - 1);
                } else {
                    assert forall|m: int| i + 2 <= m < i + n + 2 implies !(#[trigger] data[m]
                        == 0xFF && data[m + 1] == 0xD9) by {
                        assert(!ends_at(data, m));
                    }
                }
            }
        }
    }
}

/// What is found is a stream of the data, from a start marker to the first end
/// marker behind it.
pub proof fn what_is_found_is_a_stream(data: Seq<u8>)
    ensures
        longest(embedded(data, 0)) matches Some((a, b)) ==> {
            &&& a + 4 <= b <= data.len()
            &&& data[a as int] == 0xFF && data[a + 1int] == 0xD8 && data[a + 2int] == 0xFF
            &&& data[b - 2] == 0xFF && data[b - 1] == 0xD9
            &&& forall|m: int|
                a + 2 <= m < b - 2 ==> !(#[trigger] data[m] == 0xFF && data[m + 1] == 0xD9)
        },
{
    let all = embedded(data, 0);
    longest_is_longest(all);
    if all.len() > 0 {
        let k = choose|k: int|
            0 <= k < all.len() && #[trigger] all[k] == longest(all)->0 && forall|j: int|
                0 <= j < all.len() ==> span_len(#[trigger] all[j]) <= span_len(all[k]) && (j < k
                    ==> span_len(all[j]) < span_len(all[k]));
        streams_end_at_the_first_end_marker(data, 0, k);
    }
}

/// The largest stream is found, wherever it lies: from no start marker in the data
/// is it further to the first end marker behind it than what is found is long, and
/// from none before what is found is it as far.
pub proof fn the_largest_stream_is_found(data: Seq<u8>, s: int, e: int)
    requires
        0 <= s,
        s + 2 < data.len(),
        data[s] == 0xFF && data[s + 1] == 0xD8 && data[s + 2] == 0xFF,
        s + 2 <= e,
        e + 1 < data.len(),
        data[e] == 0xFF && data[e + 1] == 0xD9,
        forall|m: int| s + 2 <= m < e ==> !(#[trigger] data[m] == 0xFF && data[m + 1] == 0xD9),
    ensures
        longest(embedded(data, 0)) matches Some((a, b)) && b - a >= e + 2 - s && (s < a ==> b - a > e
            + 2 - s),
{
    let all = embedded(data, 0);
    no_stream_is_missed(data, 0, s, e);
    let k = choose|k: int| 0 <= k < all.len() && (#[trigger] all[k]).0 <= s < all[k].1;
    streams_end_at_the_first_end_marker(data, 0, k);
    let (c, d) = all[k];
    // The end marker of that stream is not before `s + 2`, where no start marker
    // could stand on it.
    if s + 2 > d - 2 {
        assert(s == d - 3 || s == d - 2 || s == d - 1);
    }
    assert(e == d - 2) by {
        if e < d - 2 {
            assert(!(data[e] == 0xFF && data[e + 1] == 0xD9));
        } else if e > d - 2 {
            assert(!(data[d - 2] == 0xFF && data[d - 2 + 1] == 0xD9));
        }
    }
    longest_is_longest(all);
    let best = choose|m: int|
        0 <= m < all.len() && #[trigger] all[m] == longest(all)->0 && forall|j: int|
            0 <= j < all.len() ==> span_len(#[trigger] all[j]) <= span_len(all[m]) && (j < m
                ==> span_len(all[j]) < span_len(all[m]));
    assert(span_len(all[k]) <= span_len(all[best]));
    embedded_are_streams(data, 0);
    if s < all[best].0 {
        if k > best {
            assert(all[best].1 <= all[k].0);
        }
        assert(k < best);
        assert(span_len(all[k]) < span_len(all[best]));
    }
}

/// A preview stands for a raw file exactly where the largest stream has 65536 bytes
/// or more, and it is that stream.
pub proof fn previews_are_large(data: Seq<u8>)
    ensures
        match longest(embedded(data, 0)) {
            Some((a, b)) => if b - a >= 65_536 {
                preview_span(data) == Some((a, b))
            } else {
                preview_span(data) is None
            },
            None => preview_span(data) is None,
        },
{
}

/// A file is mended exactly where it begins with the first two bytes of a JPEG
/// stream and goes on behind them; the mended copy is the file with an end marker
/// and 1024 zero bytes behind it.
pub proof fn mending_adds_an_end(data: Seq<u8>)
    ensures
        looks_like_jpeg(data) <==> data.len() > 2 && data[0] == 0xFF && data[1] == 0xD8,
        repaired(data).len() == data.len() + 2 + 1024,
        forall|i: int| 0 <= i < data.len() ==> #[trigger] repaired(data)[i] == data[i],
        repaired(data)[data.len() as int] == 0xFF,
        repaired(data)[data.len() + 1int] == 0xD9,
        forall|i: int|
            data.len() + 2 <= i < repaired(data).len() ==> #[trigger] repaired(data)[i] == 0,
{
}

/// From which size on a preview counts, and what is put behind a mended stream.
pub proof fn measures_of_a_stream(span: (nat, nat))
    ensures
        MIN_PREVIEW_BYTES == 65_536,
        REPAIR_PADDING == 1024,
        span_len(span) == span.1 - span.0,
{
}

} // verus!
