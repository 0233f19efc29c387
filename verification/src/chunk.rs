//! Long-reply chunking: split text into bounded-length segments on character
//! boundaries, losslessly and in order.

use vstd::prelude::*;
use vstd::string::StrSliceExecFns;
use vstd::string::StringExecFns;

verus! {

/// The concatenation of a sequence of segments.
pub open spec fn concat_chunks(cs: Seq<Seq<char>>) -> Seq<char>
    decreases cs.len(),
{
    if cs.len() == 0 {
        Seq::empty()
    } else {
        concat_chunks(cs.drop_last()) + cs.last()
    }
}

/// Split `s` into segments of at most `limit` characters: every segment but
/// the last has exactly `limit` characters, no segment is empty, and the
/// segments concatenate back to `s` in order. An empty input yields no
/// segments.
pub fn chunk(s: &str, limit: usize) -> (out: Vec<String>)
    requires
        limit >= 1,
    ensures
        concat_chunks(out.deep_view()) == s@,
        forall|i: int| 0 <= i < out.deep_view().len() ==> (#[trigger] out.deep_view()[i]).len() <= limit,
        forall|i: int| 0 <= i < out.deep_view().len() - 1 ==> (#[trigger] out.deep_view()[i]).len() == limit,
        forall|i: int| 0 <= i < out.deep_view().len() ==> (#[trigger] out.deep_view()[i]).len() > 0,
        out.len() == 0 <==> s@.len() == 0,
{
    let total = s.unicode_len();
    let mut out: Vec<String> = Vec::new();
    let mut i: usize = 0;
    proof {
        assert(out.deep_view() =~= Seq::<Seq<char>>::empty());
        assert(s@.take(0) =~= Seq::<char>::empty());
    }
    while i < total
        invariant
            0 <= i <= total,
            total == s@.len(),
            limit >= 1,
            concat_chunks(out.deep_view()) == s@.take(i as int),
            forall|k: int| 0 <= k < out.deep_view().len() ==> (#[trigger] out.deep_view()[k]).len() <= limit,
            forall|k: int| 0 <= k < out.deep_view().len() ==> (#[trigger] out.deep_view()[k]).len() > 0,
            forall|k: int| 0 <= k < out.deep_view().len() - 1 ==> (#[trigger] out.deep_view()[k]).len() == limit,
            out.len() > 0 ==> (out.deep_view().last().len() == limit || i == total),
            out.len() == 0 ==> i == 0,
        decreases total - i,
    {
        let end = if limit < total - i {
            i + limit
        } else {
            total
        };
        let piece = s.substring_char(i, end);
        let ghost pre = out.deep_view();
        out.push(String::from_str(piece));
        proof {
            assert(out.deep_view() =~= pre.push(s@.subrange(i as int, end as int)));
            assert(out.deep_view().drop_last() =~= pre);
            assert(concat_chunks(out.deep_view()) =~= s@.take(end as int));
        }
        i = end;
    }
    proof {
        assert(s@.take(total as int) =~= s@);
    }
    out
}

} // verus!
