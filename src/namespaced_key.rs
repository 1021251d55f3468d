use vstd::prelude::*;
use vstd::string::StringExecFns;

use crate::key::Key;

verus! {

/// The segments joined by `:`, in order.
pub open spec fn join_segments(parts: Seq<Seq<char>>) -> Seq<char>
    decreases parts.len(),
{
    if parts.len() == 0 {
        Seq::empty()
    } else if parts.len() == 1 {
        parts[0]
    } else {
        join_segments(parts.drop_last()) + seq![':'] + parts.last()
    }
}

/// The characters of each string.
pub open spec fn segments_of(v: Seq<String>) -> Seq<Seq<char>> {
    v.map_values(|s: String| s@)
}

/// A key built from segments, composed into `"a:b:c"`.
#[derive(Debug, Default, Clone)]
pub struct NamespacedKey(Vec<String>);

impl View for NamespacedKey {
    type V = Seq<Seq<char>>;

    closed spec fn view(&self) -> Seq<Seq<char>> {
        segments_of(self.0@)
    }
}

impl NamespacedKey {
    /// A key of the one segment `init`.
    pub fn new(init: &str) -> (r: NamespacedKey)
        ensures
            r@ == seq![init@],
    {
        let mut v: Vec<String> = Vec::new();
        v.push(init.to_string());
        let r = NamespacedKey(v);
        assert(r@ =~= seq![init@]);
        r
    }

    /// The same segments with `value` appended as the last.
    pub fn ns(self, value: &str) -> (r: NamespacedKey)
        ensures
            r@ == self@.push(value@),
    {
        let mut v = self.0;
        v.push(value.to_string());
        let r = NamespacedKey(v);
        assert(r@ =~= self@.push(value@));
        r
    }

    /// The key that joins the segments with `:`.
    pub fn compose(self) -> (r: Key)
        ensures
            r@ == join_segments(self@),
    {
        let parts = self.0;
        let n = parts.len();
        let mut s = String::new();
        let mut i: usize = 0;
        proof {
            reveal_strlit(":");
        }
        while i < n
            invariant
                n == parts@.len(),
                0 <= i <= n,
                s@ == join_segments(segments_of(parts@).take(i as int)),
            decreases n - i,
        {
            let ghost segs = segments_of(parts@);
            assert(segs.take(i as int + 1).drop_last() =~= segs.take(i as int));
            assert(segs.take(i as int + 1).last() == parts@[i as int]@);
            proof {
                reveal_strlit(":");
            }
            if i > 0 {
                s.append(":");
            }
            s.append(parts[i].as_str());
            proof {
                if i == 0 {
                    assert(s@ =~= join_segments(segs.take(1)));
                } else {
                    assert(s@ =~= join_segments(segs.take(i as int + 1)));
                }
            }
            i = i + 1;
        }
        assert(segments_of(parts@).take(n as int) =~= segments_of(parts@));
        Key(s)
    }
}

} // verus!
