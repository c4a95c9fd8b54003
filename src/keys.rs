//! Composite store keys: segments joined by `:`, the first segment naming the
//! aggregate kind.
use vstd::prelude::*;
use vstd::string::*;

verus! {

broadcast use vstd::string::to_string_from_display_ensures_for_str;

/// The segments of a key, split at every `:`; a key without `:` is one segment.
pub open spec fn segments(s: Seq<char>) -> Seq<Seq<char>>
    decreases s.len(),
{
    if s.len() == 0 {
        seq![Seq::empty()]
    } else {
        let front = segments(s.drop_last());
        if s.last() == ':' {
            front.push(Seq::empty())
        } else {
            front.update(front.len() - 1, front.last().push(s.last()))
        }
    }
}

proof fn lemma_segments_nonempty(s: Seq<char>)
    ensures
        segments(s).len() >= 1,
    decreases s.len(),
{
    if s.len() > 0 {
        lemma_segments_nonempty(s.drop_last());
    }
}

/// Two segments joined with `:`.
pub open spec fn key2(a: Seq<char>, b: Seq<char>) -> Seq<char> {
    a + seq![':'] + b
}

/// Three segments joined with `:`.
pub open spec fn key3(a: Seq<char>, b: Seq<char>, c: Seq<char>) -> Seq<char> {
    key2(a, b) + seq![':'] + c
}

/// Four segments joined with `:`.
pub open spec fn key4(a: Seq<char>, b: Seq<char>, c: Seq<char>, d: Seq<char>) -> Seq<char> {
    key3(a, b, c) + seq![':'] + d
}

/// Splits a key into its segments.
pub fn split_key(key: &str) -> (r: Vec<String>)
    ensures
        r@.map_values(|s: String| s@) == segments(key@),
{
    let n = key.unicode_len();
    let mut parts: Vec<String> = Vec::new();
    let mut start: usize = 0;
    let mut i: usize = 0;
    proof {
        assert(key@.subrange(0, 0) =~= Seq::<char>::empty());
        assert(parts@.map_values(|s: String| s@) =~= Seq::<Seq<char>>::empty());
        assert(parts@.map_values(|s: String| s@).push(key@.subrange(0, 0)) =~= seq![Seq::<char>::empty()]);
    }
    while i < n
        invariant
            n == key@.len(),
            start <= i <= n,
            parts@.map_values(|s: String| s@).push(key@.subrange(start as int, i as int))
                == segments(key@.subrange(0, i as int)),
        decreases n - i,
    {
        let c = key.get_char(i);
        proof {
            let s = key@.subrange(0, i as int + 1);
            assert(s.drop_last() == key@.subrange(0, i as int));
            assert(s.last() == c);
            lemma_segments_nonempty(key@.subrange(0, i as int));
        }
        if c == ':' {
            let part = key.substring_char(start, i).to_string();
            parts.push(part);
            start = i + 1;
            proof {
                assert(key@.subrange(start as int, i as int + 1) =~= Seq::<char>::empty());
                assert(parts@.map_values(|s: String| s@) =~= segments(key@.subrange(0, i as int)));
            }
        } else {
            proof {
                let before = parts@.map_values(|s: String| s@);
                assert(key@.subrange(start as int, i as int + 1)
                    =~= key@.subrange(start as int, i as int).push(c));
                assert(before.push(key@.subrange(start as int, i as int + 1))
                    =~= before.push(key@.subrange(start as int, i as int)).update(
                        before.len() as int,
                        key@.subrange(start as int, i as int).push(c),
                    ));
            }
        }
        i = i + 1;
    }
    let last = key.substring_char(start, n).to_string();
    parts.push(last);
    proof {
        assert(key@.subrange(0, n as int) =~= key@);
    }
    parts
}

/// The segment of a key at a position, if the key has that many segments.
pub fn segment_at(key: &str, index: usize) -> (r: Option<String>)
    ensures
        index < segments(key@).len() ==> (r matches Some(s) && s@ == segments(key@)[index as int]),
        index >= segments(key@).len() ==> r is None,
{
    let parts = split_key(key);
    proof {
        assert(parts@.len() == segments(key@).len());
    }
    if index < parts.len() {
        let s = parts[index].clone();
        proof {
            assert(parts@.map_values(|s: String| s@)[index as int] == parts@[index as int]@);
        }
        Some(s)
    } else {
        None
    }
}

/// Joins two segments with `:`.
pub fn join2(a: &str, b: &str) -> (r: String)
    ensures
        r@ == key2(a@, b@),
{
    let mut s = a.to_string();
    s.append(":");
    s.append(b);
    proof {
        reveal_strlit(":");
    }
    s
}

/// Joins three segments with `:`.
pub fn join3(a: &str, b: &str, c: &str) -> (r: String)
    ensures
        r@ == key3(a@, b@, c@),
{
    let mut s = join2(a, b);
    s.append(":");
    s.append(c);
    proof {
        reveal_strlit(":");
    }
    s
}

/// Joins four segments with `:`.
pub fn join4(a: &str, b: &str, c: &str, d: &str) -> (r: String)
    ensures
        r@ == key4(a@, b@, c@, d@),
{
    let mut s = join3(a, b, c);
    s.append(":");
    s.append(d);
    proof {
        reveal_strlit(":");
    }
    s
}

} // verus!
