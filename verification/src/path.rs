//! Splitting a start path into its segments: purely on the literal `/`
//! character, with no escaping, keeping empty segments, as the command line
//! hands the path in.

use vstd::prelude::*;

verus! {

/// The segments of `s` split on the literal `/`: always one segment more
/// than there are separators, so empty segments are kept and the empty string
/// splits into one empty segment.
pub open spec fn split_chars(s: Seq<char>) -> Seq<Seq<char>>
    decreases s.len(),
{
    if s.len() == 0 {
        seq![Seq::<char>::empty()]
    } else if s[0] == '/' {
        seq![Seq::<char>::empty()] + split_chars(s.drop_first())
    } else {
        let rest = split_chars(s.drop_first());
        seq![seq![s[0]] + rest[0]] + rest.drop_first()
    }
}

/// A split always yields at least one segment.
pub proof fn lemma_split_chars_nonempty(s: Seq<char>)
    ensures
        split_chars(s).len() >= 1,
    decreases s.len(),
{
    if s.len() != 0 {
        lemma_split_chars_nonempty(s.drop_first());
    }
}

/// Splits a path string on each `/` into its segment strings.
pub fn split_path(s: &str) -> (r: Vec<String>)
    ensures
        r.deep_view() == split_chars(s@),
    decreases s@.len(),
{
    let n = s.unicode_len();
    if n == 0 {
        let mut r: Vec<String> = Vec::new();
        r.push(String::new());
        proof {
            assert(r.deep_view() =~= split_chars(s@));
        }
        r
    } else {
        let c = s.get_char(0);
        let tail = s.substring_char(1, n);
        proof {
            assert(tail@ =~= s@.drop_first());
        }
        let mut r = split_path(tail);
        proof {
            lemma_split_chars_nonempty(tail@);
        }
        if c == '/' {
            r.insert(0, String::new());
            proof {
                assert(r.deep_view() =~= split_chars(s@));
            }
            r
        } else {
            let head = r.remove(0);
            let ghost r1 = r.deep_view();
            let mut first = String::from_str(s.substring_char(0, 1));
            first.append(head.as_str());
            r.insert(0, first);
            proof {
                assert(first@ =~= seq![s@[0]] + split_chars(s@.drop_first())[0]);
                assert(r1 =~= split_chars(tail@).drop_first());
                assert(r.deep_view() =~= split_chars(s@));
            }
            r
        }
    }
}

} // verus!
