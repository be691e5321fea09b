//! Splitting a document into lines.
//!
//! A line ends at a `'\n'`; a `'\r'` standing immediately before that
//! `'\n'` belongs to the terminator and is dropped from the line. A final
//! fragment without a terminator counts as a line of its own, kept whole,
//! and a document ending in a terminator has no empty line after it.

use vstd::prelude::*;

verus! {

/// Drops one `'\r'` from the end of a newline-terminated line, so that a
/// `"\r\n"` sequence ends a line exactly as a lone `"\n"` does.
pub open spec fn strip_cr(line: Seq<char>) -> Seq<char> {
    if line.len() > 0 && line.last() == '\r' {
        line.drop_last()
    } else {
        line
    }
}

/// The lines of `text`, with `cur` the part of the current line already
/// read when `text` begins.
pub open spec fn split_rec(text: Seq<char>, cur: Seq<char>) -> Seq<Seq<char>>
    decreases text.len(),
{
    if text.len() == 0 {
        if cur.len() == 0 {
            Seq::empty()
        } else {
            seq![cur]
        }
    } else if text[0] == '\n' {
        seq![strip_cr(cur)] + split_rec(text.skip(1), Seq::empty())
    } else {
        split_rec(text.skip(1), cur.push(text[0]))
    }
}

/// The ordered sequence of lines of `text`.
pub open spec fn spec_lines(text: Seq<char>) -> Seq<Seq<char>> {
    split_rec(text, Seq::empty())
}

/// Splits `contents` into its lines, in order, borrowing from `contents`.
pub fn split_lines<'a>(contents: &'a str) -> (r: Vec<&'a str>)
    ensures
        r.deep_view() == spec_lines(contents@),
{
    let n = contents.unicode_len();
    let mut r: Vec<&'a str> = Vec::new();
    let mut start: usize = 0;
    let mut i: usize = 0;
    proof {
        assert(contents@.skip(0) =~= contents@);
        assert(contents@.subrange(0, 0) =~= Seq::<char>::empty());
        assert(r.deep_view() =~= Seq::<Seq<char>>::empty());
        assert(Seq::<Seq<char>>::empty() + spec_lines(contents@) =~= spec_lines(contents@));
    }
    while i < n
        invariant
            n == contents@.len(),
            start <= i <= n,
            spec_lines(contents@) == r.deep_view() + split_rec(
                contents@.skip(i as int),
                contents@.subrange(start as int, i as int),
            ),
        decreases n - i,
    {
        let ghost text = contents@.skip(i as int);
        let ghost cur = contents@.subrange(start as int, i as int);
        proof {
            assert(text[0] == contents@[i as int]);
            assert(text.skip(1) =~= contents@.skip(i + 1));
        }
        let c = contents.get_char(i);
        if c == '\n' {
            let line = if i > start && contents.get_char(i - 1) == '\r' {
                assert(cur.len() > 0 && cur.last() == '\r');
                assert(strip_cr(cur) =~= contents@.subrange(start as int, i - 1));
                contents.substring_char(start, i - 1)
            } else {
                assert(strip_cr(cur) =~= cur);
                contents.substring_char(start, i)
            };
            let ghost rest = split_rec(contents@.skip(i + 1), Seq::<char>::empty());
            let ghost prev = r.deep_view();
            proof {
                assert(split_rec(text, cur) == seq![strip_cr(cur)] + rest);
            }
            r.push(line);
            proof {
                assert(r.deep_view() =~= prev.push(line@));
                assert(prev.push(line@) =~= prev + seq![strip_cr(cur)]);
                assert((prev + seq![strip_cr(cur)]) + rest =~= prev + (seq![strip_cr(cur)]
                    + rest));
                assert(contents@.subrange(i + 1, i + 1) =~= Seq::<char>::empty());
            }
            start = i + 1;
        } else {
            proof {
                assert(cur.push(text[0]) =~= contents@.subrange(start as int, i + 1));
            }
        }
        i = i + 1;
    }
    proof {
        assert(contents@.skip(n as int) =~= Seq::<char>::empty());
    }
    if start < n {
        let line = contents.substring_char(start, n);
        let ghost prev = r.deep_view();
        let ghost cur = contents@.subrange(start as int, n as int);
        r.push(line);
        proof {
            assert(r.deep_view() =~= prev.push(line@));
            assert(prev.push(line@) =~= prev + seq![cur]);
            assert(split_rec(Seq::<char>::empty(), cur) == seq![cur]);
        }
    }
    assert(r.deep_view() =~= spec_lines(contents@));
    r
}

} // verus!
