use vstd::prelude::*;

verus! {

/// The position of the first newline in `s`, or `s.len()` when `s` holds
/// none.
pub open spec fn first_newline(s: Seq<char>) -> int
    decreases s.len(),
{
    if s.len() == 0 {
        0
    } else if s.first() == '\n' {
        0
    } else {
        1 + first_newline(s.drop_first())
    }
}

/// The delimiter-inclusive split of `s` into lines: every line but
/// possibly the last ends with a newline, the newline stays with its
/// line, and empty input gives no lines at all.
pub open spec fn line_split(s: Seq<char>) -> Seq<Seq<char>>
    decreases s.len(),
{
    if s.len() == 0 {
        Seq::empty()
    } else {
        let k = first_newline(s);
        if 0 <= k < s.len() {
            seq![s.subrange(0, k + 1)] + line_split(s.subrange(k + 1, s.len() as int))
        } else {
            seq![s]
        }
    }
}

pub proof fn lemma_first_newline(s: Seq<char>)
    ensures
        0 <= first_newline(s) <= s.len(),
        forall|j: int| 0 <= j < first_newline(s) ==> s[j] != '\n',
        first_newline(s) < s.len() ==> s[first_newline(s)] == '\n',
    decreases s.len(),
{
    if s.len() > 0 && s.first() != '\n' {
        lemma_first_newline(s.drop_first());
        assert forall|j: int| 0 <= j < first_newline(s) implies s[j] != '\n' by {
            if j > 0 {
                assert(s.drop_first()[j - 1] == s[j]);
            }
        }
    }
}

/// Where the first newline lies is determined by the characters: a
/// position `p` preceded by no newline, itself a newline or the end,
/// is that position.
pub proof fn lemma_first_newline_at(s: Seq<char>, p: int)
    requires
        0 <= p <= s.len(),
        forall|j: int| 0 <= j < p ==> s[j] != '\n',
        p < s.len() ==> s[p] == '\n',
    ensures
        first_newline(s) == p,
    decreases s.len(),
{
    if s.len() > 0 && s.first() != '\n' {
        lemma_first_newline_at(s.drop_first(), p - 1);
    }
}

/// Splitting distributes over a cut placed right after a newline (or
/// at the very start): the lines of the whole are the lines of the two
/// parts in order.
pub proof fn lemma_line_split_concat(a: Seq<char>, b: Seq<char>)
    requires
        a.len() == 0 || a.last() == '\n',
    ensures
        line_split(a + b) == line_split(a) + line_split(b),
    decreases a.len(),
{
    if a.len() == 0 {
        assert(a + b =~= b);
        assert(line_split(a) + line_split(b) =~= line_split(b));
    } else {
        lemma_first_newline(a);
        let k = first_newline(a);
        // `a` ends with a newline, so its first newline lies inside it
        assert(a[a.len() - 1] == '\n');
        assert(k < a.len());
        lemma_first_newline_at(a + b, k);
        let rest = a.subrange(k + 1, a.len() as int);
        if k + 1 < a.len() {
            assert(rest.last() == '\n');
        }
        lemma_line_split_concat(rest, b);
        assert((a + b).subrange(0, k + 1) =~= a.subrange(0, k + 1));
        assert((a + b).subrange(k + 1, (a + b).len() as int) =~= rest + b);
        assert(line_split(a + b) =~= line_split(a) + line_split(b));
    }
}

/// A non-empty stretch with no newline anywhere splits into itself alone.
pub proof fn lemma_line_split_single(s: Seq<char>)
    requires
        s.len() > 0,
        forall|j: int| 0 <= j < s.len() - 1 ==> s[j] != '\n',
    ensures
        line_split(s) == seq![s],
{
    if s.last() == '\n' {
        lemma_first_newline_at(s, s.len() - 1);
        assert(s.subrange(0, s.len() as int) =~= s);
        assert(s.subrange(s.len() as int, s.len() as int) =~= Seq::<char>::empty());
        assert(line_split(s.subrange(s.len() as int, s.len() as int)) =~= Seq::<Seq<char>>::empty());
        assert(line_split(s) =~= seq![s]);
    } else {
        lemma_first_newline_at(s, s.len() as int);
        assert(line_split(s) =~= seq![s]);
    }
}

/// No line is lost, invented or reordered: the split lines concatenate
/// back to exactly the original text.
pub proof fn lemma_line_split_flatten(s: Seq<char>)
    ensures
        line_split(s).flatten() == s,
    decreases s.len(),
{
    if s.len() == 0 {
        assert(line_split(s).flatten() =~= s);
    } else {
        lemma_first_newline(s);
        let k = first_newline(s);
        if k >= s.len() {
            assert(line_split(s) =~= seq![s]);
            assert(seq![s].drop_first() =~= Seq::<Seq<char>>::empty());
            assert(seq![s].flatten() == s + seq![s].drop_first().flatten());
            assert(seq![s].drop_first().flatten() =~= Seq::<char>::empty());
            assert(line_split(s).flatten() =~= s);
        } else {
            let rest = s.subrange(k + 1, s.len() as int);
            lemma_line_split_flatten(rest);
            assert(line_split(s) =~= seq![s.subrange(0, k + 1)] + line_split(rest));
            assert(line_split(s).flatten() =~= s.subrange(0, k + 1) + (seq![s.subrange(0, k + 1)]
                + line_split(rest)).drop_first().flatten()) by {
                assert((seq![s.subrange(0, k + 1)] + line_split(rest)).first() == s.subrange(
                    0,
                    k + 1,
                ));
            }
            assert((seq![s.subrange(0, k + 1)] + line_split(rest)).drop_first() =~= line_split(
                rest,
            ));
            assert(s.subrange(0, k + 1) + rest =~= s);
        }
    }
}

/// Splits text into delimiter-inclusive lines, each newline staying at
/// the end of its own line and the order of the text preserved.
pub fn split_lines(content: &str) -> (r: Vec<String>)
    ensures
        r@.map_values(|l: String| l@) == line_split(content@),
{
    let n = content.unicode_len();
    let mut r: Vec<String> = Vec::new();
    let mut start: usize = 0;
    let mut j: usize = 0;
    while j < n
        invariant
            start <= j <= n,
            n == content@.len(),
            start == 0 || content@[start - 1] == '\n',
            forall|q: int| start <= q < j ==> content@[q] != '\n',
            r@.map_values(|l: String| l@) == line_split(content@.subrange(0, start as int)),
        decreases n - j,
    {
        let c = content.get_char(j);
        if c == '\n' {
            let line = String::from_str(content.substring_char(start, j + 1));
            let ghost prefix = content@.subrange(0, start as int);
            let ghost piece = content@.subrange(start as int, j + 1);
            r.push(line);
            proof {
                lemma_line_split_single(piece);
                if start > 0 {
                    assert(prefix.last() == '\n');
                }
                lemma_line_split_concat(prefix, piece);
                assert(prefix + piece =~= content@.subrange(0, j + 1));
                assert(r@.map_values(|l: String| l@) =~= line_split(
                    content@.subrange(0, j + 1),
                ));
            }
            start = j + 1;
        }
        j = j + 1;
    }
    if start < n {
        let line = String::from_str(content.substring_char(start, n));
        let ghost prefix = content@.subrange(0, start as int);
        let ghost piece = content@.subrange(start as int, n as int);
        r.push(line);
        proof {
            lemma_line_split_single(piece);
            if start > 0 {
                assert(prefix.last() == '\n');
            }
            lemma_line_split_concat(prefix, piece);
            assert(prefix + piece =~= content@);
            assert(r@.map_values(|l: String| l@) =~= line_split(content@));
        }
    } else {
        proof {
            assert(content@.subrange(0, start as int) =~= content@);
        }
    }
    r
}

} // verus!
