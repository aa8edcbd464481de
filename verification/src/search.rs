//! Looking for bytes in a command line.

use crate::text::at_most;
use vstd::prelude::*;
use vstd::slice::slice_subrange;

verus! {

/// The single quote, which encloses the directory in a tar line.
pub const QUOTE: u8 = 39;

/// Whether `needle` stands in `hay` at index `i`.
pub open spec fn occurs_at(hay: Seq<u8>, needle: Seq<u8>, i: int) -> bool {
    &&& 0 <= i
    &&& i + needle.len() <= hay.len()
    &&& hay.subrange(i, i + needle.len()) == needle
}

/// Whether `needle` stands anywhere in `hay`.
pub open spec fn occurs(hay: Seq<u8>, needle: Seq<u8>) -> bool {
    exists|i: int| occurs_at(hay, needle, i)
}

/// The run between the first two quotes of a line.
pub open spec fn quoted_run(line: Seq<u8>) -> Option<Seq<u8>> {
    match line.index_of_first(QUOTE) {
        None => None,
        Some(a) => {
            let rest = line.skip(a + 1);
            match rest.index_of_first(QUOTE) {
                None => None,
                Some(b) => Some(rest.take(b)),
            }
        },
    }
}

/// Whether `needle` stands in `hay` at index `i`.
fn matches_at(hay: &[u8], needle: &[u8], i: usize) -> (r: bool)
    requires
        i + needle.len() <= hay.len(),
    ensures
        r == occurs_at(hay@, needle@, i as int),
{
    let mut j: usize = 0;
    while j < needle.len()
        invariant
            j <= needle.len(),
            i + needle.len() <= hay.len(),
            forall|k: int| 0 <= k < j ==> hay@[i + k] == needle@[k],
        decreases needle.len() - j,
    {
        if hay[i + j] != needle[j] {
            assert(hay@.subrange(i as int, i + needle@.len())[j as int] != needle@[j as int]);
            return false;
        }
        j = j + 1;
    }
    assert(hay@.subrange(i as int, i + needle@.len()) =~= needle@);
    true
}

/// The index at which `needle` first stands in `hay`.
pub fn find(hay: &[u8], needle: &[u8]) -> (r: Option<usize>)
    ensures
        r matches Some(i) ==> occurs_at(hay@, needle@, i as int) && forall|j: int|
            j < i ==> !occurs_at(hay@, needle@, j),
        r is None ==> !occurs(hay@, needle@),
{
    if needle.len() > hay.len() {
        return None;
    }
    let last: usize = hay.len() - needle.len();
    let mut i: usize = 0;
    loop
        invariant
            i <= last,
            last + needle.len() == hay.len(),
            forall|j: int| j < i ==> !occurs_at(hay@, needle@, j),
        decreases last - i,
    {
        if matches_at(hay, needle, i) {
            return Some(i);
        }
        if i == last {
            return None;
        }
        i = i + 1;
    }
}

/// The index of the first quote.
fn find_quote(s: &[u8]) -> (r: Option<usize>)
    ensures
        r matches Some(i) ==> s@.index_of_first(QUOTE) == Some(i as int) && i < s.len(),
        r is None ==> s@.index_of_first(QUOTE) is None,
{
    let needle: [u8; 1] = [QUOTE];
    let r = find(s, &needle);
    proof {
        s@.index_of_first_ensures(QUOTE);
        assert forall|i: int| 0 <= i < s@.len() implies occurs_at(s@, needle@, i) == (s@[i]
            == QUOTE) by {
            let sub = s@.subrange(i, i + 1);
            assert(sub[0] == s@[i]);
            if s@[i] == QUOTE {
                assert(sub =~= needle@);
            } else {
                assert(needle@[0] == QUOTE);
            }
        }
        assert(needle@.len() == 1);
        match r {
            Some(i) => {
                assert(s@.contains(s@[i as int]));
            },
            None => {
                assert forall|i: int| 0 <= i < s@.len() implies s@[i] != QUOTE by {
                    assert(!occurs_at(s@, needle@, i));
                }
            },
        }
    }
    r
}

/// Pull the first single-quoted run out of a command line into `out`. A run
/// that is longer than `out` is cut there.
pub fn quoted<'a>(line: &'a [u8], out: &'a mut [u8]) -> (r: Option<&'a [u8]>)
    ensures
        r is Some <==> quoted_run(line@) is Some,
        r matches Some(dir) ==> {
            &&& dir@ == at_most(quoted_run(line@)->0, old(out)@.len() as int)
            &&& final(out)@ == dir@ + old(out)@.skip(dir@.len() as int)
        },
        r is None ==> final(out)@ == old(out)@,
{
    let a = match find_quote(line) {
        Some(i) => i + 1,
        None => {
            return None;
        },
    };
    let rest = slice_subrange(line, a, line.len());
    let b = match find_quote(rest) {
        Some(i) => i,
        None => {
            return None;
        },
    };
    let n: usize = if b > out.len() {
        out.len()
    } else {
        b
    };
    let ghost before = out@;
    let mut k: usize = 0;
    while k < n
        invariant
            k <= n,
            n <= rest.len(),
            n <= before.len(),
            out@ =~= rest@.take(k as int) + before.skip(k as int),
        decreases n - k,
    {
        out[k] = rest[k];
        k = k + 1;
    }
    proof {
        assert(line@.skip(a as int) =~= rest@);
        assert(out@.take(n as int) =~= rest@.take(b as int).take(n as int));
        assert(out@ =~= out@.take(n as int) + before.skip(n as int));
    }
    let filled: &'a [u8] = out;
    Some(slice_subrange(filled, 0, n))
}

/// A text is found wherever it stands and nowhere else.
pub proof fn law_occurs(hay: Seq<u8>, needle: Seq<u8>)
    ensures
        occurs(hay, needle) <==> exists|a: Seq<u8>, b: Seq<u8>| hay == #[trigger] (a + needle + b),
{
    if occurs(hay, needle) {
        let i = choose|i: int| occurs_at(hay, needle, i);
        let a = hay.take(i);
        let b = hay.skip(i + needle.len());
        assert(hay =~= (a + needle) + b);
    }
    assert forall|a: Seq<u8>, b: Seq<u8>| hay == #[trigger] (a + needle + b) implies occurs(
        hay,
        needle,
    ) by {
        assert(hay.subrange(a.len() as int, (a.len() + needle.len()) as int) =~= needle);
        assert(occurs_at(hay, needle, a.len() as int));
    }
}

/// The quoted run is all that stands between the first two quotes (39),
/// whatever stands before and behind them.
pub proof fn law_quoted_run(a: Seq<u8>, run: Seq<u8>, b: Seq<u8>)
    requires
        !a.contains(39),
        !run.contains(39),
    ensures
        quoted_run(a + seq![39u8] + run + seq![39u8] + b) == Some(run),
{
    let line = a + seq![39u8] + run + seq![39u8] + b;
    let tail = run + seq![39u8] + b;
    lemma_first_quote(a, tail);
    assert(line =~= a + seq![39u8] + tail);
    assert(line.skip(a.len() as int + 1) =~= tail);
    lemma_first_quote(run, b);
    assert(tail.take(run.len() as int) =~= run);
}

/// A line with fewer than two quotes has no quoted run.
pub proof fn law_no_quoted_run(a: Seq<u8>, b: Seq<u8>)
    requires
        !a.contains(39),
        !b.contains(39),
    ensures
        quoted_run(a) is None,
        quoted_run(a + seq![39u8] + b) is None,
{
    a.index_of_first_ensures(QUOTE);
    b.index_of_first_ensures(QUOTE);
    lemma_first_quote(a, b);
    assert((a + seq![39u8] + b).skip(a.len() as int + 1) =~= b);
}

proof fn lemma_first_quote(a: Seq<u8>, b: Seq<u8>)
    requires
        !a.contains(39),
    ensures
        (a + seq![39u8] + b).index_of_first(QUOTE) == Some(a.len() as int),
{
    let line = a + seq![39u8] + b;
    assert(line[a.len() as int] == QUOTE);
    assert(line.contains(QUOTE));
    line.index_of_first_ensures(QUOTE);
    let i = line.index_of_first(QUOTE)->0;
    if i < a.len() {
        assert(a[i] == line[i]);
        assert(a.contains(39));
    }
}

/// A text stands at an index if its bytes are those from there on, one by one.
pub proof fn law_occurs_at(hay: Seq<u8>, needle: Seq<u8>, i: int)
    ensures
        occurs_at(hay, needle, i) <==> {
            &&& 0 <= i
            &&& i + needle.len() <= hay.len()
            &&& forall|j: int| 0 <= j < needle.len() ==> hay[i + j] == #[trigger] needle[j]
        },
{
    if 0 <= i && i + needle.len() <= hay.len() {
        let part = hay.subrange(i, i + needle.len());
        if occurs_at(hay, needle, i) {
            assert forall|j: int| 0 <= j < needle.len() implies hay[i + j]
                == #[trigger] needle[j] by {
                assert(part[j] == needle[j]);
            }
        }
        if forall|j: int| 0 <= j < needle.len() ==> hay[i + j] == #[trigger] needle[j] {
            assert(part =~= needle);
        }
    }
}

} // verus!
