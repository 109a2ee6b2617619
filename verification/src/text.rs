//! Lines of a text and the search for a string within them.

use vstd::prelude::*;

verus! {

/// The index of the first line feed in `s` at or after `from`, or the length
/// of `s` where there is none.
pub open spec fn line_end(s: Seq<char>, from: nat) -> nat
    decreases s.len() - from,
{
    if from >= s.len() {
        s.len()
    } else if s[from as int] == '\n' {
        from
    } else {
        line_end(s, from + 1)
    }
}

/// Where a line starting at `from` ends: not before `from`, at a line feed
/// or at the end, with no line feed in between.
pub proof fn lemma_line_end(s: Seq<char>, from: nat)
    requires
        from <= s.len(),
    ensures
        from <= line_end(s, from) <= s.len(),
        line_end(s, from) < s.len() ==> s[line_end(s, from) as int] == '\n',
        forall|j: int| from <= j < line_end(s, from) ==> s[j] != '\n',
    decreases s.len() - from,
{
    if from < s.len() && s[from as int] != '\n' {
        lemma_line_end(s, from + 1);
    }
}

/// A line's text: the segment without its carriage return, where the
/// segment ends in one and was ended by a line feed.
pub open spec fn line_text(segment: Seq<char>, ended_by_line_feed: bool) -> Seq<char> {
    if ended_by_line_feed && segment.len() > 0 && segment.last() == '\r' {
        segment.drop_last()
    } else {
        segment
    }
}

/// The lines of `s` from index `start` on.
pub open spec fn lines_from(s: Seq<char>, start: nat) -> Seq<Seq<char>>
    decreases s.len() + 1 - start,
{
    if start >= s.len() {
        Seq::empty()
    } else {
        let e = line_end(s, start);
        proof {
            lemma_line_end(s, start);
        }
        seq![line_text(s.subrange(start as int, e as int), e < s.len())] + lines_from(s, e + 1)
    }
}

/// The lines of `s`: split at each line feed, a carriage return just before
/// a line feed dropped, and no empty line after a final line feed.
pub open spec fn lines(s: Seq<char>) -> Seq<Seq<char>> {
    lines_from(s, 0)
}

/// Whether `needle` occurs in `hay` as a contiguous run.
pub open spec fn contains_run(hay: Seq<char>, needle: Seq<char>) -> bool {
    exists|p: int| 0 <= p && p + needle.len() <= hay.len() && #[trigger] hay.subrange(p, p + needle.len()) == needle
}

/// Whether some line of `contents` contains `query`.
pub open spec fn spec_search(query: Seq<char>, contents: Seq<char>) -> bool {
    exists|i: int| 0 <= i < lines(contents).len() && contains_run(#[trigger] lines(contents)[i], query)
}

/// The characters of `s`, in order.
pub fn chars_of(s: &str) -> (r: Vec<char>)
    ensures
        r@ == s@,
{
    let mut r: Vec<char> = Vec::new();
    for c in it: s.chars()
        invariant
            r@ == it.seq().take(it.index() as int),
    {
        r.push(c);
    }
    r
}

/// The views of a vector of lines.
pub open spec fn views(v: Seq<Vec<char>>) -> Seq<Seq<char>> {
    v.map_values(|l: Vec<char>| l@)
}

/// The lines of `chars` (see `lines`).
pub fn split_lines(chars: &Vec<char>) -> (r: Vec<Vec<char>>)
    ensures
        views(r@) == lines(chars@),
{
    let n = chars.len();
    let ghost s = chars@;
    let mut out: Vec<Vec<char>> = Vec::new();
    let mut start: usize = 0;
    while start < n
        invariant
            n == s.len(),
            s == chars@,
            start <= n,
            lines(s) == views(out@) + lines_from(s, start as nat),
        decreases n - start,
    {
        let mut end = start;
        let mut line: Vec<char> = Vec::new();
        while end < n && chars[end] != '\n'
            invariant
                n == s.len(),
                s == chars@,
                start <= end <= n,
                line@ == s.subrange(start as int, end as int),
                forall|j: int| start <= j < end ==> s[j] != '\n',
            decreases n - end,
        {
            line.push(chars[end]);
            end = end + 1;
            assert(line@ =~= s.subrange(start as int, end as int));
        }
        proof {
            lemma_line_end(s, start as nat);
            lemma_line_end_is(s, start as nat, end as nat);
        }
        let ended = end < n;
        if ended && line.len() > 0 && line[line.len() - 1] == '\r' {
            line.pop();
        }
        assert(line@ =~= line_text(s.subrange(start as int, end as int), ended));
        let ghost before = views(out@);
        out.push(line);
        proof {
            assert(views(out@) =~= before.push(line@));
            assert(lines_from(s, start as nat) =~= seq![line@] + lines_from(s, (end + 1) as nat));
            assert(before + lines_from(s, start as nat) =~= before.push(line@) + lines_from(s, (end + 1) as nat));
        }
        start = if ended { end + 1 } else { end };
        proof {
            if !ended {
                assert(lines_from(s, (end + 1) as nat) =~= Seq::<Seq<char>>::empty());
                assert(lines_from(s, start as nat) =~= Seq::<Seq<char>>::empty());
            }
        }
    }
    assert(lines_from(s, start as nat) =~= Seq::<Seq<char>>::empty());
    assert(views(out@) + Seq::<Seq<char>>::empty() =~= views(out@));
    out
}

/// The end found by scanning from `from` to the first line feed is `line_end`.
proof fn lemma_line_end_is(s: Seq<char>, from: nat, end: nat)
    requires
        from <= end <= s.len(),
        end < s.len() ==> s[end as int] == '\n',
        forall|j: int| from <= j < end ==> s[j] != '\n',
    ensures
        line_end(s, from) == end,
    decreases end - from,
{
    if from < end {
        lemma_line_end_is(s, from + 1, end);
    }
}


/// Whether `needle` occurs in `hay` as a contiguous run.
pub fn contains_chars(hay: &Vec<char>, needle: &Vec<char>) -> (r: bool)
    ensures
        r == contains_run(hay@, needle@),
{
    let h = hay.len();
    let n = needle.len();
    if n > h {
        return false;
    }
    let mut p: usize = 0;
    while p <= h - n
        invariant
            h == hay@.len(),
            n == needle@.len(),
            n <= h,
            p <= h - n + 1,
            forall|q: int| 0 <= q < p ==> #[trigger] hay@.subrange(q, q + n) != needle@,
        decreases h - n + 1 - p,
    {
        let mut j: usize = 0;
        let mut matched = true;
        while j < n
            invariant
                h == hay@.len(),
                n == needle@.len(),
                p + n <= h,
                j <= n,
                matched <==> forall|k: int| 0 <= k < j ==> hay@[p + k] == needle@[k],
            decreases n - j,
        {
            if hay[p + j] != needle[j] {
                matched = false;
            }
            j = j + 1;
        }
        if matched {
            assert(hay@.subrange(p as int, p + n) =~= needle@);
            return true;
        }
        proof {
            let k = choose|k: int| 0 <= k < n && hay@[p + k] != needle@[k];
            assert(hay@.subrange(p as int, p + n)[k] != needle@[k]);
        }
        p = p + 1;
    }
    false
}

/// The lines of `contents` (see `lines`), each as its characters.
pub fn lines_of(contents: &str) -> (r: Vec<Vec<char>>)
    ensures
        views(r@) == lines(contents@),
{
    let chars = chars_of(contents);
    split_lines(&chars)
}

/// Whether some line of `contents` contains `query`.
pub fn search_str(query: &str, contents: &str) -> (r: bool)
    ensures
        r == spec_search(query@, contents@),
{
    let q = chars_of(query);
    let ls = lines_of(contents);
    let ghost all = lines(contents@);
    let mut i: usize = 0;
    while i < ls.len()
        invariant
            views(ls@) == all,
            all == lines(contents@),
            q@ == query@,
            i <= ls@.len(),
            forall|j: int| 0 <= j < i ==> !contains_run(#[trigger] all[j], query@),
        decreases ls@.len() - i,
    {
        assert(all[i as int] == ls@[i as int]@);
        if contains_chars(&ls[i], &q) {
            return true;
        }
        i = i + 1;
    }
    false
}


/// Every line of `s` from `start` on is a run of `s` without line feeds.
proof fn lemma_lines_from_are_runs(s: Seq<char>, start: nat)
    requires
        start <= s.len() + 1,
    ensures
        forall|i: int| 0 <= i < lines_from(s, start).len() ==> exists|a: int, b: int|
            0 <= a <= b <= s.len() && #[trigger] lines_from(s, start)[i] == s.subrange(a, b)
                && forall|j: int| a <= j < b ==> s[j] != '\n',
    decreases s.len() + 1 - start,
{
    if start < s.len() {
        let e = line_end(s, start);
        lemma_line_end(s, start);
        lemma_lines_from_are_runs(s, e + 1);
        let seg = s.subrange(start as int, e as int);
        let first = line_text(seg, e < s.len());
        let b: int = if e < s.len() && seg.len() > 0 && seg.last() == '\r' { e - 1 } else { e as int };
        assert(first =~= s.subrange(start as int, b));
        let rest = lines_from(s, e + 1);
        assert(lines_from(s, start) =~= seq![first] + rest);
        assert forall|i: int| 0 <= i < lines_from(s, start).len() implies exists|a: int, b: int|
            0 <= a <= b <= s.len() && #[trigger] lines_from(s, start)[i] == s.subrange(a, b)
                && forall|j: int| a <= j < b ==> s[j] != '\n' by {
            if i == 0 {
                assert(lines_from(s, start)[0] == s.subrange(start as int, b));
            } else {
                assert(lines_from(s, start)[i] == rest[i - 1]);
            }
        }
    }
}

/// A string found in some line occurs in the text, and a string with a line
/// feed is never found.
pub proof fn lemma_found_in_text(query: Seq<char>, contents: Seq<char>)
    ensures
        spec_search(query, contents) ==> contains_run(contents, query),
        query.contains('\n') ==> !spec_search(query, contents),
{
    lemma_lines_from_are_runs(contents, 0);
    if spec_search(query, contents) {
        let i = choose|i: int| 0 <= i < lines(contents).len() && contains_run(#[trigger] lines(contents)[i], query);
        let line = lines(contents)[i];
        let (a, b) = choose|a: int, b: int|
            0 <= a <= b <= contents.len() && line == contents.subrange(a, b)
                && forall|j: int| a <= j < b ==> contents[j] != '\n';
        let p = choose|p: int| 0 <= p && p + query.len() <= line.len() && #[trigger] line.subrange(p, p + query.len()) == query;
        assert(contents.subrange(a + p, a + p + query.len()) =~= query);
        if query.contains('\n') {
            let k = choose|k: int| 0 <= k < query.len() && query[k] == '\n';
            assert(contents[a + p + k] == query[k]);
        }
    }
}


/// Whether `query` occurs in `contents` at `p` within one line: it holds no
/// line feed, and does not end in a carriage return that a line feed follows.
pub open spec fn found_at(contents: Seq<char>, query: Seq<char>, p: int) -> bool {
    &&& 0 <= p && p + query.len() <= contents.len()
    &&& contents.subrange(p, p + query.len()) == query
    &&& forall|j: int| 0 <= j < query.len() ==> query[j] != '\n'
    &&& !(query.len() > 0 && query.last() == '\r' && p + query.len() < contents.len() && contents[p + query.len()] == '\n')
}

proof fn lemma_lines_from_search(s: Seq<char>, q: Seq<char>, start: nat)
    requires
        q.len() > 0,
        start <= s.len() + 1,
    ensures
        (exists|i: int| 0 <= i < lines_from(s, start).len() && contains_run(#[trigger] lines_from(s, start)[i], q))
            <==> (exists|p: int| p >= start && #[trigger] found_at(s, q, p)),
    decreases s.len() + 1 - start,
{
    if start < s.len() {
        let e = line_end(s, start);
        lemma_line_end(s, start);
        lemma_lines_from_search(s, q, e + 1);
        let seg = s.subrange(start as int, e as int);
        let stripped = e < s.len() && seg.len() > 0 && seg.last() == '\r';
        let b: int = if stripped { e - 1 } else { e as int };
        let line0 = line_text(seg, e < s.len());
        assert(line0 =~= s.subrange(start as int, b));
        let rest = lines_from(s, e + 1);
        let lines = lines_from(s, start);
        assert(lines =~= seq![line0] + rest);
        if exists|i: int| 0 <= i < lines.len() && contains_run(#[trigger] lines[i], q) {
            let i = choose|i: int| 0 <= i < lines.len() && contains_run(#[trigger] lines[i], q);
            if i == 0 {
                assert(lines[0] == line0);
                let o = choose|o: int| 0 <= o && o + q.len() <= line0.len() && #[trigger] line0.subrange(o, o + q.len()) == q;
                let p = start + o;
                assert(s.subrange(p, p + q.len()) =~= q) by {
                    assert forall|j: int| 0 <= j < q.len() implies s.subrange(p, p + q.len())[j] == q[j] by {
                        assert(line0.subrange(o, o + q.len())[j] == line0[o + j]);
                    }
                }
                assert forall|j: int| 0 <= j < q.len() implies q[j] != '\n' by {
                    assert(s.subrange(p, p + q.len())[j] == s[p + j]);
                }
                if q.last() == '\r' && p + q.len() < s.len() && s[p + q.len()] == '\n' {
                    assert(s.subrange(p, p + q.len())[q.len() - 1] == s[p + q.len() - 1]);
                    assert(seg.last() == s[e - 1]);
                }
                assert(found_at(s, q, p));
            } else {
                assert(lines[i] == rest[i - 1]);
                assert(contains_run(rest[i - 1], q));
            }
        }
        if exists|p: int| p >= start && #[trigger] found_at(s, q, p) {
            let p = choose|p: int| p >= start && #[trigger] found_at(s, q, p);
            if p >= e + 1 {
                let i = choose|i: int| 0 <= i < rest.len() && contains_run(#[trigger] rest[i], q);
                assert(lines[i + 1] == rest[i]);
            } else {
                if p + q.len() > e {
                    assert(s.subrange(p, p + q.len())[e - p] == s[e as int]);
                }
                if stripped && p + q.len() == e {
                    assert(s.subrange(p, p + q.len())[q.len() - 1] == s[p + q.len() - 1]);
                    assert(seg.last() == s[e - 1]);
                }
                let o = p - start;
                assert(line0.subrange(o, o + q.len()) =~= q) by {
                    assert forall|j: int| 0 <= j < q.len() implies line0.subrange(o, o + q.len())[j] == q[j] by {
                        assert(s.subrange(p, p + q.len())[j] == s[p + j]);
                    }
                }
                assert(contains_run(line0, q));
                assert(lines[0] == line0);
            }
        }
    } else {
        assert forall|p: int| p >= start implies !#[trigger] found_at(s, q, p) by {}
    }
}

/// A query that is not empty is found exactly where it occurs in the text
/// within one line: without a line feed, and not ending in the carriage return
/// of a line ending.
pub proof fn lemma_search_is_found_at(query: Seq<char>, contents: Seq<char>)
    requires
        query.len() > 0,
    ensures
        spec_search(query, contents) <==> exists|p: int| #[trigger] found_at(contents, query, p),
{
    lemma_lines_from_search(contents, query, 0);
    let ls = lines_from(contents, 0);
    assert(lines(contents) == ls);
    if exists|p: int| #[trigger] found_at(contents, query, p) {
        let p = choose|p: int| #[trigger] found_at(contents, query, p);
        assert(p >= 0);
        let i = choose|i: int| 0 <= i < ls.len() && contains_run(#[trigger] ls[i], query);
        assert(contains_run(lines(contents)[i], query));
    }
    if spec_search(query, contents) {
        let i = choose|i: int| 0 <= i < lines(contents).len() && contains_run(#[trigger] lines(contents)[i], query);
        assert(contains_run(ls[i], query));
    }
}

/// Joining two texts with a line feed joins their lines: a query that is not
/// empty is found in the joined text exactly when it is found in one of them,
/// where the first does not end in a carriage return.
pub proof fn lemma_search_joined(query: Seq<char>, a: Seq<char>, b: Seq<char>)
    requires
        query.len() > 0,
        !(a.len() > 0 && a.last() == '\r'),
    ensures
        spec_search(query, a + seq!['\n'] + b) == (spec_search(query, a) || spec_search(query, b)),
{
    let c = a + seq!['\n'] + b;
    let n = a.len() as int;
    let m = query.len() as int;
    lemma_search_is_found_at(query, a);
    lemma_search_is_found_at(query, b);
    lemma_search_is_found_at(query, c);
    assert forall|j: int| 0 <= j < a.len() implies #[trigger] c[j] == a[j] by {}
    assert forall|j: int| 0 <= j < b.len() implies #[trigger] c[n + 1 + j] == b[j] by {}
    assert(c[n] == '\n');
    if exists|p: int| #[trigger] found_at(c, query, p) {
        let p = choose|p: int| #[trigger] found_at(c, query, p);
        if p <= n && n < p + m {
            assert(c.subrange(p, p + m)[n - p] == c[n]);
        }
        if p + m <= n {
            assert(a.subrange(p, p + m) =~= query) by {
                assert forall|j: int| 0 <= j < m implies a.subrange(p, p + m)[j] == query[j] by {
                    assert(c.subrange(p, p + m)[j] == c[p + j]);
                }
            }
            assert(found_at(a, query, p));
        } else {
            let q = p - n - 1;
            assert(b.subrange(q, q + m) =~= query) by {
                assert forall|j: int| 0 <= j < m implies b.subrange(q, q + m)[j] == query[j] by {
                    assert(c.subrange(p, p + m)[j] == c[p + j]);
                }
            }
            assert(found_at(b, query, q));
        }
    }
    if exists|p: int| #[trigger] found_at(a, query, p) {
        let p = choose|p: int| #[trigger] found_at(a, query, p);
        assert(c.subrange(p, p + m) =~= query) by {
            assert forall|j: int| 0 <= j < m implies c.subrange(p, p + m)[j] == query[j] by {
                assert(a.subrange(p, p + m)[j] == a[p + j]);
            }
        }
        if p + m == n {
            assert(a.subrange(p, p + m)[m - 1] == a[n - 1]);
        }
        assert(found_at(c, query, p));
    }
    if exists|p: int| #[trigger] found_at(b, query, p) {
        let p = choose|p: int| #[trigger] found_at(b, query, p);
        let q = p + n + 1;
        assert(c.subrange(q, q + m) =~= query) by {
            assert forall|j: int| 0 <= j < m implies c.subrange(q, q + m)[j] == query[j] by {
                assert(b.subrange(p, p + m)[j] == b[p + j]);
            }
        }
        assert(found_at(c, query, q));
    }
}

} // verus!
