//! Normalization of the executable scan's raw output.
//!
//! The raw output of the filesystem scan is one path per line. Each line is
//! normalized by stripping a leading `./`, entries beginning with the
//! reserved `_` are discarded, and the remainder is deduplicated and sorted
//! lexicographically.

use vstd::prelude::*;
use vstd::string::StrSliceExecFns;

verus! {

/// The views of a sequence of owned strings.
pub open spec fn views(l: Seq<String>) -> Seq<Seq<char>> {
    l.map_values(|t: String| t@)
}

/// One raw segment with a trailing carriage return removed.
pub open spec fn strip_cr(l: Seq<char>) -> Seq<char> {
    if l.len() > 0 && l[l.len() - 1] == '\r' {
        l.drop_last()
    } else {
        l
    }
}

/// The position of the first line break in `s`, or `s.len()` if none.
pub open spec fn line_break(s: Seq<char>) -> nat
    decreases s.len(),
{
    if s.len() == 0 {
        0
    } else if s[0] == '\n' {
        0
    } else {
        1 + line_break(s.skip(1))
    }
}

/// The lines of a raw output stream: the segments between line breaks, each
/// with a trailing carriage return removed, and without a final empty
/// segment after a terminating line break.
pub open spec fn spec_lines(s: Seq<char>) -> Seq<Seq<char>>
    decreases s.len(),
{
    if s.len() == 0 {
        seq![]
    } else {
        let b = line_break(s) as int;
        if b >= s.len() {
            seq![strip_cr(s)]
        } else {
            seq![strip_cr(s.take(b))] + spec_lines(s.skip(b + 1))
        }
    }
}

proof fn lemma_line_break_at(s: Seq<char>, k: int)
    requires
        0 <= k <= s.len(),
        forall|j: int| 0 <= j < k ==> s[j] != '\n',
        k < s.len() ==> s[k] == '\n',
    ensures
        line_break(s) == k,
    decreases s.len(),
{
    if k == 0 {
    } else {
        assert(s[0] != '\n');
        assert forall|j: int| 0 <= j < k - 1 implies s.skip(1)[j] != '\n' by {
            assert(s.skip(1)[j] == s[j + 1]);
        }
        if k - 1 < s.skip(1).len() {
            assert(s.skip(1)[k - 1] == s[k]);
        }
        lemma_line_break_at(s.skip(1), k - 1);
    }
}

/// Splits a raw output stream into its lines.
pub fn split_lines(s: &str) -> (r: Vec<String>)
    ensures
        views(r@) == spec_lines(s@),
{
    let len = s.unicode_len();
    let mut r: Vec<String> = Vec::new();
    let mut start: usize = 0;
    proof {
        assert(s@.skip(0) =~= s@);
        assert(views(r@) + spec_lines(s@) =~= spec_lines(s@));
    }
    while start < len
        invariant
            len == s@.len(),
            0 <= start <= len,
            views(r@) + spec_lines(s@.skip(start as int)) == spec_lines(s@),
        decreases len - start,
    {
        let ghost suffix = s@.skip(start as int);
        let ghost done = views(r@);
        let mut j: usize = start;
        while j < len && s.get_char(j) != '\n'
            invariant
                len == s@.len(),
                start <= j <= len,
                forall|k: int| start <= k < j ==> s@[k] != '\n',
            decreases len - j,
        {
            j += 1;
        }
        proof {
            assert forall|m: int| 0 <= m < j - start implies suffix[m] != '\n' by {
                assert(suffix[m] == s@[start + m]);
            }
            if j < len {
                assert(suffix[j - start] == s@[j as int]);
            }
            lemma_line_break_at(suffix, j - start);
        }
        let seg_end = if j > start && s.get_char(j - 1) == '\r' {
            j - 1
        } else {
            j
        };
        let line = s.substring_char(start, seg_end).to_owned();
        proof {
            let ghost segment = if j < len {
                suffix.take(j - start)
            } else {
                suffix
            };
            assert(segment =~= s@.subrange(start as int, j as int));
            if j > start && s@[j - 1] == '\r' {
                assert(segment[segment.len() - 1] == '\r');
                assert(line@ =~= segment.drop_last());
            } else {
                if segment.len() > 0 {
                    assert(segment[segment.len() - 1] == s@[j - 1]);
                }
                assert(line@ =~= segment);
            }
            assert(line@ == strip_cr(segment));
        }
        r.push(line);
        proof {
            assert(views(r@) =~= done.push(line@));
        }
        if j < len {
            proof {
                assert(suffix.skip(j - start as int + 1) =~= s@.skip(j + 1));
                assert(spec_lines(suffix) == seq![line@] + spec_lines(s@.skip(j + 1)));
                assert(views(r@) + spec_lines(s@.skip(j + 1)) =~= done + spec_lines(suffix));
            }
            start = j + 1;
        } else {
            start = len;
            proof {
                assert(spec_lines(suffix) == seq![line@]);
                assert(s@.skip(len as int) =~= Seq::<char>::empty());
                assert(spec_lines(s@.skip(len as int)) =~= Seq::<Seq<char>>::empty());
                assert(views(r@) + spec_lines(s@.skip(start as int)) =~= done + spec_lines(suffix));
            }
        }
    }
    proof {
        assert(s@.skip(start as int) =~= s@.skip(len as int));
        assert(s@.skip(len as int) =~= Seq::<char>::empty());
        assert(views(r@) + spec_lines(s@.skip(start as int)) =~= views(r@));
    }
    r
}

/// One raw line with a leading `./` stripped.
pub open spec fn normalize_line(l: Seq<char>) -> Seq<char> {
    if l.len() >= 2 && l[0] == '.' && l[1] == '/' {
        l.skip(2)
    } else {
        l
    }
}

/// A normalized entry is kept unless it begins with the reserved `_`.
pub open spec fn keeps_entry(l: Seq<char>) -> bool {
    !(l.len() > 0 && l[0] == '_')
}

/// `name` is a kept entry of the raw scan output: some line of the output
/// normalizes to it, and it does not begin with `_`.
pub open spec fn listed(output: Seq<char>, name: Seq<char>) -> bool {
    &&& keeps_entry(name)
    &&& exists|j: int|
        0 <= j < spec_lines(output).len() && normalize_line(
            #[trigger] spec_lines(output)[j],
        ) == name
}

/// Strips a leading `./` from one raw line.
pub fn normalize_entry(line: &str) -> (r: String)
    ensures
        r@ == normalize_line(line@),
{
    let len = line.unicode_len();
    if len >= 2 && line.get_char(0) == '.' && line.get_char(1) == '/' {
        let rest = line.substring_char(2, len);
        proof {
            assert(rest@ =~= line@.skip(2));
        }
        rest.to_owned()
    } else {
        line.to_owned()
    }
}

/// Strict lexicographic order on character sequences, by code point.
pub open spec fn lex_lt(a: Seq<char>, b: Seq<char>) -> bool
    decreases a.len(),
{
    if b.len() == 0 {
        false
    } else if a.len() == 0 {
        true
    } else if (a[0] as u32) < (b[0] as u32) {
        true
    } else if a[0] == b[0] {
        lex_lt(a.skip(1), b.skip(1))
    } else {
        false
    }
}

/// The entries of `l` are strictly ascending in lexicographic order; in
/// particular they are pairwise distinct.
pub open spec fn strictly_sorted(l: Seq<Seq<char>>) -> bool {
    forall|i: int, j: int| 0 <= i < j < l.len() ==> lex_lt(#[trigger] l[i], #[trigger] l[j])
}

/// The lexicographic order is total: two sequences are ordered one way or
/// the other, or they are equal.
pub proof fn lemma_lex_lt_total(a: Seq<char>, b: Seq<char>)
    ensures
        lex_lt(a, b) || lex_lt(b, a) || a == b,
    decreases a.len(),
{
    if a.len() == 0 && b.len() == 0 {
        assert(a =~= b);
    } else if a.len() > 0 && b.len() > 0 && a[0] == b[0] {
        lemma_lex_lt_total(a.skip(1), b.skip(1));
        if !lex_lt(a, b) && !lex_lt(b, a) {
            assert(a.skip(1) == b.skip(1));
            assert forall|i: int| 0 <= i < a.len() implies a[i] == b[i] by {
                if i > 0 {
                    assert(a.skip(1)[i - 1] == a[i]);
                    assert(b.skip(1)[i - 1] == b[i]);
                }
            }
            assert(a =~= b);
        }
    } else if a.len() > 0 && b.len() > 0 {
        vstd::utf8::char_u32_cast(a[0], a[0] as u32);
        vstd::utf8::char_u32_cast(b[0], b[0] as u32);
        assert((a[0] as u32) != (b[0] as u32));
    }
}

/// The lexicographic order is asymmetric; in particular it is irreflexive.
pub proof fn lemma_lex_lt_asym(a: Seq<char>, b: Seq<char>)
    ensures
        !(lex_lt(a, b) && lex_lt(b, a)),
    decreases a.len(),
{
    if a.len() > 0 && b.len() > 0 && a[0] == b[0] {
        lemma_lex_lt_asym(a.skip(1), b.skip(1));
    }
}

/// The lexicographic order is transitive.
pub proof fn lemma_lex_lt_trans(a: Seq<char>, b: Seq<char>, c: Seq<char>)
    requires
        lex_lt(a, b),
        lex_lt(b, c),
    ensures
        lex_lt(a, c),
    decreases a.len(),
{
    if a.len() > 0 && b.len() > 0 && c.len() > 0 && a[0] == b[0] && b[0] == c[0] {
        lemma_lex_lt_trans(a.skip(1), b.skip(1), c.skip(1));
    }
}

/// Compares two strings in lexicographic order by code point.
fn str_lt(a: &str, b: &str) -> (r: bool)
    ensures
        r == lex_lt(a@, b@),
{
    let a_len = a.unicode_len();
    let b_len = b.unicode_len();
    let mut i: usize = 0;
    proof {
        assert(a@.skip(0) =~= a@);
        assert(b@.skip(0) =~= b@);
    }
    loop
        invariant
            a_len == a@.len(),
            b_len == b@.len(),
            0 <= i <= a_len,
            0 <= i <= b_len,
            lex_lt(a@.skip(i as int), b@.skip(i as int)) == lex_lt(a@, b@),
        decreases b_len - i,
    {
        let ghost sa = a@.skip(i as int);
        let ghost sb = b@.skip(i as int);
        if i >= b_len {
            return false;
        }
        if i >= a_len {
            return true;
        }
        let ca = a.get_char(i);
        let cb = b.get_char(i);
        proof {
            assert(sa[0] == a@[i as int]);
            assert(sb[0] == b@[i as int]);
        }
        if (ca as u32) < (cb as u32) {
            return true;
        }
        if ca != cb {
            return false;
        }
        proof {
            assert(sa.skip(1) =~= a@.skip(i + 1));
            assert(sb.skip(1) =~= b@.skip(i + 1));
        }
        i += 1;
    }
}

/// Inserts an entry into a strictly sorted list, keeping it strictly sorted;
/// a duplicate of an existing entry is dropped.
fn insert_sorted(r: &mut Vec<String>, entry: String)
    requires
        strictly_sorted(views(old(r)@)),
    ensures
        strictly_sorted(views(final(r)@)),
        forall|name: Seq<char>|
            #[trigger] views(final(r)@).contains(name) <==> (views(old(r)@).contains(name) || name
                == entry@),
{
    let ghost before = views(r@);
    let mut p: usize = 0;
    while p < r.len() && str_lt(r[p].as_str(), entry.as_str())
        invariant
            views(r@) == before,
            strictly_sorted(before),
            0 <= p <= r@.len(),
            forall|k: int| 0 <= k < p ==> lex_lt(#[trigger] before[k], entry@),
        decreases r@.len() - p,
    {
        proof {
            assert(before[p as int] == r@[p as int]@);
        }
        p += 1;
    }
    if p < r.len() && r[p] == entry {
        proof {
            assert(before[p as int] == r@[p as int]@);
            assert(views(r@).contains(entry@)) by {
                assert(views(r@)[p as int] == entry@);
            }
        }
        return ;
    }
    proof {
        if p < r@.len() {
            assert(before[p as int] == r@[p as int]@);
            lemma_lex_lt_total(before[p as int], entry@);
            assert(lex_lt(entry@, before[p as int]));
        }
    }
    r.insert(p, entry);
    proof {
        let after = views(r@);
        assert(after =~= before.insert(p as int, entry@));
        assert forall|i: int, j: int| 0 <= i < j < after.len() implies lex_lt(
            after[i],
            after[j],
        ) by {
            if i < p && j == p {
            } else if i == p && j > p {
                assert(after[j] == before[j - 1]);
                if j - 1 > p {
                    lemma_lex_lt_trans(entry@, before[p as int], before[j - 1]);
                }
            } else if i < p && j > p {
                assert(after[j] == before[j - 1]);
                if j - 1 > i {
                } else {
                    assert(j - 1 == i);
                    lemma_lex_lt_trans(before[i], entry@, before[j - 1]);
                }
            } else if j < p {
            } else {
                assert(after[i] == before[i - 1]);
                assert(after[j] == before[j - 1]);
            }
        }
        assert forall|name: Seq<char>|
            after.contains(name) <==> (before.contains(name) || name == entry@) by {
            if after.contains(name) {
                let w = choose|w: int| 0 <= w < after.len() && after[w] == name;
                if w < p {
                    assert(before[w] == name);
                    assert(before.contains(name));
                } else if w == p {
                } else {
                    assert(before[w - 1] == name);
                    assert(before.contains(name));
                }
            }
            if before.contains(name) {
                let w = choose|w: int| 0 <= w < before.len() && before[w] == name;
                if w < p {
                    assert(after[w] == name);
                } else {
                    assert(after[w + 1] == name);
                }
                assert(after.contains(name));
            }
            if name == entry@ {
                assert(after[p as int] == name);
                assert(after.contains(name));
            }
        }
    }
}

/// Extracts the final executable list from the raw scan output: every line
/// is normalized by stripping a leading `./`, entries beginning with `_` are
/// discarded, and the rest are deduplicated and sorted ascending. The result
/// is strictly sorted, free of `_`-entries, and holds exactly the kept
/// entries of the output.
pub fn parse_executables(output: &str) -> (r: Vec<String>)
    ensures
        strictly_sorted(views(r@)),
        forall|name: Seq<char>| #[trigger] views(r@).contains(name) <==> listed(output@, name),
        forall|k: int| 0 <= k < views(r@).len() ==> keeps_entry(#[trigger] views(r@)[k]),
{
    let lines = split_lines(output);
    let ghost all = views(lines@);
    let mut r: Vec<String> = Vec::new();
    let mut i: usize = 0;
    while i < lines.len()
        invariant
            views(lines@) == all,
            all == spec_lines(output@),
            0 <= i <= lines@.len(),
            strictly_sorted(views(r@)),
            forall|name: Seq<char>|
                #[trigger] views(r@).contains(name) <==> (keeps_entry(name) && exists|j: int|
                    0 <= j < i && normalize_line(#[trigger] all[j]) == name),
        decreases lines@.len() - i,
    {
        let ghost seen = views(r@);
        let entry = normalize_entry(lines[i].as_str());
        proof {
            assert(all[i as int] == lines@[i as int]@);
        }
        let entry_len = entry.as_str().unicode_len();
        let keep = entry_len == 0 || entry.as_str().get_char(0) != '_';
        if keep {
            let ghost e = entry@;
            proof {
                assert(keeps_entry(e));
                assert(normalize_line(all[i as int]) == e);
            }
            insert_sorted(&mut r, entry);
            proof {
                assert forall|name: Seq<char>|
                    views(r@).contains(name) <==> (keeps_entry(name) && exists|j: int|
                        0 <= j < i + 1 && normalize_line(#[trigger] all[j]) == name) by {
                    if views(r@).contains(name) {
                        if seen.contains(name) {
                            let j = choose|j: int|
                                0 <= j < i && normalize_line(#[trigger] all[j]) == name;
                            assert(0 <= j < i + 1 && normalize_line(all[j]) == name);
                        } else {
                            assert(name == e);
                            assert(0 <= i < i + 1 && normalize_line(all[i as int]) == name);
                        }
                    }
                    if keeps_entry(name) && exists|j: int|
                        0 <= j < i + 1 && normalize_line(#[trigger] all[j]) == name {
                        let j = choose|j: int|
                            0 <= j < i + 1 && normalize_line(#[trigger] all[j]) == name;
                        if j < i {
                            assert(seen.contains(name));
                        } else {
                            assert(name == e);
                        }
                        assert(views(r@).contains(name));
                    }
                }
            }
        } else {
            proof {
                assert(!keeps_entry(entry@));
                assert forall|name: Seq<char>|
                    views(r@).contains(name) <==> (keeps_entry(name) && exists|j: int|
                        0 <= j < i + 1 && normalize_line(#[trigger] all[j]) == name) by {
                    if views(r@).contains(name) {
                        let j = choose|j: int|
                            0 <= j < i && normalize_line(#[trigger] all[j]) == name;
                        assert(0 <= j < i + 1 && normalize_line(all[j]) == name);
                    }
                    if keeps_entry(name) && exists|j: int|
                        0 <= j < i + 1 && normalize_line(#[trigger] all[j]) == name {
                        let j = choose|j: int|
                            0 <= j < i + 1 && normalize_line(#[trigger] all[j]) == name;
                        if j < i {
                            assert(views(r@).contains(name));
                        } else {
                            assert(name == entry@);
                            assert(false);
                        }
                    }
                }
            }
        }
        i += 1;
    }
    proof {
        assert(all.len() == lines@.len());
        assert forall|name: Seq<char>| views(r@).contains(name) <==> listed(output@, name) by {
            if views(r@).contains(name) {
                let j = choose|j: int| 0 <= j < i && normalize_line(#[trigger] all[j]) == name;
                assert(spec_lines(output@)[j] == all[j]);
                assert(listed(output@, name));
            }
            if listed(output@, name) {
                let j = choose|j: int|
                    0 <= j < spec_lines(output@).len() && normalize_line(
                        #[trigger] spec_lines(output@)[j],
                    ) == name;
                assert(all[j] == spec_lines(output@)[j]);
                assert(0 <= j < i && normalize_line(all[j]) == name);
                assert(views(r@).contains(name));
            }
        }
        assert forall|k: int| 0 <= k < views(r@).len() implies keeps_entry(
            #[trigger] views(r@)[k],
        ) by {
            assert(views(r@).contains(views(r@)[k]));
        }
    }
    r
}

/// Two strictly sorted lists with the same members are identical: the
/// extraction's output is determined by the set of kept entries alone.
pub proof fn lemma_sorted_unique(x: Seq<Seq<char>>, y: Seq<Seq<char>>)
    requires
        strictly_sorted(x),
        strictly_sorted(y),
        forall|n: Seq<char>| #![trigger x.contains(n)] #![trigger y.contains(n)]
            x.contains(n) <==> y.contains(n),
    ensures
        x == y,
    decreases x.len(),
{
    if x.len() == 0 {
        if y.len() > 0 {
            assert(y.contains(y[0]));
            assert(x.contains(y[0]));
        }
        assert(x =~= y);
    } else {
        assert(x.contains(x[0]));
        assert(y.contains(x[0]));
        let jy = choose|j: int| 0 <= j < y.len() && y[j] == x[0];
        assert(y.contains(y[0]));
        assert(x.contains(y[0]));
        let ix = choose|j: int| 0 <= j < x.len() && x[j] == y[0];
        if x[0] != y[0] {
            assert(jy > 0 && ix > 0);
            assert(lex_lt(y[0], y[jy]));
            assert(lex_lt(x[0], x[ix]));
            lemma_lex_lt_asym(x[0], y[0]);
            assert(false);
        }
        let xt = x.skip(1);
        let yt = y.skip(1);
        assert forall|i: int, j: int| 0 <= i < j < xt.len() implies lex_lt(xt[i], xt[j]) by {
            assert(xt[i] == x[i + 1]);
            assert(xt[j] == x[j + 1]);
        }
        assert forall|i: int, j: int| 0 <= i < j < yt.len() implies lex_lt(yt[i], yt[j]) by {
            assert(yt[i] == y[i + 1]);
            assert(yt[j] == y[j + 1]);
        }
        assert forall|n: Seq<char>| xt.contains(n) <==> yt.contains(n) by {
            lemma_tail_membership(x, n);
            lemma_tail_membership(y, n);
        }
        lemma_sorted_unique(xt, yt);
        assert forall|i: int| 0 <= i < x.len() implies x[i] == y[i] by {
            if i > 0 {
                assert(xt[i - 1] == x[i]);
                assert(yt[i - 1] == y[i]);
            }
        }
        assert(x =~= y);
    }
}

proof fn lemma_tail_membership(x: Seq<Seq<char>>, n: Seq<char>)
    requires
        strictly_sorted(x),
        x.len() > 0,
    ensures
        x.skip(1).contains(n) <==> (x.contains(n) && n != x[0]),
{
    let xt = x.skip(1);
    if xt.contains(n) {
        let w = choose|w: int| 0 <= w < xt.len() && xt[w] == n;
        assert(xt[w] == x[w + 1]);
        assert(x.contains(n));
        assert(lex_lt(x[0], x[w + 1]));
        lemma_lex_lt_asym(x[0], n);
    }
    if x.contains(n) && n != x[0] {
        let w = choose|w: int| 0 <= w < x.len() && x[w] == n;
        assert(w > 0);
        assert(xt[w - 1] == n);
        assert(xt.contains(n));
    }
}

/// Raw scan lines `./name` and `name` normalize alike, so extraction cannot
/// tell the two presentations apart.
pub proof fn lemma_normalize_dot_slash(name: Seq<char>)
    requires
        !(name.len() >= 2 && name[0] == '.' && name[1] == '/'),
    ensures
        normalize_line(seq!['.', '/'] + name) == name,
        normalize_line(name) == name,
{
    let l = seq!['.', '/'] + name;
    assert(l[0] == '.' && l[1] == '/');
    assert(l.skip(2) =~= name);
}

/// Extraction is idempotent under normalization: two raw outputs whose lines
/// normalize alike (for instance `./name` against `name`) lead to one and
/// the same final list.
pub proof fn lemma_extraction_idempotent(
    out1: Seq<char>,
    out2: Seq<char>,
    r1: Seq<Seq<char>>,
    r2: Seq<Seq<char>>,
)
    requires
        spec_lines(out1).map_values(|l: Seq<char>| normalize_line(l)) == spec_lines(
            out2,
        ).map_values(|l: Seq<char>| normalize_line(l)),
        strictly_sorted(r1),
        forall|name: Seq<char>| #[trigger] r1.contains(name) <==> listed(out1, name),
        strictly_sorted(r2),
        forall|name: Seq<char>| #[trigger] r2.contains(name) <==> listed(out2, name),
    ensures
        r1 == r2,
{
    let m1 = spec_lines(out1).map_values(|l: Seq<char>| normalize_line(l));
    let m2 = spec_lines(out2).map_values(|l: Seq<char>| normalize_line(l));
    assert(m1.len() == spec_lines(out1).len());
    assert(m2.len() == spec_lines(out2).len());
    assert forall|name: Seq<char>| listed(out1, name) <==> listed(out2, name) by {
        if listed(out1, name) {
            let j = choose|j: int|
                0 <= j < spec_lines(out1).len() && normalize_line(
                    #[trigger] spec_lines(out1)[j],
                ) == name;
            assert(m1[j] == name);
            assert(m2[j] == name);
            assert(normalize_line(spec_lines(out2)[j]) == name);
        }
        if listed(out2, name) {
            let j = choose|j: int|
                0 <= j < spec_lines(out2).len() && normalize_line(
                    #[trigger] spec_lines(out2)[j],
                ) == name;
            assert(m2[j] == name);
            assert(m1[j] == name);
            assert(normalize_line(spec_lines(out1)[j]) == name);
        }
    }
    lemma_sorted_unique(r1, r2);
}

} // verus!
