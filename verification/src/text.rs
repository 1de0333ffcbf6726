use vstd::prelude::*;

verus! {

/// The whitespace characters that separate tokens within a line: the ASCII
/// whitespace set. (Unicode-only whitespace is not treated as a separator.)
pub open spec fn is_space(c: char) -> bool {
    c == ' ' || c == '\t' || c == '\n' || c == '\r' || c == '\u{b}' || c == '\u{c}'
}

/// The separator between lines.
pub open spec fn is_newline(c: char) -> bool {
    c == '\n'
}

/// The separator set that cuts a file into lines.
pub open spec fn newline_pred() -> spec_fn(char) -> bool {
    |c: char| is_newline(c)
}

/// The separator set that cuts a line into tokens.
pub open spec fn space_pred() -> spec_fn(char) -> bool {
    |c: char| is_space(c)
}

/// The separator predicate that `split_segments` uses: newlines alone when
/// cutting a file into lines, any whitespace when cutting a line into tokens.
pub open spec fn sep_of(newline_only: bool) -> spec_fn(char) -> bool {
    if newline_only {
        newline_pred()
    } else {
        space_pred()
    }
}

/// The maximal runs of non-separator characters of `s`, in order. Runs of
/// separators produce nothing, so no segment is empty.
pub open spec fn spec_segments(s: Seq<char>, sep: spec_fn(char) -> bool) -> Seq<Seq<char>>
    decreases s.len(),
{
    if s.len() == 0 {
        seq![]
    } else if sep(s[0]) {
        spec_segments(s.skip(1), sep)
    } else {
        let rest = spec_segments(s.skip(1), sep);
        if s.len() > 1 && !sep(s[1]) {
            seq![seq![s[0]] + rest[0]] + rest.skip(1)
        } else {
            seq![seq![s[0]]] + rest
        }
    }
}

/// The views of the strings of `v`.
pub open spec fn views_of(v: Seq<String>) -> Seq<Seq<char>> {
    v.map_values(|s: String| s@)
}

/// A sequence that opens with a run of `k` non-separator characters, closed
/// by its end or by a separator, splits into that run followed by the
/// segments of the remainder.
pub proof fn lemma_segment_prefix(s: Seq<char>, sep: spec_fn(char) -> bool, k: int)
    requires
        0 < k <= s.len(),
        forall|j: int| 0 <= j < k ==> !sep(s[j]),
        k == s.len() || sep(s[k]),
    ensures
        spec_segments(s, sep) == seq![s.take(k)] + spec_segments(s.skip(k), sep),
    decreases k,
{
    if k == 1 {
        assert(spec_segments(s, sep) == seq![seq![s[0]]] + spec_segments(s.skip(1), sep));
        assert(s.take(1) =~= seq![s[0]]);
        assert(seq![s.take(1)] =~~= seq![seq![s[0]]]);
    } else {
        assert(forall|j: int| 0 <= j < k - 1 ==> !sep(#[trigger] s.skip(1)[j]));
        lemma_segment_prefix(s.skip(1), sep, k - 1);
        let rest = spec_segments(s.skip(1), sep);
        assert(!sep(s[1]));
        assert(spec_segments(s, sep) == seq![seq![s[0]] + rest[0]] + rest.skip(1));
        assert(s.skip(1).skip(k - 1) =~= s.skip(k));
        assert(rest == seq![s.skip(1).take(k - 1)] + spec_segments(s.skip(k), sep));
        assert(seq![s[0]] + s.skip(1).take(k - 1) =~= s.take(k));
        assert(rest.skip(1) =~~= spec_segments(s.skip(k), sep));
        assert(spec_segments(s, sep) =~~= seq![s.take(k)] + spec_segments(s.skip(k), sep));
    }
}

/// Tests the character against the chosen separator set.
fn check_sep(newline_only: bool, c: char) -> (r: bool)
    ensures
        r == sep_of(newline_only)(c),
{
    if newline_only {
        c == '\n'
    } else {
        c == ' ' || c == '\t' || c == '\n' || c == '\r' || c == '\u{b}' || c == '\u{c}'
    }
}

/// Cuts `s` into its maximal runs of non-separator characters, in order:
/// into lines when `newline_only`, into whitespace-separated tokens
/// otherwise. Empty runs never appear.
pub fn split_segments(s: &str, newline_only: bool) -> (r: Vec<String>)
    ensures
        views_of(r@) == spec_segments(s@, sep_of(newline_only)),
{
    let ghost sep = sep_of(newline_only);
    let n = s.unicode_len();
    let mut acc: Vec<String> = Vec::new();
    let mut start: usize = 0;
    let mut i: usize = 0;
    proof {
        assert(s@.skip(0) =~= s@);
        assert(views_of(acc@) + spec_segments(s@, sep) =~= spec_segments(s@, sep));
    }
    while i < n
        invariant
            sep == sep_of(newline_only),
            start <= i <= n == s@.len(),
            forall|j: int| start <= j < i ==> !sep(#[trigger] s@[j]),
            spec_segments(s@, sep) == views_of(acc@) + spec_segments(s@.skip(start as int), sep),
        decreases n - i,
    {
        let c = s.get_char(i);
        if check_sep(newline_only, c) {
            proof {
                assert(sep(s@[i as int]));
            }
            if start < i {
                let tok = s.substring_char(start, i).to_owned();
                proof {
                    assert(forall|j: int| 0 <= j < i - start
                        ==> !sep(#[trigger] s@.skip(start as int)[j]));
                    assert(sep(s@.skip(start as int)[i - start]));
                    lemma_segment_prefix(s@.skip(start as int), sep, i - start);
                    assert(s@.skip(start as int).take(i - start) =~= s@.subrange(
                        start as int,
                        i as int,
                    ));
                    assert(s@.skip(start as int).skip(i - start) =~= s@.skip(i as int));
                    assert(views_of(acc@.push(tok)) =~~= views_of(acc@).push(tok@));
                    assert(views_of(acc@).push(tok@) + spec_segments(s@.skip(i as int), sep)
                        =~~= views_of(acc@) + (seq![tok@] + spec_segments(s@.skip(i as int), sep)));
                }
                acc.push(tok);
            }
            proof {
                assert(s@.skip(i as int).len() > 0);
                assert(s@.skip(i as int)[0] == s@[i as int]);
                assert(s@.skip(i as int).skip(1) =~= s@.skip(i as int + 1));
                assert(spec_segments(s@.skip(i as int), sep) == spec_segments(
                    s@.skip(i as int + 1),
                    sep,
                ));
            }
            start = i + 1;
        }
        i = i + 1;
    }
    if start < n {
        let tok = s.substring_char(start, n).to_owned();
        proof {
            assert(forall|j: int| 0 <= j < n - start
                ==> !sep(#[trigger] s@.skip(start as int)[j]));
            lemma_segment_prefix(s@.skip(start as int), sep, n - start);
            assert(s@.skip(start as int).take(n - start) =~= s@.subrange(start as int, n as int));
            assert(s@.skip(start as int).skip(n - start) =~= Seq::<char>::empty());
            assert(spec_segments(Seq::<char>::empty(), sep) == Seq::<Seq<char>>::empty());
            assert(views_of(acc@.push(tok)) =~~= views_of(acc@).push(tok@));
            assert(views_of(acc@).push(tok@) =~~= views_of(acc@) + (seq![tok@] + Seq::<
                Seq<char>,
            >::empty()));
        }
        acc.push(tok);
    } else {
        proof {
            assert(s@.skip(start as int) =~= Seq::<char>::empty());
            assert(spec_segments(Seq::<char>::empty(), sep) == Seq::<Seq<char>>::empty());
            assert(views_of(acc@) + Seq::<Seq<char>>::empty() =~~= views_of(acc@));
        }
    }
    acc
}

/// The parts joined by single spaces, in order.
pub open spec fn spec_join(parts: Seq<Seq<char>>) -> Seq<char>
    decreases parts.len(),
{
    if parts.len() == 0 {
        Seq::<char>::empty()
    } else if parts.len() == 1 {
        parts[0]
    } else {
        spec_join(parts.drop_last()) + seq![' '] + parts.last()
    }
}

/// Joins the first `count` strings of `parts` with single spaces.
pub fn join_with_spaces(parts: &Vec<String>, count: usize) -> (r: String)
    requires
        count <= parts.len(),
    ensures
        r@ == spec_join(views_of(parts@).take(count as int)),
{
    let ghost dv = views_of(parts@);
    let mut r = String::new();
    let mut i: usize = 0;
    proof {
        assert(dv.take(0) =~= Seq::<Seq<char>>::empty());
    }
    while i < count
        invariant
            dv == views_of(parts@),
            i <= count <= parts.len(),
            views_of(parts@).len() == parts.len(),
            r@ == spec_join(views_of(parts@).take(i as int)),
        decreases count - i,
    {
        if i > 0 {
            r.append(" ");
        }
        r.append(parts[i].as_str());
        proof {
            reveal_strlit(" ");
            assert(" "@ =~= seq![' ']);
            assert(dv.take(i as int + 1).drop_last() =~= dv.take(i as int));
            assert(dv.take(i as int + 1).last() == dv[i as int]);
            if i == 0 {
                assert(r@ =~= dv[0]);
            } else {
                assert(r@ =~= spec_join(dv.take(i as int)) + seq![' '] + dv[i as int]);
            }
        }
        i = i + 1;
    }
    r
}

} // verus!
