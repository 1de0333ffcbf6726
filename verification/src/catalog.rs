use vstd::prelude::*;

use crate::text::{
    join_with_spaces, newline_pred, space_pred, spec_join, spec_segments, split_segments, views_of,
};

verus! {

#[verifier::external_type_specification]
#[verifier::external_body]
#[verifier::reject_recursive_types(K)]
#[verifier::reject_recursive_types(V)]
#[verifier::reject_recursive_types(S)]
pub struct ExMultiMap<K, V, S>(multimap::MultiMap<K, V, S>);

/// A multimap from category names to candidate descriptions.
pub type PartsMap = multimap::MultiMap<String, String>;

/// What a string-keyed multimap holds: for each key's characters, the
/// sequence of its values' characters, in insertion order.
pub uninterp spec fn multimap_entries(m: PartsMap) -> Map<Seq<char>, Seq<Seq<char>>>;

/// The contents of a catalog with nothing in it.
pub open spec fn no_entries() -> Map<Seq<char>, Seq<Seq<char>>> {
    Map::<Seq<char>, Seq<Seq<char>>>::empty()
}

/// Relies on multimap::MultiMap::new: makes an empty multimap.
#[verifier::external_body]
fn multimap_new() -> (r: PartsMap)
    ensures
        multimap_entries(r) == no_entries(),
{
    multimap::MultiMap::new()
}

/// Relies on multimap::MultiMap::insert: appends the value to the vector
/// stored under the key, or stores the one-value vector if the key is new.
#[verifier::external_body]
fn multimap_insert(m: &mut PartsMap, k: String, v: String)
    ensures
        multimap_entries(*final(m)) == spec_insert_pair(multimap_entries(*old(m)), k@, v@),
{
    m.insert(k, v)
}

/// Relies on multimap::MultiMap::get_vec: returns the vector of the key's
/// values exactly when the key is present. The vector is cloned so that the
/// caller owns it.
#[verifier::external_body]
fn multimap_get_vec(m: &PartsMap, k: &str) -> (r: Option<Vec<String>>)
    ensures
        match r {
            Some(v) => multimap_entries(*m).dom().contains(k@) && views_of(v@) == multimap_entries(
                *m,
            )[k@],
            None => !multimap_entries(*m).dom().contains(k@),
        },
{
    m.get_vec(k).cloned()
}

/// The catalog after one more `(key, value)` pair: the value joins the end
/// of its key's candidate sequence.
pub open spec fn spec_insert_pair(
    m: Map<Seq<char>, Seq<Seq<char>>>,
    k: Seq<char>,
    v: Seq<char>,
) -> Map<Seq<char>, Seq<Seq<char>>> {
    if m.dom().contains(k) {
        m.insert(k, m[k].push(v))
    } else {
        m.insert(k, seq![v])
    }
}

/// The category key of a line: its last whitespace-separated token, if the
/// line has any token at all.
pub open spec fn spec_line_key(line: Seq<char>) -> Option<Seq<char>> {
    let toks = spec_segments(line, space_pred());
    if toks.len() == 0 {
        None
    } else {
        Some(toks.last())
    }
}

/// The description of a line: every token but the last, joined by single
/// spaces.
pub open spec fn spec_line_value(line: Seq<char>) -> Seq<char> {
    spec_join(spec_segments(line, space_pred()).drop_last())
}

/// The catalog after reading one line. A line without tokens is skipped.
pub open spec fn spec_insert_line(
    m: Map<Seq<char>, Seq<Seq<char>>>,
    line: Seq<char>,
) -> Map<Seq<char>, Seq<Seq<char>>> {
    match spec_line_key(line) {
        None => m,
        Some(k) => spec_insert_pair(m, k, spec_line_value(line)),
    }
}

/// The catalog read from a sequence of lines, in order.
pub open spec fn spec_parse_lines(lines: Seq<Seq<char>>) -> Map<Seq<char>, Seq<Seq<char>>>
    decreases lines.len(),
{
    if lines.len() == 0 {
        Map::<Seq<char>, Seq<Seq<char>>>::empty()
    } else {
        spec_insert_line(spec_parse_lines(lines.drop_last()), lines.last())
    }
}

/// The catalog read from the whole text of a parts file.
pub open spec fn spec_parse(text: Seq<char>) -> Map<Seq<char>, Seq<Seq<char>>> {
    spec_parse_lines(spec_segments(text, newline_pred()))
}

proof fn lemma_lines_values(lines: Seq<Seq<char>>, k: Seq<char>, i: int)
    requires
        spec_parse_lines(lines).dom().contains(k),
        0 <= i < spec_parse_lines(lines)[k].len(),
    ensures
        exists|l: int|
            {
                &&& 0 <= l < lines.len()
                &&& #[trigger] spec_line_key(lines[l]) == Some(k)
                &&& spec_line_value(lines[l]) == spec_parse_lines(lines)[k][i]
            },
    decreases lines.len(),
{
    let m = spec_parse_lines(lines);
    let rest = lines.drop_last();
    let prev = spec_parse_lines(rest);
    let line = lines.last();
    let ll = lines.len() - 1;
    match spec_line_key(line) {
        None => {
            lemma_lines_values(rest, k, i);
            let l0 = choose|l: int|
                {
                    &&& 0 <= l < rest.len()
                    &&& #[trigger] spec_line_key(rest[l]) == Some(k)
                    &&& spec_line_value(rest[l]) == prev[k][i]
                };
            assert(rest[l0] == lines[l0]);
            assert(spec_line_key(lines[l0]) == Some(k) && spec_line_value(lines[l0]) == m[k][i]);
        },
        Some(key2) => {
            let v = spec_line_value(line);
            if key2 == k {
                if prev.dom().contains(k) && i < prev[k].len() {
                    lemma_lines_values(rest, k, i);
                    let l0 = choose|l: int|
                        {
                            &&& 0 <= l < rest.len()
                            &&& #[trigger] spec_line_key(rest[l]) == Some(k)
                            &&& spec_line_value(rest[l]) == prev[k][i]
                        };
                    assert(rest[l0] == lines[l0]);
                    assert(spec_line_key(lines[l0]) == Some(k) && spec_line_value(lines[l0])
                        == m[k][i]);
                } else {
                    assert(m[k][i] == v);
                    assert(spec_line_key(lines[ll]) == Some(k) && spec_line_value(lines[ll])
                        == m[k][i]);
                }
            } else {
                assert(m[k] == prev[k]);
                lemma_lines_values(rest, k, i);
                let l0 = choose|l: int|
                    {
                        &&& 0 <= l < rest.len()
                        &&& #[trigger] spec_line_key(rest[l]) == Some(k)
                        &&& spec_line_value(rest[l]) == prev[k][i]
                    };
                assert(rest[l0] == lines[l0]);
                assert(spec_line_key(lines[l0]) == Some(k) && spec_line_value(lines[l0])
                    == m[k][i]);
            }
        },
    }
}

/// Every candidate that a parsed catalog stores under a category is the
/// description read from some line of the file whose last token is that
/// category: generated ships are built from parts of the file alone.
pub proof fn lemma_catalog_values_come_from_file(text: Seq<char>, k: Seq<char>, i: int)
    requires
        spec_parse(text).dom().contains(k),
        0 <= i < spec_parse(text)[k].len(),
    ensures
        exists|l: int|
            {
                &&& 0 <= l < spec_segments(text, newline_pred()).len()
                &&& #[trigger] spec_line_key(spec_segments(text, newline_pred())[l]) == Some(k)
                &&& spec_line_value(spec_segments(text, newline_pred())[l]) == spec_parse(text)[k][i]
            },
{
    lemma_lines_values(spec_segments(text, newline_pred()), k, i);
}

/// The mapping from category name to the candidate part descriptions read
/// for it, in file order, duplicates kept.
pub struct PartCatalog {
    map: PartsMap,
}

impl PartCatalog {
    /// The categories and their candidate sequences.
    pub closed spec fn entries(self) -> Map<Seq<char>, Seq<Seq<char>>> {
        multimap_entries(self.map)
    }

    /// Every category present in the catalog has at least one candidate.
    pub open spec fn wf(self) -> bool {
        forall|k: Seq<char>|
            self.entries().dom().contains(k) ==> #[trigger] self.entries()[k].len() > 0
    }

    /// An empty catalog.
    pub fn new() -> (r: Self)
        ensures
            r.entries() == no_entries(),
            r.wf(),
    {
        let r = PartCatalog { map: multimap_new() };
        proof {
            assert(r.entries().dom() =~= Set::<Seq<char>>::empty());
        }
        r
    }

    /// Adds one candidate description under a category, after any read
    /// earlier for that category.
    pub fn insert(&mut self, key: String, value: String)
        ensures
            final (self).entries() == spec_insert_pair(old(self).entries(), key@, value@),
            old(self).wf() ==> final (self).wf(),
    {
        let ghost k = key@;
        let ghost pre = self.entries();
        multimap_insert(&mut self.map, key, value);
        proof {
            if old(self).wf() {
                assert forall|q: Seq<char>| self.entries().dom().contains(q) implies #[trigger] self
                    .entries()[q].len() > 0 by {
                    if q != k {
                        assert(pre.dom().contains(q));
                    }
                }
            }
        }
    }

    /// All candidates of a category, in insertion order; `None` exactly when
    /// the category never appeared.
    pub fn get_all(&self, key: &str) -> (r: Option<Vec<String>>)
        ensures
            match r {
                Some(v) => self.entries().dom().contains(key@) && views_of(v@)
                    == self.entries().index(key@),
                None => !self.entries().dom().contains(key@),
            },
    {
        multimap_get_vec(&self.map, key)
    }

    /// The first-read candidate of a category; `None` exactly when the
    /// category never appeared.
    pub fn get_first(&self, key: &str) -> (r: Option<String>)
        requires
            self.wf(),
        ensures
            match r {
                Some(v) => self.entries().dom().contains(key@) && v@ == self.entries()[key@][0],
                None => !self.entries().dom().contains(key@),
            },
    {
        match multimap_get_vec(&self.map, key) {
            Some(v) => {
                proof {
                    assert(self.entries()[key@].len() > 0);
                    assert(views_of(v@).len() > 0);
                }
                Some(v[0].clone())
            },
            None => None,
        }
    }

    /// Reads a whole parts file: one candidate per line, the last token the
    /// category, the other tokens the description. Lines without tokens
    /// (blank or all whitespace) are skipped.
    pub fn from_text(contents: &str) -> (r: Self)
        ensures
            r.entries() == spec_parse(contents@),
            r.wf(),
    {
        let lines = split_segments(contents, true);
        let mut catalog = PartCatalog::new();
        let mut i: usize = 0;
        proof {
            assert(views_of(lines@).take(0) =~~= Seq::<Seq<char>>::empty());
        }
        let n = lines.len();
        while i < n
            invariant
                n == lines.len(),
                i <= n,
                views_of(lines@).len() == n,
                views_of(lines@) == spec_segments(contents@, newline_pred()),
                catalog.entries() == spec_parse_lines(views_of(lines@).take(i as int)),
                catalog.wf(),
            decreases n - i,
        {
            let ghost lv = views_of(lines@);
            let toks = split_segments(lines[i].as_str(), false);
            proof {
                assert(lv[i as int] == lines@[i as int]@);
                assert(lv.take(i as int + 1).drop_last() =~~= lv.take(i as int));
                assert(lv.take(i as int + 1).last() == lv[i as int]);
            }
            if toks.len() > 0 {
                let value = join_with_spaces(&toks, toks.len() - 1);
                let key = toks[toks.len() - 1].clone();
                proof {
                    let tv = views_of(toks@);
                    assert(tv.take(tv.len() - 1) =~~= tv.drop_last());
                    assert(key@ == tv.last());
                    assert(spec_line_key(lv[i as int]) == Some(key@));
                    assert(spec_line_value(lv[i as int]) == value@);
                }
                catalog.insert(key, value);
            } else {
                proof {
                    assert(spec_segments(lv[i as int], space_pred()).len() == 0);
                }
            }
            i = i + 1;
        }
        proof {
            assert(views_of(lines@).take(n as int) =~~= views_of(lines@));
        }
        catalog
    }
}

} // verus!
