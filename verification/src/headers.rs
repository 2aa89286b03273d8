//! The header mapping of a request: names to values, last write wins.
//!
//! The mapping is kept as a list of fields in the order in which their names first
//! arrived. No name occurs twice. Its view is that list, as pairs of character sequences.
use crate::text::{chars_equal, chars_equal_ignoring_case, chars_of, same_text_ignoring_case};
use vstd::prelude::*;

verus! {

/// One header field.
#[derive(Debug)]
pub struct Header {
    pub name: String,
    pub value: String,
}

/// The header fields of a request, each name set at most once.
#[derive(Debug)]
pub struct Headers {
    entries: Vec<Header>,
}

/// A header field as a mathematical value: its name and its value.
pub type Field = (Seq<char>, Seq<char>);

/// Whether the header name `have` is the one asked for as `want`: exactly, or up to the
/// case of ASCII letters when `fold` is set.
pub open spec fn name_matches(have: Seq<char>, want: Seq<char>, fold: bool) -> bool {
    if fold {
        same_text_ignoring_case(have, want)
    } else {
        have == want
    }
}

/// The position of the first field at or after `i` whose name matches, or the number of
/// fields if there is none.
pub open spec fn position_from(h: Seq<Field>, i: int, name: Seq<char>, fold: bool) -> int
    decreases h.len() - i,
{
    if 0 <= i < h.len() && !name_matches(h[i].0, name, fold) {
        position_from(h, i + 1, name, fold)
    } else {
        i
    }
}

/// The value stored under exactly `name`, if any.
pub open spec fn value_of(h: Seq<Field>, name: Seq<char>) -> Option<Seq<char>> {
    let p = position_from(h, 0, name, false);
    if 0 <= p < h.len() {
        Some(h[p].1)
    } else {
        None
    }
}

/// The value of the first field whose name is `name` up to the case of ASCII letters.
pub open spec fn value_ignoring_case(h: Seq<Field>, name: Seq<char>) -> Option<Seq<char>> {
    let p = position_from(h, 0, name, true);
    if 0 <= p < h.len() {
        Some(h[p].1)
    } else {
        None
    }
}

/// The fields after `name` has been set to `value`: an existing field keeps its place and
/// takes the new value, a new name goes to the end.
pub open spec fn with_field(h: Seq<Field>, name: Seq<char>, value: Seq<char>) -> Seq<Field> {
    let p = position_from(h, 0, name, false);
    if 0 <= p < h.len() {
        h.update(p, (name, value))
    } else {
        h.push((name, value))
    }
}

/// Whether no name occurs twice in `h`.
pub open spec fn names_distinct(h: Seq<Field>) -> bool {
    forall|i: int, j: int| 0 <= i < j < h.len() ==> (#[trigger] h[i]).0 != (#[trigger] h[j]).0
}

/// The search ends at the first field that matches, and at the end where none does.
pub proof fn lemma_position_bounds(h: Seq<Field>, i: int, name: Seq<char>, fold: bool)
    requires
        0 <= i <= h.len(),
    ensures
        i <= position_from(h, i, name, fold) <= h.len(),
        forall|j: int|
            i <= j < position_from(h, i, name, fold) ==> !name_matches(
                (#[trigger] h[j]).0,
                name,
                fold,
            ),
        position_from(h, i, name, fold) < h.len() ==> name_matches(
            h[position_from(h, i, name, fold)].0,
            name,
            fold,
        ),
    decreases h.len() - i,
{
    if i < h.len() && !name_matches(h[i].0, name, fold) {
        lemma_position_bounds(h, i + 1, name, fold);
    }
}

/// If no field before `p` matches and the field at `p` does, the first match from `i` is
/// at `p`; if none before the end matches, the search ends at the end.
pub proof fn lemma_position_is(h: Seq<Field>, i: int, p: int, name: Seq<char>, fold: bool)
    requires
        0 <= i <= p <= h.len(),
        forall|j: int| i <= j < p ==> !name_matches((#[trigger] h[j]).0, name, fold),
        p < h.len() ==> name_matches(h[p].0, name, fold),
    ensures
        position_from(h, i, name, fold) == p,
    decreases p - i,
{
    if i < p {
        assert(!name_matches(h[i].0, name, fold));
        lemma_position_is(h, i + 1, p, name, fold);
    }
}

/// Setting a name keeps the names distinct.
pub proof fn lemma_with_field_distinct(h: Seq<Field>, name: Seq<char>, value: Seq<char>)
    requires
        names_distinct(h),
    ensures
        names_distinct(with_field(h, name, value)),
{
    lemma_position_bounds(h, 0, name, false);
    let p = position_from(h, 0, name, false);
    let g = with_field(h, name, value);
    assert forall|i: int, j: int| 0 <= i < j < g.len() implies (#[trigger] g[i]).0 != (
    #[trigger] g[j]).0 by {
        if p < h.len() {
            assert(g[i].0 == h[i].0);
            assert(g[j].0 == h[j].0);
        } else {
            if j < h.len() {
                assert(g[i] == h[i] && g[j] == h[j]);
            } else {
                assert(g[i] == h[i]);
                assert(!name_matches(h[i].0, name, false));
            }
        }
    }
}

/// A lookup after a write finds the written value under the written name, and what it
/// found before under any other name.
pub proof fn lemma_value_after_write(
    h: Seq<Field>,
    name: Seq<char>,
    value: Seq<char>,
    other: Seq<char>,
)
    ensures
        value_of(with_field(h, name, value), name) == Some(value),
        other != name ==> value_of(with_field(h, name, value), other) == value_of(h, other),
{
    lemma_position_bounds(h, 0, name, false);
    let p = position_from(h, 0, name, false);
    let g = with_field(h, name, value);
    assert forall|j: int| 0 <= j < p implies !name_matches((#[trigger] g[j]).0, name, false) by {
        assert(g[j] == h[j]);
    }
    lemma_position_is(g, 0, p, name, false);
    if other != name {
        lemma_position_bounds(h, 0, other, false);
        let q = position_from(h, 0, other, false);
        assert forall|j: int| 0 <= j < q implies !name_matches(
            (#[trigger] g[j]).0,
            other,
            false,
        ) by {
            if j != p {
                assert(g[j] == h[j]);
            }
        }
        if q < h.len() {
            assert(q != p);
            assert(g[q] == h[q]);
            lemma_position_is(g, 0, q, other, false);
        } else {
            lemma_position_is(g, 0, g.len() as int, other, false);
        }
    }
}

impl View for Headers {
    type V = Seq<Field>;

    closed spec fn view(&self) -> Seq<Field> {
        Seq::new(self.entries@.len(), |i: int| (self.entries@[i].name@, self.entries@[i].value@))
    }
}

impl Headers {
    #[verifier::type_invariant]
    closed spec fn no_name_twice(&self) -> bool {
        names_distinct(self@)
    }

    /// An empty mapping.
    pub fn new() -> (h: Headers)
        ensures
            h@ == Seq::<Field>::empty(),
    {
        let h = Headers { entries: Vec::new() };
        assert(h@ =~= Seq::<Field>::empty());
        h
    }

    /// How many names are set.
    pub fn len(&self) -> (n: usize)
        ensures
            n == self@.len(),
    {
        self.entries.len()
    }

    fn position(&self, name: &str, fold: bool) -> (p: usize)
        ensures
            p == position_from(self@, 0, name@, fold),
            p <= self@.len(),
            self@.len() == self.entries@.len(),
            p < self@.len() ==> self@[p as int] == (
                self.entries@[p as int].name@,
                self.entries@[p as int].value@,
            ),
    {
        let want = chars_of(name);
        let mut i: usize = 0;
        while i < self.entries.len()
            invariant
                i <= self.entries@.len(),
                self@.len() == self.entries@.len(),
                want@ == name@,
                forall|j: int| 0 <= j < i ==> !name_matches((#[trigger] self@[j]).0, name@, fold),
            decreases self.entries.len() - i,
        {
            let have = chars_of(self.entries[i].name.as_str());
            let hit = if fold {
                chars_equal_ignoring_case(&have, &want)
            } else {
                chars_equal(&have, &want)
            };
            if hit {
                proof {
                    lemma_position_is(self@, 0, i as int, name@, fold);
                }
                return i;
            }
            i += 1;
        }
        proof {
            lemma_position_is(self@, 0, i as int, name@, fold);
        }
        i
    }

    /// The value stored under exactly `name`.
    pub fn get(&self, name: &str) -> (r: Option<&String>)
        ensures
            match r {
                Some(v) => value_of(self@, name@) == Some(v@),
                None => value_of(self@, name@) is None,
            },
    {
        let p = self.position(name, false);
        if p < self.entries.len() {
            Some(&self.entries[p].value)
        } else {
            None
        }
    }

    /// The value of the first field whose name is `name` up to the case of ASCII letters.
    pub fn get_ignoring_case(&self, name: &str) -> (r: Option<&String>)
        ensures
            match r {
                Some(v) => value_ignoring_case(self@, name@) == Some(v@),
                None => value_ignoring_case(self@, name@) is None,
            },
    {
        let p = self.position(name, true);
        if p < self.entries.len() {
            Some(&self.entries[p].value)
        } else {
            None
        }
    }

    /// A copy of the mapping.
    pub fn duplicate(&self) -> (h: Headers)
        ensures
            h@ == self@,
    {
        proof {
            use_type_invariant(self);
        }
        let mut entries: Vec<Header> = Vec::new();
        let mut i: usize = 0;
        while i < self.entries.len()
            invariant
                i <= self.entries@.len(),
                entries@.len() == i,
                forall|j: int|
                    0 <= j < i ==> (#[trigger] entries@[j]).name@ == self.entries@[j].name@
                        && entries@[j].value@ == self.entries@[j].value@,
            decreases self.entries.len() - i,
        {
            entries.push(
                Header { name: self.entries[i].name.clone(), value: self.entries[i].value.clone() },
            );
            i += 1;
        }
        assert(Seq::new(entries@.len(), |i: int| (entries@[i].name@, entries@[i].value@))
            =~= self@);
        Headers { entries }
    }

    /// Sets `name` to `value` and returns the value that it replaces, if any.
    pub fn insert(&mut self, name: String, value: String) -> (r: Option<String>)
        ensures
            final(self)@ == with_field(old(self)@, name@, value@),
            match r {
                Some(v) => value_of(old(self)@, name@) == Some(v@),
                None => value_of(old(self)@, name@) is None,
            },
    {
        proof {
            use_type_invariant(&*self);
            lemma_with_field_distinct(self@, name@, value@);
        }
        let p = self.position(name.as_str(), false);
        let ghost before = self@;
        let mut entries: Vec<Header> = Vec::new();
        std::mem::swap(&mut entries, &mut self.entries);
        let ghost fields = Seq::new(entries@.len(), |i: int| (entries@[i].name@, entries@[i].value@));
        assert(fields =~= before);
        let replaced = if p < entries.len() {
            let mut field = Header { name, value };
            std::mem::swap(&mut entries[p], &mut field);
            Some(field.value)
        } else {
            entries.push(Header { name, value });
            None
        };
        assert(Seq::new(entries@.len(), |i: int| (entries@[i].name@, entries@[i].value@))
            =~= with_field(before, name@, value@));
        self.entries = entries;
        replaced
    }
}

} // verus!
