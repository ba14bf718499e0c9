//! A tag selection by tag name: the tags a work must carry and the tags it must not, and the
//! one-line summary shown above the gallery.
use crate::tag_set::TagStatus;
use crate::text::{owned, push_char, push_str, seq_lt, str_eq};
use vstd::prelude::*;

verus! {

/// The abstract selection: the names required and the names excluded.
pub ghost struct NameSetView {
    pub enabled: Set<Seq<char>>,
    pub disabled: Set<Seq<char>>,
}

/// A tag selection by name.
///
/// The names are kept in lists in which no name occurs twice, not hash sets: the enabled
/// names are handed out as a list, which a hash set's unspecified walk order could give no
/// exact contract, and vstd proves nothing of a hash set keyed by `String`.
pub struct TagSet {
    enabled: Vec<String>,
    disabled: Vec<String>,
}

/// The names of a list of strings, as a set.
pub open spec fn name_set(v: Seq<String>) -> Set<Seq<char>> {
    Set::new(|n: Seq<char>| exists|i: int| 0 <= i < v.len() && v[i]@ == n)
}

impl View for TagSet {
    type V = NameSetView;

    closed spec fn view(&self) -> NameSetView {
        NameSetView { enabled: name_set(self.enabled@), disabled: name_set(self.disabled@) }
    }
}

/// The status of a name in a selection.
pub open spec fn name_status(v: NameSetView, name: Seq<char>) -> TagStatus {
    if v.enabled.contains(name) {
        TagStatus::Enabled
    } else if v.disabled.contains(name) {
        TagStatus::Disabled
    } else {
        TagStatus::Unselected
    }
}

/// The position of `name` in `v`, if it is there.
fn find_name(v: &Vec<String>, name: &str) -> (r: Option<usize>)
    ensures
        match r {
            Some(i) => i < v@.len() && v@[i as int]@ == name@,
            None => !name_set(v@).contains(name@),
        },
{
    let mut i: usize = 0;
    while i < v.len()
        invariant
            0 <= i <= v@.len(),
            forall|j: int| 0 <= j < i ==> v@[j]@ != name@,
        decreases v@.len() - i,
    {
        if str_eq(v[i].as_str(), name) {
            return Some(i);
        }
        i = i + 1;
    }
    None
}

/// Adds `name` to `v` when it is not there.
fn add_name(v: &mut Vec<String>, name: &str)
    requires
        names_distinct(old(v)@),
    ensures
        names_distinct(final(v)@),
        name_set(final(v)@) == name_set(old(v)@).insert(name@),
{
    match find_name(v, name) {
        Some(_) => {
            assert(name_set(v@) =~= name_set(v@).insert(name@));
        },
        None => {
            let ghost before = v@;
            v.push(owned(name));
            assert forall|n: Seq<char>| name_set(v@).contains(n) == name_set(before).insert(name@).contains(n) by {
                if name_set(v@).contains(n) {
                    let i = choose|i: int| 0 <= i < v@.len() && v@[i]@ == n;
                    if i < before.len() {
                        assert(before[i]@ == n);
                    }
                }
                if name_set(before).contains(n) {
                    let i = choose|i: int| 0 <= i < before.len() && before[i]@ == n;
                    assert(v@[i]@ == n);
                }
                if n == name@ {
                    assert(v@[before.len() as int]@ == n);
                }
            }
            assert(name_set(v@) =~= name_set(before).insert(name@));
        },
    }
}

/// Removes `name` from `v` when it is there.
fn remove_name(v: &mut Vec<String>, name: &str)
    requires
        names_distinct(old(v)@),
    ensures
        names_distinct(final(v)@),
        name_set(final(v)@) == name_set(old(v)@).remove(name@),
{
    match find_name(v, name) {
        None => {
            assert(name_set(v@) =~= name_set(v@).remove(name@));
        },
        Some(i) => {
            let ghost before = v@;
            v.remove(i);
            assert(v@ =~= before.remove(i as int));
            assert forall|n: Seq<char>| name_set(v@).contains(n) == name_set(before).remove(name@).contains(n) by {
                if name_set(v@).contains(n) {
                    let j = choose|j: int| 0 <= j < v@.len() && v@[j]@ == n;
                    if j < i {
                        assert(before[j]@ == n);
                        assert(j != i);
                    } else {
                        assert(before[j + 1]@ == n);
                    }
                }
                if name_set(before).remove(name@).contains(n) {
                    let j = choose|j: int| 0 <= j < before.len() && before[j]@ == n;
                    assert(j != i);
                    if j < i {
                        assert(v@[j]@ == n);
                    } else {
                        assert(v@[j - 1]@ == n);
                    }
                }
            }
            assert(name_set(v@) =~= name_set(before).remove(name@));
        },
    }
}

/// No name occurs twice.
pub open spec fn names_distinct(v: Seq<String>) -> bool {
    forall|i: int, j: int| 0 <= i < j < v.len() ==> v[i]@ != v[j]@
}

/// The summary of a selection with nothing in it.
pub open spec fn empty_summary() -> Seq<char> {
    "Select Tags to Show Matching Works"@
}

/// The entries of the summary: '+' and the name for each required name, '-' and the name
/// for each excluded one.
pub open spec fn summary_entries(v: NameSetView) -> Set<(char, Seq<char>)> {
    Set::new(
        |e: (char, Seq<char>)|
            (e.0 == '+' && v.enabled.contains(e.1)) || (e.0 == '-' && v.disabled.contains(e.1)),
    )
}

/// Entries written one after the other, separated by single spaces.
pub open spec fn render_entries(es: Seq<(char, Seq<char>)>) -> Seq<char>
    decreases es.len(),
{
    if es.len() == 0 {
        Seq::empty()
    } else if es.len() == 1 {
        seq![es[0].0] + es[0].1
    } else {
        render_entries(es.drop_last()) + seq![' ', es.last().0] + es.last().1
    }
}

/// The entries are in strictly increasing order of name.
pub open spec fn entries_sorted(es: Seq<(char, Seq<char>)>) -> bool {
    forall|i: int, j: int| 0 <= i < j < es.len() ==> seq_lt(es[i].1, es[j].1)
}

/// `out` is the summary of selection `v`: the empty summary when nothing is selected, else
/// every entry once, sorted by name, separated by spaces.
pub open spec fn is_summary(v: NameSetView, out: Seq<char>) -> bool {
    if v.enabled.is_empty() && v.disabled.is_empty() {
        out == empty_summary()
    } else {
        exists|es: Seq<(char, Seq<char>)>|
            {
                &&& entries_sorted(es)
                &&& es.to_set() == summary_entries(v)
                &&& out == render_entries(es)
            }
    }
}

impl TagSet {
    /// The selection's invariant: no name twice in a list, and none in both.
    pub closed spec fn wf(&self) -> bool {
        &&& names_distinct(self.enabled@)
        &&& names_distinct(self.disabled@)
        &&& forall|n: Seq<char>| #[trigger] name_set(self.enabled@).contains(n) ==> !name_set(
            self.disabled@,
        ).contains(n)
    }

    /// An empty selection.
    pub fn new() -> (r: Self)
        ensures
            r.wf(),
            r@ == (NameSetView { enabled: Set::empty(), disabled: Set::empty() }),
    {
        let r = TagSet { enabled: Vec::new(), disabled: Vec::new() };
        assert(name_set(r.enabled@) =~= Set::empty());
        assert(name_set(r.disabled@) =~= Set::empty());
        r
    }

    /// The status of a tag name.
    pub fn status(&self, tag: &str) -> (r: TagStatus)
        requires
            self.wf(),
        ensures
            r == name_status(self@, tag@),
    {
        match find_name(&self.enabled, tag) {
            Some(_) => TagStatus::Enabled,
            None => match find_name(&self.disabled, tag) {
                Some(_) => TagStatus::Disabled,
                None => TagStatus::Unselected,
            },
        }
    }

    /// Requires the tag.
    pub fn enable(&mut self, tag: &str)
        requires
            old(self).wf(),
        ensures
            final(self).wf(),
            final(self)@ == (NameSetView {
                enabled: old(self)@.enabled.insert(tag@),
                disabled: old(self)@.disabled.remove(tag@),
            }),
    {
        add_name(&mut self.enabled, tag);
        remove_name(&mut self.disabled, tag);
    }

    /// Drops the tag from the selection.
    pub fn unselect(&mut self, tag: &str)
        requires
            old(self).wf(),
        ensures
            final(self).wf(),
            final(self)@ == (NameSetView {
                enabled: old(self)@.enabled.remove(tag@),
                disabled: old(self)@.disabled.remove(tag@),
            }),
    {
        remove_name(&mut self.enabled, tag);
        remove_name(&mut self.disabled, tag);
    }

    /// Excludes the tag.
    pub fn disable(&mut self, tag: &str)
        requires
            old(self).wf(),
        ensures
            final(self).wf(),
            final(self)@ == (NameSetView {
                enabled: old(self)@.enabled.remove(tag@),
                disabled: old(self)@.disabled.insert(tag@),
            }),
    {
        remove_name(&mut self.enabled, tag);
        add_name(&mut self.disabled, tag);
    }

    /// The required names, each once.
    pub fn enabled_names(&self) -> (r: &[String])
        requires
            self.wf(),
        ensures
            name_set(r@) == self@.enabled,
            names_distinct(r@),
    {
        self.enabled.as_slice()
    }

    /// The one-line summary of the selection: every required name with '+' and every
    /// excluded name with '-', sorted by name and separated by spaces, or "Select Tags to
    /// Show Matching Works" when nothing is selected.
    pub fn summary(&self) -> (r: String)
        requires
            self.wf(),
        ensures
            is_summary(self@, r@),
    {
        if self.enabled.len() == 0 && self.disabled.len() == 0 {
            assert(self@.enabled =~= Set::empty());
            assert(self@.disabled =~= Set::empty());
            return owned("Select Tags to Show Matching Works");
        }
        proof {
            if self.enabled.len() > 0 {
                assert(self@.enabled.contains(self.enabled@[0]@));
            } else {
                assert(self@.disabled.contains(self.disabled@[0]@));
            }
        }
        // Sort the entries by name, inserting each in place.
        let mut es: Vec<(char, usize, bool)> = Vec::new();
        let mut pass: usize = 0;
        while pass < 2
            invariant
                self.wf(),
                0 <= pass <= 2,
                forall|a: int|
                    0 <= a < es@.len() ==> (#[trigger] es@[a]).2 ==> es@[a].1 < self.enabled@.len()
                        && es@[a].0 == '+',
                forall|a: int|
                    0 <= a < es@.len() ==> !(#[trigger] es@[a]).2 ==> es@[a].1 < self.disabled@.len()
                        && es@[a].0 == '-',
                forall|a: int, b: int| 0 <= a < b < es@.len() ==> seq_lt(self.entry_view(es@[a]).1, self.entry_view(es@[b]).1),
                forall|e: (char, Seq<char>)|
                    #[trigger] summary_entries(self@).contains(e) ==> ((e.0 == '+' && pass >= 1) || (
                    e.0 == '-' && pass >= 2) <==> exists|a: int| 0 <= a < es@.len() && self.entry_view(es@[a]) == e),
                forall|a: int| 0 <= a < es@.len() ==> summary_entries(self@).contains(#[trigger] self.entry_view(es@[a])),
            decreases 2 - pass,
        {
            let from_enabled = pass == 0;
            let n = if from_enabled {
                self.enabled.len()
            } else {
                self.disabled.len()
            };
            let mut i: usize = 0;
            while i < n
                invariant
                    self.wf(),
                    0 <= pass < 2,
                    from_enabled == (pass == 0),
                    n == if from_enabled {
                        self.enabled@.len()
                    } else {
                        self.disabled@.len()
                    },
                    0 <= i <= n,
                    forall|a: int|
                        0 <= a < es@.len() ==> (#[trigger] es@[a]).2 ==> es@[a].1 < self.enabled@.len()
                            && es@[a].0 == '+',
                    forall|a: int|
                        0 <= a < es@.len() ==> !(#[trigger] es@[a]).2 ==> es@[a].1 < self.disabled@.len()
                            && es@[a].0 == '-',
                    forall|a: int, b: int|
                        0 <= a < b < es@.len() ==> seq_lt(self.entry_view(es@[a]).1, self.entry_view(es@[b]).1),
                    forall|e: (char, Seq<char>)|
                        #[trigger] summary_entries(self@).contains(e) ==> ((e.0 == '+' && (pass >= 1
                            || (from_enabled && exists|k: int| 0 <= k < i && self.enabled@[k]@ == e.1)))
                            || (e.0 == '-' && (pass >= 2 || (!from_enabled && exists|k: int|
                            0 <= k < i && self.disabled@[k]@ == e.1))) <==> exists|a: int|
                            0 <= a < es@.len() && self.entry_view(es@[a]) == e),
                    forall|a: int| 0 <= a < es@.len() ==> summary_entries(self@).contains(#[trigger] self.entry_view(es@[a])),
                decreases n - i,
            {
                let entry: (char, usize, bool) = if from_enabled {
                    ('+', i, true)
                } else {
                    ('-', i, false)
                };
                let name: &str = if from_enabled {
                    self.enabled[i].as_str()
                } else {
                    self.disabled[i].as_str()
                };
                assert(self.entry_view(entry).1 == name@);
                let mut p: usize = 0;
                while p < es.len() && name_before(self.entry_name(es[p]), name)
                    invariant
                        0 <= p <= es@.len(),
                        forall|a: int|
                            0 <= a < es@.len() ==> (#[trigger] es@[a]).2 ==> es@[a].1 < self.enabled@.len(),
                        forall|a: int|
                            0 <= a < es@.len() ==> !(#[trigger] es@[a]).2 ==> es@[a].1 < self.disabled@.len(),
                        forall|a: int| 0 <= a < p ==> seq_lt(self.entry_view(es@[a]).1, name@),
                    decreases es@.len() - p,
                {
                    p = p + 1;
                }
                proof {
                    // The name is new: no entry so far carries it.
                    assert forall|a: int| 0 <= a < es@.len() implies self.entry_view(es@[a]).1 != name@ by {
                        let e = self.entry_view(es@[a]);
                        assert(summary_entries(self@).contains(e));
                        if e.1 == name@ {
                            if from_enabled {
                                // Either an earlier enabled name (distinct) or nothing else.
                                assert(e.0 == '+');
                                let k = choose|k: int| 0 <= k < i && self.enabled@[k]@ == e.1;
                                assert(self.enabled@[k]@ == self.enabled@[i as int]@);
                            } else {
                                if e.0 == '+' {
                                    assert(self@.enabled.contains(name@));
                                    assert(self@.disabled.contains(name@));
                                } else {
                                    let k = choose|k: int| 0 <= k < i && self.disabled@[k]@ == e.1;
                                    assert(self.disabled@[k]@ == self.disabled@[i as int]@);
                                }
                            }
                        }
                    }
                }
                let ghost before = es@;
                es.insert(p, entry);
                proof {
                    assert(es@ =~= before.insert(p as int, entry));
                    if p < before.len() {
                        let e = self.entry_view(before[p as int]);
                        assert(!seq_lt(e.1, name@));
                        assert(e.1 != name@);
                        crate::text::lemma_seq_lt_total(e.1, name@);
                    }
                    assert forall|a: int, b: int| 0 <= a < b < es@.len() implies seq_lt(self.entry_view(es@[a]).1, self.entry_view(es@[b]).1) by {
                        if b < p {
                            assert(es@[a] == before[a] && es@[b] == before[b]);
                        } else if a > p {
                            assert(es@[a] == before[a - 1] && es@[b] == before[b - 1]);
                        } else if a < p && b > p {
                            assert(es@[a] == before[a] && es@[b] == before[b - 1]);
                            let m = self.entry_view(before[p as int]).1;
                            if b - 1 > p {
                                assert(seq_lt(m, self.entry_view(before[b - 1]).1));
                            }
                            crate::text::lemma_seq_lt_transitive(self.entry_view(es@[a]).1, name@, m);
                            if b - 1 > p {
                                crate::text::lemma_seq_lt_transitive(self.entry_view(es@[a]).1, m, self.entry_view(es@[b]).1);
                            }
                        } else if b == p {
                            assert(es@[a] == before[a]);
                        } else {
                            assert(es@[b] == before[b - 1]);
                            let m = self.entry_view(before[p as int]).1;
                            if b - 1 > p {
                                assert(seq_lt(m, self.entry_view(before[b - 1]).1));
                                crate::text::lemma_seq_lt_transitive(name@, m, self.entry_view(es@[b]).1);
                            }
                        }
                    }
                    assert(summary_entries(self@).contains(self.entry_view(entry))) by {
                        if from_enabled {
                            assert(self@.enabled.contains(self.enabled@[i as int]@));
                        } else {
                            assert(self@.disabled.contains(self.disabled@[i as int]@));
                        }
                    }
                    assert forall|a: int| 0 <= a < es@.len() implies summary_entries(self@).contains(#[trigger] self.entry_view(es@[a])) by {
                        if a < p {
                            assert(es@[a] == before[a]);
                        } else if a > p {
                            assert(es@[a] == before[a - 1]);
                        }
                    }
                    assert forall|e: (char, Seq<char>)|
                        #[trigger] summary_entries(self@).contains(e) implies ((e.0 == '+' && (pass >= 1
                            || (from_enabled && exists|k: int| 0 <= k < i + 1 && self.enabled@[k]@ == e.1)))
                            || (e.0 == '-' && (pass >= 2 || (!from_enabled && exists|k: int|
                            0 <= k < i + 1 && self.disabled@[k]@ == e.1))) <==> exists|a: int|
                            0 <= a < es@.len() && self.entry_view(es@[a]) == e) by {
                        if exists|a: int| 0 <= a < es@.len() && self.entry_view(es@[a]) == e {
                            let a = choose|a: int| 0 <= a < es@.len() && self.entry_view(es@[a]) == e;
                            if a < p {
                                assert(es@[a] == before[a]);
                            } else if a > p {
                                assert(es@[a] == before[a - 1]);
                            } else {
                                if from_enabled {
                                    assert(self.enabled@[i as int]@ == e.1);
                                } else {
                                    assert(self.disabled@[i as int]@ == e.1);
                                }
                            }
                        }
                        let was = exists|a: int| 0 <= a < before.len() && self.entry_view(before[a]) == e;
                        if was {
                            let a = choose|a: int| 0 <= a < before.len() && self.entry_view(before[a]) == e;
                            if a < p {
                                assert(es@[a] == before[a]);
                            } else {
                                assert(es@[a + 1] == before[a]);
                            }
                        }
                        if self.entry_view(entry) == e {
                            assert(es@[p as int] == entry);
                        }
                    }
                }
                i = i + 1;
            }
            proof {
                assert forall|e: (char, Seq<char>)| #[trigger] summary_entries(self@).contains(e) implies ((e.0 == '+'
                    && pass + 1 >= 1) || (e.0 == '-' && pass + 1 >= 2) <==> exists|a: int|
                    0 <= a < es@.len() && self.entry_view(es@[a]) == e) by {
                    if from_enabled && e.0 == '+' {
                        assert(self@.enabled.contains(e.1));
                        let k = choose|k: int| 0 <= k < self.enabled@.len() && self.enabled@[k]@ == e.1;
                    }
                    if !from_enabled && e.0 == '-' {
                        assert(self@.disabled.contains(e.1));
                        let k = choose|k: int| 0 <= k < self.disabled@.len() && self.disabled@[k]@ == e.1;
                    }
                }
            }
            pass = pass + 1;
        }
        // Write the entries out.
        let ghost names = Seq::new(es@.len(), |a: int| self.entry_view(es@[a]));
        let mut out = String::new();
        let mut q: usize = 0;
        while q < es.len()
            invariant
                0 <= q <= es@.len(),
                names == Seq::new(es@.len(), |a: int| self.entry_view(es@[a])),
                forall|a: int| 0 <= a < es@.len() ==> (#[trigger] es@[a]).2 ==> es@[a].1 < self.enabled@.len(),
                forall|a: int| 0 <= a < es@.len() ==> !(#[trigger] es@[a]).2 ==> es@[a].1 < self.disabled@.len(),
                out@ == render_entries(names.subrange(0, q as int)),
            decreases es@.len() - q,
        {
            let (c, _, _) = es[q];
            if q != 0 {
                push_char(&mut out, ' ');
            }
            push_char(&mut out, c);
            push_str(&mut out, self.entry_name(es[q]));
            proof {
                let s = names.subrange(0, q + 1);
                assert(s.drop_last() =~= names.subrange(0, q as int));
                if q == 0 {
                    assert(out@ =~= seq![s[0].0] + s[0].1);
                } else {
                    assert(out@ =~= render_entries(s.drop_last()) + seq![' ', s.last().0] + s.last().1);
                }
            }
            q = q + 1;
        }
        proof {
            assert(names.subrange(0, es@.len() as int) =~= names);
            assert(entries_sorted(names));
            assert forall|e: (char, Seq<char>)| names.to_set().contains(e) == summary_entries(self@).contains(e) by {
                if names.to_set().contains(e) {
                    let a = choose|a: int| 0 <= a < names.len() && names[a] == e;
                }
                if summary_entries(self@).contains(e) {
                    let a = choose|a: int| 0 <= a < es@.len() && self.entry_view(es@[a]) == e;
                    assert(names[a] == e);
                }
            }
            assert(names.to_set() =~= summary_entries(self@));
        }
        out
    }

    /// An entry of the summary: its sign and the name it refers to.
    spec fn entry_view(&self, x: (char, usize, bool)) -> (char, Seq<char>) {
        if x.2 {
            (x.0, self.enabled@[x.1 as int]@)
        } else {
            (x.0, self.disabled@[x.1 as int]@)
        }
    }

    /// The name an entry of the summary refers to.
    fn entry_name(&self, e: (char, usize, bool)) -> (r: &str)
        requires
            e.2 ==> e.1 < self.enabled@.len(),
            !e.2 ==> e.1 < self.disabled@.len(),
        ensures
            r@ == if e.2 {
                self.enabled@[e.1 as int]@
            } else {
                self.disabled@[e.1 as int]@
            },
    {
        if e.2 {
            self.enabled[e.1].as_str()
        } else {
            self.disabled[e.1].as_str()
        }
    }
}

/// Whether `a` sorts before `b`.
fn name_before(a: &str, b: &str) -> (r: bool)
    ensures
        r == seq_lt(a@, b@),
{
    let ca = crate::text::chars_of(a);
    let cb = crate::text::chars_of(b);
    crate::text::compare_chars(ca.as_slice(), cb.as_slice()) == -1
}

/// Whether every name of `a` is in `b`.
fn all_in(a: &Vec<String>, b: &Vec<String>) -> (r: bool)
    ensures
        r == (forall|n: Seq<char>| name_set(a@).contains(n) ==> name_set(b@).contains(n)),
{
    let mut i: usize = 0;
    while i < a.len()
        invariant
            0 <= i <= a@.len(),
            forall|j: int| 0 <= j < i ==> name_set(b@).contains(#[trigger] a@[j]@),
        decreases a@.len() - i,
    {
        match find_name(b, a[i].as_str()) {
            None => {
                assert(name_set(a@).contains(a@[i as int]@));
                return false;
            },
            Some(_) => {},
        }
        i = i + 1;
    }
    assert forall|n: Seq<char>| name_set(a@).contains(n) implies name_set(b@).contains(n) by {
        let j = choose|j: int| 0 <= j < a@.len() && a@[j]@ == n;
    }
    true
}

/// A copy of a list of names.
fn copy_names(v: &Vec<String>) -> (r: Vec<String>)
    ensures
        r@.len() == v@.len(),
        forall|i: int| 0 <= i < v@.len() ==> r@[i]@ == v@[i]@,
{
    let mut r: Vec<String> = Vec::new();
    let mut i: usize = 0;
    while i < v.len()
        invariant
            0 <= i <= v@.len(),
            r@.len() == i,
            forall|k: int| 0 <= k < i ==> r@[k]@ == v@[k]@,
        decreases v@.len() - i,
    {
        r.push(owned(v[i].as_str()));
        i = i + 1;
    }
    r
}

impl TagSet {
    /// A copy of the selection.
    pub fn copy(&self) -> (r: TagSet)
        requires
            self.wf(),
        ensures
            r.wf(),
            r@ == self@,
    {
        let r = TagSet { enabled: copy_names(&self.enabled), disabled: copy_names(&self.disabled) };
        assert(name_set(r.enabled@) =~= name_set(self.enabled@)) by {
            assert forall|n: Seq<char>| name_set(r.enabled@).contains(n) == name_set(self.enabled@).contains(n) by {
                if name_set(r.enabled@).contains(n) {
                    let i = choose|i: int| 0 <= i < r.enabled@.len() && r.enabled@[i]@ == n;
                }
                if name_set(self.enabled@).contains(n) {
                    let i = choose|i: int| 0 <= i < self.enabled@.len() && self.enabled@[i]@ == n;
                    assert(r.enabled@[i]@ == n);
                }
            }
        }
        assert(name_set(r.disabled@) =~= name_set(self.disabled@)) by {
            assert forall|n: Seq<char>| name_set(r.disabled@).contains(n) == name_set(self.disabled@).contains(n) by {
                if name_set(r.disabled@).contains(n) {
                    let i = choose|i: int| 0 <= i < r.disabled@.len() && r.disabled@[i]@ == n;
                }
                if name_set(self.disabled@).contains(n) {
                    let i = choose|i: int| 0 <= i < self.disabled@.len() && self.disabled@[i]@ == n;
                    assert(r.disabled@[i]@ == n);
                }
            }
        }
        r
    }

    /// Whether two selections require and exclude the same names.
    pub fn same_selection(&self, other: &TagSet) -> (r: bool)
        ensures
            r == (self@ == other@),
    {
        let r = all_in(&self.enabled, &other.enabled) && all_in(&other.enabled, &self.enabled)
            && all_in(&self.disabled, &other.disabled) && all_in(&other.disabled, &self.disabled);
        proof {
            if r {
                assert(self@.enabled =~= other@.enabled);
                assert(self@.disabled =~= other@.disabled);
            }
        }
        r
    }
}

} // verus!
