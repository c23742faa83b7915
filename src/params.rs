//! The parameter set handed to every render call.
use crate::error::Error;
use crate::text::{chars_of, string_of};
use vstd::prelude::*;

verus! {

/// The reserved parameter that always holds the project name.
pub const PROJECT_NAME: &'static str = "PROJECT_NAME";

/// No character of `s` is the separator `:`.
pub open spec fn colon_free(s: Seq<char>) -> bool {
    forall|j: int| 0 <= j < s.len() ==> s[j] != ':'
}

/// Index `i` holds the first `:` of `s`.
pub open spec fn is_first_colon(s: Seq<char>, i: int) -> bool {
    0 <= i < s.len() && s[i] == ':' && colon_free(s.take(i))
}

/// The raw entry is well formed: it holds a `:`.
pub open spec fn well_formed_entry(s: Seq<char>) -> bool {
    !colon_free(s)
}

/// The position of the first `:` of a well-formed entry.
pub open spec fn first_colon(s: Seq<char>) -> int {
    choose|i: int| is_first_colon(s, i)
}

/// The key of a well-formed entry: everything before the first `:`.
pub open spec fn key_of(s: Seq<char>) -> Seq<char> {
    s.take(first_colon(s))
}

/// The value of a well-formed entry: everything after the first `:`.
pub open spec fn value_of(s: Seq<char>) -> Seq<char> {
    s.skip(first_colon(s) + 1)
}

/// The mapping that the entries give when inserted in order, a later entry
/// replacing an earlier one with the same key.
pub open spec fn entries_map(raw: Seq<Seq<char>>) -> Map<Seq<char>, Seq<char>>
    decreases raw.len(),
{
    if raw.len() == 0 {
        Map::empty()
    } else {
        entries_map(raw.drop_last()).insert(key_of(raw.last()), value_of(raw.last()))
    }
}

/// The parameter set built from the raw entries and the project name.
pub open spec fn parameters_of(raw: Seq<Seq<char>>, project_name: Seq<char>) -> Map<
    Seq<char>,
    Seq<char>,
> {
    entries_map(raw).insert(PROJECT_NAME@, project_name)
}

/// The views of a list of strings.
pub open spec fn views_of(v: Seq<String>) -> Seq<Seq<char>> {
    v.map_values(|s: String| s@)
}

/// The first `:` of an entry is where `is_first_colon` says it is.
pub proof fn lemma_first_colon(s: Seq<char>, i: int)
    requires
        is_first_colon(s, i),
    ensures
        first_colon(s) == i,
        well_formed_entry(s),
{
    let j = first_colon(s);
    assert(is_first_colon(s, j));
    if j < i {
        assert(s.take(i)[j] == ':');
    } else if i < j {
        assert(s.take(j)[i] == ':');
    }
    assert(s[i] == ':');
}

/// Splits a raw `KEY:VALUE` entry at its first `:`. An entry without `:` is
/// rejected, naming the entry.
pub fn parse_parameter(entry: &str) -> (r: Result<(String, String), Error>)
    ensures
        r is Ok <==> well_formed_entry(entry@),
        r matches Ok((k, v)) ==> k@ == key_of(entry@) && v@ == value_of(entry@),
        r matches Err(e) ==> (e matches Error::MalformedParameter { entry: x } && x@ == entry@),
{
    let cs = chars_of(entry);
    let mut i: usize = 0;
    while i < cs.len()
        invariant
            0 <= i <= cs@.len(),
            cs@ == entry@,
            colon_free(cs@.take(i as int)),
        decreases cs@.len() - i,
    {
        if cs[i] == ':' {
            proof {
                lemma_first_colon(entry@, i as int);
            }
            let key = string_of(cs.as_slice(), 0, i);
            let value = string_of(cs.as_slice(), i + 1, cs.len());
            assert(key@ =~= key_of(entry@));
            assert(value@ =~= value_of(entry@));
            return Ok((key, value));
        }
        i = i + 1;
        assert(colon_free(cs@.take(i as int))) by {
            assert forall|j: int| 0 <= j < i implies cs@.take(i as int)[j] != ':' by {
                if j < i - 1 {
                    assert(cs@.take(i - 1)[j] == cs@[j]);
                }
            }
        }
    }
    assert(cs@.take(i as int) =~= entry@);
    Err(Error::MalformedParameter { entry: entry.to_owned() })
}

/// Whatever the well-formed entries say, the built set binds `PROJECT_NAME`
/// to the project name.
pub proof fn lemma_project_name_always_bound(raw: Seq<Seq<char>>, project_name: Seq<char>)
    requires
        forall|i: int| 0 <= i < raw.len() ==> well_formed_entry(#[trigger] raw[i]),
    ensures
        parameters_of(raw, project_name).contains_key(PROJECT_NAME@),
        parameters_of(raw, project_name)[PROJECT_NAME@] == project_name,
{
}

/// A mapping from parameter names to values, with each name at most once.
pub struct ParameterSet {
    entries: Vec<(String, String)>,
    model: Ghost<Map<Seq<char>, Seq<char>>>,
}

impl View for ParameterSet {
    type V = Map<Seq<char>, Seq<char>>;

    closed spec fn view(&self) -> Map<Seq<char>, Seq<char>> {
        self.model@
    }
}

impl ParameterSet {
    /// The entries hold each key once, and exactly the pairs of the view.
    pub closed spec fn wf(&self) -> bool {
        &&& forall|i: int, j: int|
            0 <= i < j < self.entries@.len() ==> self.entries@[i].0@ != self.entries@[j].0@
        &&& forall|i: int|
            0 <= i < self.entries@.len() ==> #[trigger] self.model@.contains_key(
                self.entries@[i].0@,
            ) && self.model@[self.entries@[i].0@] == self.entries@[i].1@
        &&& forall|k: Seq<char>|
            #[trigger] self.model@.contains_key(k) ==> exists|i: int|
                0 <= i < self.entries@.len() && self.entries@[i].0@ == k
    }

    /// The pairs of the set, each key once.
    pub closed spec fn pairs(&self) -> Seq<(String, String)> {
        self.entries@
    }

    /// An empty parameter set.
    pub fn new() -> (r: ParameterSet)
        ensures
            r.wf(),
            r@ == Map::<Seq<char>, Seq<char>>::empty(),
    {
        ParameterSet { entries: Vec::new(), model: Ghost(Map::empty()) }
    }

    /// The parameter set of the raw `KEY:VALUE` entries, inserted in order, and
    /// then of `PROJECT_NAME` bound to the project name, so that the project
    /// name wins over any entry of that key. The first entry without `:` is
    /// rejected.
    pub fn from_entries(raw: &Vec<String>, project_name: &str) -> (r: Result<ParameterSet, Error>)
        ensures
            r is Ok <==> forall|i: int| 0 <= i < raw@.len() ==> well_formed_entry(#[trigger] raw@[i]@),
            r matches Ok(p) ==> p.wf() && p@ == parameters_of(views_of(raw@), project_name@),
            r matches Err(e) ==> exists|i: int|
                0 <= i < raw@.len() && !well_formed_entry(raw@[i]@) && (forall|j: int|
                    0 <= j < i ==> well_formed_entry(#[trigger] raw@[j]@)) && (e matches Error::MalformedParameter { entry: x } && x@ == raw@[i]@),
    {
        let mut p = ParameterSet::new();
        let mut i: usize = 0;
        while i < raw.len()
            invariant
                0 <= i <= raw@.len(),
                p.wf(),
                p@ == entries_map(views_of(raw@).take(i as int)),
                forall|j: int| 0 <= j < i ==> well_formed_entry(#[trigger] raw@[j]@),
            decreases raw@.len() - i,
        {
            match parse_parameter(raw[i].as_str()) {
                Ok((k, v)) => {
                    p.insert(k, v);
                    let ghost t = views_of(raw@).take(i + 1);
                    assert(t.drop_last() =~= views_of(raw@).take(i as int));
                    assert(t.last() == raw@[i as int]@);
                },
                Err(e) => {
                    return Err(e);
                },
            }
            i = i + 1;
        }
        assert(views_of(raw@).take(i as int) =~= views_of(raw@));
        p.insert(PROJECT_NAME.to_owned(), project_name.to_owned());
        Ok(p)
    }

    /// The pairs of the set, each key once.
    pub fn entries(&self) -> (r: &Vec<(String, String)>)
        ensures
            r@ == self.pairs(),
    {
        &self.entries
    }

    /// Binds `key` to `value`, replacing an earlier binding of `key`.
    pub fn insert(&mut self, key: String, value: String)
        requires
            old(self).wf(),
        ensures
            final(self).wf(),
            final(self)@ == old(self)@.insert(key@, value@),
    {
        let ghost k = key@;
        let ghost v = value@;
        let mut i: usize = 0;
        while i < self.entries.len()
            invariant
                0 <= i <= self.entries@.len(),
                forall|j: int| 0 <= j < i ==> self.entries@[j].0@ != k,
                key@ == k,
                value@ == v,
                self == old(self),
                self.wf(),
            decreases self.entries@.len() - i,
        {
            if self.entries[i].0 == key {
                self.entries.set(i, (key, value));
                self.model = Ghost(self.model@.insert(k, v));
                proof {
                    assert forall|kk: Seq<char>| #[trigger] self.model@.contains_key(kk) implies exists|j: int|
                        0 <= j < self.entries@.len() && self.entries@[j].0@ == kk by {
                        if kk != k {
                            let j = choose|j: int|
                                0 <= j < old(self).entries@.len() && old(self).entries@[j].0@ == kk;
                            assert(self.entries@[j].0@ == kk);
                        } else {
                            assert(self.entries@[i as int].0@ == kk);
                        }
                    }
                }
                return;
            }
            i = i + 1;
        }
        self.entries.push((key, value));
        self.model = Ghost(self.model@.insert(k, v));
        proof {
            let n = (self.entries@.len() - 1) as int;
            assert(self.entries@[n].0@ == k);
            assert forall|kk: Seq<char>| #[trigger] self.model@.contains_key(kk) implies exists|j: int|
                0 <= j < self.entries@.len() && self.entries@[j].0@ == kk by {
                if kk != k {
                    let j = choose|j: int|
                        0 <= j < old(self).entries@.len() && old(self).entries@[j].0@ == kk;
                    assert(self.entries@[j].0@ == kk);
                }
            }
        }
    }

    /// The value bound to `key`, if any.
    pub fn get(&self, key: &str) -> (r: Option<String>)
        requires
            self.wf(),
        ensures
            r is None <==> !self@.contains_key(key@),
            r matches Some(v) ==> v@ == self@[key@],
    {
        let wanted = key.to_owned();
        let mut i: usize = 0;
        while i < self.entries.len()
            invariant
                0 <= i <= self.entries@.len(),
                wanted@ == key@,
                self.wf(),
                forall|j: int| 0 <= j < i ==> self.entries@[j].0@ != key@,
            decreases self.entries@.len() - i,
        {
            if self.entries[i].0 == wanted {
                assert(self@.contains_key(self.entries@[i as int].0@));
                return Some(self.entries[i].1.clone());
            }
            i = i + 1;
        }
        None
    }
}

} // verus!
