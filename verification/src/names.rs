//! Output names and sets of them.

use vstd::prelude::*;

verus! {

/// Whether two names are the same.
pub fn same_name(a: &str, b: &str) -> (same: bool)
    ensures
        same == (a@ == b@),
{
    a.to_owned() == b.to_owned()
}

/// What an optional name says, as characters.
pub open spec fn opt_view(name: Option<String>) -> Option<Seq<char>> {
    match name {
        Some(n) => Some(n@),
        None => None,
    }
}

/// What an optional borrowed name says, as characters.
pub open spec fn opt_str_view(name: Option<&str>) -> Option<Seq<char>> {
    match name {
        Some(n) => Some(n@),
        None => None,
    }
}

/// Whether an optional name is there and is `name`.
pub fn is_named(candidate: &Option<String>, name: &str) -> (named: bool)
    ensures
        named == (opt_view(*candidate) == Some(name@)),
{
    match candidate {
        Some(n) => same_name(n.as_str(), name),
        None => false,
    }
}

/// Whether two optional names are both absent, or both there and the same.
pub fn same_opt_name(a: &Option<String>, b: &Option<String>) -> (same: bool)
    ensures
        same == (opt_view(*a) == opt_view(*b)),
{
    match a {
        Some(n) => is_named(b, n.as_str()),
        None => match b {
            Some(_) => false,
            None => true,
        },
    }
}

/// A copy of an optional name.
pub fn clone_opt_name(name: &Option<String>) -> (copy: Option<String>)
    ensures
        opt_view(copy) == opt_view(*name),
{
    match name {
        Some(n) => Some(n.clone()),
        None => None,
    }
}

/// Borrow an optional name.
pub fn opt_as_str(name: &Option<String>) -> (borrowed: Option<&str>)
    ensures
        opt_str_view(borrowed) == opt_view(*name),
{
    match name {
        Some(n) => Some(n.as_str()),
        None => None,
    }
}

/// A set of output names. No name is held twice.
#[derive(Debug)]
pub struct NameSet {
    names: Vec<String>,
}

impl View for NameSet {
    type V = Set<Seq<char>>;

    closed spec fn view(&self) -> Set<Seq<char>> {
        spelled(self.names@).to_set()
    }
}

/// The names as characters, in order.
spec fn spelled(names: Seq<String>) -> Seq<Seq<char>> {
    names.map_values(|name: String| name@)
}

impl NameSet {
    #[verifier::type_invariant]
    spec fn distinct(self) -> bool {
        spelled(self.names@).no_duplicates()
    }

    /// The empty set.
    pub fn new() -> (set: NameSet)
        ensures
            set@ == Set::<Seq<char>>::empty(),
    {
        let set = NameSet { names: Vec::new() };
        assert(set@ =~= Set::<Seq<char>>::empty());
        set
    }

    /// Whether the set holds `name`.
    pub fn contains(&self, name: &str) -> (found: bool)
        ensures
            found == self@.contains(name@),
    {
        let mut i: usize = 0;
        while i < self.names.len()
            invariant
                i <= self.names.len(),
                forall|j: int| 0 <= j < i ==> (#[trigger] self.names[j])@ != name@,
            decreases self.names.len() - i,
        {
            if same_name(self.names[i].as_str(), name) {
                assert(spelled(self.names@)[i as int] == name@);
                return true;
            }
            i = i + 1;
        }
        false
    }

    /// Add `name`, which changes nothing where the set holds it already.
    pub fn insert(&mut self, name: String)
        ensures
            final(self)@ == old(self)@.insert(name@),
    {
        let known = self.contains(name.as_str());
        if known {
            assert(self@ =~= old(self)@.insert(name@));
        } else {
            proof {
                use_type_invariant(&*self);
            }
            let ghost before = spelled(self.names@);
            let ghost spelling = name@;
            let mut names: Vec<String> = Vec::new();
            std::mem::swap(&mut names, &mut self.names);
            names.push(name);
            proof {
                let after = spelled(names@);
                assert(after =~= before.push(spelling));
                assert(after[before.len() as int] == spelling);
                assert forall|n: Seq<char>| #[trigger]
                    after.contains(n) == before.to_set().insert(spelling).contains(n) by {
                    if before.contains(n) {
                        let i = choose|i: int| 0 <= i < before.len() && before[i] == n;
                        assert(after[i] == n);
                    }
                }
                assert(after.to_set() =~= before.to_set().insert(spelling));
            }
            self.names = names;
        }
    }

    /// The number of names.
    pub fn len(&self) -> (len: usize)
        ensures
            len == self@.len(),
    {
        proof {
            use_type_invariant(self);
            spelled(self.names@).unique_seq_to_set();
        }
        self.names.len()
    }

    /// Whether the set holds no name.
    pub fn is_empty(&self) -> (empty: bool)
        ensures
            empty == (self@ == Set::<Seq<char>>::empty()),
    {
        proof {
            if self.names.len() == 0 {
                assert(self@ =~= Set::<Seq<char>>::empty());
            } else {
                assert(self@.contains(spelled(self.names@)[0]));
            }
        }
        self.names.len() == 0
    }
}

impl Clone for NameSet {
    fn clone(&self) -> (copy: Self)
        ensures
            copy@ == self@,
    {
        let mut names: Vec<String> = Vec::new();
        let mut i: usize = 0;
        while i < self.names.len()
            invariant
                i <= self.names.len(),
                names.len() == i,
                forall|j: int| 0 <= j < i ==> (#[trigger] names[j])@ == self.names[j]@,
            decreases self.names.len() - i,
        {
            names.push(self.names[i].clone());
            i = i + 1;
        }
        proof {
            use_type_invariant(self);
            assert(spelled(names@) =~= spelled(self.names@));
        }
        NameSet { names }
    }
}

} // verus!
