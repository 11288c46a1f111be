use vstd::prelude::*;

verus! {

/// The mapping that a list of bindings denotes: a later binding of a name hides earlier ones.
pub open spec fn bindings_map<T: View>(s: Seq<(String, T)>) -> Map<Seq<char>, T::V>
    decreases s.len(),
{
    if s.len() == 0 {
        Map::empty()
    } else {
        bindings_map(s.drop_last()).insert(s.last().0@, s.last().1@)
    }
}

/// A mapping from names to values, kept as a list of bindings in the order they were made.
#[derive(Debug, Clone)]
pub struct NameTable<T> {
    entries: Vec<(String, T)>,
}

impl<T: View> View for NameTable<T> {
    type V = Map<Seq<char>, T::V>;

    closed spec fn view(&self) -> Map<Seq<char>, T::V> {
        bindings_map(self.entries@)
    }
}

impl<T: View> NameTable<T> {
    pub fn new() -> (r: Self)
        ensures
            r@ == Map::<Seq<char>, T::V>::empty(),
    {
        NameTable { entries: Vec::new() }
    }

    /// Binds `name` to `value`, replacing any earlier binding of it.
    pub fn insert(&mut self, name: String, value: T)
        ensures
            final(self)@ == old(self)@.insert(name@, value@),
    {
        let ghost old_entries = self.entries@;
        self.entries.push((name, value));
        proof {
            assert(self.entries@.drop_last() =~= old_entries);
        }
    }

    /// The value bound to `name`, if any.
    pub fn get(&self, name: &String) -> (r: Option<&T>)
        ensures
            match r {
                Some(v) => self@.contains_key(name@) && self@[name@] == v@,
                None => !self@.contains_key(name@),
            },
    {
        let ghost s = self.entries@;
        let mut i = self.entries.len();
        proof {
            assert(s.take(i as int) =~= s);
        }
        while i > 0
            invariant
                i <= s.len(),
                s == self.entries@,
                bindings_map(s.take(i as int)).contains_key(name@) == bindings_map(s).contains_key(
                    name@,
                ),
                bindings_map(s.take(i as int)).contains_key(name@) ==> bindings_map(s.take(i as int))[name@]
                    == bindings_map(s)[name@],
            decreases i,
        {
            proof {
                assert(s.take(i as int).drop_last() =~= s.take(i - 1));
            }
            if self.entries[i - 1].0 == *name {
                return Some(&self.entries[i - 1].1);
            }
            i -= 1;
        }
        proof {
            assert(s.take(0) =~= Seq::<(String, T)>::empty());
        }
        None
    }
}

} // verus!
