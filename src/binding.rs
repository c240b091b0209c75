use vstd::prelude::*;

verus! {

/// The per-render table from fully-qualified identifier to handler.
pub struct BindingTable<H> {
    entries: Vec<(String, H)>,
}

impl<H> View for BindingTable<H> {
    type V = Seq<(Seq<char>, H)>;

    closed spec fn view(&self) -> Seq<(Seq<char>, H)> {
        self.entries@.map_values(|e: (String, H)| (e.0@, e.1))
    }
}

impl<H> BindingTable<H> {
    /// The identifiers bound, in the order they were inserted.
    pub open spec fn keys(&self) -> Seq<Seq<char>> {
        self@.map_values(|e: (Seq<char>, H)| e.0)
    }

    /// No identifier is bound twice.
    pub open spec fn wf(&self) -> bool {
        self.keys().no_duplicates()
    }

    /// `id` is bound to `h`.
    pub open spec fn binds(&self, id: Seq<char>, h: H) -> bool {
        exists|i: int| 0 <= i < self@.len() && #[trigger] self@[i] == (id, h)
    }

    pub fn new() -> (r: Self)
        ensures
            r@ == Seq::<(Seq<char>, H)>::empty(),
            r.wf(),
    {
        BindingTable { entries: Vec::new() }
    }

    /// Drops every binding; called at the start of each render pass.
    pub fn clear(&mut self)
        ensures
            final(self)@ == Seq::<(Seq<char>, H)>::empty(),
            final(self).wf(),
    {
        self.entries = Vec::new();
    }

    pub fn len(&self) -> (n: usize)
        ensures
            n == self@.len(),
    {
        self.entries.len()
    }

    /// Binds `id` to `h`. Binding an identifier twice in one pass is a
    /// construction error, which callers rule out before inserting.
    pub fn insert(&mut self, id: String, h: H)
        requires
            !old(self).keys().contains(id@),
        ensures
            final(self)@ == old(self)@.push((id@, h)),
            old(self).wf() ==> final(self).wf(),
    {
        let ghost old_keys = self.keys();
        proof {
            assert(self@.push((id@, h)) =~= self.entries@.push((id, h)).map_values(
                |e: (String, H)| (e.0@, e.1),
            ));
        }
        self.entries.push((id, h));
        proof {
            assert(self.keys() =~= old_keys.push(id@));
            assert forall|i: int, j: int|
                0 <= i < self.keys().len() && 0 <= j < self.keys().len() && i != j && old_keys.no_duplicates()
                implies self.keys()[i] != self.keys()[j] by {
                if i == old_keys.len() {
                    assert(old_keys[j] == self.keys()[j]);
                } else if j == old_keys.len() {
                    assert(old_keys[i] == self.keys()[i]);
                }
            }
        }
    }

    /// The handler bound to `id`, if any; the binding stays in place.
    pub fn resolve(&self, id: &String) -> (r: Option<&H>)
        ensures
            r.is_some() <==> self.keys().contains(id@),
            r.is_some() ==> self.binds(id@, *r.unwrap()),
    {
        let mut i: usize = 0;
        while i < self.entries.len()
            invariant
                i <= self.entries@.len(),
                forall|j: int| 0 <= j < i ==> self.keys()[j] != id@,
            decreases self.entries@.len() - i,
        {
            if self.entries[i].0 == *id {
                proof {
                    assert(self.keys()[i as int] == id@);
                    assert(self@[i as int] == (id@, self.entries@[i as int].1));
                }
                return Some(&self.entries[i].1);
            }
            i = i + 1;
        }
        proof {
            assert forall|j: int| 0 <= j < self.keys().len() implies self.keys()[j] != id@ by {}
        }
        None
    }
}

} // verus!
