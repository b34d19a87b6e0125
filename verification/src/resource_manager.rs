//! Named registries of the loaded shaders and textures.
//!
//! Loading is done by the caller; a registry keeps the first resource stored
//! under each name and hands it out again on every later request for that name.

use vstd::prelude::*;
use crate::shader::Shader;
use crate::texture::Texture2D;

verus! {

/// The map that a sequence of named entries describes (later entries win, though in a
/// registry names never repeat).
pub open spec fn entry_map<T>(s: Seq<(Seq<char>, T)>) -> Map<Seq<char>, T>
    decreases s.len(),
{
    if s.len() == 0 {
        Map::empty()
    } else {
        entry_map(s.drop_last()).insert(s.last().0, s.last().1)
    }
}

/// No name occurs twice.
pub open spec fn names_distinct<T>(s: Seq<(Seq<char>, T)>) -> bool {
    forall|i: int, j: int| 0 <= i < s.len() && 0 <= j < s.len() && i != j ==> s[i].0 != s[j].0
}

proof fn lemma_entry_map<T>(s: Seq<(Seq<char>, T)>)
    requires
        names_distinct(s),
    ensures
        forall|i: int| 0 <= i < s.len() ==> #[trigger] entry_map(s).contains_key(s[i].0)
            && entry_map(s)[s[i].0] == s[i].1,
        forall|k: Seq<char>| #[trigger] entry_map(s).contains_key(k) ==> exists|i: int|
            0 <= i < s.len() && s[i].0 == k,
        entry_map(s).dom().finite(),
        entry_map(s).dom().len() == s.len(),
    decreases s.len(),
{
    if s.len() > 0 {
        let p = s.drop_last();
        assert(names_distinct(p));
        lemma_entry_map(p);
        assert forall|i: int| 0 <= i < s.len() implies #[trigger] entry_map(s).contains_key(s[i].0)
            && entry_map(s)[s[i].0] == s[i].1 by {
            if i < s.len() - 1 {
                assert(p[i] == s[i]);
                assert(s[i].0 != s.last().0);
            }
        }
        assert forall|k: Seq<char>| #[trigger] entry_map(s).contains_key(k) implies exists|i: int|
            0 <= i < s.len() && s[i].0 == k by {
            if k != s.last().0 {
                let i = choose|i: int| 0 <= i < p.len() && p[i].0 == k;
                assert(s[i] == p[i]);
            }
        }
        assert(!entry_map(p).contains_key(s.last().0)) by {
            if entry_map(p).contains_key(s.last().0) {
                let i = choose|i: int| 0 <= i < p.len() && p[i].0 == s.last().0;
                assert(s[i] == p[i]);
            }
        }
    }
}

/// The registry map after storing `value` under `name`: unchanged when the name is taken.
pub open spec fn stored_after<T>(m: Map<Seq<char>, T>, name: Seq<char>, value: T) -> Map<Seq<char>, T> {
    if m.contains_key(name) {
        m
    } else {
        m.insert(name, value)
    }
}

/// After a load, the name is present and names the resource stored first under it: the
/// earlier one if there was one, else the one just loaded.
pub proof fn lemma_load_then_get<T>(m: Map<Seq<char>, T>, name: Seq<char>, value: T)
    ensures
        stored_after(m, name, value).contains_key(name),
        stored_after(m, name, value)[name] == (if m.contains_key(name) {
            m[name]
        } else {
            value
        }),
{
}

/// A load leaves every other name as it was.
pub proof fn lemma_load_keeps_others<T>(m: Map<Seq<char>, T>, name: Seq<char>, value: T, other: Seq<char>)
    requires
        other != name,
    ensures
        stored_after(m, name, value).contains_key(other) == m.contains_key(other),
        m.contains_key(other) ==> stored_after(m, name, value)[other] == m[other],
{
}

/// Loading a name a second time changes nothing, whatever is loaded.
pub proof fn lemma_load_idempotent<T>(m: Map<Seq<char>, T>, name: Seq<char>, first: T, second: T)
    ensures
        stored_after(stored_after(m, name, first), name, second) == stored_after(m, name, first),
{
}

/// Resources of one kind, each under a distinct name, in the order they were stored.
pub struct Registry<T> {
    entries: Vec<(String, T)>,
}

impl<T: Copy> Registry<T> {
    /// The named entries as plain values.
    pub closed spec fn pairs(&self) -> Seq<(Seq<char>, T)> {
        Seq::new(self.entries@.len(), |i: int| (self.entries@[i].0@, self.entries@[i].1))
    }

    /// Every name is stored once.
    pub closed spec fn wf(&self) -> bool {
        names_distinct(self.pairs())
    }

    /// The name-to-resource map.
    pub closed spec fn map(&self) -> Map<Seq<char>, T> {
        entry_map(self.pairs())
    }

    /// An empty registry.
    pub fn new() -> (r: Self)
        ensures
            r.wf(),
            r.map() == Map::<Seq<char>, T>::empty(),
            r.pairs() == Seq::<(Seq<char>, T)>::empty(),
    {
        let r = Registry { entries: Vec::new() };
        assert(r.pairs() =~= Seq::empty());
        r
    }

    /// The position of `name`, if it is stored.
    fn find(&self, name: &String) -> (r: Option<usize>)
        requires
            self.wf(),
        ensures
            r is None <==> !self.map().contains_key(name@),
            r matches Some(i) ==> i < self.pairs().len() && self.pairs()[i as int].0 == name@
                && self.map()[name@] == self.pairs()[i as int].1,
    {
        proof {
            lemma_entry_map(self.pairs());
        }
        let mut i: usize = 0;
        while i < self.entries.len()
            invariant
                0 <= i <= self.entries@.len(),
                self.wf(),
                forall|j: int| 0 <= j < i ==> self.pairs()[j].0 != name@,
            decreases self.entries@.len() - i,
        {
            if self.entries[i].0 == *name {
                proof {
                    lemma_entry_map(self.pairs());
                    assert(self.pairs()[i as int].0 == name@);
                }
                return Some(i);
            }
            assert(self.pairs()[i as int].0 != name@);
            i = i + 1;
        }
        proof {
            if self.map().contains_key(name@) {
                let j = choose|j: int| 0 <= j < self.pairs().len() && self.pairs()[j].0 == name@;
            }
        }
        None
    }

    /// Whether `name` is stored.
    pub fn contains(&self, name: &String) -> (r: bool)
        requires
            self.wf(),
        ensures
            r == self.map().contains_key(name@),
    {
        self.find(name).is_some()
    }

    /// Stores `value` under `name` unless the name is taken, and returns what is stored
    /// under `name` afterwards.
    pub fn insert_if_absent(&mut self, name: String, value: T) -> (r: T)
        requires
            old(self).wf(),
        ensures
            final(self).wf(),
            final(self).map() == stored_after(old(self).map(), name@, value),
            r == final(self).map()[name@],
            final(self).pairs() == (if old(self).map().contains_key(name@) {
                old(self).pairs()
            } else {
                old(self).pairs().push((name@, value))
            }),
    {
        match self.find(&name) {
            Some(i) => self.entries[i].1,
            None => {
                let ghost old_pairs = self.pairs();
                proof {
                    lemma_entry_map(old_pairs);
                }
                self.entries.push((name, value));
                assert(self.pairs().drop_last() =~= old_pairs);
                assert(self.wf()) by {
                    assert forall|i: int, j: int|
                        0 <= i < self.pairs().len() && 0 <= j < self.pairs().len() && i != j
                        implies self.pairs()[i].0 != self.pairs()[j].0 by {
                        if i < old_pairs.len() && j < old_pairs.len() {
                            assert(self.pairs()[i] == old_pairs[i]);
                            assert(self.pairs()[j] == old_pairs[j]);
                        } else if i < old_pairs.len() {
                            assert(self.pairs()[i] == old_pairs[i]);
                            assert(old_pairs[i].0 != name@);
                        } else {
                            assert(self.pairs()[j] == old_pairs[j]);
                            assert(old_pairs[j].0 != name@);
                        }
                    }
                }
                value
            },
        }
    }

    /// The resource stored under `name`.
    pub fn get(&self, name: &String) -> (r: T)
        requires
            self.wf(),
            self.map().contains_key(name@),
        ensures
            r == self.map()[name@],
    {
        match self.find(name) {
            Some(i) => self.entries[i].1,
            None => {
                assert(false);
                self.entries[0].1
            },
        }
    }

    /// Every stored resource, in the order they were stored.
    pub fn values(&self) -> (r: Vec<T>)
        requires
            self.wf(),
        ensures
            r@ == self.pairs().map_values(|p: (Seq<char>, T)| p.1),
            r@.len() == self.map().len(),
            forall|i: int| 0 <= i < r@.len() ==> self.map().contains_value(#[trigger] r@[i]),
            forall|k: Seq<char>| #[trigger] self.map().contains_key(k) ==> r@.contains(
                self.map()[k],
            ),
    {
        proof {
            lemma_entry_map(self.pairs());
        }
        let mut out: Vec<T> = Vec::new();
        let mut i: usize = 0;
        while i < self.entries.len()
            invariant
                0 <= i <= self.entries@.len(),
                self.wf(),
                out@.len() == i,
                forall|j: int| 0 <= j < i ==> out@[j] == self.pairs()[j].1,
            decreases self.entries@.len() - i,
        {
            out.push(self.entries[i].1);
            i = i + 1;
        }
        assert(out@ =~= self.pairs().map_values(|p: (Seq<char>, T)| p.1));
        assert forall|j: int| 0 <= j < out@.len() implies self.map().contains_value(#[trigger] out@[j]) by {
            let k = self.pairs()[j].0;
            lemma_entry_map(self.pairs());
            assert(entry_map(self.pairs()).contains_key(self.pairs()[j].0));
            assert(out@[j] == self.pairs()[j].1);
            assert(self.map().contains_key(k) && self.map()[k] == out@[j]);
        }
        assert forall|k: Seq<char>| #[trigger] self.map().contains_key(k) implies out@.contains(
            self.map()[k],
        ) by {
            let j = choose|j: int| 0 <= j < self.pairs().len() && self.pairs()[j].0 == k;
            assert(out@[j] == self.map()[k]);
        }
        out
    }
}

/// The shaders and textures loaded by the game, each under its name.
pub struct ResourceManager {
    pub shaders: Registry<Shader>,
    pub textures: Registry<Texture2D>,
}

impl ResourceManager {
    /// Both registries are well formed.
    pub open spec fn wf(&self) -> bool {
        self.shaders.wf() && self.textures.wf()
    }

    /// A manager with nothing loaded.
    pub fn new() -> (r: Self)
        ensures
            r.wf(),
            r.shaders.map() == Map::<Seq<char>, Shader>::empty(),
            r.textures.map() == Map::<Seq<char>, Texture2D>::empty(),
    {
        ResourceManager { shaders: Registry::new(), textures: Registry::new() }
    }
}

/// Stores the freshly compiled `shader` under `name` unless a shader is already stored
/// there, and returns the shader stored under `name`.
pub fn load_shader(resources: &mut ResourceManager, shader: Shader, name: String) -> (r: Shader)
    requires
        old(resources).wf(),
    ensures
        final(resources).wf(),
        final(resources).textures == old(resources).textures,
        final(resources).shaders.map() == stored_after(old(resources).shaders.map(), name@, shader),
        final(resources).shaders.pairs() == (if old(resources).shaders.map().contains_key(name@) {
            old(resources).shaders.pairs()
        } else {
            old(resources).shaders.pairs().push((name@, shader))
        }),
        r == final(resources).shaders.map()[name@],
{
    resources.shaders.insert_if_absent(name, shader)
}

/// The shader stored under `name`.
pub fn get_shader(resources: &ResourceManager, name: String) -> (r: Shader)
    requires
        resources.wf(),
        resources.shaders.map().contains_key(name@),
    ensures
        r == resources.shaders.map()[name@],
{
    resources.shaders.get(&name)
}

/// Stores the freshly loaded `texture` under `name` unless a texture is already stored
/// there, and returns the texture stored under `name`.
pub fn load_texture(resources: &mut ResourceManager, texture: Texture2D, name: String) -> (r: Texture2D)
    requires
        old(resources).wf(),
    ensures
        final(resources).wf(),
        final(resources).shaders == old(resources).shaders,
        final(resources).textures.map() == stored_after(old(resources).textures.map(), name@, texture),
        final(resources).textures.pairs() == (if old(resources).textures.map().contains_key(name@) {
            old(resources).textures.pairs()
        } else {
            old(resources).textures.pairs().push((name@, texture))
        }),
        r == final(resources).textures.map()[name@],
{
    resources.textures.insert_if_absent(name, texture)
}

/// The texture stored under `name`.
pub fn get_texture(resources: &ResourceManager, name: String) -> (r: Texture2D)
    requires
        resources.wf(),
        resources.textures.map().contains_key(name@),
    ensures
        r == resources.textures.map()[name@],
{
    resources.textures.get(&name)
}

} // verus!
