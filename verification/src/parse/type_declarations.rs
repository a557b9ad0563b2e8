//! The registry of the types that a module declares.

use vstd::prelude::*;
use vstd::string::*;
use crate::bridged_type::ForeignBridgedType;
use crate::text::{find, is_first, lemma_find, str_eq};

verus! {

/// What a registry holds: the declared type under each declared name, and
/// the names in the order in which they were first declared.
pub struct Registry {
    pub map: Map<Seq<char>, ForeignBridgedType>,
    pub order: Seq<Seq<char>>,
}

impl Registry {
    pub open spec fn empty() -> Registry {
        Registry { map: Map::empty(), order: Seq::empty() }
    }

    /// The registry after `ty` is declared under `name`: a type declared
    /// under that name before is replaced, and the name keeps its place.
    pub open spec fn insert(self, name: Seq<char>, ty: ForeignBridgedType) -> Registry {
        Registry {
            map: self.map.insert(name, ty),
            order: if self.map.contains_key(name) {
                self.order
            } else {
                self.order.push(name)
            },
        }
    }

    /// `order` holds the names of `map`, each once.
    pub open spec fn wf(self) -> bool {
        &&& self.order.no_duplicates()
        &&& forall|name: Seq<char>| self.order.contains(name) <==> self.map.contains_key(name)
    }

    /// Declaring a type keeps a registry well-formed.
    pub proof fn lemma_insert_wf(self, name: Seq<char>, ty: ForeignBridgedType)
        requires
            self.wf(),
        ensures
            self.insert(name, ty).wf(),
    {
        let next = self.insert(name, ty);
        assert forall|k: Seq<char>| next.order.contains(k) <==> next.map.contains_key(k) by {
            assert(self.order.contains(k) <==> self.map.contains_key(k));
            assert(self.order.contains(name) <==> self.map.contains_key(name));
            if !self.map.contains_key(name) {
                if next.order.contains(k) {
                    let i = choose|i: int| 0 <= i < next.order.len() && next.order[i] == k;
                    if i < self.order.len() {
                        assert(self.order[i] == k);
                    }
                }
                if next.map.contains_key(k) {
                    if k == name {
                        assert(next.order[self.order.len() as int] == k);
                    } else {
                        assert(self.order.contains(k));
                        let i = choose|i: int| 0 <= i < self.order.len() && self.order[i] == k;
                        assert(next.order[i] == k);
                    }
                }
            }
        }
        if !self.map.contains_key(name) {
            assert forall|i: int, j: int|
                0 <= i < next.order.len() && 0 <= j < next.order.len() && i != j implies next.order[i]
                != next.order[j] by {
                assert(self.order.contains(name) <==> self.map.contains_key(name));
                if i == self.order.len() {
                    assert(self.order[j] == next.order[j]);
                }
                if j == self.order.len() {
                    assert(self.order[i] == next.order[i]);
                }
            }
        }
    }
}

/// One declared type under the name it was declared with.
#[derive(Debug)]
pub struct Declaration {
    pub name: String,
    pub ty: ForeignBridgedType,
}

/// The types that the blocks of one module declare, by name. A later
/// declaration under a name replaces the earlier one and keeps its place.
#[derive(Debug)]
pub struct TypeDeclarations {
    decls: Vec<Declaration>,
}

/// The names of `decls`, in order.
pub open spec fn names_of(decls: Seq<Declaration>) -> Seq<Seq<char>> {
    Seq::new(decls.len(), |i: int| decls[i].name@)
}

impl View for TypeDeclarations {
    type V = Registry;

    closed spec fn view(&self) -> Registry {
        let names = names_of(self.decls@);
        Registry {
            map: Map::new(
                |name: Seq<char>| names.contains(name),
                |name: Seq<char>| self.decls@[find(names, name)].ty,
            ),
            order: names,
        }
    }
}

impl TypeDeclarations {
    #[verifier::type_invariant]
    spec fn no_name_twice(&self) -> bool {
        names_of(self.decls@).no_duplicates()
    }

    /// A registry without declarations.
    pub fn new() -> (types: TypeDeclarations)
        ensures
            types@ == Registry::empty(),
            types@.wf(),
    {
        let types = TypeDeclarations { decls: Vec::new() };
        assert(types@.map =~= Map::<Seq<char>, ForeignBridgedType>::empty());
        assert(types@.order =~= Seq::<Seq<char>>::empty());
        types
    }

    /// Where `name` stands among the declarations, or their number where it
    /// is not declared.
    fn position(&self, name: &str) -> (at: usize)
        ensures
            at == find(names_of(self.decls@), name@),
            at <= self.decls@.len(),
            (at < self.decls@.len()) == self@.map.contains_key(name@),
            at < self.decls@.len() ==> self.decls@[at as int].ty == self@.map[name@],
    {
        let ghost names = names_of(self.decls@);
        let mut at: usize = 0;
        while at < self.decls.len() && !str_eq(self.decls[at].name.as_str(), name)
            invariant
                at <= self.decls@.len(),
                names == names_of(self.decls@),
                forall|j: int| 0 <= j < at ==> names[j] != name@,
            decreases self.decls@.len() - at,
        {
            at += 1;
        }
        proof {
            lemma_find(names, name@);
            assert(is_first(names, name@, at as int));
            if at < self.decls@.len() {
                assert(names[at as int] == name@);
            }
        }
        at
    }

    /// Whether a type is declared under `name`.
    pub fn contains_key(&self, name: &str) -> (declared: bool)
        ensures
            declared == self@.map.contains_key(name@),
    {
        self.position(name) < self.decls.len()
    }

    /// The type declared under `name`.
    pub fn get(&self, name: &str) -> (found: Option<&ForeignBridgedType>)
        ensures
            found == if self@.map.contains_key(name@) {
                Some(&self@.map[name@])
            } else {
                None
            },
    {
        let at = self.position(name);
        if at < self.decls.len() {
            Some(&self.decls[at].ty)
        } else {
            None
        }
    }

    /// How many names are declared.
    pub fn len(&self) -> (n: usize)
        ensures
            n == self@.order.len(),
            self@.wf(),
    {
        proof {
            use_type_invariant(self);
            self.lemma_names();
        }
        self.decls.len()
    }

    proof fn lemma_names(&self)
        ensures
            forall|name: Seq<char>| self@.order.contains(name) <==> self@.map.contains_key(name),
    {
    }

    /// Declares `ty` under `name`. A type declared under that name before is
    /// replaced.
    pub fn insert(&mut self, name: String, ty: ForeignBridgedType)
        ensures
            final(self)@ == old(self)@.insert(name@, ty),
            final(self)@.wf(),
    {
        let at = self.position(name.as_str());
        let ghost before = self.decls@;
        let ghost names = names_of(before);
        let ghost key = name@;
        proof {
            lemma_find(names, key);
        }
        proof {
            use_type_invariant(&*self);
        }
        let mut decls: Vec<Declaration> = Vec::new();
        assert(names_of(decls@) =~= Seq::<Seq<char>>::empty());
        std::mem::swap(&mut self.decls, &mut decls);
        if at < decls.len() {
            decls.set(at, Declaration { name, ty });
            assert(names_of(decls@) =~= names);
        } else {
            decls.push(Declaration { name, ty });
            assert(names_of(decls@) =~= names.push(key));
            assert forall|i: int, j: int|
                0 <= i < names.len() + 1 && 0 <= j < names.len() + 1 && i != j implies names.push(
                key,
            )[i] != names.push(key)[j] by {
                if i == names.len() {
                    assert(names[j] != key);
                } else if j == names.len() {
                    assert(names[i] != key);
                }
            }
        }
        self.decls = decls;
        proof {
            let after = self.decls@;
            let names2 = names_of(after);
            if at < before.len() {
                assert(names2 =~= names);
            } else {
                assert(names2 =~= names.push(key));
                assert(is_first(names2, key, at as int));
            }
            lemma_find(names2, key);
            assert(find(names2, key) == at);
            assert forall|k: Seq<char>| k != key && names.contains(k) implies find(names2, k)
                == find(names, k) by {
                lemma_find(names, k);
                lemma_find(names2, k);
                let i = choose|i: int| 0 <= i < names.len() && names[i] == k;
                assert(find(names, k) <= i);
                assert(is_first(names2, k, find(names, k)));
            }
            assert forall|k: Seq<char>| names2.contains(k) <==> (k == key || names.contains(k)) by {
                if names2.contains(k) && k != key {
                    let i = choose|i: int| 0 <= i < names2.len() && names2[i] == k;
                    assert(names[i] == k);
                }
                if names.contains(k) {
                    let i = choose|i: int| 0 <= i < names.len() && names[i] == k;
                    assert(names2[i] == k);
                }
                if k == key {
                    assert(names2[at as int] == key);
                }
            }
            assert(self@.map =~= old(self)@.map.insert(key, ty)) by {
                assert forall|k: Seq<char>| self@.map.contains_key(k) implies self@.map[k] == old(
                    self,
                )@.map.insert(key, ty)[k] by {
                    if k != key {
                        lemma_find(names, k);
                    }
                }
            }
            assert(self@.order =~= old(self)@.insert(key, ty).order);
            self.lemma_names();
        }
    }

    /// The declared types, in the order of their names.
    pub fn types(&self) -> (all: Vec<ForeignBridgedType>)
        ensures
            all@.len() == self@.order.len(),
            forall|i: int| 0 <= i < all@.len() ==> #[trigger] all@[i] == self@.map[self@.order[i]],
    {
        let ghost names = names_of(self.decls@);
        let mut all: Vec<ForeignBridgedType> = Vec::new();
        let mut at: usize = 0;
        while at < self.decls.len()
            invariant
                at <= self.decls@.len(),
                all@.len() == at,
                forall|i: int| 0 <= i < at ==> all@[i] == self.decls@[i].ty,
            decreases self.decls@.len() - at,
        {
            all.push(self.decls[at].ty.clone());
            at += 1;
        }
        proof {
            use_type_invariant(self);
            assert forall|i: int| 0 <= i < all@.len() implies #[trigger] all@[i]
                == self@.map[self@.order[i]] by {
                let k = names[i];
                lemma_find(names, k);
                assert(is_first(names, k, i)) by {
                    assert forall|j: int| 0 <= j < i implies names[j] != k by {}
                }
            }
        }
        all
    }
}

} // verus!
