use super::class::LoxClass;
use crate::ast::expression::Identifier;
use crate::common::literal::{Literal, LiteralView};
use vstd::prelude::*;

verus! {

/// Names bound to values; where a name was bound more than once, the last
/// binding is the one that counts.
#[derive(Debug)]
pub struct Bindings {
    pub names: Vec<String>,
    pub values: Vec<Literal>,
}

/// The index of the last of `names` that reads `name`.
pub open spec fn last_position(names: Seq<String>, name: Seq<char>) -> Option<int>
    decreases names.len(),
{
    if names.len() == 0 {
        None
    } else if names[names.len() - 1]@ == name {
        Some(names.len() - 1)
    } else {
        last_position(names.drop_last(), name)
    }
}

/// Where [`last_position`] finds a name, the name stands, and nowhere behind it; where it finds none, the name stands nowhere.
pub proof fn lemma_last_position(names: Seq<String>, name: Seq<char>)
    ensures
        match last_position(names, name) {
            Some(i) => 0 <= i < names.len() && names[i]@ == name && forall|j: int|
                i < j < names.len() ==> names[j]@ != name,
            None => forall|j: int| 0 <= j < names.len() ==> names[j]@ != name,
        },
    decreases names.len(),
{
    if names.len() > 0 && names[names.len() - 1]@ != name {
        lemma_last_position(names.drop_last(), name);
        assert forall|j: int| 0 <= j < names.len() - 1 implies names.drop_last()[j] == names[j] by {}
    }
}

impl Bindings {
    /// Every name has its value.
    pub open spec fn wf(&self) -> bool {
        self.names@.len() == self.values@.len()
    }

    /// The value of a name, where it is bound.
    pub open spec fn lookup(&self, name: Seq<char>) -> Option<LiteralView> {
        match last_position(self.names@, name) {
            Some(i) => Some(self.values@[i]@),
            None => None,
        }
    }

    /// No bindings.
    pub fn new() -> (r: Bindings)
        ensures
            r.wf(),
            r@ == Map::<Seq<char>, LiteralView>::empty(),
    {
        let r = Bindings { names: Vec::new(), values: Vec::new() };
        assert(r@ =~= Map::<Seq<char>, LiteralView>::empty());
        r
    }

    /// Where the binding of `name` stands.
    pub fn position(&self, name: &String) -> (r: Option<usize>)
        requires
            self.wf(),
        ensures
            match r {
                Some(i) => last_position(self.names@, name@) == Some(i as int) && i
                    < self.names@.len(),
                None => last_position(self.names@, name@).is_none(),
            },
    {
        let mut i: usize = self.names.len();
        assert(self.names@.subrange(0, i as int) =~= self.names@);
        while i > 0
            invariant
                i <= self.names.len(),
                last_position(self.names@, name@) == last_position(
                    self.names@.subrange(0, i as int),
                    name@,
                ),
            decreases i,
        {
            let candidate: &String = &self.names[i - 1];
            let ghost prefix = self.names@.subrange(0, i as int);
            assert(prefix[prefix.len() - 1] == self.names@[i - 1]);
            if *candidate == *name {
                return Some(i - 1);
            }
            assert(prefix.drop_last() =~= self.names@.subrange(0, i - 1));
            i -= 1;
        }
        None
    }

    /// The value of `name`, where it is bound.
    pub fn get(&self, name: &String) -> (r: Option<Literal>)
        requires
            self.wf(),
        ensures
            match r {
                Some(value) => self@.contains_key(name@) && self@[name@] == value@,
                None => !self@.contains_key(name@),
            },
    {
        match self.position(name) {
            Some(i) => Some(self.values[i].clone()),
            None => None,
        }
    }

    /// Binds `name` to `value`, whether or not it was bound before.
    pub fn define(&mut self, name: String, value: Literal)
        requires
            old(self).wf(),
        ensures
            final(self).wf(),
            final(self)@ == old(self)@.insert(name@, value@),
    {
        self.names.push(name);
        self.values.push(value);
        proof {
            assert forall|n: Seq<char>| final(self).lookup(n) == (if n == name@ {
                Some(value@)
            } else {
                old(self).lookup(n)
            }) by {
                assert(final(self).names@.drop_last() =~= old(self).names@);
                lemma_last_position(old(self).names@, n);
            }
            assert(final(self)@ =~= old(self)@.insert(name@, value@));
        }
    }

    /// Gives `name` a new value if it is bound, and says whether it was.
    pub fn assign(&mut self, name: &String, value: Literal) -> (r: bool)
        requires
            old(self).wf(),
        ensures
            final(self).wf(),
            r == old(self)@.contains_key(name@),
            r ==> final(self)@ == old(self)@.insert(name@, value@),
            !r ==> final(self)@ == old(self)@,
    {
        match self.position(name) {
            Some(i) => {
                self.values.set(i, value);
                proof {
                    assert forall|n: Seq<char>| final(self).lookup(n) == (if n == name@ {
                        Some(value@)
                    } else {
                        old(self).lookup(n)
                    }) by {
                        lemma_last_position(old(self).names@, n);
                        lemma_last_position(old(self).names@, name@);
                    }
                    assert(final(self)@ =~= old(self)@.insert(name@, value@));
                }
                true
            },
            None => false,
        }
    }
}

impl View for Bindings {
    type V = Map<Seq<char>, LiteralView>;

    open spec fn view(&self) -> Map<Seq<char>, LiteralView> {
        Map::new(
            |name: Seq<char>| self.lookup(name).is_some(),
            |name: Seq<char>| self.lookup(name).unwrap(),
        )
    }
}

/// An instance of a class: the class and the fields set so far.
#[derive(Debug)]
pub struct LoxInstance {
    pub class: LoxClass,
    pub fields: Bindings,
}

/// An instance with its fields as a map.
pub struct LoxInstanceView {
    pub class: LoxClass,
    pub fields: Map<Seq<char>, LiteralView>,
}

impl View for LoxInstance {
    type V = LoxInstanceView;

    open spec fn view(&self) -> LoxInstanceView {
        LoxInstanceView { class: self.class, fields: self.fields@ }
    }
}

impl LoxInstance {
    /// Every field has its value.
    pub open spec fn wf(&self) -> bool {
        self.fields.wf()
    }

    /// An instance without fields.
    pub fn new(class: LoxClass) -> (r: LoxInstance)
        ensures
            r.wf(),
            r@ == (LoxInstanceView { class, fields: Map::empty() }),
    {
        LoxInstance { class, fields: Bindings::new() }
    }

    /// The name of the class of the instance.
    pub fn to_string(&self) -> (r: String)
        ensures
            r == self.class.name,
    {
        self.class.to_string()
    }

    /// The value of a field, where it is set.
    pub fn get(&self, name: &Identifier) -> (r: Option<Literal>)
        requires
            self.wf(),
        ensures
            match r {
                Some(value) => self@.fields.contains_key(name.name@) && self@.fields[name.name@]
                    == value@,
                None => !self@.fields.contains_key(name.name@),
            },
    {
        self.fields.get(&name.name)
    }

    /// Sets a field.
    pub fn set(&mut self, field: String, value: Literal)
        requires
            old(self).wf(),
        ensures
            final(self).wf(),
            final(self)@ == (LoxInstanceView {
                class: old(self).class,
                fields: old(self)@.fields.insert(field@, value@),
            }),
    {
        self.fields.define(field, value);
    }
}

/// What a value holds of an instance: its place among the instances of the
/// interpreter, and its class.
#[derive(Debug)]
pub struct InstanceHandle {
    pub class: LoxClass,
    pub index: usize,
}

impl Clone for InstanceHandle {
    fn clone(&self) -> (r: Self)
        ensures
            r == *self,
    {
        InstanceHandle { class: self.class.clone(), index: self.index }
    }
}

} // verus!
