//! Contexts threaded through code generation: the unit-wide constant pool,
//! and the per-function label table.

use vstd::prelude::*;
use crate::codegen::LabelIndex;
use crate::codegen::assembler::intern::{
    intern_index, intern_seq, vec_intern_string, ConstantPool, PoolModel,
};
use crate::util::str_eq;

verus! {

/// A context used when a constant pool is required: the pool of one
/// compilation unit, borrowed mutably by one function generator at a time.
#[derive(Debug)]
pub struct ConstantPoolContext {
    pub const_pool: ConstantPool,
}

impl View for ConstantPoolContext {
    type V = PoolModel;

    open spec fn view(&self) -> PoolModel {
        self.const_pool@
    }
}

impl ConstantPoolContext {
    /// Adds a string to the constant pool unless it is already present, and
    /// returns its index.
    pub fn add_string(&mut self, val: &String) -> (r: u32)
        requires
            old(self)@.strings.len() < u32::MAX,
        ensures
            final(self)@.strings == intern_seq(old(self)@.strings, val@),
            r == intern_index(old(self)@.strings, val@),
            r < final(self)@.strings.len() && final(self)@.strings[r as int] == val@,
            final(self)@.ints == old(self)@.ints,
            final(self)@.namespaces == old(self)@.namespaces,
            final(self)@.multinames == old(self)@.multinames,
    {
        vec_intern_string(&mut self.const_pool.strings, val.as_str())
    }
}

impl Default for ConstantPoolContext {
    /// The default context holds an empty pool.
    fn default() -> (r: ConstantPoolContext)
        ensures
            r@.ints == Seq::<i32>::empty(),
            r@.strings == Seq::<Seq<char>>::empty(),
            r@.namespaces == Seq::<crate::codegen::assembler::intern::Namespace>::empty(),
            r@.multinames == Seq::<crate::codegen::assembler::intern::Multiname>::empty(),
    {
        let r = ConstantPoolContext {
            const_pool: ConstantPool {
                ints: Vec::new(),
                strings: Vec::new(),
                namespaces: Vec::new(),
                multinames: Vec::new(),
            },
        };
        proof {
            assert(r@.strings =~= Seq::<Seq<char>>::empty());
        }
        r
    }
}

/// The mathematical model of the label table: named labels in registration
/// order.
pub open spec fn labels_model(labels: Seq<(String, LabelIndex)>) -> Seq<(Seq<char>, LabelIndex)> {
    labels.map_values(|p: (String, LabelIndex)| (p.0@, p.1))
}

/// First label registered under `name`, front first.
pub open spec fn label_find(m: Seq<(Seq<char>, LabelIndex)>, name: Seq<char>) -> Option<LabelIndex>
    decreases m.len(),
{
    if m.len() == 0 {
        None
    } else if m[0].0 == name {
        Some(m[0].1)
    } else {
        label_find(m.drop_first(), name)
    }
}

/// A context used while generating code for one function: it issues label
/// indices and remembers which source-level label names map to which index.
#[derive(Debug)]
pub struct FunctionGenContext {
    pub label_counter: u32,
    pub labels: Vec<(String, LabelIndex)>,
}

impl FunctionGenContext {
    /// A fresh per-function context with no labels issued.
    pub fn new() -> (r: FunctionGenContext)
        ensures
            r.label_counter == 0,
            r.labels@ == Seq::<(String, LabelIndex)>::empty(),
    {
        FunctionGenContext { label_counter: 0, labels: Vec::new() }
    }

    /// Issues the next label index; indices are monotonically increasing.
    pub fn get_next_label(&mut self) -> (r: LabelIndex)
        requires
            old(self).label_counter < u32::MAX,
        ensures
            r == (LabelIndex(old(self).label_counter)),
            final(self).label_counter == old(self).label_counter + 1,
            final(self).labels@ == old(self).labels@,
    {
        let index = LabelIndex(self.label_counter);
        self.label_counter = self.label_counter + 1;
        index
    }

    /// Returns the label registered under `name`, creating and registering a
    /// fresh one when the name is new.
    pub fn get_or_create_label(&mut self, name: &str) -> (r: LabelIndex)
        requires
            old(self).label_counter < u32::MAX,
        ensures
            match label_find(labels_model(old(self).labels@), name@) {
                Some(l) => {
                    &&& r == l
                    &&& final(self).labels@ == old(self).labels@
                    &&& final(self).label_counter == old(self).label_counter
                },
                None => {
                    &&& r == (LabelIndex(old(self).label_counter))
                    &&& labels_model(final(self).labels@) == labels_model(old(self).labels@).push(
                        (name@, r),
                    )
                    &&& final(self).label_counter == old(self).label_counter + 1
                },
            },
    {
        let ghost m = labels_model(self.labels@);
        let n = self.labels.len();
        let mut i: usize = 0;
        proof {
            assert(m.skip(0) =~= m);
        }
        while i < n
            invariant
                i <= n,
                n == self.labels@.len(),
                m == labels_model(self.labels@),
                label_find(m, name@) == label_find(m.skip(i as int), name@),
            decreases n - i,
        {
            proof {
                assert(m.skip(i as int)[0] == m[i as int]);
                assert(m.skip(i as int).drop_first() =~= m.skip(i as int + 1));
            }
            if str_eq(self.labels[i].0.as_str(), name) {
                return self.labels[i].1;
            }
            i += 1;
        }
        proof {
            assert(m.skip(n as int) =~= Seq::<(Seq<char>, LabelIndex)>::empty());
        }
        let index = self.get_next_label();
        let ghost before = self.labels@;
        self.labels.push((name.to_owned(), index));
        proof {
            assert(labels_model(self.labels@) =~= labels_model(before).push((name@, index)));
        }
        index
    }
}

impl Default for FunctionGenContext {
    /// The default per-function context is fresh.
    fn default() -> (r: FunctionGenContext)
        ensures
            r.label_counter == 0,
            r.labels@ == Seq::<(String, LabelIndex)>::empty(),
    {
        FunctionGenContext::new()
    }
}

} // verus!
