use vstd::prelude::*;

verus! {

/// A named scalar of the persisted key-value state. The float variant holds
/// the bit pattern of its double-precision value, so the store itself stays
/// exact: what is written is what is read back, bit for bit.
#[derive(Debug)]
pub enum StateValue {
    Float(u64),
    Int(i64),
    Text(String),
}

/// The mathematical value of one state entry.
pub enum ValueView {
    Float(u64),
    Int(i64),
    Text(Seq<char>),
}

impl View for StateValue {
    type V = ValueView;

    open spec fn view(&self) -> ValueView {
        match self {
            StateValue::Float(bits) => ValueView::Float(*bits),
            StateValue::Int(i) => ValueView::Int(*i),
            StateValue::Text(s) => ValueView::Text(s@),
        }
    }
}

/// The persisted key-value state: a small store of named scalar values.
/// Its invariant is that keys are unique, so the store is a mapping.
#[derive(Debug)]
pub struct State(pub Vec<(String, StateValue)>);

impl View for State {
    type V = Seq<(Seq<char>, ValueView)>;

    open spec fn view(&self) -> Seq<(Seq<char>, ValueView)> {
        self.0@.map_values(|p: (String, StateValue)| (p.0@, p.1@))
    }
}

/// Keys are pairwise distinct: the entry list denotes a mapping.
pub open spec fn unique_keys(entries: Seq<(Seq<char>, ValueView)>) -> bool {
    forall|i: int, j: int| 0 <= i < j < entries.len() ==> entries[i].0 != entries[j].0
}

impl State {
    pub open spec fn wf(self) -> bool {
        unique_keys(self@)
    }

    pub fn new() -> (s: State)
        ensures
            s.wf(),
            s@ == Seq::<(Seq<char>, ValueView)>::empty(),
    {
        State(Vec::new())
    }

    /// The value stored under `key`, by first match.
    pub open spec fn spec_get(self, key: Seq<char>) -> Option<ValueView> {
        if exists|i: int| 0 <= i < self@.len() && self@[i].0 == key {
            let i = choose|i: int| 0 <= i < self@.len() && self@[i].0 == key;
            Some(self@[i].1)
        } else {
            None
        }
    }

    /// Looks a key up.
    pub fn get(&self, key: &String) -> (r: Option<&StateValue>)
        requires
            self.wf(),
        ensures
            match r {
                Some(v) => self.spec_get(key@) == Some(v@),
                None => self.spec_get(key@) is None,
            },
    {
        for i in 0..self.0.len()
            invariant
                self.wf(),
                forall|j: int| 0 <= j < i ==> self@[j].0 != key@,
        {
            if self.0[i].0 == *key {
                proof {
                    assert(self@[i as int].0 == key@);
                    let k = choose|k: int| 0 <= k < self@.len() && self@[k].0 == key@;
                    if k != i as int {
                        if k < i as int {
                            assert(self@[k].0 != key@);
                        } else {
                            assert(self@[i as int].0 != self@[k].0);
                        }
                    }
                }
                return Some(&self.0[i].1);
            }
        }
        None
    }
}

} // verus!
