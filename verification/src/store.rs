//! The variable store: one flat mapping from names to values.

use vstd::prelude::*;
use crate::text::{append, append_str, join, join_texts, lift, same_text, text_of};
use crate::value::{display, maybe, Value, ValueView};

verus! {

/// A name with the value bound to it.
#[derive(Debug, PartialEq, Eq)]
pub struct Binding {
    pub name: Vec<char>,
    pub value: Value,
}

/// A binding as contracts see it.
pub ghost struct BindingView {
    pub name: Seq<char>,
    pub value: ValueView,
}

impl View for Binding {
    type V = BindingView;

    open spec fn view(&self) -> BindingView {
        BindingView { name: self.name@, value: self.value@ }
    }
}

/// Where, from `i` on, a name is bound; none where it is not.
pub open spec fn slot_from(m: Seq<BindingView>, name: Seq<char>, i: int) -> Option<int>
    decreases m.len() - i,
{
    if i < 0 || i >= m.len() {
        None
    } else if m[i].name == name {
        Some(i)
    } else {
        slot_from(m, name, i + 1)
    }
}

/// Where a name is bound; none where it is not.
pub open spec fn slot(m: Seq<BindingView>, name: Seq<char>) -> Option<int> {
    slot_from(m, name, 0)
}

/// The value bound to a name; none where the name is not bound.
pub open spec fn lookup(m: Seq<BindingView>, name: Seq<char>) -> Option<ValueView> {
    match slot(m, name) {
        Some(i) => Some(m[i].value),
        None => None,
    }
}

/// The store after a value is bound to a name: a bound name keeps its
/// place and gets the new value, a new name goes to the end.
pub open spec fn bound(m: Seq<BindingView>, name: Seq<char>, value: ValueView) -> Seq<BindingView> {
    match slot(m, name) {
        Some(i) => m.update(i, BindingView { name, value }),
        None => m.push(BindingView { name, value }),
    }
}

/// The store after a name is freed; unchanged where the name is not bound.
pub open spec fn freed(m: Seq<BindingView>, name: Seq<char>) -> Seq<BindingView> {
    match slot(m, name) {
        Some(i) => m.remove(i),
        None => m,
    }
}

/// The names of the store as string values, in the order of the store.
pub open spec fn names(m: Seq<BindingView>) -> Seq<ValueView> {
    Seq::new(m.len(), |i: int| ValueView::String(m[i].name))
}

/// Whether no name occurs twice.
pub open spec fn distinct(m: Seq<BindingView>) -> bool {
    forall|i: int, j: int| 0 <= i < j < m.len() ==> m[i].name != m[j].name
}

/// How the trace shows one binding.
pub open spec fn entry_text(b: BindingView) -> Seq<char> {
    "'"@ + b.name + "': "@ + display(b.value)
}

/// How the trace shows each binding.
pub open spec fn entry_texts(m: Seq<BindingView>) -> Seq<Seq<char>> {
    Seq::new(m.len(), |i: int| entry_text(m[i]))
}

/// The line of the trace that shows the store.
pub open spec fn memory_line(m: Seq<BindingView>) -> Seq<char> {
    "メモリ内部の変数 { "@ + join(entry_texts(m), ", "@) + " }\n"@
}

/// A slot that `slot_from` finds holds the name and is the first to do so.
pub proof fn slot_found(m: Seq<BindingView>, name: Seq<char>, i: int)
    requires
        0 <= i,
    ensures
        match slot_from(m, name, i) {
            Some(k) => i <= k < m.len() && m[k].name == name && forall|j: int|
                i <= j < k ==> m[j].name != name,
            None => forall|j: int| i <= j < m.len() ==> m[j].name != name,
        },
    decreases m.len() - i,
{
    if i < m.len() && m[i].name != name {
        slot_found(m, name, i + 1);
    }
}

/// Binding keeps the names of a store distinct.
pub proof fn bound_keeps_distinct(m: Seq<BindingView>, name: Seq<char>, value: ValueView)
    requires
        distinct(m),
    ensures
        distinct(bound(m, name, value)),
{
    slot_found(m, name, 0);
}

/// Freeing keeps the names of a store distinct.
pub proof fn freed_keeps_distinct(m: Seq<BindingView>, name: Seq<char>)
    requires
        distinct(m),
    ensures
        distinct(freed(m, name)),
{
    slot_found(m, name, 0);
}

/// After binding, the name is bound to the value.
pub proof fn bound_then_lookup(m: Seq<BindingView>, name: Seq<char>, value: ValueView)
    ensures
        lookup(bound(m, name, value), name) == Some(value),
{
    slot_found(m, name, 0);
    let after = bound(m, name, value);
    slot_found(after, name, 0);
    let k = match slot(m, name) {
        Some(i) => i,
        None => m.len() as int,
    };
    assert(after[k].name == name);
    assert(forall|j: int| 0 <= j < k ==> after[j].name == m[j].name);
}

/// After freeing, a store with distinct names no longer binds the name.
pub proof fn freed_then_lookup(m: Seq<BindingView>, name: Seq<char>)
    requires
        distinct(m),
    ensures
        lookup(freed(m, name), name) is None,
{
    slot_found(m, name, 0);
    slot_found(freed(m, name), name, 0);
}

/// The variable store.
pub struct Memory {
    entries: Vec<Binding>,
}

impl View for Memory {
    type V = Seq<BindingView>;

    closed spec fn view(&self) -> Seq<BindingView> {
        lift(self.entries@)
    }
}

impl Memory {
    /// An empty store.
    pub fn new() -> (r: Memory)
        ensures
            r@ == Seq::<BindingView>::empty(),
    {
        let r = Memory { entries: Vec::new() };
        assert(r@ =~= Seq::<BindingView>::empty());
        r
    }

    fn find(&self, name: &Vec<char>) -> (r: Option<usize>)
        ensures
            match r {
                Some(i) => slot(self@, name@) == Some(i as int) && i < self.entries.len(),
                None => slot(self@, name@) is None,
            },
    {
        let mut i: usize = 0;
        while i < self.entries.len()
            invariant
                i <= self.entries.len(),
                slot(self@, name@) == slot_from(self@, name@, i as int),
            decreases self.entries.len() - i,
        {
            if same_text(&self.entries[i].name, name) {
                return Some(i);
            }
            i = i + 1;
        }
        None
    }

    /// The value bound to a name.
    pub fn get(&self, name: &Vec<char>) -> (r: Option<Value>)
        ensures
            maybe(r) == lookup(self@, name@),
    {
        match self.find(name) {
            Some(i) => Some(self.entries[i].value.copy()),
            None => None,
        }
    }

    /// Binds a value to a name, in place of any value bound before.
    pub fn set(&mut self, name: Vec<char>, value: Value)
        ensures
            final(self)@ == bound(old(self)@, name@, value@),
            distinct(old(self)@) ==> distinct(final(self)@),
    {
        proof {
            if distinct(self@) {
                bound_keeps_distinct(self@, name@, value@);
            }
        }
        match self.find(&name) {
            Some(i) => {
                self.entries.set(i, Binding { name, value });
                assert(self@ =~= bound(old(self)@, name@, value@));
            },
            None => {
                self.entries.push(Binding { name, value });
                assert(self@ =~= bound(old(self)@, name@, value@));
            },
        }
    }

    /// Frees a name, if it is bound.
    pub fn remove(&mut self, name: &Vec<char>)
        ensures
            final(self)@ == freed(old(self)@, name@),
            distinct(old(self)@) ==> distinct(final(self)@),
    {
        proof {
            if distinct(self@) {
                freed_keeps_distinct(self@, name@);
            }
        }
        match self.find(name) {
            Some(i) => {
                self.entries.remove(i);
                assert(self@ =~= freed(old(self)@, name@));
            },
            None => {},
        }
    }

    /// The names of the store as string values, in the order of the store.
    pub fn names(&self) -> (r: Vec<Value>)
        ensures
            lift(r@) == names(self@),
    {
        let mut out: Vec<Value> = Vec::new();
        let mut i: usize = 0;
        while i < self.entries.len()
            invariant
                i <= self.entries.len(),
                out@.len() == i,
                forall|j: int| 0 <= j < i ==> out@[j]@ == ValueView::String(self.entries@[j].name@),
            decreases self.entries.len() - i,
        {
            out.push(Value::String(self.entries[i].name.clone()));
            i = i + 1;
        }
        assert(lift(out@) =~= names(self@));
        out
    }

    /// The line of the trace that shows the store.
    pub fn show(&self) -> (r: Vec<char>)
        ensures
            r@ == memory_line(self@),
    {
        let mut parts: Vec<Vec<char>> = Vec::new();
        let mut i: usize = 0;
        while i < self.entries.len()
            invariant
                i <= self.entries.len(),
                parts@.len() == i,
                forall|j: int| 0 <= j < i ==> parts@[j]@ == entry_text(self.entries@[j]@),
            decreases self.entries.len() - i,
        {
            let mut one = text_of("'");
            append(&mut one, &self.entries[i].name);
            append_str(&mut one, "': ");
            let shown = self.entries[i].value.display();
            append(&mut one, &shown);
            parts.push(one);
            i = i + 1;
        }
        assert(lift(parts@) =~= entry_texts(self@));
        let mut out = text_of("メモリ内部の変数 { ");
        let sep = text_of(", ");
        let inner = join_texts(&parts, &sep);
        append(&mut out, &inner);
        append_str(&mut out, " }\n");
        out
    }
}

} // verus!
