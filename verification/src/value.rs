//! The structured value that every parser produces.

use vstd::prelude::*;

verus! {

/// The mathematical model of a [`Value`].
pub ghost enum ValueView {
    Null,
    Bool(bool),
    Integer(int),
    /// A 64-bit float, by its IEEE-754 bit pattern.
    Float(u64),
    Text(Seq<char>),
    Array(Seq<ValueView>),
    /// Entries in insertion order.
    Object(Seq<(Seq<char>, ValueView)>),
}

/// A self-describing, dynamically typed value.
///
/// A float is held by its IEEE-754 bit pattern; an object holds its entries
/// in insertion order.
#[derive(Debug, PartialEq)]
pub enum Value {
    Null,
    Bool(bool),
    Integer(i64),
    Float(u64),
    String(String),
    Array(Vec<Value>),
    Object(Vec<(String, Value)>),
}

/// Whether `bits` is the bit pattern of a finite 64-bit float: the eleven
/// exponent bits are not all set.
pub open spec fn is_finite_bits(bits: u64) -> bool {
    bits & 0x7ff0_0000_0000_0000 != 0x7ff0_0000_0000_0000
}

/// Whether `bits` is the bit pattern of a finite 64-bit float.
pub fn is_finite(bits: u64) -> (r: bool)
    ensures
        r == is_finite_bits(bits),
{
    bits & 0x7ff0_0000_0000_0000 != 0x7ff0_0000_0000_0000
}

/// Whether no key occurs twice among `entries`.
pub open spec fn keys_distinct(entries: Seq<(Seq<char>, ValueView)>) -> bool {
    forall|i: int, j: int|
        0 <= i < j < entries.len() ==> (#[trigger] entries[i]).0 != (#[trigger] entries[j]).0
}

/// Whether every one of `items` is well formed.
pub open spec fn all_wf(items: Seq<ValueView>) -> bool {
    forall|i: int| 0 <= i < items.len() ==> (#[trigger] items[i]).wf()
}

impl ValueView {
    /// Well-formedness: every float is finite and no object holds a key twice.
    pub open spec fn wf(self) -> bool
        decreases self,
    {
        match self {
            ValueView::Float(bits) => is_finite_bits(bits),
            ValueView::Array(items) => forall|i: int|
                0 <= i < items.len() ==> (#[trigger] items[i]).wf(),
            ValueView::Object(entries) => keys_distinct(entries) && forall|i: int|
                0 <= i < entries.len() ==> (#[trigger] entries[i]).1.wf(),
            _ => true,
        }
    }
}

impl Value {
    /// The model of this value.
    pub open spec fn model(self) -> ValueView
        decreases self,
    {
        match self {
            Value::Null => ValueView::Null,
            Value::Bool(b) => ValueView::Bool(b),
            Value::Integer(n) => ValueView::Integer(n as int),
            Value::Float(bits) => ValueView::Float(bits),
            Value::String(s) => ValueView::Text(s@),
            Value::Array(items) => ValueView::Array(views_of(items@)),
            Value::Object(entries) => ValueView::Object(entries_of(entries@)),
        }
    }
}

/// The models of `items`, in order.
pub open spec fn views_of(items: Seq<Value>) -> Seq<ValueView>
    decreases items,
{
    if items.len() == 0 {
        Seq::empty()
    } else {
        views_of(items.drop_last()).push(items.last().model())
    }
}

/// The models of `entries`, in order: each key's text with its value's model.
pub open spec fn entries_of(entries: Seq<(String, Value)>) -> Seq<(Seq<char>, ValueView)>
    decreases entries,
{
    if entries.len() == 0 {
        Seq::empty()
    } else {
        entries_of(entries.drop_last()).push((entries.last().0@, entries.last().1.model()))
    }
}

impl View for Value {
    type V = ValueView;

    open spec fn view(&self) -> ValueView {
        self.model()
    }
}

/// `views_of` goes item by item.
pub proof fn lemma_views_of(items: Seq<Value>)
    ensures
        views_of(items).len() == items.len(),
        forall|i: int| 0 <= i < items.len() ==> (#[trigger] views_of(items)[i]) == items[i]@,
    decreases items.len(),
{
    if items.len() > 0 {
        lemma_views_of(items.drop_last());
    }
}

/// `entries_of` goes entry by entry.
pub proof fn lemma_entries_of(entries: Seq<(String, Value)>)
    ensures
        entries_of(entries).len() == entries.len(),
        forall|i: int|
            0 <= i < entries.len() ==> (#[trigger] entries_of(entries)[i]) == (
                entries[i].0@,
                entries[i].1@,
            ),
    decreases entries.len(),
{
    if entries.len() > 0 {
        lemma_entries_of(entries.drop_last());
    }
}

impl Value {
    /// The array of `items`.
    pub fn array(items: Vec<Value>) -> (v: Value)
        ensures
            v@ == ValueView::Array(views_of(items@)),
    {
        Value::Array(items)
    }

    /// The object of `entries`.
    pub fn object(entries: Vec<(String, Value)>) -> (v: Value)
        ensures
            v@ == ValueView::Object(entries_of(entries@)),
    {
        Value::Object(entries)
    }
}

/// How many entries stand before the first one under `key`: its index, or
/// the number of entries where none has that key.
pub open spec fn key_position(entries: Seq<(Seq<char>, ValueView)>, key: Seq<char>) -> int
    decreases entries.len(),
{
    if entries.len() == 0 || entries[0].0 == key {
        0
    } else {
        1 + key_position(entries.drop_first(), key)
    }
}

/// `entries` after `value` is put under `key`: where the key is present the
/// value takes the old one's place, else the entry goes to the end.
pub open spec fn insert_entry(
    entries: Seq<(Seq<char>, ValueView)>,
    key: Seq<char>,
    value: ValueView,
) -> Seq<(Seq<char>, ValueView)> {
    let i = key_position(entries, key);
    if i < entries.len() {
        entries.update(i, (key, value))
    } else {
        entries.push((key, value))
    }
}

/// `key_position` is the first index under `key`, or the length.
pub proof fn lemma_key_position(entries: Seq<(Seq<char>, ValueView)>, key: Seq<char>, i: int)
    requires
        0 <= i <= entries.len(),
        forall|k: int| 0 <= k < i ==> (#[trigger] entries[k]).0 != key,
        i < entries.len() ==> entries[i].0 == key,
    ensures
        key_position(entries, key) == i,
    decreases i,
{
    if i > 0 {
        let rest = entries.drop_first();
        assert(entries[0].0 != key);
        assert forall|k: int| 0 <= k < i - 1 implies (#[trigger] rest[k]).0 != key by {
            assert(rest[k] == entries[k + 1]);
        }
        lemma_key_position(rest, key, i - 1);
    }
}

/// `key_position` lies within the entries, and no entry before it has the key.
pub proof fn lemma_key_position_first(entries: Seq<(Seq<char>, ValueView)>, key: Seq<char>)
    ensures
        0 <= key_position(entries, key) <= entries.len(),
        forall|k: int| 0 <= k < key_position(entries, key) ==> (#[trigger] entries[k]).0 != key,
        key_position(entries, key) < entries.len() ==> entries[key_position(entries, key)].0
            == key,
    decreases entries.len(),
{
    if entries.len() == 0 || entries[0].0 == key {
    } else {
        let rest = entries.drop_first();
        lemma_key_position_first(rest, key);
        let p = key_position(rest, key);
        assert forall|k: int| 0 <= k < p + 1 implies (#[trigger] entries[k]).0 != key by {
            if k > 0 {
                assert(entries[k] == rest[k - 1]);
            }
        }
        if p < rest.len() {
            assert(entries[p + 1] == rest[p]);
        }
    }
}

/// Putting a well-formed value under a key keeps the keys distinct and the
/// values well formed.
pub proof fn lemma_insert_entry_wf(
    entries: Seq<(Seq<char>, ValueView)>,
    key: Seq<char>,
    value: ValueView,
)
    requires
        ValueView::Object(entries).wf(),
        value.wf(),
    ensures
        ValueView::Object(insert_entry(entries, key, value)).wf(),
{
    lemma_key_position_first(entries, key);
    let i = key_position(entries, key);
    let after = insert_entry(entries, key, value);
    assert forall|a: int, b: int| 0 <= a < b < after.len() implies (#[trigger] after[a]).0 != (
    #[trigger] after[b]).0 by {
        if i < entries.len() {
            assert(after[a].0 == entries[a].0);
            assert(after[b].0 == entries[b].0);
        } else if b == entries.len() {
            assert(after[a] == entries[a]);
        } else {
            assert(after[a] == entries[a]);
            assert(after[b] == entries[b]);
        }
    }
    assert forall|k: int| 0 <= k < after.len() implies (#[trigger] after[k]).1.wf() by {
        if k != i {
            assert(after[k] == entries[k]);
        }
    }
}

/// Puts `value` under `key` in `entries`: in the old value's place where the
/// key is present, else at the end.
pub fn put_entry(entries: &mut Vec<(String, Value)>, key: String, value: Value)
    ensures
        entries_of(final(entries)@) == insert_entry(entries_of(old(entries)@), key@, value@),
{
    let ghost before = entries_of(entries@);
    proof {
        lemma_entries_of(entries@);
    }
    let mut i: usize = 0;
    while i < entries.len() && entries[i].0 != key
        invariant
            i <= entries.len(),
            before.len() == entries.len(),
            forall|k: int| 0 <= k < entries.len() ==> (#[trigger] before[k]).0 == entries[k].0@,
            forall|k: int| 0 <= k < i ==> (#[trigger] before[k]).0 != key@,
        decreases entries.len() - i,
    {
        i += 1;
    }
    proof {
        lemma_key_position(before, key@, i as int);
    }
    if i < entries.len() {
        entries.set(i, (key, value));
    } else {
        entries.push((key, value));
    }
    proof {
        lemma_entries_of(entries@);
        assert(entries_of(entries@) =~= insert_entry(before, key@, value@));
    }
}

} // verus!
