//! Query strings: the `key=value` bindings that follow the `?` of a path.

use super::text::{
    lemma_first_of, lemma_split_at_none, lemma_split_at_shortens, split_at, split_once, str_eq,
};
use vstd::prelude::*;

verus! {

/// What a key of a query string is bound to: one value, or, for a key that
/// occurs more than once, its values in the order they were given.
#[derive(Debug, PartialEq, Eq)]
pub enum Value<'buf> {
    Single(&'buf str),
    Multiple(Vec<&'buf str>),
}

/// A `Value` as plain text.
pub enum ValueView {
    Single(Seq<char>),
    Multiple(Seq<Seq<char>>),
}

impl<'buf> View for Value<'buf> {
    type V = ValueView;

    open spec fn view(&self) -> ValueView {
        match self {
            Value::Single(value) => ValueView::Single(value@),
            Value::Multiple(values) => ValueView::Multiple(values@.map_values(|v: &str| v@)),
        }
    }
}

/// The bindings of a query string, borrowed from the text they were read
/// from. They are kept as a list with one entry for each key, in the order in
/// which the keys first occur.
#[derive(Debug)]
pub struct QueryString<'buf> {
    data: Vec<Entry<'buf>>,
}

/// The fragments of a query string: the pieces between its `&` characters.
/// There is always at least one, and a fragment may be empty.
pub open spec fn fragments(s: Seq<char>) -> Seq<Seq<char>>
    decreases s.len(),
    via fragments_decreases
{
    match split_at(s, '&') {
        Some((first, later)) => seq![first] + fragments(later),
        None => seq![s],
    }
}

/// What follows the first `&` is shorter than the whole.
#[via_fn]
proof fn fragments_decreases(s: Seq<char>) {
    lemma_first_of(s, '&', '&');
}

/// The key and the value of one fragment: the text before its first `=` and
/// the text after it. A fragment without `=` is a key with an empty value.
pub open spec fn binding(fragment: Seq<char>) -> (Seq<char>, Seq<char>) {
    match split_at(fragment, '=') {
        Some((key, value)) => (key, value),
        None => (fragment, Seq::empty()),
    }
}

/// `bindings` with one more value for `key`: a first value is recorded alone,
/// a later one joins the earlier ones at the end of their sequence.
pub open spec fn record(
    bindings: Map<Seq<char>, ValueView>,
    key: Seq<char>,
    value: Seq<char>,
) -> Map<Seq<char>, ValueView> {
    if bindings.dom().contains(key) {
        match bindings[key] {
            ValueView::Single(first) => bindings.insert(
                key,
                ValueView::Multiple(seq![first, value]),
            ),
            ValueView::Multiple(values) => bindings.insert(
                key,
                ValueView::Multiple(values.push(value)),
            ),
        }
    } else {
        bindings.insert(key, ValueView::Single(value))
    }
}

/// `bindings` after recording the binding of each fragment, first to last.
pub open spec fn record_all(
    bindings: Map<Seq<char>, ValueView>,
    fragments: Seq<Seq<char>>,
) -> Map<Seq<char>, ValueView>
    decreases fragments.len(),
{
    if fragments.len() == 0 {
        bindings
    } else {
        let (key, value) = binding(fragments[0]);
        record_all(record(bindings, key, value), fragments.drop_first())
    }
}

/// The bindings of a query string. Keys and values are taken verbatim.
pub open spec fn parse_query(s: Seq<char>) -> Map<Seq<char>, ValueView> {
    record_all(Map::empty(), fragments(s))
}

/// The values that the fragments give to `key`, in the order of the
/// fragments.
pub open spec fn values_for(fragments: Seq<Seq<char>>, key: Seq<char>) -> Seq<Seq<char>>
    decreases fragments.len(),
{
    if fragments.len() == 0 {
        Seq::empty()
    } else if binding(fragments[0]).0 == key {
        seq![binding(fragments[0]).1] + values_for(fragments.drop_first(), key)
    } else {
        values_for(fragments.drop_first(), key)
    }
}

/// Whether `bindings` binds `key` to exactly `values`: to nothing where there
/// is no value, to a single value where there is one, and to the whole
/// sequence where there are more.
pub open spec fn binds(
    bindings: Map<Seq<char>, ValueView>,
    key: Seq<char>,
    values: Seq<Seq<char>>,
) -> bool {
    if values.len() == 0 {
        !bindings.dom().contains(key)
    } else if values.len() == 1 {
        bindings.dom().contains(key) && bindings[key] == ValueView::Single(values[0])
    } else {
        bindings.dom().contains(key) && bindings[key] == ValueView::Multiple(values)
    }
}

/// Recording a value for a key adds it behind the values the key has, and
/// leaves every other key as it is.
pub proof fn lemma_record_appends(
    bindings: Map<Seq<char>, ValueView>,
    key: Seq<char>,
    values: Seq<Seq<char>>,
    recorded_key: Seq<char>,
    recorded_value: Seq<char>,
)
    requires
        binds(bindings, key, values),
    ensures
        binds(
            record(bindings, recorded_key, recorded_value),
            key,
            if recorded_key == key {
                values.push(recorded_value)
            } else {
                values
            },
        ),
{
    if recorded_key == key {
        if values.len() == 1 {
            assert(seq![values[0], recorded_value] =~= values.push(recorded_value));
        }
    }
}

/// Recording the bindings of some fragments adds, for each key, the values
/// that the fragments give it, in their order.
proof fn lemma_record_all_appends(
    bindings: Map<Seq<char>, ValueView>,
    key: Seq<char>,
    values: Seq<Seq<char>>,
    fragments: Seq<Seq<char>>,
)
    requires
        binds(bindings, key, values),
    ensures
        binds(record_all(bindings, fragments), key, values + values_for(fragments, key)),
    decreases fragments.len(),
{
    if fragments.len() != 0 {
        let (k, v) = binding(fragments[0]);
        let later = fragments.drop_first();
        lemma_record_appends(bindings, key, values, k, v);
        if k == key {
            lemma_record_all_appends(record(bindings, k, v), key, values.push(v), later);
            assert(values.push(v) + values_for(later, key) =~= values + values_for(
                fragments,
                key,
            ));
        } else {
            lemma_record_all_appends(record(bindings, k, v), key, values, later);
        }
    }
}

/// A query string binds each key to the values that its fragments give the
/// key, in the order in which they stand: a key that no fragment names is
/// not bound, a key named once has a single value, and a key named more
/// than once has the sequence of its values.
pub proof fn lemma_query_binds_in_order(s: Seq<char>, key: Seq<char>)
    ensures
        binds(parse_query(s), key, values_for(fragments(s), key)),
{
    lemma_record_all_appends(Map::empty(), key, Seq::empty(), fragments(s));
}

/// A query string that is one bare key, without `=` and without `&`, binds
/// that key to the empty value and binds nothing else.
pub proof fn lemma_bare_key(key: Seq<char>)
    requires
        forall|i: int| 0 <= i < key.len() ==> key[i] != '&' && key[i] != '=',
    ensures
        parse_query(key) == Map::<Seq<char>, ValueView>::empty().insert(
            key,
            ValueView::Single(Seq::empty()),
        ),
{
    lemma_split_at_none(key, '&');
    lemma_split_at_none(key, '=');
    reveal_with_fuel(record_all, 2);
}

/// One key of a query string with what it is bound to.
#[derive(Debug)]
struct Entry<'buf> {
    key: &'buf str,
    value: Value<'buf>,
}

/// No key stands in two entries.
spec fn distinct_keys(entries: Seq<Entry>) -> bool {
    forall|i: int, j: int|
        0 <= i < j < entries.len() ==> (#[trigger] entries[i]).key@ != (#[trigger] entries[j]).key@
}

/// Whether some entry holds `key`.
spec fn has_key(entries: Seq<Entry>, key: Seq<char>) -> bool {
    exists|i: int| 0 <= i < entries.len() && (#[trigger] entries[i]).key@ == key
}

/// An entry that holds `key`, where there is one.
spec fn index_of_key(entries: Seq<Entry>, key: Seq<char>) -> int {
    choose|i: int| 0 <= i < entries.len() && (#[trigger] entries[i]).key@ == key
}

/// The bindings that a list of entries stands for.
spec fn bindings_of(entries: Seq<Entry>) -> Map<Seq<char>, ValueView> {
    Map::new(
        |key: Seq<char>| has_key(entries, key),
        |key: Seq<char>| entries[index_of_key(entries, key)].value@,
    )
}

/// A new last entry with a key of its own adds its binding.
proof fn lemma_push_binds(entries: Seq<Entry>, entry: Entry)
    requires
        distinct_keys(entries),
        !has_key(entries, entry.key@),
    ensures
        distinct_keys(entries.push(entry)),
        bindings_of(entries.push(entry)) == bindings_of(entries).insert(entry.key@, entry.value@),
{
    let pushed = entries.push(entry);
    assert forall|key: Seq<char>| has_key(pushed, key) <==> (has_key(entries, key) || key
        == entry.key@) by {
        if has_key(entries, key) {
            let i: int = index_of_key(entries, key);
            assert(pushed[i].key@ == key);
        }
        if key == entry.key@ {
            assert(pushed[entries.len() as int].key@ == key);
        }
    }
}

/// Replacing an entry by one with the same key rebinds that key.
proof fn lemma_update_rebinds(entries: Seq<Entry>, i: int, entry: Entry)
    requires
        distinct_keys(entries),
        0 <= i < entries.len(),
        entry.key@ == entries[i].key@,
    ensures
        distinct_keys(entries.update(i, entry)),
        bindings_of(entries.update(i, entry)) == bindings_of(entries).insert(
            entry.key@,
            entry.value@,
        ),
{
    let updated = entries.update(i, entry);
    assert forall|key: Seq<char>| has_key(updated, key) <==> has_key(entries, key) by {
        if has_key(entries, key) {
            let j: int = index_of_key(entries, key);
            assert(updated[j].key@ == key);
        }
    }
}

/// The entry that holds `key`, if any.
fn position(entries: &Vec<Entry>, key: &str) -> (found: Option<usize>)
    ensures
        match found {
            Some(i) => i < entries@.len() && entries@[i as int].key@ == key@,
            None => !has_key(entries@, key@),
        },
{
    let mut i: usize = 0;
    while i < entries.len()
        invariant
            i <= entries@.len(),
            forall|j: int| 0 <= j < i ==> (#[trigger] entries@[j]).key@ != key@,
        decreases entries@.len() - i,
    {
        if str_eq(entries[i].key, key) {
            return Some(i);
        }
        i += 1;
    }
    None
}

/// Records the binding of one fragment.
fn record_fragment<'buf>(entries: &mut Vec<Entry<'buf>>, fragment: &'buf str)
    requires
        distinct_keys(old(entries)@),
    ensures
        distinct_keys(final(entries)@),
        bindings_of(final(entries)@) == record(
            bindings_of(old(entries)@),
            binding(fragment@).0,
            binding(fragment@).1,
        ),
{
    match split_once(fragment, '=') {
        Some((key, value)) => record_value(entries, key, value),
        None => {
            proof {
                reveal_strlit("");
                assert(""@ =~= Seq::<char>::empty());
            }
            record_value(entries, fragment, "")
        },
    }
}

/// Records one more value for `key`.
fn record_value<'buf>(entries: &mut Vec<Entry<'buf>>, key: &'buf str, value: &'buf str)
    requires
        distinct_keys(old(entries)@),
    ensures
        distinct_keys(final(entries)@),
        bindings_of(final(entries)@) == record(bindings_of(old(entries)@), key@, value@),
{
    match position(entries, key) {
        Some(i) => {
            let entry = &mut entries[i];
            match &mut entry.value {
                Value::Single(first) => {
                    let first: &'buf str = *first;
                    entry.value = Value::Multiple(vec![first, value]);
                    assert(entry.value@ == ValueView::Multiple(seq![first@, value@])) by {
                        assert(seq![first, value].map_values(|v: &str| v@) =~= seq![
                            first@,
                            value@,
                        ]);
                    }
                },
                Value::Multiple(values) => {
                    let ghost before = values@;
                    values.push(value);
                    assert(values@.map_values(|v: &str| v@) =~= before.map_values(
                        |v: &str| v@,
                    ).push(value@));
                },
            }
            proof {
                lemma_update_rebinds(old(entries)@, i as int, entries@[i as int]);
            }
        },
        None => {
            let entry = Entry { key, value: Value::Single(value) };
            proof {
                lemma_push_binds(entries@, entry);
            }
            entries.push(entry);
        },
    }
}

impl<'buf> QueryString<'buf> {
    /// Each key is held once.
    #[verifier::type_invariant]
    spec fn keys_are_distinct(&self) -> bool {
        distinct_keys(self.data@)
    }

    /// What `key` is bound to, if it is bound.
    pub fn get(&self, key: &str) -> (value: Option<&Value<'buf>>)
        ensures
            match value {
                Some(v) => self@.dom().contains(key@) && self@[key@] == v@,
                None => !self@.dom().contains(key@),
            },
    {
        proof {
            use_type_invariant(self);
        }
        match position(&self.data, key) {
            Some(i) => Some(&self.data[i].value),
            None => None,
        }
    }
}

impl<'buf> View for QueryString<'buf> {
    type V = Map<Seq<char>, ValueView>;

    closed spec fn view(&self) -> Map<Seq<char>, ValueView> {
        bindings_of(self.data@)
    }
}

impl<'buf> From<&'buf str> for QueryString<'buf> {
    /// Reads the bindings of a query string: the text that follows the `?`.
    fn from(s: &'buf str) -> (query: Self)
        ensures
            query@ == parse_query(s@),
    {
        let mut data: Vec<Entry<'buf>> = Vec::new();
        let mut rest = s;
        assert(bindings_of(data@) =~= Map::empty());
        loop
            invariant_except_break
                distinct_keys(data@),
                record_all(bindings_of(data@), fragments(rest@)) == parse_query(s@),
            ensures
                distinct_keys(data@),
                bindings_of(data@) == parse_query(s@),
            decreases rest@.len(),
        {
            let ghost bound = bindings_of(data@);
            proof {
                lemma_split_at_shortens(rest@, '&');
            }
            match split_once(rest, '&') {
                Some((fragment, tail)) => {
                    record_fragment(&mut data, fragment);
                    proof {
                        let later = fragments(tail@);
                        assert((seq![fragment@] + later).drop_first() =~= later);
                        assert(record_all(bound, fragments(rest@)) == record_all(
                            bindings_of(data@),
                            later,
                        ));
                    }
                    rest = tail;
                },
                None => {
                    record_fragment(&mut data, rest);
                    proof {
                        assert(record_all(bound, fragments(rest@)) == bindings_of(data@)) by {
                            reveal_with_fuel(record_all, 2);
                        }
                    }
                    break ;
                },
            }
        }
        QueryString { data }
    }
}

/// What `from` returns is stated by its own contract, over the view of the
/// query string: two query strings with the same bindings need not be the
/// same value.
impl<'buf> vstd::std_specs::convert::FromSpecImpl<&'buf str> for QueryString<'buf> {
    open spec fn obeys_from_spec() -> bool {
        false
    }

    open spec fn from_spec(s: &'buf str) -> Self {
        arbitrary()
    }
}

} // verus!
