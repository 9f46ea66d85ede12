//! Lists of named values.
//!
//! Headers, endpoints and usage counters are kept as lists of pairs in which
//! no name occurs twice. Such a list stands for a map, and keeps an order.
use vstd::prelude::*;
use crate::scenario::Named;
use crate::text;

verus! {

/// The names of a list, in order.
pub open spec fn names<V>(s: Seq<(String, V)>) -> Seq<Seq<char>> {
    s.map_values(|e: (String, V)| e.0@)
}

/// No name occurs twice.
pub open spec fn distinct<V>(s: Seq<(String, V)>) -> bool {
    forall|i: int, j: int| 0 <= i < j < s.len() ==> (#[trigger] s[i]).0@ != (#[trigger] s[j]).0@
}

/// `name` stands at position `i`, and at none before it.
pub open spec fn first_named<V>(s: Seq<(String, V)>, name: Seq<char>, i: int) -> bool {
    &&& 0 <= i < s.len()
    &&& s[i].0@ == name
    &&& forall|j: int| 0 <= j < i ==> (#[trigger] s[j]).0@ != name
}

/// `name` is in the list.
pub open spec fn has_name<V>(s: Seq<(String, V)>, name: Seq<char>) -> bool {
    exists|i: int| 0 <= i < s.len() && (#[trigger] s[i]).0@ == name
}

/// The position of the first entry of that name, from `i` on.
pub open spec fn position_from<V>(s: Seq<(String, V)>, name: Seq<char>, i: int) -> Option<int>
    decreases s.len() - i,
{
    if i < 0 || i >= s.len() {
        None
    } else if s[i].0@ == name {
        Some(i)
    } else {
        position_from(s, name, i + 1)
    }
}

/// The position of the first entry of that name.
pub open spec fn position<V>(s: Seq<(String, V)>, name: Seq<char>) -> Option<int> {
    position_from(s, name, 0)
}

/// The value of that name.
pub open spec fn value_of<V>(s: Seq<(String, V)>, name: Seq<char>) -> Option<V> {
    match position(s, name) {
        Some(i) => Some(s[i].1),
        None => None,
    }
}

/// What `position_from` says.
pub proof fn lemma_position_from<V>(s: Seq<(String, V)>, name: Seq<char>, i: int)
    requires
        0 <= i <= s.len(),
        forall|j: int| 0 <= j < i ==> (#[trigger] s[j]).0@ != name,
    ensures
        match position_from(s, name, i) {
            Some(k) => first_named(s, name, k),
            None => !has_name(s, name),
        },
    decreases s.len() - i,
{
    if i < s.len() && s[i].0@ != name {
        lemma_position_from(s, name, i + 1);
    }
}

/// What `position` says.
pub proof fn lemma_position<V>(s: Seq<(String, V)>, name: Seq<char>)
    ensures
        match position(s, name) {
            Some(k) => first_named(s, name, k),
            None => !has_name(s, name),
        },
{
    lemma_position_from(s, name, 0);
}

/// The first entry of that name is the only one that `position` can give.
pub proof fn lemma_position_is<V>(s: Seq<(String, V)>, name: Seq<char>, i: int)
    requires
        first_named(s, name, i),
    ensures
        position(s, name) == Some(i),
        value_of(s, name) == Some(s[i].1),
{
    lemma_position(s, name);
    assert(has_name(s, name));
    let k = position(s, name)->0;
    if k < i {
        assert(s[k].0@ != name);
    } else if i < k {
        assert(s[i].0@ != name);
    }
}

/// The position of the first entry of that name.
pub fn find_name<V>(list: &Vec<(String, V)>, name: &str) -> (r: Option<usize>)
    ensures
        match r {
            Some(i) => first_named(list@, name@, i as int) && position(list@, name@) == Some(
                i as int,
            ),
            None => !has_name(list@, name@) && position(list@, name@) is None,
        },
{
    let mut i: usize = 0;
    while i < list.len()
        invariant
            i <= list@.len(),
            forall|j: int| 0 <= j < i ==> (#[trigger] list@[j]).0@ != name@,
            position(list@, name@) == position_from(list@, name@, i as int),
        decreases list@.len() - i,
    {
        if text::same_text(list[i].0.as_str(), name) {
            return Some(i);
        }
        i += 1;
    }
    None
}

/// The value of that name.
pub fn lookup<'a, V>(list: &'a Named<V>, name: &str) -> (r: Option<&'a V>)
    ensures
        match r {
            Some(v) => value_of(list@, name@) == Some(*v),
            None => value_of(list@, name@) is None,
        },
        r is Some <==> has_name(list@, name@),
{
    match find_name(list, name) {
        Some(i) => Some(&list[i].1),
        None => None,
    }
}

/// A copy of a list of strings.
pub fn copy_strings(list: &Vec<String>) -> (r: Vec<String>)
    ensures
        r@ == list@,
{
    let mut r: Vec<String> = Vec::new();
    let mut i: usize = 0;
    while i < list.len()
        invariant
            i <= list@.len(),
            r@ == list@.take(i as int),
        decreases list@.len() - i,
    {
        r.push(list[i].clone());
        assert(r@ =~= list@.take(i + 1));
        i += 1;
    }
    assert(list@.take(i as int) =~= list@);
    r
}

/// A copy of a list of named strings.
pub fn copy_named(list: &Named<String>) -> (r: Named<String>)
    ensures
        r@ == list@,
{
    let mut r: Named<String> = Vec::new();
    let mut i: usize = 0;
    while i < list.len()
        invariant
            i <= list@.len(),
            r@ == list@.take(i as int),
        decreases list@.len() - i,
    {
        r.push((list[i].0.clone(), list[i].1.clone()));
        assert(r@ =~= list@.take(i + 1));
        i += 1;
    }
    assert(list@.take(i as int) =~= list@);
    r
}

/// A copy of an optional string.
pub fn copy_option(value: &Option<String>) -> (r: Option<String>)
    ensures
        r == *value,
{
    match value {
        Some(v) => Some(v.clone()),
        None => None,
    }
}

} // verus!
