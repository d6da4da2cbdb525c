//! The filter set and the two predicates that decide whether an entry is
//! reported: one over the entry's base name, one over its kind. Absence of
//! a filter is permissive: an empty pattern list matches every name, and an
//! empty kind list (or one naming all three kinds) matches every entry.

use vstd::prelude::*;

use crate::entry::{Entry, EntryType};
use crate::pattern::{regex_matches, NamePattern};

verus! {

/// The name and kind constraints applied to every entry. Built once from
/// configuration and immutable for the whole search.
pub struct FilterSet {
    pub names: Vec<NamePattern>,
    pub entry_types: Vec<EntryType>,
}

/// The mathematical content of a [`FilterSet`]: the pattern texts, in
/// order, and the configured kinds, in order.
pub struct FilterModel {
    pub names: Seq<Seq<char>>,
    pub entry_types: Seq<EntryType>,
}

/// The pattern texts of a sequence of compiled patterns, in order.
pub open spec fn pattern_texts(ps: Seq<NamePattern>) -> Seq<Seq<char>> {
    ps.map_values(|p: NamePattern| p@)
}

impl View for FilterSet {
    type V = FilterModel;

    open spec fn view(&self) -> FilterModel {
        FilterModel {
            names: pattern_texts(self.names@),
            entry_types: self.entry_types@,
        }
    }
}

/// Whether a base name satisfies the pattern list: an empty list matches
/// every name, otherwise some pattern must match.
pub open spec fn name_matches(names: Seq<Seq<char>>, name: Seq<char>) -> bool {
    names.len() == 0 || exists|i: int| 0 <= i < names.len() && regex_matches(names[i], name)
}

/// Whether the kind list names all three kinds, which is as permissive as
/// naming none.
pub open spec fn has_all_types(types: Seq<EntryType>) -> bool {
    types.contains(EntryType::Dir) && types.contains(EntryType::File)
        && types.contains(EntryType::Link)
}

/// Whether an entry's kind satisfies the kind list. An entry whose kind
/// could not be resolved to one of the three (`None`) satisfies only a
/// trivial filter: an empty list, or one naming all three kinds.
pub open spec fn type_matches(types: Seq<EntryType>, kind: Option<EntryType>) -> bool {
    types.len() == 0 || has_all_types(types) || (kind matches Some(k) && types.contains(k))
}

/// Whether an entry is reported: both predicates must hold.
pub open spec fn entry_matches(f: FilterModel, name: Seq<char>, kind: Option<EntryType>) -> bool {
    name_matches(f.names, name) && type_matches(f.entry_types, kind)
}

impl FilterSet {
    /// A filter set with no constraints: it matches every entry.
    pub fn match_all() -> (r: FilterSet)
        ensures
            r@.names.len() == 0,
            r@.entry_types.len() == 0,
    {
        FilterSet { names: Vec::new(), entry_types: Vec::new() }
    }
}

/// Whether `types` contains `t`.
pub fn contains_type(types: &Vec<EntryType>, t: EntryType) -> (r: bool)
    ensures
        r == types@.contains(t),
{
    let mut i: usize = 0;
    while i < types.len()
        invariant
            i <= types@.len(),
            forall|j: int| 0 <= j < i ==> types@[j] != t,
        decreases types@.len() - i,
    {
        if types[i] == t {
            return true;
        }
        i = i + 1;
    }
    false
}

/// The name predicate: true when no pattern is configured, else when at
/// least one configured pattern matches the base name.
pub fn is_correct_name(filters: &FilterSet, name: &str) -> (r: bool)
    ensures
        r == name_matches(filters@.names, name@),
{
    if filters.names.len() == 0 {
        return true;
    }
    let mut i: usize = 0;
    while i < filters.names.len()
        invariant
            i <= filters.names@.len(),
            forall|j: int| 0 <= j < i ==> !regex_matches(filters@.names[j], name@),
        decreases filters.names@.len() - i,
    {
        if filters.names[i].is_match(name) {
            assert(regex_matches(filters@.names[i as int], name@));
            return true;
        }
        i = i + 1;
    }
    false
}

/// The kind predicate: true when no kind is configured or all three are,
/// else when the entry's resolved kind is one of the configured ones.
pub fn is_correct_type(filters: &FilterSet, kind: Option<EntryType>) -> (r: bool)
    ensures
        r == type_matches(filters@.entry_types, kind),
{
    if filters.entry_types.len() == 0 {
        return true;
    }
    let all_three = contains_type(&filters.entry_types, EntryType::Dir)
        && contains_type(&filters.entry_types, EntryType::File)
        && contains_type(&filters.entry_types, EntryType::Link);
    if all_three {
        return true;
    }
    match kind {
        Some(k) => contains_type(&filters.entry_types, k),
        None => false,
    }
}

/// Whether a single entry is reported under `filters`: the conjunction of
/// the name predicate and the kind predicate.
pub fn matches_entry(filters: &FilterSet, e: &Entry) -> (r: bool)
    ensures
        r == entry_matches(filters@, e@.name, e@.kind),
{
    is_correct_name(filters, e.name.as_str()) && is_correct_type(filters, e.kind)
}

/// With no name pattern configured, every base name passes the name
/// predicate.
pub proof fn lemma_name_matches_empty(names: Seq<Seq<char>>, name: Seq<char>)
    requires
        names.len() == 0,
    ensures
        name_matches(names, name),
{
}

/// With no kind configured, every entry passes the kind predicate, whether
/// or not its kind could be resolved.
pub proof fn lemma_type_matches_empty(types: Seq<EntryType>, kind: Option<EntryType>)
    requires
        types.len() == 0,
    ensures
        type_matches(types, kind),
{
}

/// With exactly one kind configured, an entry passes the kind predicate
/// exactly when its resolved kind equals the configured one.
pub proof fn lemma_type_matches_single(types: Seq<EntryType>, kind: Option<EntryType>)
    requires
        types.len() == 1,
    ensures
        type_matches(types, kind) <==> (kind matches Some(k) && k == types[0]),
{
    if types.contains(EntryType::Dir) && types.contains(EntryType::File) {
        let i = choose|i: int| 0 <= i < types.len() && types[i] == EntryType::Dir;
        let j = choose|j: int| 0 <= j < types.len() && types[j] == EntryType::File;
        assert(i == 0 && j == 0);
        assert(false);
    }
    match kind {
        Some(k) => {
            if k == types[0] {
                assert(types.contains(k));
            }
        },
        None => {},
    }
}

} // verus!
