//! TOML tables that are carried through without being looked into.
use vstd::prelude::*;

verus! {

/// `toml::map::Map`, the type behind `toml::Table`.
#[verifier::external_type_specification]
#[verifier::external_body]
#[verifier::reject_recursive_types(K)]
#[verifier::reject_recursive_types(V)]
pub struct ExTomlMap<K, V>(toml::map::Map<K, V>);

/// `toml::Value`, any TOML value.
#[verifier::external_type_specification]
#[verifier::external_body]
pub struct ExTomlValue(toml::Value);

/// The keys that a TOML table holds at its top level.
pub uninterp spec fn table_keys(table: toml::Table) -> Set<Seq<char>>;

/// `toml::Table::new` makes a table without entries.
#[verifier::external_body]
pub(crate) fn empty_table() -> (table: toml::Table)
    ensures
        table_keys(table) == Set::<Seq<char>>::empty(),
{
    toml::Table::new()
}

} // verus!
