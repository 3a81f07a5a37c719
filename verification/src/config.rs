//! What the verified code is told about a parsed configuration.
//!
//! A configuration is an `ini::Ini`. Its sections are read through the two
//! functions below; everything they promise is taken from the `ini` crate on
//! trust, and the rest of the library is proved against it.
use vstd::prelude::*;

verus! {

#[verifier::external_type_specification]
#[verifier::external_body]
pub struct ExIni(ini::Ini);

#[verifier::external_type_specification]
#[verifier::external_body]
pub struct ExProperties(ini::Properties);

/// The named sections of a configuration: for each section name, the key and
/// value pairs of the first section of that name, in the order in which they
/// were added. A key that occurs twice is listed twice.
pub uninterp spec fn ini_sections(config: ini::Ini) -> Map<Seq<char>, Seq<(Seq<char>, Seq<char>)>>;

/// The key and value pairs of one section, in the order in which they were
/// added.
pub uninterp spec fn section_entries(section: ini::Properties) -> Seq<(Seq<char>, Seq<char>)>;

/// The pairs of character sequences that a vector of entries holds.
pub open spec fn entry_texts(entries: Seq<(String, String)>) -> Seq<(Seq<char>, Seq<char>)> {
    entries.map_values(|entry: (String, String)| (entry.0@, entry.1@))
}

/// `Ini::section` with a name: the first section of that name, or `None`
/// where the configuration has no section of that name.
#[verifier::external_body]
pub(crate) fn find_section<'a>(config: &'a ini::Ini, name: &str) -> (section: Option<
    &'a ini::Properties,
>)
    ensures
        section is Some <==> ini_sections(*config).contains_key(name@),
        section matches Some(found) ==> section_entries(*found) == ini_sections(*config)[name@],
{
    config.section(Some(name))
}

/// `Properties::iter`, collected: every pair of the section as owned strings,
/// in the order of the section, none left out and none added.
#[verifier::external_body]
pub(crate) fn list_entries(section: &ini::Properties) -> (entries: Vec<(String, String)>)
    ensures
        entry_texts(entries@) == section_entries(*section),
{
    section.iter().map(|(key, value)| (key.to_string(), value.to_string())).collect()
}

} // verus!
