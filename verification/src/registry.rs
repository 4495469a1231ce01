//! Read-only registry of unit definitions.
//!
//! The registry models the calculator's builtin unit table at its lookup
//! interface: a table of `(singular, plural, definition)` rows, partitioned
//! into rows that only ever match case-sensitively and rows that may also
//! match case-insensitively, plus a separate table of short prefixes that
//! is consulted, by exact match, only when a lookup asks for short
//! prefixes. Registry data is immutable for the lifetime of a resolution.

use vstd::prelude::*;
use crate::strutil::{spec_seq_ci_eq, str_ci_eq, str_eq};

verus! {

/// One row of the registry: a singular name, a plural name, and a
/// definition written in the definition mini-language (an optional prefix
/// rule tag, then `!` for a base unit, an optional alias marker `=`, and an
/// expression for the evaluator).
#[derive(Debug)]
pub struct UnitEntry {
    pub singular: String,
    pub plural: String,
    pub definition: String,
    /// A row in a case-sensitive group only ever matches exactly, even
    /// during a case-insensitive lookup.
    pub case_sensitive: bool,
}

/// The mathematical shape of a registry row.
pub struct EntryV {
    pub singular: Seq<char>,
    pub plural: Seq<char>,
    pub definition: Seq<char>,
    pub case_sensitive: bool,
}

impl View for UnitEntry {
    type V = EntryV;

    open spec fn view(&self) -> EntryV {
        EntryV {
            singular: self.singular@,
            plural: self.plural@,
            definition: self.definition@,
            case_sensitive: self.case_sensitive,
        }
    }
}

/// The unit definition tables.
#[derive(Debug)]
pub struct Registry {
    /// Short prefixes (`k`, `M`, ...), consulted first, by exact singular
    /// match, only when a lookup asks for short prefixes.
    pub short_prefix_defs: Vec<UnitEntry>,
    /// The main table of unit definitions.
    pub unit_defs: Vec<UnitEntry>,
}

/// The mathematical shape of the registry.
pub struct RegistryV {
    pub short_prefix_defs: Seq<EntryV>,
    pub unit_defs: Seq<EntryV>,
}

impl View for Registry {
    type V = RegistryV;

    open spec fn view(&self) -> RegistryV {
        RegistryV {
            short_prefix_defs: Seq::new(
                self.short_prefix_defs@.len(),
                |i: int| self.short_prefix_defs@[i]@,
            ),
            unit_defs: Seq::new(self.unit_defs@.len(), |i: int| self.unit_defs@[i]@),
        }
    }
}

/// First row of the short-prefix table whose singular name equals `name`
/// exactly.
pub open spec fn spec_find_short(entries: Seq<EntryV>, name: Seq<char>) -> Option<EntryV>
    decreases entries.len(),
{
    if entries.len() == 0 {
        None
    } else if entries[0].singular == name {
        Some(entries[0])
    } else {
        spec_find_short(entries.drop_first(), name)
    }
}

/// Whether a main-table row answers to `name`: exactly when the lookup or
/// the row demands case sensitivity, otherwise up to ASCII case, on either
/// the singular or the plural form.
pub open spec fn spec_entry_matches(e: EntryV, name: Seq<char>, case_sensitive: bool) -> bool {
    if case_sensitive || e.case_sensitive {
        e.singular == name || e.plural == name
    } else {
        spec_seq_ci_eq(name, e.singular) || spec_seq_ci_eq(name, e.plural)
    }
}

/// First row of the main table that answers to `name`.
pub open spec fn spec_find_main(entries: Seq<EntryV>, name: Seq<char>, case_sensitive: bool) -> Option<
    EntryV,
>
    decreases entries.len(),
{
    if entries.len() == 0 {
        None
    } else if spec_entry_matches(entries[0], name, case_sensitive) {
        Some(entries[0])
    } else {
        spec_find_main(entries.drop_first(), name, case_sensitive)
    }
}

/// Registry lookup: short prefixes first, when asked for, then the main
/// table.
pub open spec fn spec_lookup(
    reg: RegistryV,
    name: Seq<char>,
    short_prefixes: bool,
    case_sensitive: bool,
) -> Option<EntryV> {
    if short_prefixes {
        match spec_find_short(reg.short_prefix_defs, name) {
            Some(e) => Some(e),
            None => spec_find_main(reg.unit_defs, name, case_sensitive),
        }
    } else {
        spec_find_main(reg.unit_defs, name, case_sensitive)
    }
}

impl Registry {
    /// Look `name` up, as a pure function of the tables and the two flags.
    pub fn lookup(&self, name: &str, short_prefixes: bool, case_sensitive: bool) -> (r: Option<
        &UnitEntry,
    >)
        ensures
            match r {
                Some(e) => spec_lookup(self@, name@, short_prefixes, case_sensitive) == Some(e@),
                None => spec_lookup(self@, name@, short_prefixes, case_sensitive) is None,
            },
    {
        if short_prefixes {
            let mut i: usize = 0;
            proof {
                assert(self@.short_prefix_defs.skip(0) =~= self@.short_prefix_defs);
            }
            while i < self.short_prefix_defs.len()
                invariant
                    short_prefixes,
                    i <= self.short_prefix_defs@.len(),
                    spec_find_short(self@.short_prefix_defs, name@) == spec_find_short(
                        self@.short_prefix_defs.skip(i as int),
                        name@,
                    ),
                decreases self.short_prefix_defs@.len() - i,
            {
                let e = &self.short_prefix_defs[i];
                proof {
                    assert(self@.short_prefix_defs.skip(i as int)[0] == e@);
                }
                if str_eq(e.singular.as_str(), name) {
                    proof {
                        assert(spec_find_short(self@.short_prefix_defs.skip(i as int), name@)
                            == Some(e@));
                    }
                    return Some(e);
                }
                proof {
                    assert(self@.short_prefix_defs.skip(i as int).drop_first()
                        =~= self@.short_prefix_defs.skip(i + 1));
                }
                i += 1;
            }
            proof {
                assert(self@.short_prefix_defs.skip(self.short_prefix_defs@.len() as int).len()
                    == 0);
            }
        }
        let mut i: usize = 0;
        proof {
            assert(self@.unit_defs.skip(0) =~= self@.unit_defs);
        }
        while i < self.unit_defs.len()
            invariant
                i <= self.unit_defs@.len(),
                spec_lookup(self@, name@, short_prefixes, case_sensitive) == spec_find_main(
                    self@.unit_defs.skip(i as int),
                    name@,
                    case_sensitive,
                ),
            decreases self.unit_defs@.len() - i,
        {
            let e = &self.unit_defs[i];
            proof {
                assert(self@.unit_defs.skip(i as int)[0] == e@);
            }
            let matched: bool = if case_sensitive || e.case_sensitive {
                str_eq(e.singular.as_str(), name) || str_eq(e.plural.as_str(), name)
            } else {
                str_ci_eq(name, e.singular.as_str()) || str_ci_eq(name, e.plural.as_str())
            };
            if matched {
                return Some(e);
            }
            proof {
                assert(self@.unit_defs.skip(i as int).drop_first() =~= self@.unit_defs.skip(i + 1));
            }
            i += 1;
        }
        proof {
            assert(self@.unit_defs.skip(self.unit_defs@.len() as int).len() == 0);
        }
        None
    }
}

/// If a lookup finds a row, that row answers to the name it was looked up
/// under (and an exact short-prefix hit has `singular == name`).
pub proof fn lemma_find_short_sound(entries: Seq<EntryV>, name: Seq<char>)
    ensures
        spec_find_short(entries, name) matches Some(e) ==> e.singular == name && entries.contains(
            e,
        ),
    decreases entries.len(),
{
    if entries.len() > 0 && entries[0].singular != name {
        lemma_find_short_sound(entries.drop_first(), name);
        match spec_find_short(entries.drop_first(), name) {
            Some(e) => {
                assert(entries.drop_first().contains(e));
                let i = choose|i: int|
                    0 <= i < entries.drop_first().len() && entries.drop_first()[i] == e;
                assert(entries[i + 1] == e);
            },
            None => {},
        }
    }
}

/// A found main-table row answers to the name, and stands in the table.
pub proof fn lemma_find_main_sound(entries: Seq<EntryV>, name: Seq<char>, case_sensitive: bool)
    ensures
        spec_find_main(entries, name, case_sensitive) matches Some(e) ==> spec_entry_matches(
            e,
            name,
            case_sensitive,
        ) && entries.contains(e),
    decreases entries.len(),
{
    if entries.len() > 0 && !spec_entry_matches(entries[0], name, case_sensitive) {
        lemma_find_main_sound(entries.drop_first(), name, case_sensitive);
        match spec_find_main(entries.drop_first(), name, case_sensitive) {
            Some(e) => {
                assert(entries.drop_first().contains(e));
                let i = choose|i: int|
                    0 <= i < entries.drop_first().len() && entries.drop_first()[i] == e;
                assert(entries[i + 1] == e);
            },
            None => {},
        }
    }
}

} // verus!
