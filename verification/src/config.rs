//! The parameters of a test run.

use vstd::prelude::*;
use vstd::string::*;
use crate::decimal::{parse_u32, parsed_u32};
use crate::text::{begins_with, chars_of, spells};

verus! {

/// Describes how failing test cases are persisted.
///
/// A file name is the fragment that is resolved against a directory; see
/// `FailurePersistence::resolve`.
#[derive(Clone, Copy, Debug, PartialEq)]
pub enum FailurePersistence {
    /// Failing test cases are not persisted, and no file is touched.
    Off,
    /// The file lies in the nearest directory above the test's source file
    /// that holds a project-root marker. Without such a directory this
    /// behaves like `WithSource`; without a known source file, like `Direct`.
    WithMain(&'static str),
    /// The file lies beside the test's source file. Without a known source
    /// file this behaves like `Direct`.
    WithSource(&'static str),
    /// The string is the path of the file, as it stands.
    Direct(&'static str),
}

impl Default for FailurePersistence {
    fn default() -> (p: Self)
        ensures
            p == FailurePersistence::WithMain("proptest-failures.txt"),
    {
        FailurePersistence::WithMain("proptest-failures.txt")
    }
}

/// Configuration for how a test is run.
#[derive(Clone, Copy, Debug, PartialEq)]
pub struct Config {
    /// The number of successful test cases that must execute for the test as
    /// a whole to pass.
    pub cases: u32,
    /// The maximum number of individual inputs that may be rejected before
    /// the test as a whole aborts.
    pub max_local_rejects: u32,
    /// The maximum number of combined inputs that may be rejected before the
    /// test as a whole aborts.
    pub max_global_rejects: u32,
    /// The maximum number of times that flattening combinators may
    /// regenerate values, over the whole test.
    pub max_flat_map_regens: u32,
    /// How the file that persists failing cases is found.
    pub failure_persistence: FailurePersistence,
}

/// The configuration where nothing overrides it.
pub open spec fn default_config() -> Config {
    Config {
        cases: 256,
        max_local_rejects: 65536,
        max_global_rejects: 1024,
        max_flat_map_regens: 1_000_000,
        failure_persistence: FailurePersistence::WithMain("proptest-failures.txt"),
    }
}

impl Default for Config {
    fn default() -> (c: Self)
        ensures
            c == default_config(),
    {
        Config {
            cases: 256,
            max_local_rejects: 65536,
            max_global_rejects: 1024,
            max_flat_map_regens: 1_000_000,
            failure_persistence: FailurePersistence::WithMain("proptest-failures.txt"),
        }
    }
}

impl Config {
    /// The default configuration with another number of test cases.
    pub fn with_cases(n: u32) -> (c: Self)
        ensures
            c == (Config { cases: n, ..default_config() }),
    {
        Config { cases: n, ..Config::default() }
    }

    /// The value of one of the numeric parameters.
    pub open spec fn knob(self, knob: Knob) -> u32 {
        match knob {
            Knob::Cases => self.cases,
            Knob::MaxLocalRejects => self.max_local_rejects,
            Knob::MaxGlobalRejects => self.max_global_rejects,
            Knob::MaxFlatMapRegens => self.max_flat_map_regens,
        }
    }

    /// The configuration with one of the numeric parameters set to `value`.
    pub open spec fn with_knob(self, knob: Knob, value: u32) -> Config {
        match knob {
            Knob::Cases => Config { cases: value, ..self },
            Knob::MaxLocalRejects => Config { max_local_rejects: value, ..self },
            Knob::MaxGlobalRejects => Config { max_global_rejects: value, ..self },
            Knob::MaxFlatMapRegens => Config { max_flat_map_regens: value, ..self },
        }
    }

    /// The configuration after the variable `var` was seen with `value`
    /// (`None`: a value that is no text). Only the variable of a numeric
    /// parameter whose value reads as an unsigned 32-bit number changes it.
    pub open spec fn overridden(self, var: Seq<char>, value: Option<Seq<char>>) -> Config {
        match (knob_named(var), value) {
            (Some(knob), Some(text)) => match parsed_u32(text) {
                Some(n) => self.with_knob(knob, n),
                None => self,
            },
            _ => self,
        }
    }

    /// What is to be reported of the variable `var` seen with `value`.
    pub open spec fn override_note(self, var: Seq<char>, value: Option<Seq<char>>) -> Option<
        OverrideNote,
    > {
        match knob_named(var) {
            Some(knob) => match value {
                None => Some(OverrideNote::NotText { knob, kept: self.knob(knob) }),
                Some(text) => if parsed_u32(text) is None {
                    Some(OverrideNote::Unparsable { knob, kept: self.knob(knob) })
                } else {
                    None
                },
            },
            None => if in_namespace(var) {
                Some(OverrideNote::Unknown)
            } else {
                None
            },
        }
    }

    /// The value of one of the numeric parameters.
    pub fn get(&self, knob: Knob) -> (value: u32)
        ensures
            value == self.knob(knob),
    {
        match knob {
            Knob::Cases => self.cases,
            Knob::MaxLocalRejects => self.max_local_rejects,
            Knob::MaxGlobalRejects => self.max_global_rejects,
            Knob::MaxFlatMapRegens => self.max_flat_map_regens,
        }
    }

    /// Takes one variable of the environment into account: `var` is its
    /// name, `value` its value, or `None` where the value is no text.
    ///
    /// The variable of a numeric parameter sets it where the value reads as
    /// an unsigned 32-bit number; otherwise the parameter keeps its value and
    /// a note says so. Any other variable changes nothing, and one whose name
    /// lies in the namespace of the parameters is noted as unknown.
    pub fn apply_override(&mut self, var: &str, value: Option<&str>) -> (note: Option<OverrideNote>)
        ensures
            *final(self) == old(self).overridden(var@, text_of(value)),
            note == old(self).override_note(var@, text_of(value)),
    {
        let name = chars_of(var);
        match Knob::named(&name) {
            Some(knob) => {
                let kept = self.get(knob);
                match value {
                    None => Some(OverrideNote::NotText { knob, kept }),
                    Some(text) => {
                        let digits = chars_of(text);
                        assert(digits@.subrange(0, digits.len() as int) =~= text@);
                        match parse_u32(&digits, 0, digits.len()) {
                            Some(n) => {
                                match knob {
                                    Knob::Cases => {
                                        self.cases = n;
                                    },
                                    Knob::MaxLocalRejects => {
                                        self.max_local_rejects = n;
                                    },
                                    Knob::MaxGlobalRejects => {
                                        self.max_global_rejects = n;
                                    },
                                    Knob::MaxFlatMapRegens => {
                                        self.max_flat_map_regens = n;
                                    },
                                }
                                None
                            },
                            None => Some(OverrideNote::Unparsable { knob, kept }),
                        }
                    },
                }
            },
            None => {
                if begins_with(&name, "PROPTEST_") {
                    Some(OverrideNote::Unknown)
                } else {
                    None
                }
            },
        }
    }
}

/// The numeric parameters that the environment can override.
#[derive(Clone, Copy, Debug, PartialEq, Eq)]
pub enum Knob {
    /// `Config::cases`.
    Cases,
    /// `Config::max_local_rejects`.
    MaxLocalRejects,
    /// `Config::max_global_rejects`.
    MaxGlobalRejects,
    /// `Config::max_flat_map_regens`.
    MaxFlatMapRegens,
}

/// Why a variable of the environment did not change the configuration.
#[derive(Clone, Copy, Debug, PartialEq, Eq)]
pub enum OverrideNote {
    /// The value does not read as an unsigned 32-bit number; the parameter
    /// keeps the value `kept`.
    Unparsable { knob: Knob, kept: u32 },
    /// The value is no text; the parameter keeps the value `kept`.
    NotText { knob: Knob, kept: u32 },
    /// The name lies in the namespace of the parameters, but names none.
    Unknown,
}

/// The text of a value, if it has one.
pub open spec fn text_of(value: Option<&str>) -> Option<Seq<char>> {
    match value {
        Some(text) => Some(text@),
        None => None,
    }
}

/// The numeric parameter that the variable `var` overrides, if any.
pub open spec fn knob_named(var: Seq<char>) -> Option<Knob> {
    if var == "PROPTEST_CASES"@ {
        Some(Knob::Cases)
    } else if var == "PROPTEST_MAX_LOCAL_REJECTS"@ {
        Some(Knob::MaxLocalRejects)
    } else if var == "PROPTEST_MAX_GLOBAL_REJECTS"@ {
        Some(Knob::MaxGlobalRejects)
    } else if var == "PROPTEST_MAX_FLAT_MAP_REGENS"@ {
        Some(Knob::MaxFlatMapRegens)
    } else {
        None
    }
}

/// Whether the name of a variable lies in the namespace of the parameters.
pub open spec fn in_namespace(var: Seq<char>) -> bool {
    "PROPTEST_"@.len() <= var.len() && var.take("PROPTEST_"@.len() as int) == "PROPTEST_"@
}

impl Knob {
    /// The name of the variable that overrides the parameter.
    pub fn name(&self) -> (name: &'static str)
        ensures
            knob_named(name@) == Some(*self),
    {
        proof {
            reveal_strlit("PROPTEST_CASES");
            reveal_strlit("PROPTEST_MAX_LOCAL_REJECTS");
            reveal_strlit("PROPTEST_MAX_GLOBAL_REJECTS");
            reveal_strlit("PROPTEST_MAX_FLAT_MAP_REGENS");
            assert("PROPTEST_CASES"@.len() == 14);
            assert("PROPTEST_MAX_LOCAL_REJECTS"@.len() == 26);
            assert("PROPTEST_MAX_GLOBAL_REJECTS"@.len() == 27);
            assert("PROPTEST_MAX_FLAT_MAP_REGENS"@.len() == 28);
        }
        match self {
            Knob::Cases => "PROPTEST_CASES",
            Knob::MaxLocalRejects => "PROPTEST_MAX_LOCAL_REJECTS",
            Knob::MaxGlobalRejects => "PROPTEST_MAX_GLOBAL_REJECTS",
            Knob::MaxFlatMapRegens => "PROPTEST_MAX_FLAT_MAP_REGENS",
        }
    }

    /// The numeric parameter that the variable `var` overrides, if any.
    pub fn named(var: &Vec<char>) -> (knob: Option<Knob>)
        ensures
            knob == knob_named(var@),
    {
        assert(var@.subrange(0, var.len() as int) =~= var@);
        if spells(var, 0, var.len(), "PROPTEST_CASES") {
            Some(Knob::Cases)
        } else if spells(var, 0, var.len(), "PROPTEST_MAX_LOCAL_REJECTS") {
            Some(Knob::MaxLocalRejects)
        } else if spells(var, 0, var.len(), "PROPTEST_MAX_GLOBAL_REJECTS") {
            Some(Knob::MaxGlobalRejects)
        } else if spells(var, 0, var.len(), "PROPTEST_MAX_FLAT_MAP_REGENS") {
            Some(Knob::MaxFlatMapRegens)
        } else {
            None
        }
    }
}

} // verus!
