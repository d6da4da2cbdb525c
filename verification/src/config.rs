//! Configuration: the search roots and the filter set, built once from
//! plain argument values before any traversal begins. An invalid name
//! pattern or kind token is rejected here, never during traversal.

use vstd::prelude::*;

use crate::entry::{texts, EntryType};
use crate::filter::{pattern_texts, FilterSet};
use crate::pattern::{regex_accepts, NamePattern};

verus! {

/// A configuration-time error. Either kind aborts the run before any
/// output; the offending argument text is carried for reporting.
#[derive(Debug)]
pub enum ConfigError {
    /// A `--name` argument that is not a valid regular expression.
    InvalidName(String),
    /// A `--type` argument that is none of `d`, `f`, `l`.
    InvalidType(String),
}

/// A validated invocation: the search roots, in the order given, and the
/// filter set applied to every entry.
pub struct Config {
    pub paths: Vec<String>,
    pub filters: FilterSet,
}

/// The kind named by a `--type` token: `d`, `f` and `l` name the three
/// kinds; every other token is invalid.
pub open spec fn token_kind(tok: Seq<char>) -> Option<EntryType> {
    if tok.len() == 1 {
        if tok[0] == 'd' {
            Some(EntryType::Dir)
        } else if tok[0] == 'f' {
            Some(EntryType::File)
        } else if tok[0] == 'l' {
            Some(EntryType::Link)
        } else {
            None
        }
    } else {
        None
    }
}

/// Every pattern text in the list is a valid regular expression.
pub open spec fn names_valid(names: Seq<Seq<char>>) -> bool {
    forall|i: int| 0 <= i < names.len() ==> regex_accepts(#[trigger] names[i])
}

/// Every kind token in the list is one of `d`, `f`, `l`.
pub open spec fn types_valid(types: Seq<Seq<char>>) -> bool {
    forall|i: int| 0 <= i < types.len() ==> (#[trigger] token_kind(types[i])) is Some
}

/// The kinds named by a list of valid kind tokens, in order.
pub open spec fn kinds_of(types: Seq<Seq<char>>) -> Seq<EntryType> {
    types.map_values(|t: Seq<char>| token_kind(t).unwrap())
}

/// Position `i` holds the first invalid pattern text of the list.
pub open spec fn first_invalid_name(names: Seq<Seq<char>>, i: int) -> bool {
    &&& 0 <= i < names.len()
    &&& !regex_accepts(names[i])
    &&& names_valid(names.take(i))
}

/// Position `i` holds the first invalid kind token of the list.
pub open spec fn first_invalid_type(types: Seq<Seq<char>>, i: int) -> bool {
    &&& 0 <= i < types.len()
    &&& token_kind(types[i]) is None
    &&& types_valid(types.take(i))
}

/// Parses one `--type` token.
pub fn parse_entry_type(tok: &str) -> (r: Option<EntryType>)
    ensures
        r == token_kind(tok@),
{
    if tok.unicode_len() == 1 {
        let c = tok.get_char(0);
        if c == 'd' {
            Some(EntryType::Dir)
        } else if c == 'f' {
            Some(EntryType::File)
        } else if c == 'l' {
            Some(EntryType::Link)
        } else {
            None
        }
    } else {
        None
    }
}

/// Compiles one `--name` pattern, turning a rejected pattern into the
/// configuration error that carries the pattern text.
pub fn parse_regex(pattern: &str) -> (r: Result<NamePattern, ConfigError>)
    ensures
        r is Ok <==> regex_accepts(pattern@),
        r matches Ok(p) ==> p@ == pattern@,
        r matches Err(e) ==> (e matches ConfigError::InvalidName(t) && t@ == pattern@),
{
    match NamePattern::compile(pattern) {
        Some(p) => Ok(p),
        None => Err(ConfigError::InvalidName(pattern.to_owned())),
    }
}

impl Config {
    /// Builds a configuration from plain argument values: the search
    /// roots, the `--name` pattern texts and the `--type` tokens, each in
    /// the order given on the command line.
    ///
    /// Succeeds exactly when every pattern compiles and every kind token
    /// is valid; otherwise returns the error for the first offending
    /// argument, patterns checked before kind tokens. With no root given,
    /// the current directory `.` is the one root.
    pub fn new(paths: Vec<String>, names: Vec<String>, types: Vec<String>) -> (r: Result<
        Config,
        ConfigError,
    >)
        ensures
            r is Ok <==> (names_valid(texts(names@)) && types_valid(texts(types@))),
            r matches Ok(c) ==> {
                &&& c.filters@.names == texts(names@)
                &&& c.filters@.entry_types == kinds_of(texts(types@))
                &&& texts(c.paths@) == (if paths@.len() == 0 {
                    seq![seq!['.']]
                } else {
                    texts(paths@)
                })
            },
            r matches Err(e) ==> match e {
                ConfigError::InvalidName(t) => exists|i: int|
                    first_invalid_name(texts(names@), i) && t@ == texts(names@)[i],
                ConfigError::InvalidType(t) => names_valid(texts(names@)) && exists|i: int|
                    first_invalid_type(texts(types@), i) && t@ == texts(types@)[i],
            },
    {
        let ghost name_texts: Seq<Seq<char>> = texts(names@);
        let mut compiled: Vec<NamePattern> = Vec::new();
        let mut i: usize = 0;
        while i < names.len()
            invariant
                i <= names@.len(),
                name_texts == texts(names@),
                names_valid(name_texts.take(i as int)),
                pattern_texts(compiled@) == name_texts.take(i as int),
            decreases names@.len() - i,
        {
            match parse_regex(names[i].as_str()) {
                Ok(p) => {
                    let ghost prev = compiled@;
                    proof {
                        assert(prev.len() == pattern_texts(prev).len());
                    }
                    compiled.push(p);
                    proof {
                        assert forall|k: int| 0 <= k < i + 1 implies pattern_texts(compiled@)[k]
                            == name_texts.take(i as int + 1)[k] by {
                            if k < i {
                                assert(pattern_texts(prev)[k] == name_texts.take(i as int)[k]);
                            }
                        }
                        assert(pattern_texts(compiled@) =~= name_texts.take(i as int + 1));
                        assert(names_valid(name_texts.take(i as int + 1)));
                    }
                },
                Err(e) => {
                    proof {
                        assert(first_invalid_name(name_texts, i as int));
                    }
                    return Err(e);
                },
            }
            i = i + 1;
        }
        assert(name_texts.take(names@.len() as int) =~= name_texts);

        let ghost type_texts: Seq<Seq<char>> = texts(types@);
        let mut kinds: Vec<EntryType> = Vec::new();
        let mut j: usize = 0;
        while j < types.len()
            invariant
                j <= types@.len(),
                type_texts == texts(types@),
                names_valid(texts(names@)),
                types_valid(type_texts.take(j as int)),
                kinds@ == kinds_of(type_texts.take(j as int)),
            decreases types@.len() - j,
        {
            match parse_entry_type(types[j].as_str()) {
                Some(k) => {
                    kinds.push(k);
                    assert(kinds@ =~= kinds_of(type_texts.take(j + 1 as int)));
                    assert(types_valid(type_texts.take(j + 1 as int)));
                },
                None => {
                    proof {
                        assert(first_invalid_type(type_texts, j as int));
                    }
                    return Err(ConfigError::InvalidType(types[j].clone()));
                },
            }
            j = j + 1;
        }
        assert(type_texts.take(types@.len() as int) =~= type_texts);

        let mut roots = paths;
        if roots.len() == 0 {
            proof {
                reveal_strlit(".");
            }
            roots.push(".".to_owned());
            assert(texts(roots@) =~~= seq![seq!['.']]);
        }

        Ok(Config { paths: roots, filters: FilterSet { names: compiled, entry_types: kinds } })
    }
}

} // verus!
