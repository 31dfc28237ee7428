//! The trait resolver: looks one schema row's source trait up in the
//! first-layer output and produces the resolved output string, a skip
//! signal, or an abandon signal, per the row's matching pattern.

use vstd::prelude::*;

use crate::text::replace_placeholder;
use crate::text::replace_value;
use crate::types::Error;
use crate::types::ParsedTrait;
use crate::types::Pattern;
use crate::types::StandardDOBOutput;
use crate::types::StructValue;
use crate::types::TraitSchema;

verus! {

/// The first value of the first first-layer output whose name equals
/// `name` and which carries at least one value.
pub open spec fn spec_lookup(name: Seq<char>, outputs: Seq<StandardDOBOutput>) -> Option<
    ParsedTrait,
>
    decreases outputs.len(),
{
    if outputs.len() == 0 {
        None
    } else if outputs[0].name@ == name && outputs[0].traits@.len() > 0 {
        Some(outputs[0].traits@[0])
    } else {
        spec_lookup(name, outputs.skip(1))
    }
}

fn lookup_from(trait_name: &String, dob0_output: &Vec<StandardDOBOutput>, i: usize) -> (r: Option<
    ParsedTrait,
>)
    requires
        i <= dob0_output.len(),
    ensures
        match r {
            Some(p) => spec_lookup(trait_name@, dob0_output@.skip(i as int)) == Some(p),
            None => spec_lookup(trait_name@, dob0_output@.skip(i as int)) is None,
        },
    decreases dob0_output.len() - i,
{
    proof {
        if i < dob0_output.len() {
            assert(dob0_output@.skip(i as int).skip(1) =~= dob0_output@.skip(i + 1));
        }
    }
    if i == dob0_output.len() {
        None
    } else if dob0_output[i].name == *trait_name && dob0_output[i].traits.len() > 0 {
        Some(dob0_output[i].traits[0].clone())
    } else {
        lookup_from(trait_name, dob0_output, i + 1)
    }
}

/// Looks `trait_name` up in the first-layer output by exact name equality
/// and hands back the first value of the first match that has one.
pub fn get_dob0_value_by_name(trait_name: &String, dob0_output: &Vec<StandardDOBOutput>) -> (r:
    Option<ParsedTrait>)
    ensures
        match r {
            Some(p) => spec_lookup(trait_name@, dob0_output@) == Some(p),
            None => spec_lookup(trait_name@, dob0_output@) is None,
        },
{
    proof {
        assert(dob0_output@.skip(0) =~= dob0_output@);
    }
    lookup_from(trait_name, dob0_output, 0)
}

/// A wildcard key: a list whose first element is exactly the string `*`.
pub open spec fn wildcard_list(items: Seq<StructValue>) -> bool {
    items.len() > 0 && (items[0] matches StructValue::Text(s) && s@ == seq!['*'])
}

/// One matching key held against the looked-up value: a number matches a
/// numerically equal `Number` value, a string matches a character-for-
/// character equal `Text` value, a wildcard list matches anything, a
/// two-number list matches a `Number` value inside the inclusive interval.
/// A key of any other shape is malformed; a key whose kind disagrees with
/// the value's variant is a resolution-time type mismatch.
pub open spec fn eval_key(key: StructValue, v: ParsedTrait, out: Seq<char>) -> Result<
    Option<Seq<char>>,
    Error,
> {
    match key {
        StructValue::Number(n) => match v.spec_number() {
            Some(x) => if x == n {
                Ok(Some(out))
            } else {
                Ok(None)
            },
            None => Err(Error::SchemaInvalidParsedTraitType),
        },
        StructValue::Text(s) => match v.spec_text() {
            Some(x) => if x == s@ {
                Ok(Some(out))
            } else {
                Ok(None)
            },
            None => Err(Error::SchemaInvalidParsedTraitType),
        },
        StructValue::List(items) => if wildcard_list(items@) {
            Ok(Some(out))
        } else if items@.len() != 2 {
            Err(Error::SchemaInvalidArgsElement)
        } else {
            match (items@[0], items@[1]) {
                (StructValue::Number(lo), StructValue::Number(hi)) => match v.spec_number() {
                    Some(x) => if lo <= x && x <= hi {
                        Ok(Some(out))
                    } else {
                        Ok(None)
                    },
                    None => Err(Error::SchemaInvalidParsedTraitType),
                },
                _ => Err(Error::SchemaInvalidArgsElement),
            }
        },
        _ => Err(Error::SchemaInvalidArgsElement),
    }
}

/// One `[key, output]` pair held against the looked-up value. The pair must
/// be a list of at least two elements whose second element is a string.
pub open spec fn eval_pair(pair: StructValue, v: ParsedTrait) -> Result<Option<Seq<char>>, Error> {
    match pair {
        StructValue::List(items) => if items@.len() < 2 {
            Err(Error::SchemaInvalidArgsElement)
        } else {
            match items@[1] {
                StructValue::Text(out) => eval_key(items@[0], v, out@),
                _ => Err(Error::SchemaInvalidArgsElement),
            }
        },
        _ => Err(Error::SchemaInvalidArgsElement),
    }
}

/// The pairs evaluated strictly in declared order; the first satisfying
/// pair wins; no satisfied pair at all is a plain no-match, not an error.
pub open spec fn match_pairs(pairs: Seq<StructValue>, v: ParsedTrait) -> Result<
    Option<Seq<char>>,
    Error,
>
    decreases pairs.len(),
{
    if pairs.len() == 0 {
        Ok(None)
    } else {
        match eval_pair(pairs[0], v) {
            Err(e) => Err(e),
            Ok(Some(out)) => Ok(Some(out)),
            Ok(None) => match_pairs(pairs.skip(1), v),
        }
    }
}

/// The whole matcher: the pattern arguments must be a list of pairs.
pub open spec fn spec_match_value(args: StructValue, v: ParsedTrait) -> Result<
    Option<Seq<char>>,
    Error,
> {
    match args {
        StructValue::List(pairs) => match_pairs(pairs@, v),
        _ => Err(Error::SchemaInvalidArgs),
    }
}

fn eval_pair_exec(pair: &StructValue, v: &ParsedTrait) -> (r: Result<Option<String>, Error>)
    ensures
        match r {
            Ok(Some(s)) => eval_pair(*pair, *v) == Ok::<Option<Seq<char>>, Error>(Some(s@)),
            Ok(None) => eval_pair(*pair, *v) == Ok::<Option<Seq<char>>, Error>(
                None::<Seq<char>>,
            ),
            Err(e) => eval_pair(*pair, *v) == Err::<Option<Seq<char>>, Error>(e),
        },
{
    let items = match pair {
        StructValue::List(items) => items,
        _ => { return Err(Error::SchemaInvalidArgsElement) },
    };
    if items.len() < 2 {
        return Err(Error::SchemaInvalidArgsElement);
    }
    let out = match &items[1] {
        StructValue::Text(out) => out,
        _ => { return Err(Error::SchemaInvalidArgsElement) },
    };
    match &items[0] {
        StructValue::Number(n) => {
            let x = match v.get_number() {
                Ok(x) => x,
                Err(e) => { return Err(e) },
            };
            if x == *n {
                Ok(Some(out.clone()))
            } else {
                Ok(None)
            }
        },
        StructValue::Text(s) => {
            let x = match v.get_string() {
                Ok(x) => x,
                Err(e) => { return Err(e) },
            };
            if *x == *s {
                Ok(Some(out.clone()))
            } else {
                Ok(None)
            }
        },
        StructValue::List(range) => {
            let wild = range.len() > 0 && match &range[0] {
                StructValue::Text(s) => {
                    let r = s.as_str().unicode_len() == 1 && s.as_str().get_char(0) == '*';
                    proof {
                        if r {
                            assert(s@ =~= seq!['*']);
                        } else if s@ == seq!['*'] {
                            assert(s@.len() == 1);
                        }
                    }
                    r
                },
                _ => false,
            };
            if wild {
                return Ok(Some(out.clone()));
            }
            if range.len() != 2 {
                return Err(Error::SchemaInvalidArgsElement);
            }
            let lo = match &range[0] {
                StructValue::Number(lo) => *lo,
                _ => { return Err(Error::SchemaInvalidArgsElement) },
            };
            let hi = match &range[1] {
                StructValue::Number(hi) => *hi,
                _ => { return Err(Error::SchemaInvalidArgsElement) },
            };
            let x = match v.get_number() {
                Ok(x) => x,
                Err(e) => { return Err(e) },
            };
            if lo <= x && x <= hi {
                Ok(Some(out.clone()))
            } else {
                Ok(None)
            }
        },
        _ => Err(Error::SchemaInvalidArgsElement),
    }
}

fn match_pairs_from(pairs: &Vec<StructValue>, v: &ParsedTrait, i: usize) -> (r: Result<
    Option<String>,
    Error,
>)
    requires
        i <= pairs.len(),
    ensures
        match r {
            Ok(Some(s)) => match_pairs(pairs@.skip(i as int), *v) == Ok::<
                Option<Seq<char>>,
                Error,
            >(Some(s@)),
            Ok(None) => match_pairs(pairs@.skip(i as int), *v) == Ok::<Option<Seq<char>>, Error>(
                None::<Seq<char>>,
            ),
            Err(e) => match_pairs(pairs@.skip(i as int), *v) == Err::<Option<Seq<char>>, Error>(e),
        },
    decreases pairs.len() - i,
{
    proof {
        if i < pairs.len() {
            assert(pairs@.skip(i as int).skip(1) =~= pairs@.skip(i + 1));
        }
    }
    if i == pairs.len() {
        Ok(None)
    } else {
        match eval_pair_exec(&pairs[i], v) {
            Err(e) => Err(e),
            Ok(Some(s)) => Ok(Some(s)),
            Ok(None) => match_pairs_from(pairs, v, i + 1),
        }
    }
}

/// Runs the shared matcher of the options and range patterns: the pattern
/// arguments held against the looked-up first-layer value.
pub fn get_dob1_value_by_dob0_value(args: &StructValue, parsed_dob0_value: &ParsedTrait) -> (r:
    Result<Option<String>, Error>)
    ensures
        match r {
            Ok(Some(s)) => spec_match_value(*args, *parsed_dob0_value) == Ok::<
                Option<Seq<char>>,
                Error,
            >(Some(s@)),
            Ok(None) => spec_match_value(*args, *parsed_dob0_value) == Ok::<
                Option<Seq<char>>,
                Error,
            >(None::<Seq<char>>),
            Err(e) => spec_match_value(*args, *parsed_dob0_value) == Err::<
                Option<Seq<char>>,
                Error,
            >(e),
        },
{
    match args {
        StructValue::List(pairs) => {
            proof {
                assert(pairs@.skip(0) =~= pairs@);
            }
            match_pairs_from(pairs, parsed_dob0_value, 0)
        },
        _ => Err(Error::SchemaInvalidArgs),
    }
}

/// The outcome of resolving one schema row, at the specification level.
pub ghost enum SpecResolution {
    /// The row produced this output string.
    Resolved(Seq<char>),
    /// No matcher arm was satisfied: this row alone is skipped.
    Skip,
    /// The named source trait is absent: the rest of the group is abandoned.
    Abandon,
}

/// The outcome of resolving one schema row.
pub enum Resolution {
    Resolved(String),
    Skip,
    Abandon,
}

/// Resolution of one schema row against the first-layer output:
/// - a named but absent source trait abandons the group;
/// - an absent source trait with an empty name demands the raw pattern and
///   emits the row's string argument verbatim;
/// - a found value runs the matcher for the options and range patterns,
///   where an unsatisfied matcher skips just this row;
/// - a found value under the raw pattern must be text, the argument must be
///   a string template, and every `{value}` in it is substituted.
pub open spec fn spec_resolve(part: TraitSchema, outputs: Seq<StandardDOBOutput>) -> Result<
    SpecResolution,
    Error,
> {
    match spec_lookup(part.dob0_trait@, outputs) {
        Some(v) => match part.pattern {
            Pattern::Options | Pattern::Range => match spec_match_value(part.args, v) {
                Err(e) => Err(e),
                Ok(Some(s)) => Ok(SpecResolution::Resolved(s)),
                Ok(None) => Ok(SpecResolution::Skip),
            },
            Pattern::Raw => match v.spec_text() {
                None => Err(Error::DecodeInvalidRawValue),
                Some(txt) => match part.args {
                    StructValue::Text(template) => Ok(
                        SpecResolution::Resolved(replace_value(template@, txt)),
                    ),
                    _ => Err(Error::DecodeInvalidRawValueTemplate),
                },
            },
        },
        None => {
            if part.dob0_trait@.len() > 0 {
                Ok(SpecResolution::Abandon)
            } else if part.pattern != Pattern::Raw {
                Err(Error::DecodeInvalidRawPattern)
            } else {
                match part.args {
                    StructValue::Text(s) => Ok(SpecResolution::Resolved(s@)),
                    _ => Err(Error::DecodeInvalidRawValueTemplate),
                }
            }
        },
    }
}

/// Resolves one schema row against the first-layer output.
pub fn resolve_trait(part: &TraitSchema, dob0_output: &Vec<StandardDOBOutput>) -> (r: Result<
    Resolution,
    Error,
>)
    ensures
        match r {
            Ok(Resolution::Resolved(s)) => spec_resolve(*part, dob0_output@) == Ok::<
                SpecResolution,
                Error,
            >(SpecResolution::Resolved(s@)),
            Ok(Resolution::Skip) => spec_resolve(*part, dob0_output@) == Ok::<
                SpecResolution,
                Error,
            >(SpecResolution::Skip),
            Ok(Resolution::Abandon) => spec_resolve(*part, dob0_output@) == Ok::<
                SpecResolution,
                Error,
            >(SpecResolution::Abandon),
            Err(e) => spec_resolve(*part, dob0_output@) == Err::<SpecResolution, Error>(e),
        },
{
    match get_dob0_value_by_name(&part.dob0_trait, dob0_output) {
        Some(value) => match part.pattern {
            Pattern::Options | Pattern::Range => {
                match get_dob1_value_by_dob0_value(&part.args, &value) {
                    Err(e) => Err(e),
                    Ok(Some(s)) => Ok(Resolution::Resolved(s)),
                    Ok(None) => Ok(Resolution::Skip),
                }
            },
            Pattern::Raw => {
                let txt = match value.get_string() {
                    Ok(t) => t,
                    Err(_) => { return Err(Error::DecodeInvalidRawValue) },
                };
                let template = match &part.args {
                    StructValue::Text(t) => t,
                    _ => { return Err(Error::DecodeInvalidRawValueTemplate) },
                };
                Ok(Resolution::Resolved(replace_placeholder(template.as_str(), txt.as_str())))
            },
        },
        None => {
            if part.dob0_trait.as_str().unicode_len() > 0 {
                return Ok(Resolution::Abandon);
            }
            if !(part.pattern == Pattern::Raw) {
                return Err(Error::DecodeInvalidRawPattern);
            }
            match &part.args {
                StructValue::Text(s) => Ok(Resolution::Resolved(s.clone())),
                _ => Err(Error::DecodeInvalidRawValueTemplate),
            }
        },
    }
}

/// An unconditional raw row emits its string argument verbatim: no
/// substitution happens, even where the argument holds the placeholder.
pub proof fn lemma_unconditional_raw_verbatim(part: TraitSchema, outputs: Seq<StandardDOBOutput>)
    requires
        part.dob0_trait@.len() == 0,
        spec_lookup(part.dob0_trait@, outputs) is None,
        part.pattern == Pattern::Raw,
        part.args matches StructValue::Text(s),
    ensures
        spec_resolve(part, outputs) == Ok::<SpecResolution, Error>(
            SpecResolution::Resolved(part.args->Text_0@),
        ),
{
}

/// A wildcard key satisfies every looked-up value, whatever its variant.
pub proof fn lemma_wildcard_matches(key: StructValue, v: ParsedTrait, out: Seq<char>)
    requires
        key matches StructValue::List(items) && wildcard_list(items@),
    ensures
        eval_key(key, v, out) == Ok::<Option<Seq<char>>, Error>(Some(out)),
{
}

/// String-key matching is exact and case-sensitive: the key satisfies a
/// value if and only if the value is text equal to the key character for
/// character; a non-text value is a type mismatch, never a silent skip.
pub proof fn lemma_options_string_exact(s: String, v: ParsedTrait, out: Seq<char>)
    ensures
        v.spec_text() is None ==> eval_key(StructValue::Text(s), v, out) == Err::<
            Option<Seq<char>>,
            Error,
        >(Error::SchemaInvalidParsedTraitType),
        v.spec_text() matches Some(t) ==> eval_key(StructValue::Text(s), v, out) == Ok::<
            Option<Seq<char>>,
            Error,
        >(if t == s@ {
            Some(out)
        } else {
            None::<Seq<char>>
        }),
{
}

/// Range bounds are inclusive on both ends: a numeric value satisfies a
/// two-number key exactly when it lies between the bounds, equality
/// included; in particular a value equal to either bound matches.
pub proof fn lemma_range_inclusive(key: StructValue, lo: u64, hi: u64, x: u64, out: Seq<char>)
    requires
        key matches StructValue::List(items) && items@.len() == 2 && items@[0]
            == StructValue::Number(lo) && items@[1] == StructValue::Number(hi),
    ensures
        eval_key(key, ParsedTrait::Number(x), out) == Ok::<Option<Seq<char>>, Error>(
            if lo <= x && x <= hi {
                Some(out)
            } else {
                None::<Seq<char>>
            },
        ),
        lo <= hi && (x == lo || x == hi) ==> eval_key(key, ParsedTrait::Number(x), out) == Ok::<
            Option<Seq<char>>,
            Error,
        >(Some(out)),
{
    let items = key->List_0;
    assert(!(items@[0] matches StructValue::Text(t)));
    assert(!wildcard_list(items@));
}

/// The first satisfying pair wins, regardless of what later pairs hold and
/// regardless of a wildcard standing anywhere behind it.
pub proof fn lemma_matcher_first_wins(pairs: Seq<StructValue>, v: ParsedTrait, j: int)
    requires
        0 <= j < pairs.len(),
        forall|i: int| 0 <= i < j ==> eval_pair(#[trigger] pairs[i], v) == Ok::<
            Option<Seq<char>>,
            Error,
        >(None::<Seq<char>>),
        eval_pair(pairs[j], v) matches Ok(o) && o is Some,
    ensures
        match_pairs(pairs, v) == eval_pair(pairs[j], v),
    decreases j,
{
    if j == 0 {
    } else {
        assert(eval_pair(pairs[0], v) == Ok::<Option<Seq<char>>, Error>(None::<Seq<char>>));
        lemma_matcher_first_wins(pairs.skip(1), v, j - 1);
        assert(pairs.skip(1)[j - 1] == pairs[j]);
    }
}

} // verus!
