//! Data model of the decoder: error codes, structured values, schema rows,
//! first-layer outputs and the validated parameter bundle.

use vstd::prelude::*;

verus! {

/// Enumerated failure codes. Every failure of the decoder is one of these;
/// callers treat any of them as a hard reject of the whole call.
#[derive(Clone, Copy, Debug, PartialEq, Eq, Structural)]
pub enum Error {
    ParseInvalidArgCount,
    ParseInvalidDOB0Output,
    ParseInvalidSVGTraits,
    SchemaInsufficientElements,
    SchemaInvalidName,
    SchemaInvalidTraitName,
    SchemaInvalidType,
    SchemaTypeMismatch,
    SchemaInvalidPattern,
    SchemaPatternMismatch,
    SchemaInvalidArgs,
    SchemaInvalidArgsElement,
    SchemaInvalidParsedTraitType,
    DecodeInvalidOptionArgs,
    DecodeInvalidRawValue,
    DecodeInvalidRawValueTemplate,
    DecodeInvalidRawPattern,
}

/// A generic structured value, as delivered by the structured-data layer:
/// a string, an unsigned 64-bit number, an ordered list, or anything else
/// the decoder never inspects (null, boolean, object, non-integer number).
#[derive(Debug, PartialEq, Eq)]
pub enum StructValue {
    Text(String),
    Number(u64),
    List(Vec<StructValue>),
    Opaque,
}

/// Deep equality of two structured values: same shape, same strings
/// character for character, same numbers, lists equal element by element.
pub open spec fn sv_eq(a: StructValue, b: StructValue) -> bool
    decreases a,
{
    match (a, b) {
        (StructValue::Text(x), StructValue::Text(y)) => x@ == y@,
        (StructValue::Number(x), StructValue::Number(y)) => x == y,
        (StructValue::List(x), StructValue::List(y)) => {
            &&& x@.len() == y@.len()
            &&& forall|i: int| 0 <= i < x@.len() ==> sv_eq(#[trigger] x@[i], y@[i])
        },
        (StructValue::Opaque, StructValue::Opaque) => true,
        _ => false,
    }
}

/// Deep equality is symmetric.
pub proof fn lemma_sv_eq_symmetric(a: StructValue, b: StructValue)
    requires
        sv_eq(a, b),
    ensures
        sv_eq(b, a),
    decreases a,
{
    match (a, b) {
        (StructValue::List(x), StructValue::List(y)) => {
            assert forall|i: int| 0 <= i < y@.len() implies sv_eq(#[trigger] y@[i], x@[i]) by {
                lemma_sv_eq_symmetric(x@[i], y@[i]);
            }
        },
        _ => {},
    }
}

impl Clone for StructValue {
    /// Produces a deeply equal copy.
    fn clone(&self) -> (res: Self)
        ensures
            sv_eq(*self, res),
        decreases *self,
    {
        match self {
            StructValue::Text(s) => StructValue::Text(s.clone()),
            StructValue::Number(n) => StructValue::Number(*n),
            StructValue::List(items) => {
                let mut out: Vec<StructValue> = Vec::new();
                let mut i: usize = 0;
                while i < items.len()
                    invariant
                        *self == StructValue::List(*items),
                        i <= items.len(),
                        out@.len() == i,
                        forall|j: int| 0 <= j < i ==> sv_eq(items@[j], #[trigger] out@[j]),
                    decreases items.len() - i,
                {
                    proof {
                        broadcast use vstd::std_specs::vec::axiom_vec_index_decreases;
                        assert(decreases_to!(*self => self->List_0));
                        assert(decreases_to!(self->List_0 => (self->List_0)[i as int]));
                        assert(decreases_to!(*self => items[i as int]));
                    }
                    out.push(items[i].clone());
                    i = i + 1;
                }
                StructValue::List(out)
            },
            StructValue::Opaque => StructValue::Opaque,
        }
    }
}

/// How the resolved string of a schema row is used in the assembled SVG:
/// as a tag attribute or as an inner element.
#[derive(Clone, Copy, Debug, PartialEq, Eq, Structural)]
pub enum SVGTraitType {
    Attributes,
    Elements,
}

/// The matching strategy of a schema row: discrete key equality, inclusive
/// numeric interval, or template substitution / literal passthrough.
#[derive(Clone, Copy, Debug, PartialEq, Eq, Structural)]
pub enum Pattern {
    Options,
    Range,
    Raw,
}

/// One row of the schema: a group identifier, the routing kind, the name of
/// the first-layer trait to read (empty for an unconditional row), the
/// matching pattern, and the pattern's arguments. The shape of `args` is
/// checked lazily, at resolution time, never at schema-decode time.
#[derive(Debug, PartialEq, Eq)]
pub struct TraitSchema {
    pub name: String,
    pub type_: SVGTraitType,
    pub dob0_trait: String,
    pub pattern: Pattern,
    pub args: StructValue,
}

/// One already-resolved first-layer value: text, an unsigned 64-bit number,
/// or an assembled SVG string.
#[derive(Debug, PartialEq, Eq)]
pub enum ParsedTrait {
    Text(String),
    Number(u64),
    Svg(String),
}

impl ParsedTrait {
    /// The text payload, if the value is the `Text` variant.
    pub open spec fn spec_text(self) -> Option<Seq<char>> {
        match self {
            ParsedTrait::Text(s) => Some(s@),
            _ => None,
        }
    }

    /// The numeric payload, if the value is the `Number` variant.
    pub open spec fn spec_number(self) -> Option<u64> {
        match self {
            ParsedTrait::Number(n) => Some(n),
            _ => None,
        }
    }

    /// The text payload of a `Text` value; any other variant is a
    /// resolution-time type mismatch.
    pub fn get_string(&self) -> (r: Result<&String, Error>)
        ensures
            match r {
                Ok(s) => self.spec_text() == Some(s@),
                Err(e) => self.spec_text() is None && e == Error::SchemaInvalidParsedTraitType,
            },
    {
        match self {
            ParsedTrait::Text(s) => Ok(s),
            _ => Err(Error::SchemaInvalidParsedTraitType),
        }
    }

    /// The numeric payload of a `Number` value; any other variant is a
    /// resolution-time type mismatch.
    pub fn get_number(&self) -> (r: Result<u64, Error>)
        ensures
            match r {
                Ok(n) => self.spec_number() == Some(n),
                Err(e) => self.spec_number() is None && e == Error::SchemaInvalidParsedTraitType,
            },
    {
        match self {
            ParsedTrait::Number(n) => Ok(*n),
            _ => Err(Error::SchemaInvalidParsedTraitType),
        }
    }

    /// Builds a resolved value from one tagged structured value. The tag key
    /// is not consulted: only the payload's own type decides the variant, so
    /// a string payload is text and an unsigned number payload is numeric.
    /// Any other payload has no resolved-value representation.
    pub fn new(key: &str, value: StructValue) -> (r: Result<ParsedTrait, Error>)
        ensures
            match value {
                StructValue::Text(s) => r matches Ok(p) && p == ParsedTrait::Text(s),
                StructValue::Number(n) => r matches Ok(p) && p == ParsedTrait::Number(n),
                _ => r == Err::<ParsedTrait, Error>(Error::SchemaInvalidParsedTraitType),
            },
    {
        let _ = key;
        match value {
            StructValue::Text(s) => Ok(ParsedTrait::Text(s)),
            StructValue::Number(n) => Ok(ParsedTrait::Number(n)),
            _ => Err(Error::SchemaInvalidParsedTraitType),
        }
    }
}

impl Clone for ParsedTrait {
    /// Produces an equal copy.
    fn clone(&self) -> (res: Self)
        ensures
            res == *self,
    {
        match self {
            ParsedTrait::Text(s) => ParsedTrait::Text(s.clone()),
            ParsedTrait::Number(n) => ParsedTrait::Number(*n),
            ParsedTrait::Svg(s) => ParsedTrait::Svg(s.clone()),
        }
    }
}

/// One named first-layer output with its ordered list of resolved values.
/// Only the first value is ever consulted by the decoder.
#[derive(Clone, Debug, PartialEq, Eq)]
pub struct StandardDOBOutput {
    pub name: String,
    pub traits: Vec<ParsedTrait>,
}

/// The validated input bundle of one decode call: the first-layer outputs
/// and the ordered schema list. Built once, never mutated.
#[derive(Debug)]
pub struct Parameters {
    pub dob0_output: Vec<StandardDOBOutput>,
    pub svg_traits: Vec<TraitSchema>,
}

} // verus!
