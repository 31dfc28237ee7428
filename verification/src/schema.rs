//! The schema decoder: turns raw structured-data tuples into validated
//! trait-schema records, and the inverse encoding that writes a record back
//! as its tuple form.

use vstd::prelude::*;

use crate::text::str_eq;
use crate::types::Error;
use crate::types::Pattern;
use crate::types::SVGTraitType;
use crate::types::StructValue;
use crate::types::TraitSchema;
use crate::types::sv_eq;
use crate::types::lemma_sv_eq_symmetric;

verus! {

/// The literal that names a routing kind in a schema tuple.
pub open spec fn kind_str(k: SVGTraitType) -> Seq<char> {
    match k {
        SVGTraitType::Attributes => "attributes"@,
        SVGTraitType::Elements => "elements"@,
    }
}

/// The literal that names a matching pattern in a schema tuple.
pub open spec fn pattern_str(p: Pattern) -> Seq<char> {
    match p {
        Pattern::Options => "options"@,
        Pattern::Range => "range"@,
        Pattern::Raw => "raw"@,
    }
}

/// Decoding of one raw tuple into a schema row: at least five positions;
/// a string name, a routing-kind literal, a string source-trait name, a
/// pattern literal, and the arguments retained verbatim at position four.
pub open spec fn spec_decode_tuple(t: Seq<StructValue>) -> Result<TraitSchema, Error> {
    if t.len() < 5 {
        Err(Error::SchemaInsufficientElements)
    } else {
        match t[0] {
            StructValue::Text(name) => match t[1] {
                StructValue::Text(kind) => {
                    let type_ = if kind@ == "attributes"@ {
                        Some(SVGTraitType::Attributes)
                    } else if kind@ == "elements"@ {
                        Some(SVGTraitType::Elements)
                    } else {
                        None
                    };
                    match type_ {
                        None => Err(Error::SchemaTypeMismatch),
                        Some(type_) => match t[2] {
                            StructValue::Text(dob0_trait) => match t[3] {
                                StructValue::Text(pat) => {
                                    let pattern = if pat@ == "options"@ {
                                        Some(Pattern::Options)
                                    } else if pat@ == "range"@ {
                                        Some(Pattern::Range)
                                    } else if pat@ == "raw"@ {
                                        Some(Pattern::Raw)
                                    } else {
                                        None
                                    };
                                    match pattern {
                                        None => Err(Error::SchemaPatternMismatch),
                                        Some(pattern) => Ok(
                                            TraitSchema {
                                                name,
                                                type_,
                                                dob0_trait,
                                                pattern,
                                                args: t[4],
                                            },
                                        ),
                                    }
                                },
                                _ => Err(Error::SchemaInvalidPattern),
                            },
                            _ => Err(Error::SchemaInvalidTraitName),
                        },
                    }
                },
                _ => Err(Error::SchemaInvalidType),
            },
            _ => Err(Error::SchemaInvalidName),
        }
    }
}

/// Decoding of the whole tuple list, in order, first failure winning.
pub open spec fn spec_decode_schema(pool: Seq<Vec<StructValue>>) -> Result<Seq<TraitSchema>, Error>
    decreases pool.len(),
{
    if pool.len() == 0 {
        Ok(Seq::empty())
    } else {
        match spec_decode_tuple(pool[0]@) {
            Err(e) => Err(e),
            Ok(s) => match spec_decode_schema(pool.skip(1)) {
                Err(e) => Err(e),
                Ok(rest) => Ok(seq![s] + rest),
            },
        }
    }
}

fn decode_schema_tuple(tuple: Vec<StructValue>) -> (r: Result<TraitSchema, Error>)
    ensures
        r == spec_decode_tuple(tuple@),
{
    if tuple.len() < 5 {
        return Err(Error::SchemaInsufficientElements);
    }
    let mut t = tuple;
    let v0 = t.remove(0);
    let v1 = t.remove(0);
    let v2 = t.remove(0);
    let v3 = t.remove(0);
    let v4 = t.remove(0);
    proof {
        assert(v0 == tuple@[0]);
        assert(v1 == tuple@[1]);
        assert(v2 == tuple@[2]);
        assert(v3 == tuple@[3]);
        assert(v4 == tuple@[4]);
    }
    let name = match v0 {
        StructValue::Text(s) => s,
        _ => { return Err(Error::SchemaInvalidName) },
    };
    let kind = match v1 {
        StructValue::Text(s) => s,
        _ => { return Err(Error::SchemaInvalidType) },
    };
    let type_ = if str_eq(kind.as_str(), "attributes") {
        SVGTraitType::Attributes
    } else if str_eq(kind.as_str(), "elements") {
        SVGTraitType::Elements
    } else {
        return Err(Error::SchemaTypeMismatch);
    };
    let dob0_trait = match v2 {
        StructValue::Text(s) => s,
        _ => { return Err(Error::SchemaInvalidTraitName) },
    };
    let pat = match v3 {
        StructValue::Text(s) => s,
        _ => { return Err(Error::SchemaInvalidPattern) },
    };
    let pattern = if str_eq(pat.as_str(), "options") {
        Pattern::Options
    } else if str_eq(pat.as_str(), "range") {
        Pattern::Range
    } else if str_eq(pat.as_str(), "raw") {
        Pattern::Raw
    } else {
        return Err(Error::SchemaPatternMismatch);
    };
    Ok(TraitSchema { name, type_, dob0_trait, pattern, args: v4 })
}

/// Decodes the raw tuple list into the ordered schema list; the output
/// order mirrors the input order exactly, no grouping is performed here.
pub fn decode_trait_schema(traits_pool: Vec<Vec<StructValue>>) -> (r: Result<
    Vec<TraitSchema>,
    Error,
>)
    ensures
        match r {
            Ok(v) => spec_decode_schema(traits_pool@) == Ok::<Seq<TraitSchema>, Error>(v@),
            Err(e) => spec_decode_schema(traits_pool@) == Err::<Seq<TraitSchema>, Error>(e),
        },
    decreases traits_pool@.len(),
{
    let mut pool = traits_pool;
    if pool.len() == 0 {
        return Ok(Vec::new());
    }
    let first = pool.remove(0);
    proof {
        assert(first == traits_pool@[0]);
        assert(pool@ =~= traits_pool@.skip(1));
    }
    match decode_schema_tuple(first) {
        Err(e) => Err(e),
        Ok(s) => match decode_trait_schema(pool) {
            Err(e) => Err(e),
            Ok(rest) => {
                let ghost tail = rest@;
                let mut out = rest;
                out.insert(0, s);
                proof {
                    assert(out@ =~= seq![s] + tail);
                }
                Ok(out)
            },
        },
    }
}

/// `t` is the tuple form of the schema row `s`: five positions holding the
/// name, the routing-kind literal, the source-trait name, the pattern
/// literal, and arguments deeply equal to the row's own.
pub open spec fn encodes_tuple(t: Seq<StructValue>, s: TraitSchema) -> bool {
    &&& t.len() == 5
    &&& t[0] matches StructValue::Text(n) && n@ == s.name@
    &&& t[1] matches StructValue::Text(k) && k@ == kind_str(s.type_)
    &&& t[2] matches StructValue::Text(d) && d@ == s.dob0_trait@
    &&& t[3] matches StructValue::Text(p) && p@ == pattern_str(s.pattern)
    &&& sv_eq(t[4], s.args)
}

/// Field-for-field equality of two schema rows: equal names, kinds,
/// source traits and patterns, and deeply equal arguments.
pub open spec fn schema_like(a: TraitSchema, b: TraitSchema) -> bool {
    &&& a.name@ == b.name@
    &&& a.type_ == b.type_
    &&& a.dob0_trait@ == b.dob0_trait@
    &&& a.pattern == b.pattern
    &&& sv_eq(a.args, b.args)
}

impl TraitSchema {
    /// Builds a schema row from its parts.
    pub fn new(
        name: &str,
        type_: SVGTraitType,
        dob0_trait: &str,
        pattern: Pattern,
        args: StructValue,
    ) -> (r: TraitSchema)
        ensures
            r.name@ == name@,
            r.type_ == type_,
            r.dob0_trait@ == dob0_trait@,
            r.pattern == pattern,
            r.args == args,
    {
        TraitSchema { name: name.to_owned(), type_, dob0_trait: dob0_trait.to_owned(), pattern, args }
    }

    /// Writes the row back as its five-position tuple form.
    pub fn encode(&self) -> (r: Vec<StructValue>)
        ensures
            encodes_tuple(r@, *self),
    {
        let kind: &str = match self.type_ {
            SVGTraitType::Attributes => "attributes",
            SVGTraitType::Elements => "elements",
        };
        let pat: &str = match self.pattern {
            Pattern::Options => "options",
            Pattern::Range => "range",
            Pattern::Raw => "raw",
        };
        let args = self.args.clone();
        proof {
            lemma_sv_eq_symmetric(self.args, args);
        }
        let mut r: Vec<StructValue> = Vec::new();
        r.push(StructValue::Text(self.name.clone()));
        r.push(StructValue::Text(kind.to_owned()));
        r.push(StructValue::Text(self.dob0_trait.clone()));
        r.push(StructValue::Text(pat.to_owned()));
        r.push(args);
        r
    }
}

/// Decoding a row's tuple form yields the row back, field for field.
pub proof fn lemma_schema_round_trip_tuple(t: Seq<StructValue>, s: TraitSchema)
    requires
        encodes_tuple(t, s),
    ensures
        spec_decode_tuple(t) matches Ok(d) && schema_like(d, s),
{
    reveal_strlit("attributes");
    reveal_strlit("elements");
    reveal_strlit("options");
    reveal_strlit("range");
    reveal_strlit("raw");
    let k = t[1]->Text_0;
    assert(k@ == kind_str(s.type_));
    if s.type_ == SVGTraitType::Attributes {
        assert(k@ == "attributes"@);
    } else {
        assert(k@ == "elements"@);
        assert("elements"@.len() != "attributes"@.len());
    }
    let p = t[3]->Text_0;
    assert(p@ == pattern_str(s.pattern));
    assert("options"@.len() != "range"@.len());
    assert("options"@.len() != "raw"@.len());
    assert("range"@.len() != "raw"@.len());
    let d0 = spec_decode_tuple(t)->Ok_0;
    assert(d0.name@ == s.name@);
    assert(d0.type_ == s.type_);
    assert(d0.dob0_trait@ == s.dob0_trait@);
    assert(d0.pattern == s.pattern);
    assert(sv_eq(d0.args, s.args));
}

/// Round trip: encoding a schema list to its tuple form and decoding it
/// back yields an identical list, field-for-field equality included.
pub proof fn lemma_schema_round_trip(pool: Seq<Vec<StructValue>>, ss: Seq<TraitSchema>)
    requires
        pool.len() == ss.len(),
        forall|i: int| 0 <= i < pool.len() ==> encodes_tuple(#[trigger] pool[i]@, ss[i]),
    ensures
        spec_decode_schema(pool) matches Ok(ds) && ds.len() == ss.len() && (forall|i: int|
            0 <= i < ss.len() ==> schema_like(#[trigger] ds[i], ss[i])),
    decreases pool.len(),
{
    if pool.len() == 0 {
    } else {
        lemma_schema_round_trip_tuple(pool[0]@, ss[0]);
        assert forall|i: int| 0 <= i < pool.skip(1).len() implies encodes_tuple(
            #[trigger] pool.skip(1)[i]@,
            ss.skip(1)[i],
        ) by {
            assert(pool.skip(1)[i] == pool[i + 1]);
            assert(ss.skip(1)[i] == ss[i + 1]);
        }
        lemma_schema_round_trip(pool.skip(1), ss.skip(1));
        let d = spec_decode_tuple(pool[0]@)->Ok_0;
        let rest = spec_decode_schema(pool.skip(1))->Ok_0;
        assert forall|i: int| 0 <= i < ss.len() implies schema_like(
            #[trigger] (seq![d] + rest)[i],
            ss[i],
        ) by {
            if i > 0 {
                assert((seq![d] + rest)[i] == rest[i - 1]);
                assert(ss.skip(1)[i - 1] == ss[i]);
            }
        }
    }
}

} // verus!
