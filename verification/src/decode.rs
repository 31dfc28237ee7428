//! The argument validator and the SVG assembler: the decode entry points
//! that turn validated parameters into the second-layer output list, one
//! assembled SVG string per maximal run of adjacent same-named schema rows.

use vstd::prelude::*;

use crate::resolve::Resolution;
use crate::resolve::SpecResolution;
use crate::resolve::resolve_trait;
use crate::resolve::spec_resolve;
use crate::schema::decode_trait_schema;
use crate::schema::spec_decode_schema;
use crate::text::assemble_svg;
use crate::text::prefix_before_dot;
use crate::text::svg_of;
use crate::text::truncate_at_dot;
use crate::types::Error;
use crate::types::Parameters;
use crate::types::ParsedTrait;
use crate::types::SVGTraitType;
use crate::types::StandardDOBOutput;
use crate::types::StructValue;
use crate::types::TraitSchema;

verus! {

/// One second-layer output at the specification level: the group name
/// truncated at its first dot, and the assembled SVG string.
pub ghost struct SpecOutput {
    pub name: Seq<char>,
    pub svg: Seq<char>,
}

/// The attribute and element fragments one run of schema rows resolves to,
/// in order. An abandon signal ends the run with whatever was already
/// collected; an error ends the whole decode.
pub open spec fn spec_resolve_group(
    parts: Seq<TraitSchema>,
    outputs: Seq<StandardDOBOutput>,
) -> Result<(Seq<Seq<char>>, Seq<Seq<char>>), Error>
    decreases parts.len(),
{
    if parts.len() == 0 {
        Ok((Seq::empty(), Seq::empty()))
    } else {
        match spec_resolve(parts[0], outputs) {
            Err(e) => Err(e),
            Ok(SpecResolution::Abandon) => Ok((Seq::empty(), Seq::empty())),
            Ok(SpecResolution::Skip) => spec_resolve_group(parts.skip(1), outputs),
            Ok(SpecResolution::Resolved(s)) => match spec_resolve_group(parts.skip(1), outputs) {
                Err(e) => Err(e),
                Ok(ae) => if parts[0].type_ == SVGTraitType::Attributes {
                    Ok((seq![s] + ae.0, ae.1))
                } else {
                    Ok((ae.0, seq![s] + ae.1))
                },
            },
        }
    }
}

fn resolve_group(
    parts: &Vec<TraitSchema>,
    start: usize,
    end: usize,
    outputs: &Vec<StandardDOBOutput>,
) -> (r: Result<(Vec<String>, Vec<String>), Error>)
    requires
        start <= end <= parts.len(),
    ensures
        match r {
            Ok(ae) => spec_resolve_group(parts@.subrange(start as int, end as int), outputs@)
                == Ok::<(Seq<Seq<char>>, Seq<Seq<char>>), Error>(
                (ae.0.deep_view(), ae.1.deep_view()),
            ),
            Err(e) => spec_resolve_group(parts@.subrange(start as int, end as int), outputs@)
                == Err::<(Seq<Seq<char>>, Seq<Seq<char>>), Error>(e),
        },
    decreases end - start,
{
    proof {
        if start < end {
            assert(parts@.subrange(start as int, end as int).skip(1) =~= parts@.subrange(
                start + 1,
                end as int,
            ));
        }
    }
    if start == end {
        let attrs: Vec<String> = Vec::new();
        let elems: Vec<String> = Vec::new();
        proof {
            assert(attrs.deep_view() =~= Seq::<Seq<char>>::empty());
            assert(elems.deep_view() =~= Seq::<Seq<char>>::empty());
        }
        return Ok((attrs, elems));
    }
    match resolve_trait(&parts[start], outputs) {
        Err(e) => Err(e),
        Ok(Resolution::Abandon) => {
            let attrs: Vec<String> = Vec::new();
            let elems: Vec<String> = Vec::new();
            proof {
                assert(attrs.deep_view() =~= Seq::<Seq<char>>::empty());
                assert(elems.deep_view() =~= Seq::<Seq<char>>::empty());
            }
            Ok((attrs, elems))
        },
        Ok(Resolution::Skip) => resolve_group(parts, start + 1, end, outputs),
        Ok(Resolution::Resolved(s)) => match resolve_group(parts, start + 1, end, outputs) {
            Err(e) => Err(e),
            Ok((attrs, elems)) => {
                if parts[start].type_ == SVGTraitType::Attributes {
                    let ghost tail = attrs.deep_view();
                    let mut attrs2 = attrs;
                    attrs2.insert(0, s);
                    proof {
                        assert(attrs2.deep_view() =~= seq![s@] + tail);
                    }
                    Ok((attrs2, elems))
                } else {
                    let ghost tail = elems.deep_view();
                    let mut elems2 = elems;
                    elems2.insert(0, s);
                    proof {
                        assert(elems2.deep_view() =~= seq![s@] + tail);
                    }
                    Ok((attrs, elems2))
                }
            },
        },
    }
}

/// The length of the maximal leading run of rows sharing the first row's
/// name; zero only for an empty list.
pub open spec fn run_len(parts: Seq<TraitSchema>) -> int
    decreases parts.len(),
{
    if parts.len() == 0 {
        0
    } else if parts.len() == 1 {
        1
    } else if parts[1].name@ == parts[0].name@ {
        1 + run_len(parts.skip(1))
    } else {
        1
    }
}

pub proof fn lemma_run_len_bounds(parts: Seq<TraitSchema>)
    ensures
        parts.len() > 0 ==> 1 <= run_len(parts) <= parts.len(),
    decreases parts.len(),
{
    if parts.len() > 1 {
        lemma_run_len_bounds(parts.skip(1));
    }
}

pub proof fn lemma_run_len_is(parts: Seq<TraitSchema>, k: int)
    requires
        1 <= k <= parts.len(),
        forall|i: int| 0 <= i < k ==> #[trigger] parts[i].name@ == parts[0].name@,
        k == parts.len() || parts[k].name@ != parts[0].name@,
    ensures
        run_len(parts) == k,
    decreases k,
{
    if parts.len() == 1 {
    } else if k == 1 {
        assert(parts[1].name@ != parts[0].name@);
    } else {
        assert(parts[1].name@ == parts[0].name@);
        assert forall|i: int| 0 <= i < k - 1 implies #[trigger] parts.skip(1)[i].name@ == parts.skip(
            1,
        )[0].name@ by {
            assert(parts.skip(1)[i] == parts[i + 1]);
            assert(parts.skip(1)[0] == parts[1]);
        }
        if k - 1 < parts.skip(1).len() {
            assert(parts.skip(1)[k - 1] == parts[k]);
        }
        lemma_run_len_is(parts.skip(1), k - 1);
    }
}

/// The whole decode: the schema list partitioned into maximal runs of
/// adjacent rows sharing one name, each run resolved and assembled into one
/// output whose name is the run's name truncated at its first dot.
pub open spec fn spec_decode(parts: Seq<TraitSchema>, outputs: Seq<StandardDOBOutput>) -> Result<
    Seq<SpecOutput>,
    Error,
>
    decreases parts.len(),
{
    if parts.len() == 0 {
        Ok(Seq::empty())
    } else {
        proof {
            lemma_run_len_bounds(parts);
        }
        let k = run_len(parts);
        match spec_resolve_group(parts.take(k), outputs) {
            Err(e) => Err(e),
            Ok(ae) => match spec_decode(parts.skip(k), outputs) {
                Err(e) => Err(e),
                Ok(rest) => Ok(
                    seq![
                        SpecOutput {
                            name: prefix_before_dot(parts[0].name@),
                            svg: svg_of(ae.0, ae.1),
                        },
                    ] + rest,
                ),
            },
        }
    }
}

/// The exec output `o` carries the spec output `so`: the same name and a
/// single trait holding the same assembled SVG string.
pub open spec fn output_matches(o: StandardDOBOutput, so: SpecOutput) -> bool {
    &&& o.name@ == so.name
    &&& o.traits@.len() == 1
    &&& o.traits@[0] matches ParsedTrait::Svg(s) && s@ == so.svg
}

fn decode_groups(parts: &Vec<TraitSchema>, start: usize, outputs: &Vec<StandardDOBOutput>) -> (r:
    Result<Vec<StandardDOBOutput>, Error>)
    requires
        start <= parts.len(),
    ensures
        match r {
            Ok(v) => spec_decode(parts@.skip(start as int), outputs@) matches Ok(outs)
                && v@.len() == outs.len() && (forall|i: int|
                0 <= i < outs.len() ==> output_matches(#[trigger] v@[i], outs[i])),
            Err(e) => spec_decode(parts@.skip(start as int), outputs@) == Err::<
                Seq<SpecOutput>,
                Error,
            >(e),
        },
    decreases parts.len() - start,
{
    if start == parts.len() {
        proof {
            assert(parts@.skip(start as int) =~= Seq::<TraitSchema>::empty());
        }
        return Ok(Vec::new());
    }
    let mut j: usize = start + 1;
    while j < parts.len() && parts[j].name == parts[start].name
        invariant
            start < j <= parts.len(),
            forall|i: int| start <= i < j ==> #[trigger] parts@[i].name@ == parts@[start as int].name@,
        decreases parts.len() - j,
    {
        j = j + 1;
    }
    proof {
        let sub = parts@.skip(start as int);
        assert forall|i: int| 0 <= i < j - start implies #[trigger] sub[i].name@ == sub[0].name@ by {
            assert(sub[i] == parts@[start + i]);
            assert(sub[0] == parts@[start as int]);
        }
        if j < parts.len() {
            assert(sub[j - start] == parts@[j as int]);
        }
        lemma_run_len_is(sub, j - start);
        assert(sub.take(j - start) =~= parts@.subrange(start as int, j as int));
        assert(sub.skip(j - start) =~= parts@.skip(j as int));
    }
    match resolve_group(parts, start, j, outputs) {
        Err(e) => Err(e),
        Ok((attrs, elems)) => {
            let svg = assemble_svg(&attrs, &elems);
            let name = truncate_at_dot(parts[start].name.as_str());
            match decode_groups(parts, j, outputs) {
                Err(e) => Err(e),
                Ok(rest) => {
                    let ghost tail = rest@;
                    let mut traits: Vec<ParsedTrait> = Vec::new();
                    traits.push(ParsedTrait::Svg(svg));
                    proof {
                        assert(traits@ =~= seq![ParsedTrait::Svg(svg)]);
                    }
                    let mut out = rest;
                    out.insert(0, StandardDOBOutput { name, traits });
                    proof {
                        assert(out@ =~= seq![StandardDOBOutput { name, traits }] + tail);
                        let outs = spec_decode(parts@.skip(start as int), outputs@)->Ok_0;
                        let rest_outs = spec_decode(parts@.skip(j as int), outputs@)->Ok_0;
                        assert forall|i: int| 0 <= i < outs.len() implies output_matches(
                            #[trigger] out@[i],
                            outs[i],
                        ) by {
                            if i == 0 {
                                assert(out@[0] == StandardDOBOutput { name, traits });
                            } else {
                                assert(out@[i] == tail[i - 1]);
                                assert(outs[i] == rest_outs[i - 1]);
                            }
                        }
                    }
                    Ok(out)
                },
            }
        },
    }
}

/// Decodes validated parameters into the ordered second-layer output list.
pub fn dobs_decode(parameters: Parameters) -> (r: Result<Vec<StandardDOBOutput>, Error>)
    ensures
        match r {
            Ok(v) => spec_decode(parameters.svg_traits@, parameters.dob0_output@) matches Ok(outs)
                && v@.len() == outs.len() && (forall|i: int|
                0 <= i < outs.len() ==> output_matches(#[trigger] v@[i], outs[i])),
            Err(e) => spec_decode(parameters.svg_traits@, parameters.dob0_output@) == Err::<
                Seq<SpecOutput>,
                Error,
            >(e),
        },
{
    let Parameters { dob0_output, svg_traits } = parameters;
    proof {
        assert(svg_traits@.skip(0) =~= svg_traits@);
    }
    decode_groups(&svg_traits, 0, &dob0_output)
}

/// The raw call arguments after the structured-data layer has handled the
/// byte strings: how many arguments came in, the parse of the second one as
/// an array of raw schema tuples, whether the third one was empty, and the
/// parse of the third one as the first-layer output list. A parse that
/// failed is `None`.
pub struct CallArgs {
    pub arg_count: usize,
    pub svg_traits: Option<Vec<Vec<StructValue>>>,
    pub dob0_empty: bool,
    pub dob0_output: Option<Vec<StandardDOBOutput>>,
}

/// Validates the call arguments and builds the parameter bundle: fewer than
/// three arguments, an unparsable schema argument, a malformed schema
/// tuple, and an empty or unparsable first-layer argument each yield their
/// own error, in that order.
pub fn dobs_parse_parameters(args: CallArgs) -> (r: Result<Parameters, Error>)
    ensures
        args.arg_count < 3 ==> r == Err::<Parameters, Error>(Error::ParseInvalidArgCount),
        args.arg_count >= 3 && args.svg_traits is None ==> r == Err::<Parameters, Error>(
            Error::ParseInvalidSVGTraits,
        ),
        args.arg_count >= 3 && args.svg_traits is Some && spec_decode_schema(
            args.svg_traits->0@,
        ) is Err ==> r == Err::<Parameters, Error>(
            spec_decode_schema(args.svg_traits->0@)->Err_0,
        ),
        args.arg_count >= 3 && args.svg_traits is Some && spec_decode_schema(
            args.svg_traits->0@,
        ) is Ok && args.dob0_empty ==> r == Err::<Parameters, Error>(Error::ParseInvalidDOB0Output),
        args.arg_count >= 3 && args.svg_traits is Some && spec_decode_schema(
            args.svg_traits->0@,
        ) is Ok && !args.dob0_empty && args.dob0_output is None ==> r == Err::<Parameters, Error>(
            Error::ParseInvalidDOB0Output,
        ),
        args.arg_count >= 3 && args.svg_traits is Some && spec_decode_schema(
            args.svg_traits->0@,
        ) is Ok && !args.dob0_empty && args.dob0_output is Some ==> r is Ok
            && r->Ok_0.svg_traits@ == spec_decode_schema(args.svg_traits->0@)->Ok_0
            && r->Ok_0.dob0_output == args.dob0_output->0,
{
    if args.arg_count < 3 {
        return Err(Error::ParseInvalidArgCount);
    }
    let tuples = match args.svg_traits {
        Some(t) => t,
        None => { return Err(Error::ParseInvalidSVGTraits) },
    };
    let svg_traits = match decode_trait_schema(tuples) {
        Ok(v) => v,
        Err(e) => { return Err(e) },
    };
    if args.dob0_empty {
        return Err(Error::ParseInvalidDOB0Output);
    }
    let dob0_output = match args.dob0_output {
        Some(o) => o,
        None => { return Err(Error::ParseInvalidDOB0Output) },
    };
    Ok(Parameters { dob0_output, svg_traits })
}

/// A named but absent source trait abandons the rest of the group: when the
/// row at `k` abandons and no earlier row errs or abandons, the whole run
/// resolves exactly as its first `k` rows alone do; the rows after `k`
/// contribute nothing, whatever they hold.
pub proof fn lemma_abandon_stops_group(
    parts: Seq<TraitSchema>,
    outputs: Seq<StandardDOBOutput>,
    k: int,
)
    requires
        0 <= k < parts.len(),
        forall|i: int| 0 <= i < k ==> (#[trigger] spec_resolve(parts[i], outputs)) is Ok && !(
        spec_resolve(parts[i], outputs)->Ok_0 is Abandon),
        spec_resolve(parts[k], outputs) == Ok::<SpecResolution, Error>(SpecResolution::Abandon),
    ensures
        spec_resolve_group(parts, outputs) == spec_resolve_group(parts.take(k), outputs),
    decreases k,
{
    if k == 0 {
        assert(parts.take(0) =~= Seq::<TraitSchema>::empty());
    } else {
        assert(parts.skip(1)[k - 1] == parts[k]);
        assert forall|i: int| 0 <= i < k - 1 implies (#[trigger] spec_resolve(
            parts.skip(1)[i],
            outputs,
        )) is Ok && !(spec_resolve(parts.skip(1)[i], outputs)->Ok_0 is Abandon) by {
            assert(parts.skip(1)[i] == parts[i + 1]);
        }
        lemma_abandon_stops_group(parts.skip(1), outputs, k - 1);
        assert(parts.take(k)[0] == parts[0]);
        assert(parts.take(k).skip(1) =~= parts.skip(1).take(k - 1));
    }
}

/// A matched but unsatisfied row skips only itself: the run continues with
/// the next row, nothing of the rest is lost.
pub proof fn lemma_skip_continues_group(parts: Seq<TraitSchema>, outputs: Seq<StandardDOBOutput>)
    requires
        parts.len() > 0,
        spec_resolve(parts[0], outputs) == Ok::<SpecResolution, Error>(SpecResolution::Skip),
    ensures
        spec_resolve_group(parts, outputs) == spec_resolve_group(parts.skip(1), outputs),
{
}

} // verus!
