//! Positional binding of raw argument tokens against a descriptor's parameter
//! shape: one algorithm, generic over the conversion protocol, that serves
//! commands with zero, fixed, optional-trailing or variadic-trailing
//! parameters alike.

use vstd::prelude::*;

use crate::command_error::{CommandError, CommandErrorView};
use crate::command_info::{CommandInfo, CommandInfoView};
use crate::parse_argument::{parse_token, spec_convert, spec_type_name, ParsedValue, ValueView};

verus! {

/// What one parameter was bound to: a single typed value, nothing (an absent
/// optional parameter), or the sequence a variadic parameter consumed.
#[derive(Debug)]
pub enum BoundValue {
    Single(ParsedValue),
    Absent,
    Rest(Vec<ParsedValue>),
}

/// The mathematical value of a `BoundValue`.
pub enum BoundView {
    Single(ValueView),
    Absent,
    Rest(Seq<ValueView>),
}

impl View for BoundValue {
    type V = BoundView;

    open spec fn view(&self) -> BoundView {
        match self {
            BoundValue::Single(v) => BoundView::Single(v@),
            BoundValue::Absent => BoundView::Absent,
            BoundValue::Rest(v) => BoundView::Rest(v@.map_values(|x: ParsedValue| x@)),
        }
    }
}

/// The position of the first token at or after `j` that its converter
/// rejects, if any.
pub open spec fn spec_first_reject_from(
    ty: crate::parse_argument::ArgType,
    args: Seq<Seq<char>>,
    j: int,
) -> Option<int>
    decreases args.len() - j,
{
    if j < 0 || j >= args.len() {
        None
    } else if spec_convert(ty, args[j]) is None {
        Some(j)
    } else {
        spec_first_reject_from(ty, args, j + 1)
    }
}

/// The values of a token run under one converter, where every token converts.
pub open spec fn spec_convert_run(
    ty: crate::parse_argument::ArgType,
    toks: Seq<Seq<char>>,
) -> Seq<ValueView> {
    toks.map_values(|t: Seq<char>| spec_convert(ty, t)->Some_0)
}

/// The outcome of binding the parameter at position `i`, in declared order:
///
/// - a trailing variadic parameter consumes every token from `i` on (none at
///   all binds an empty run when required, and nothing when optional), and
///   fails with the converter's error on the first rejected token;
/// - a scalar parameter converts the token at `i` when one is there, fails
///   with the converter's error when that token is rejected, and when no
///   token is there binds nothing if optional and fails with
///   `TooFewArguments` if required.
pub open spec fn spec_bind_at(info: CommandInfoView, args: Seq<Seq<char>>, i: int) -> Result<
    BoundView,
    CommandErrorView,
> {
    let p = info.params[i];
    if p.variadic {
        if args.len() <= i {
            if p.optional {
                Ok(BoundView::Absent)
            } else {
                Ok(BoundView::Rest(Seq::empty()))
            }
        } else {
            match spec_first_reject_from(p.ty, args, i) {
                Some(j) => Err(
                    CommandErrorView::ArgumentConversionError(spec_type_name(p.ty), args[j]),
                ),
                None => Ok(BoundView::Rest(spec_convert_run(p.ty, args.skip(i)))),
            }
        }
    } else if i < args.len() {
        match spec_convert(p.ty, args[i]) {
            Some(v) => Ok(BoundView::Single(v)),
            None => Err(CommandErrorView::ArgumentConversionError(spec_type_name(p.ty), args[i])),
        }
    } else {
        if p.optional {
            Ok(BoundView::Absent)
        } else {
            Err(CommandErrorView::TooFewArguments(args.len(), info))
        }
    }
}

/// The position of the first parameter at or after `i` whose binding fails,
/// if any.
pub open spec fn spec_first_bind_fail_from(
    info: CommandInfoView,
    args: Seq<Seq<char>>,
    i: int,
) -> Option<int>
    decreases info.params.len() - i,
{
    if i < 0 || i >= info.params.len() {
        None
    } else if spec_bind_at(info, args, i) is Err {
        Some(i)
    } else {
        spec_first_bind_fail_from(info, args, i + 1)
    }
}

/// The outcome of binding a whole token sequence against a descriptor: the
/// bound value of every parameter in declared order, or the error of the
/// first parameter whose binding fails. Binding is fail-fast: nothing after
/// the first failure is looked at.
pub open spec fn spec_bind(info: CommandInfoView, args: Seq<Seq<char>>) -> Result<
    Seq<BoundView>,
    CommandErrorView,
> {
    match spec_first_bind_fail_from(info, args, 0) {
        Some(j) => Err(spec_bind_at(info, args, j)->Err_0),
        None => Ok(Seq::new(info.params.len(), |i: int| spec_bind_at(info, args, i)->Ok_0)),
    }
}

/// The first-failure scan finds none exactly when every position binds.
proof fn lemma_bind_fail_none(info: CommandInfoView, args: Seq<Seq<char>>, i: int)
    requires
        0 <= i <= info.params.len(),
    ensures
        spec_first_bind_fail_from(info, args, i) is None <==> (forall|j: int|
            i <= j < info.params.len() ==> spec_bind_at(info, args, j) is Ok),
    decreases info.params.len() - i,
{
    if i < info.params.len() {
        lemma_bind_fail_none(info, args, i + 1);
    }
}

/// If every position before `i` binds and `i` fails, the scan stops at `i`.
proof fn lemma_bind_fail_stops(info: CommandInfoView, args: Seq<Seq<char>>, from: int, i: int)
    requires
        0 <= from <= i < info.params.len(),
        spec_bind_at(info, args, i) is Err,
        forall|j: int| from <= j < i ==> spec_bind_at(info, args, j) is Ok,
    ensures
        spec_first_bind_fail_from(info, args, from) == Some(i),
    decreases i - from,
{
    if from < i {
        lemma_bind_fail_stops(info, args, from + 1, i);
    }
}

/// If every token before `j` converts and the token at `j` does not, the scan
/// stops at `j`.
proof fn lemma_reject_stops(
    ty: crate::parse_argument::ArgType,
    args: Seq<Seq<char>>,
    from: int,
    j: int,
)
    requires
        0 <= from <= j < args.len(),
        spec_convert(ty, args[j]) is None,
        forall|k: int| from <= k < j ==> spec_convert(ty, args[k]) is Some,
    ensures
        spec_first_reject_from(ty, args, from) == Some(j),
    decreases j - from,
{
    if from < j {
        lemma_reject_stops(ty, args, from + 1, j);
    }
}

/// The reject scan finds none exactly when every token from `from` converts.
proof fn lemma_reject_none(ty: crate::parse_argument::ArgType, args: Seq<Seq<char>>, from: int)
    requires
        0 <= from <= args.len(),
    ensures
        spec_first_reject_from(ty, args, from) is None <==> (forall|k: int|
            from <= k < args.len() ==> spec_convert(ty, args[k]) is Some),
    decreases args.len() - from,
{
    if from < args.len() {
        lemma_reject_none(ty, args, from + 1);
    }
}

proof fn lemma_bind_fail_in_range(info: CommandInfoView, args: Seq<Seq<char>>, i: int, j: int)
    requires
        0 <= i,
        spec_first_bind_fail_from(info, args, i) == Some(j),
    ensures
        i <= j < info.params.len(),
        spec_bind_at(info, args, j) is Err,
    decreases info.params.len() - i,
{
    if i < info.params.len() && !(spec_bind_at(info, args, i) is Err) {
        lemma_bind_fail_in_range(info, args, i + 1, j);
    }
}

/// Law: once the argument count has passed the descriptor's minimum-arity
/// check, binding never reports a missing argument. In a well-shaped
/// descriptor every required parameter lies below the minimum arity, so a
/// build-time-validated shape fails at call time only on a rejected token.
pub proof fn lemma_checked_arity_binds_every_required(info: CommandInfoView, args: Seq<Seq<char>>)
    requires
        crate::command_info::spec_wf_info(info),
        args.len() >= info.min,
    ensures
        spec_bind(info, args) matches Err(e) ==> e matches
            CommandErrorView::ArgumentConversionError(_, _),
{
    if spec_bind(info, args) is Err {
        let j = spec_first_bind_fail_from(info, args, 0)->Some_0;
        lemma_bind_fail_in_range(info, args, 0, j);
        let p = info.params[j];
        if !p.variadic && args.len() <= j && !p.optional {
            assert forall|k: int| 0 <= k < j + 1 implies !info.params[k].optional by {
                if 0 <= k < j && info.params[k].optional {
                    assert(info.params[j].optional || info.params[j].variadic);
                }
            }
            crate::command_info::lemma_min_arity_all_required(info.params.take(j + 1));
            crate::command_info::lemma_min_arity_prefix_le(info.params, j + 1);
            assert(info.min >= j + 1);
            assert(false);
        }
    }
}

/// Binds the raw tokens positionally against the descriptor's parameter
/// shape, in declared order, exactly as `spec_bind` says: on success one
/// bound value per parameter; on the first missing required token or rejected
/// token, that failure's error, with nothing bound and nothing after it
/// looked at.
pub fn bind_arguments(info: &CommandInfo, args: &Vec<String>) -> (r: Result<
    Vec<BoundValue>,
    CommandError,
>)
    ensures
        r is Ok <==> spec_bind(info@, args.deep_view()) is Ok,
        match r {
            Ok(b) => spec_bind(info@, args.deep_view()) == Ok::<Seq<BoundView>, CommandErrorView>(
                b@.map_values(|x: BoundValue| x@),
            ),
            Err(e) => spec_bind(info@, args.deep_view()) == Err::<
                Seq<BoundView>,
                CommandErrorView,
            >(e@),
        },
{
    let ghost argv = args.deep_view();
    let params = info.params();
    let n = params.len();
    let a = args.len();
    let mut out: Vec<BoundValue> = Vec::new();
    let mut i: usize = 0;
    while i < n
        invariant
            n == info@.params.len(),
            a == argv.len(),
            argv == args.deep_view(),
            params@ == info@.params,
            a == args@.len(),
            0 <= i <= n,
            out@.len() == i,
            forall|j: int| 0 <= j < i ==> #[trigger] spec_bind_at(info@, argv, j) is Ok,
            forall|j: int|
                0 <= j < i ==> #[trigger] out@[j]@ == spec_bind_at(info@, argv, j)->Ok_0,
        decreases n - i,
    {
        let p = params[i];
        if p.variadic {
            if a <= i {
                if p.optional {
                    out.push(BoundValue::Absent);
                } else {
                    let empty: Vec<ParsedValue> = Vec::new();
                    proof {
                        assert(empty@.map_values(|x: ParsedValue| x@) =~= Seq::<
                            ValueView,
                        >::empty());
                    }
                    out.push(BoundValue::Rest(empty));
                }
            } else {
                let mut elems: Vec<ParsedValue> = Vec::new();
                let mut j: usize = i;
                while j < a
                    invariant
                        i <= j <= a,
                        a == args@.len(),
                        argv == args.deep_view(),
                        a == argv.len(),
                        i < n,
                        i < a,
                        n == info@.params.len(),
                        p == info@.params[i as int],
                        p.variadic,
                        forall|k: int| 0 <= k < i ==> #[trigger] spec_bind_at(info@, argv, k) is Ok,
                        elems@.len() == j - i,
                        forall|k: int|
                            i <= k < j ==> spec_convert(p.ty, argv[k]) is Some,
                        forall|k: int|
                            0 <= k < j - i ==> #[trigger] elems@[k]@ == spec_convert(
                                p.ty,
                                argv[i + k],
                            )->Some_0,
                    decreases a - j,
                {
                    assert(args@[j as int]@ == argv[j as int]);
                    match parse_token(p.ty, args[j].as_str()) {
                        Ok(v) => {
                            elems.push(v);
                        },
                        Err(e) => {
                            proof {
                                lemma_reject_stops(p.ty, argv, i as int, j as int);
                                assert(spec_bind_at(info@, argv, i as int) == Err::<
                                    BoundView,
                                    CommandErrorView,
                                >(e@));
                                lemma_bind_fail_stops(info@, argv, 0, i as int);
                            }
                            return Err(e);
                        },
                    }
                    j += 1;
                }
                proof {
                    lemma_reject_none(p.ty, argv, i as int);
                    assert(elems@.map_values(|x: ParsedValue| x@) =~= spec_convert_run(
                        p.ty,
                        argv.skip(i as int),
                    ));
                    assert(spec_bind_at(info@, argv, i as int) == Ok::<
                        BoundView,
                        CommandErrorView,
                    >(BoundView::Rest(spec_convert_run(p.ty, argv.skip(i as int)))));
                }
                out.push(BoundValue::Rest(elems));
            }
        } else if i < a {
            assert(args@[i as int]@ == argv[i as int]);
            match parse_token(p.ty, args[i].as_str()) {
                Ok(v) => {
                    out.push(BoundValue::Single(v));
                },
                Err(e) => {
                    proof {
                        assert(spec_bind_at(info@, argv, i as int) == Err::<
                            BoundView,
                            CommandErrorView,
                        >(e@));
                        lemma_bind_fail_stops(info@, argv, 0, i as int);
                    }
                    return Err(e);
                },
            }
        } else {
            if p.optional {
                out.push(BoundValue::Absent);
            } else {
                let e = CommandError::TooFewArguments(a, info.duplicate());
                proof {
                    assert(spec_bind_at(info@, argv, i as int) == Err::<
                        BoundView,
                        CommandErrorView,
                    >(e@));
                    lemma_bind_fail_stops(info@, argv, 0, i as int);
                }
                return Err(e);
            }
        }
        i += 1;
    }
    proof {
        lemma_bind_fail_none(info@, argv, 0);
        assert(out@.map_values(|x: BoundValue| x@) =~= Seq::new(
            info@.params.len(),
            |k: int| spec_bind_at(info@, argv, k)->Ok_0,
        ));
    }
    Ok(out)
}

} // verus!
