//! Command descriptors: the immutable metadata of one command, with its arity
//! bounds computed and its parameter shape validated at build time.

use vstd::prelude::*;

use crate::parse_argument::ArgType;

verus! {

/// One parameter of a command: its converter's type tag, whether the argument
/// may be absent, and whether the parameter consumes all remaining tokens.
#[derive(Clone, Copy, Debug, PartialEq, Eq, Structural)]
pub struct ParamSpec {
    pub ty: ArgType,
    pub optional: bool,
    pub variadic: bool,
}

/// An error raised while building a descriptor or a registry. Such an error is
/// a startup error: a command whose construction fails is never registered, so
/// no invalid shape is ever observed at call time.
#[derive(Debug)]
pub enum BuildError {
    /// A descriptor's name must be non-empty.
    EmptyName,
    /// Only the final parameter may be variadic; the payload is the position
    /// of the offending parameter.
    VariadicNotLast(usize),
    /// A required parameter may not follow an optional one; the payload is the
    /// position of the offending required parameter.
    RequiredAfterOptional(usize),
    /// The name of the rejected descriptor already names a registered command,
    /// or collides with a registered alias.
    DuplicateName(String),
    /// An alias of the rejected descriptor collides with a registered name or
    /// alias; the payload is the colliding alias.
    DuplicateAlias(String),
    /// The registry is frozen and accepts no further registration.
    RegistryFrozen,
}

/// The minimum argument count of a parameter list: the number of parameters
/// that are not optional. A required variadic parameter demands at least one
/// token, so it counts.
pub open spec fn spec_min_arity(params: Seq<ParamSpec>) -> nat
    decreases params.len(),
{
    if params.len() == 0 {
        0
    } else {
        spec_min_arity(params.drop_last()) + (if params.last().optional {
            0nat
        } else {
            1nat
        })
    }
}

/// Whether some parameter is variadic.
pub open spec fn spec_has_variadic(params: Seq<ParamSpec>) -> bool {
    exists|i: int| 0 <= i < params.len() && params[i].variadic
}

/// The maximum argument count of a parameter list; `usize::MAX` is the
/// sentinel for "unbounded", used when a trailing variadic parameter accepts
/// any number of tokens.
pub open spec fn spec_max_arity(params: Seq<ParamSpec>) -> nat {
    if spec_has_variadic(params) {
        usize::MAX as nat
    } else {
        params.len()
    }
}

/// A well-shaped parameter list: a variadic parameter only in last position,
/// and after an optional parameter only optional or variadic ones, so that the
/// shape collapses to a required prefix and an optional-or-variadic suffix.
pub open spec fn spec_valid_shape(params: Seq<ParamSpec>) -> bool {
    &&& forall|i: int| 0 <= i < params.len() && params[i].variadic ==> i == params.len() - 1
    &&& forall|i: int, j: int|
        0 <= i < j < params.len() && params[i].optional ==> params[j].optional
            || params[j].variadic
}

/// Whether the parameter at position `i` violates the shape rules, given what
/// stands before and after it.
pub open spec fn spec_violation_at(params: Seq<ParamSpec>, i: int) -> bool {
    ||| params[i].variadic && i != params.len() - 1
    ||| !params[i].optional && !params[i].variadic && (exists|k: int|
        0 <= k < i && params[k].optional)
}

/// The position of the first shape violation at or after `i`, if any.
pub open spec fn spec_first_violation_from(params: Seq<ParamSpec>, i: int) -> Option<int>
    decreases params.len() - i,
{
    if i < 0 || i >= params.len() {
        None
    } else if spec_violation_at(params, i) {
        Some(i)
    } else {
        spec_first_violation_from(params, i + 1)
    }
}

/// The scan for the first violation finds none exactly on the positions where
/// none stands.
proof fn lemma_first_violation_none(params: Seq<ParamSpec>, i: int)
    requires
        0 <= i <= params.len(),
    ensures
        spec_first_violation_from(params, i) is None <==> (forall|j: int|
            i <= j < params.len() ==> !spec_violation_at(params, j)),
    decreases params.len() - i,
{
    if i < params.len() {
        lemma_first_violation_none(params, i + 1);
    }
}

/// If nothing violates before `i` and `i` violates, the scan stops at `i`.
proof fn lemma_first_violation_stops(params: Seq<ParamSpec>, from: int, i: int)
    requires
        0 <= from <= i < params.len(),
        spec_violation_at(params, i),
        forall|j: int| from <= j < i ==> !spec_violation_at(params, j),
    ensures
        spec_first_violation_from(params, from) == Some(i),
    decreases i - from,
{
    if from < i {
        lemma_first_violation_stops(params, from + 1, i);
    }
}

/// A parameter list is well-shaped exactly when no position violates.
proof fn lemma_valid_shape_no_violation(params: Seq<ParamSpec>)
    ensures
        spec_valid_shape(params) <==> (forall|j: int|
            0 <= j < params.len() ==> !spec_violation_at(params, j)),
{
    if spec_valid_shape(params) {
        assert forall|j: int| 0 <= j < params.len() implies !spec_violation_at(params, j) by {
            if !params[j].optional && !params[j].variadic && (exists|k: int|
                0 <= k < j && params[k].optional) {
                let k = choose|k: int| 0 <= k < j && params[k].optional;
                assert(params[j].optional || params[j].variadic);
            }
        }
    } else {
        if !(forall|i: int| 0 <= i < params.len() && params[i].variadic ==> i == params.len() - 1) {
            let i = choose|i: int|
                0 <= i < params.len() && params[i].variadic && i != params.len() - 1;
            assert(spec_violation_at(params, i));
        } else {
            let (i, j) = choose|i: int, j: int|
                0 <= i < j < params.len() && params[i].optional && !(params[j].optional
                    || params[j].variadic);
            assert(spec_violation_at(params, j));
        }
    }
}

/// The minimum arity never exceeds the parameter count.
pub proof fn lemma_min_arity_le_len(params: Seq<ParamSpec>)
    ensures
        spec_min_arity(params) <= params.len(),
    decreases params.len(),
{
    if params.len() > 0 {
        lemma_min_arity_le_len(params.drop_last());
    }
}

/// A prefix never demands more arguments than the whole parameter list.
pub proof fn lemma_min_arity_prefix_le(params: Seq<ParamSpec>, m: int)
    requires
        0 <= m <= params.len(),
    ensures
        spec_min_arity(params.take(m)) <= spec_min_arity(params),
    decreases params.len() - m,
{
    if m == params.len() {
        assert(params.take(m) =~= params);
    } else {
        assert(params.take(m + 1).drop_last() =~= params.take(m));
        lemma_min_arity_prefix_le(params, m + 1);
    }
}

/// A parameter list without optional parameters demands one argument per
/// parameter.
pub proof fn lemma_min_arity_all_required(params: Seq<ParamSpec>)
    requires
        forall|k: int| 0 <= k < params.len() ==> !params[k].optional,
    ensures
        spec_min_arity(params) == params.len(),
    decreases params.len(),
{
    if params.len() > 0 {
        lemma_min_arity_all_required(params.drop_last());
    }
}

/// Law: a well-formed descriptor's arity bounds are consistent — the minimum
/// never exceeds the maximum (where `usize::MAX` is the unbounded sentinel).
/// Construction rejects every other shape, so no violating descriptor is ever
/// observed at call time.
pub proof fn lemma_arity_bounds_consistent(info: CommandInfoView)
    requires
        spec_wf_info(info),
    ensures
        info.min <= info.max,
{
    lemma_min_arity_le_len(info.params);
}

/// The mathematical value of a descriptor.
pub struct CommandInfoView {
    pub name: Seq<char>,
    pub description: Seq<char>,
    pub aliases: Seq<Seq<char>>,
    pub min: nat,
    pub max: nat,
    pub params: Seq<ParamSpec>,
}

/// A well-formed descriptor: non-empty name, well-shaped parameters, and arity
/// bounds that agree with the parameter shape.
pub open spec fn spec_wf_info(info: CommandInfoView) -> bool {
    &&& info.name.len() > 0
    &&& spec_valid_shape(info.params)
    &&& info.params.len() <= usize::MAX
    &&& info.min == spec_min_arity(info.params)
    &&& info.max == spec_max_arity(info.params)
}

/// The immutable metadata of one command: its unique name, a free-text
/// description, its aliases, its arity bounds, and its parameter shape.
/// `max == usize::MAX` is the sentinel for an unbounded maximum.
///
/// A descriptor is built once, by [`CommandInfo::new`], which computes the
/// arity bounds from the parameter shape and rejects malformed shapes.
#[derive(Debug)]
pub struct CommandInfo {
    name: String,
    description: String,
    aliases: Vec<String>,
    min: usize,
    max: usize,
    params: Vec<ParamSpec>,
}

impl View for CommandInfo {
    type V = CommandInfoView;

    closed spec fn view(&self) -> CommandInfoView {
        CommandInfoView {
            name: self.name@,
            description: self.description@,
            aliases: self.aliases.deep_view(),
            min: self.min as nat,
            max: self.max as nat,
            params: self.params@,
        }
    }
}

impl CommandInfo {
    /// Every descriptor that exists is well-formed; construction rejects the
    /// rest.
    #[verifier::type_invariant]
    pub open spec fn wf(&self) -> bool {
        spec_wf_info(self@)
    }

    /// Builds the descriptor for one command from its declared parameter
    /// shape: the minimum arity is the count of required parameters, the
    /// maximum is unbounded when a parameter is variadic and the parameter
    /// count otherwise. Rejects an empty name, a variadic parameter anywhere
    /// but last, and a required parameter after an optional one; the scan
    /// reports the violation at the lowest position.
    pub fn new(
        name: String,
        description: String,
        aliases: Vec<String>,
        params: Vec<ParamSpec>,
    ) -> (r: Result<CommandInfo, BuildError>)
        ensures
            r is Ok <==> name@.len() > 0 && spec_valid_shape(params@),
            match r {
                Ok(info) => info@ == (CommandInfoView {
                    name: name@,
                    description: description@,
                    aliases: aliases.deep_view(),
                    min: spec_min_arity(params@),
                    max: spec_max_arity(params@),
                    params: params@,
                }),
                Err(e) => match e {
                    BuildError::EmptyName => name@.len() == 0,
                    BuildError::VariadicNotLast(i) => name@.len() > 0
                        && spec_first_violation_from(params@, 0) == Some(i as int)
                        && params@[i as int].variadic && i as int != params@.len() - 1,
                    BuildError::RequiredAfterOptional(i) => name@.len() > 0
                        && spec_first_violation_from(params@, 0) == Some(i as int)
                        && !params@[i as int].optional && !params@[i as int].variadic,
                    _ => false,
                },
            },
    {
        if name.as_str().unicode_len() == 0 {
            return Err(BuildError::EmptyName);
        }
        let n = params.len();
        let mut i: usize = 0;
        let mut seen_optional = false;
        while i < n
            invariant
                name@.len() > 0,
                n == params@.len(),
                0 <= i <= n,
                seen_optional == (exists|k: int| 0 <= k < i && params@[k].optional),
                forall|j: int| 0 <= j < i ==> !spec_violation_at(params@, j),
            decreases n - i,
        {
            let p = params[i];
            if p.variadic && i != n - 1 {
                proof {
                    lemma_first_violation_stops(params@, 0, i as int);
                    lemma_valid_shape_no_violation(params@);
                }
                return Err(BuildError::VariadicNotLast(i));
            }
            if !p.optional && !p.variadic && seen_optional {
                proof {
                    lemma_first_violation_stops(params@, 0, i as int);
                    lemma_valid_shape_no_violation(params@);
                }
                return Err(BuildError::RequiredAfterOptional(i));
            }
            if p.optional {
                seen_optional = true;
            }
            i += 1;
        }
        proof {
            lemma_valid_shape_no_violation(params@);
        }
        let min = count_required(&params);
        let max = if has_variadic(&params) {
            usize::MAX
        } else {
            n
        };
        Ok(CommandInfo { name, description, aliases, min, max, params })
    }

    /// The command's unique name.
    pub fn name(&self) -> (r: &String)
        ensures
            r@ == self@.name,
    {
        &self.name
    }

    /// The command's free-text description; may be empty.
    pub fn description(&self) -> (r: &String)
        ensures
            r@ == self@.description,
    {
        &self.description
    }

    /// The command's aliases, in declaration order.
    pub fn aliases(&self) -> (r: &Vec<String>)
        ensures
            r.deep_view() == self@.aliases,
    {
        &self.aliases
    }

    /// The minimum number of argument tokens the command accepts.
    pub fn min(&self) -> (r: usize)
        ensures
            r == self@.min,
    {
        self.min
    }

    /// The maximum number of argument tokens the command accepts;
    /// `usize::MAX` means unbounded.
    pub fn max(&self) -> (r: usize)
        ensures
            r == self@.max,
    {
        self.max
    }

    /// The command's parameter shape, in declared order.
    pub fn params(&self) -> (r: &Vec<ParamSpec>)
        ensures
            r@ == self@.params,
    {
        &self.params
    }

    /// An identical descriptor, owned by the caller.
    pub fn duplicate(&self) -> (r: CommandInfo)
        ensures
            r@ == self@,
    {
        proof {
            use_type_invariant(self);
        }
        let r = CommandInfo {
            name: self.name.clone(),
            description: self.description.clone(),
            aliases: clone_strings(&self.aliases),
            min: self.min,
            max: self.max,
            params: clone_params(&self.params),
        };
        assert(r@ == self@);
        r
    }
}

/// The number of required parameters, counted as `spec_min_arity` says.
fn count_required(params: &Vec<ParamSpec>) -> (r: usize)
    ensures
        r == spec_min_arity(params@),
{
    let n = params.len();
    let mut count: usize = 0;
    let mut i: usize = 0;
    while i < n
        invariant
            n == params@.len(),
            0 <= i <= n,
            count <= i,
            count == spec_min_arity(params@.take(i as int)),
        decreases n - i,
    {
        proof {
            assert(params@.take(i as int + 1).drop_last() =~= params@.take(i as int));
            assert(params@.take(i as int + 1).last() == params@[i as int]);
        }
        if !params[i].optional {
            count += 1;
        }
        i += 1;
    }
    proof {
        assert(params@.take(n as int) =~= params@);
    }
    count
}

/// Whether some parameter is variadic, as `spec_has_variadic` says.
fn has_variadic(params: &Vec<ParamSpec>) -> (r: bool)
    ensures
        r == spec_has_variadic(params@),
{
    let n = params.len();
    let mut i: usize = 0;
    while i < n
        invariant
            n == params@.len(),
            0 <= i <= n,
            forall|k: int| 0 <= k < i ==> !params@[k].variadic,
        decreases n - i,
    {
        if params[i].variadic {
            return true;
        }
        i += 1;
    }
    false
}

/// An elementwise copy of a string vector, equal to the original.
fn clone_strings(v: &Vec<String>) -> (r: Vec<String>)
    ensures
        r@ == v@,
{
    let n = v.len();
    let mut r: Vec<String> = Vec::new();
    let mut i: usize = 0;
    while i < n
        invariant
            n == v@.len(),
            0 <= i <= n,
            r@ =~= v@.take(i as int),
        decreases n - i,
    {
        r.push(v[i].clone());
        i += 1;
    }
    proof {
        assert(v@.take(n as int) =~= v@);
    }
    r
}

/// An elementwise copy of a parameter list, equal to the original.
fn clone_params(v: &Vec<ParamSpec>) -> (r: Vec<ParamSpec>)
    ensures
        r@ == v@,
{
    let n = v.len();
    let mut r: Vec<ParamSpec> = Vec::new();
    let mut i: usize = 0;
    while i < n
        invariant
            n == v@.len(),
            0 <= i <= n,
            r@ =~= v@.take(i as int),
        decreases n - i,
    {
        r.push(v[i]);
        i += 1;
    }
    proof {
        assert(v@.take(n as int) =~= v@);
    }
    r
}

} // verus!
