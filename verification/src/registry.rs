//! The command registry: one name/alias-indexed table of descriptors paired
//! with their handlers, built during a registration phase, then frozen and
//! read-only; and the dispatcher that resolves a name, validates arity, and
//! invokes the handler.

use vstd::prelude::*;

use crate::command_error::{CommandError, CommandErrorView};
use crate::command_handler::CommandHandler;
use crate::command_info::{BuildError, CommandInfo, CommandInfoView};

verus! {

/// Whether `tok` is one of the descriptor's aliases.
pub open spec fn spec_has_alias(info: CommandInfoView, tok: Seq<char>) -> bool {
    exists|k: int| 0 <= k < info.aliases.len() && info.aliases[k] == tok
}

/// Whether the descriptor answers to `tok`: by name or by alias.
pub open spec fn spec_claims(info: CommandInfoView, tok: Seq<char>) -> bool {
    info.name == tok || spec_has_alias(info, tok)
}

/// Whether some registered descriptor answers to `tok`.
pub open spec fn spec_token_claimed(infos: Seq<CommandInfoView>, tok: Seq<char>) -> bool {
    exists|i: int| 0 <= i < infos.len() && spec_claims(infos[i], tok)
}

/// Whether the descriptor collides with a registered one: some token answers
/// to both.
pub open spec fn spec_collides(infos: Seq<CommandInfoView>, info: CommandInfoView) -> bool {
    exists|i: int, tok: Seq<char>|
        0 <= i < infos.len() && #[trigger] spec_claims(infos[i], tok) && #[trigger] spec_claims(
            info,
            tok,
        )
}

/// No token answers to two distinct registered descriptors: names are unique,
/// and no alias shadows another command's name or alias.
pub open spec fn spec_distinct_commands(infos: Seq<CommandInfoView>) -> bool {
    forall|i: int, j: int, tok: Seq<char>|
        0 <= i < infos.len() && 0 <= j < infos.len() && i != j ==> !(#[trigger] spec_claims(
            infos[i],
            tok,
        ) && #[trigger] spec_claims(infos[j], tok))
}

/// The first alias at or after `k` that some registered descriptor already
/// answers to, if any.
pub open spec fn spec_first_claimed_alias(
    infos: Seq<CommandInfoView>,
    aliases: Seq<Seq<char>>,
    k: int,
) -> Option<int>
    decreases aliases.len() - k,
{
    if k < 0 || k >= aliases.len() {
        None
    } else if spec_token_claimed(infos, aliases[k]) {
        Some(k)
    } else {
        spec_first_claimed_alias(infos, aliases, k + 1)
    }
}

proof fn lemma_first_claimed_alias_stops(
    infos: Seq<CommandInfoView>,
    aliases: Seq<Seq<char>>,
    from: int,
    k: int,
)
    requires
        0 <= from <= k < aliases.len(),
        spec_token_claimed(infos, aliases[k]),
        forall|t: int| from <= t < k ==> !spec_token_claimed(infos, #[trigger] aliases[t]),
    ensures
        spec_first_claimed_alias(infos, aliases, from) == Some(k),
    decreases k - from,
{
    if from < k {
        lemma_first_claimed_alias_stops(infos, aliases, from + 1, k);
    }
}

/// The first registered descriptor at or after `i` whose name is `tok`.
pub open spec fn spec_first_name_from(infos: Seq<CommandInfoView>, tok: Seq<char>, i: int) -> Option<
    int,
>
    decreases infos.len() - i,
{
    if i < 0 || i >= infos.len() {
        None
    } else if infos[i].name == tok {
        Some(i)
    } else {
        spec_first_name_from(infos, tok, i + 1)
    }
}

/// The first registered descriptor at or after `i` having `tok` among its
/// aliases.
pub open spec fn spec_first_alias_from(infos: Seq<CommandInfoView>, tok: Seq<char>, i: int) -> Option<
    int,
>
    decreases infos.len() - i,
{
    if i < 0 || i >= infos.len() {
        None
    } else if spec_has_alias(infos[i], tok) {
        Some(i)
    } else {
        spec_first_alias_from(infos, tok, i + 1)
    }
}

/// Where lookup of `tok` lands: the descriptor whose name is `tok`, else the
/// first-registered descriptor with `tok` among its aliases, else nowhere.
/// Lookup is case-sensitive exact match.
pub open spec fn spec_find_index(infos: Seq<CommandInfoView>, tok: Seq<char>) -> Option<int> {
    match spec_first_name_from(infos, tok, 0) {
        Some(i) => Some(i),
        None => spec_first_alias_from(infos, tok, 0),
    }
}

/// The descriptor lookup of `tok` returns, if any.
pub open spec fn spec_find(infos: Seq<CommandInfoView>, tok: Seq<char>) -> Option<
    CommandInfoView,
> {
    match spec_find_index(infos, tok) {
        Some(i) => Some(infos[i]),
        None => None,
    }
}

proof fn lemma_first_name_none(infos: Seq<CommandInfoView>, tok: Seq<char>, i: int)
    requires
        0 <= i <= infos.len(),
    ensures
        spec_first_name_from(infos, tok, i) is None <==> (forall|j: int|
            i <= j < infos.len() ==> infos[j].name != tok),
    decreases infos.len() - i,
{
    if i < infos.len() {
        lemma_first_name_none(infos, tok, i + 1);
    }
}

proof fn lemma_first_name_stops(infos: Seq<CommandInfoView>, tok: Seq<char>, from: int, i: int)
    requires
        0 <= from <= i < infos.len(),
        infos[i].name == tok,
        forall|j: int| from <= j < i ==> infos[j].name != tok,
    ensures
        spec_first_name_from(infos, tok, from) == Some(i),
    decreases i - from,
{
    if from < i {
        lemma_first_name_stops(infos, tok, from + 1, i);
    }
}

proof fn lemma_first_alias_none(infos: Seq<CommandInfoView>, tok: Seq<char>, i: int)
    requires
        0 <= i <= infos.len(),
    ensures
        spec_first_alias_from(infos, tok, i) is None <==> (forall|j: int|
            i <= j < infos.len() ==> !spec_has_alias(infos[j], tok)),
    decreases infos.len() - i,
{
    if i < infos.len() {
        lemma_first_alias_none(infos, tok, i + 1);
    }
}

proof fn lemma_first_alias_stops(infos: Seq<CommandInfoView>, tok: Seq<char>, from: int, i: int)
    requires
        0 <= from <= i < infos.len(),
        spec_has_alias(infos[i], tok),
        forall|j: int| from <= j < i ==> !spec_has_alias(infos[j], tok),
    ensures
        spec_first_alias_from(infos, tok, from) == Some(i),
    decreases i - from,
{
    if from < i {
        lemma_first_alias_stops(infos, tok, from + 1, i);
    }
}

/// Law: lookup of a registered descriptor's name returns that descriptor.
pub proof fn lemma_find_registered_name(infos: Seq<CommandInfoView>, i: int)
    requires
        spec_distinct_commands(infos),
        0 <= i < infos.len(),
    ensures
        spec_find_index(infos, infos[i].name) == Some(i),
        spec_find(infos, infos[i].name) == Some(infos[i]),
{
    let tok = infos[i].name;
    assert forall|j: int| 0 <= j < i implies infos[j].name != tok by {
        if infos[j].name == tok {
            assert(spec_claims(infos[j], tok));
            assert(spec_claims(infos[i], tok));
        }
    }
    lemma_first_name_stops(infos, tok, 0, i);
}

/// Law: lookup of a registered descriptor's alias returns that descriptor —
/// in particular, a descriptor having the queried token among its aliases.
pub proof fn lemma_find_registered_alias(infos: Seq<CommandInfoView>, i: int, a: Seq<char>)
    requires
        spec_distinct_commands(infos),
        0 <= i < infos.len(),
        spec_has_alias(infos[i], a),
    ensures
        spec_find_index(infos, a) == Some(i),
        spec_find(infos, a) == Some(infos[i]),
{
    assert(spec_claims(infos[i], a));
    if exists|j: int| 0 <= j < infos.len() && infos[j].name == a {
        let j = choose|j: int| 0 <= j < infos.len() && infos[j].name == a;
        assert(spec_claims(infos[j], a));
        if j != i {
            assert(!(spec_claims(infos[j], a) && spec_claims(infos[i], a)));
            assert(false);
        }
        assert forall|k: int| 0 <= k < i implies infos[k].name != a by {
            if infos[k].name == a {
                assert(spec_claims(infos[k], a));
            }
        }
        lemma_first_name_stops(infos, a, 0, i);
    } else {
        lemma_first_name_none(infos, a, 0);
        assert forall|k: int| 0 <= k < i implies !spec_has_alias(infos[k], a) by {
            if spec_has_alias(infos[k], a) {
                assert(spec_claims(infos[k], a));
            }
        }
        lemma_first_alias_stops(infos, a, 0, i);
    }
}

/// Law: an alias resolves to the very command its descriptor names, so
/// dispatching through the alias invokes the same handler as dispatching
/// through the name.
pub proof fn lemma_alias_resolves_like_name(infos: Seq<CommandInfoView>, i: int, a: Seq<char>)
    requires
        spec_distinct_commands(infos),
        0 <= i < infos.len(),
        spec_has_alias(infos[i], a),
    ensures
        spec_find_index(infos, a) == spec_find_index(infos, infos[i].name),
{
    lemma_find_registered_name(infos, i);
    lemma_find_registered_alias(infos, i, a);
}

/// Law: every descriptor a well-formed registry holds has consistent arity
/// bounds.
pub proof fn lemma_registry_arity_consistent<H>(reg: &CommandRegistry<H>, i: int)
    requires
        reg.wf(),
        0 <= i < reg.infos().len(),
    ensures
        reg.infos()[i].min <= reg.infos()[i].max,
{
    crate::command_info::lemma_arity_bounds_consistent(reg.infos()[i]);
}

/// One registered command: its descriptor and its handler.
struct CommandEntry<H> {
    info: CommandInfo,
    handler: H,
}

/// The process-wide command table. It is built by [`CommandRegistry::register`]
/// during a registration phase in which colliding descriptors are rejected,
/// then frozen by [`CommandRegistry::freeze`]; once frozen it accepts no
/// further registration, and lookups are deterministic and side-effect-free.
pub struct CommandRegistry<H> {
    entries: Vec<CommandEntry<H>>,
    frozen: bool,
}

impl<H> CommandRegistry<H> {
    /// The registered descriptors, in registration order.
    pub closed spec fn infos(&self) -> Seq<CommandInfoView> {
        self.entries@.map_values(|e: CommandEntry<H>| e.info@)
    }

    /// The registered handlers, in registration order.
    pub closed spec fn handlers(&self) -> Seq<H> {
        self.entries@.map_values(|e: CommandEntry<H>| e.handler)
    }

    /// Whether registration has closed.
    pub closed spec fn is_frozen(&self) -> bool {
        self.frozen
    }

    /// A well-formed table: collision-free, and every descriptor in it
    /// well-formed. `new` establishes it and `register` preserves it, so a
    /// registry built through them never holds anything else.
    pub open spec fn wf(&self) -> bool {
        &&& spec_distinct_commands(self.infos())
        &&& forall|i: int|
            0 <= i < self.infos().len() ==> crate::command_info::spec_wf_info(
                #[trigger] self.infos()[i],
            )
    }

    /// An empty registry, open for registration.
    pub fn new() -> (r: CommandRegistry<H>)
        ensures
            r.infos() == Seq::<CommandInfoView>::empty(),
            r.handlers() == Seq::<H>::empty(),
            !r.is_frozen(),
    {
        let r = CommandRegistry { entries: Vec::new(), frozen: false };
        proof {
            assert(r.infos() =~= Seq::<CommandInfoView>::empty());
            assert(r.handlers() =~= Seq::<H>::empty());
        }
        r
    }

    /// Registers one command. Succeeds exactly when the registry is still
    /// open and no token of the descriptor — name or alias — answers to an
    /// already-registered command; the rejected cases leave the registry
    /// unchanged. A name collision is reported over an alias collision, and
    /// an alias collision names the first colliding alias in declaration
    /// order.
    pub fn register(&mut self, info: CommandInfo, handler: H) -> (r: Result<(), BuildError>)
        requires
            old(self).wf(),
        ensures
            final(self).wf(),
            r is Ok <==> !old(self).is_frozen() && !spec_collides(old(self).infos(), info@),
            final(self).is_frozen() == old(self).is_frozen(),
            match r {
                Ok(()) => final(self).infos() == old(self).infos().push(info@) && final(self).handlers() == old(self).handlers().push(handler),
                Err(e) => final(self).infos() == old(self).infos() && final(self).handlers()
                    == old(self).handlers() && match e {
                    BuildError::RegistryFrozen => old(self).is_frozen(),
                    BuildError::DuplicateName(s) => !old(self).is_frozen() && s@ == info@.name
                        && spec_token_claimed(old(self).infos(), info@.name),
                    BuildError::DuplicateAlias(s) => !old(self).is_frozen()
                        && !spec_token_claimed(old(self).infos(), info@.name) && (
                    spec_first_claimed_alias(old(self).infos(), info@.aliases, 0) matches Some(k)
                        && s@ == info@.aliases[k]),
                    _ => false,
                },
            },
    {
        proof {
            use_type_invariant(&info);
        }
        if self.frozen {
            return Err(BuildError::RegistryFrozen);
        }
        if self.some_entry_claims(info.name()) {
            let name = info.name().clone();
            proof {
                lemma_collides_from_token(old(self).infos(), info@, info@.name);
            }
            return Err(BuildError::DuplicateName(name));
        }
        let aliases = info.aliases();
        let n = aliases.len();
        let mut k: usize = 0;
        while k < n
            invariant
                n == info@.aliases.len(),
                aliases.deep_view() == info@.aliases,
                0 <= k <= n,
                *self == *old(self),
                self.wf(),
                !self.frozen,
                forall|t: int|
                    0 <= t < k ==> !spec_token_claimed(self.infos(), #[trigger] info@.aliases[t]),
                !spec_token_claimed(self.infos(), info@.name),
            decreases n - k,
        {
            if self.some_entry_claims(&aliases[k]) {
                let alias = aliases[k].clone();
                proof {
                    lemma_collides_from_token(old(self).infos(), info@, info@.aliases[k as int]);
                    lemma_first_claimed_alias_stops(old(self).infos(), info@.aliases, 0, k as int);
                }
                return Err(BuildError::DuplicateAlias(alias));
            }
            k += 1;
        }
        proof {
            lemma_no_collision(self.infos(), info@);
            let new_infos = self.infos().push(info@);
            assert forall|i: int, j: int, tok: Seq<char>|
                0 <= i < new_infos.len() && 0 <= j < new_infos.len() && i != j implies !(
            #[trigger] spec_claims(new_infos[i], tok) && #[trigger] spec_claims(
                new_infos[j],
                tok,
            )) by {
                if spec_claims(new_infos[i], tok) && spec_claims(new_infos[j], tok) {
                    if i < new_infos.len() - 1 && j < new_infos.len() - 1 {
                        assert(spec_claims(self.infos()[i], tok));
                        assert(spec_claims(self.infos()[j], tok));
                    } else if i == new_infos.len() - 1 {
                        assert(spec_claims(self.infos()[j], tok) && spec_claims(info@, tok));
                    } else {
                        assert(spec_claims(self.infos()[i], tok) && spec_claims(info@, tok));
                    }
                }
            }
        }
        let ghost old_entries = self.entries@;
        self.entries.push(CommandEntry { info, handler });
        proof {
            assert(self.infos() =~= old_entries.map_values(|e: CommandEntry<H>| e.info@).push(
                info@,
            ));
            assert(self.handlers() =~= old_entries.map_values(|e: CommandEntry<H>| e.handler).push(
                handler,
            ));
        }
        Ok(())
    }

    /// Closes registration; the table is read-only from here on.
    pub fn freeze(&mut self)
        ensures
            final(self).is_frozen(),
            final(self).infos() == old(self).infos(),
            final(self).handlers() == old(self).handlers(),
    {
        self.frozen = true;
    }

    /// Whether some registered descriptor answers to `tok`.
    fn some_entry_claims(&self, tok: &String) -> (r: bool)
        ensures
            r == spec_token_claimed(self.infos(), tok@),
    {
        let n = self.entries.len();
        let mut i: usize = 0;
        while i < n
            invariant
                n == self.entries@.len(),
                0 <= i <= n,
                forall|j: int| 0 <= j < i ==> !spec_claims(self.infos()[j], tok@),
            decreases n - i,
        {
            if claims_token(&self.entries[i].info, tok) {
                assert(spec_claims(self.infos()[i as int], tok@));
                return true;
            }
            i += 1;
        }
        false
    }

    /// The position lookup of `tok` lands on, as `spec_find_index` says.
    fn find_position(&self, tok: &String) -> (r: Option<usize>)
        ensures
            match r {
                Some(i) => i < self.infos().len() && spec_find_index(self.infos(), tok@) == Some(
                    i as int,
                ),
                None => spec_find_index(self.infos(), tok@) is None,
            },
    {
        let n = self.entries.len();
        let mut i: usize = 0;
        while i < n
            invariant
                n == self.entries@.len(),
                0 <= i <= n,
                forall|j: int| 0 <= j < i ==> self.infos()[j].name != tok@,
            decreases n - i,
        {
            if string_eq(self.entries[i].info.name(), tok) {
                proof {
                    lemma_first_name_stops(self.infos(), tok@, 0, i as int);
                }
                return Some(i);
            }
            i += 1;
        }
        proof {
            lemma_first_name_none(self.infos(), tok@, 0);
        }
        let mut i: usize = 0;
        while i < n
            invariant
                n == self.entries@.len(),
                spec_first_name_from(self.infos(), tok@, 0) is None,
                0 <= i <= n,
                forall|j: int| 0 <= j < i ==> !spec_has_alias(self.infos()[j], tok@),
            decreases n - i,
        {
            if has_alias(&self.entries[i].info, tok) {
                proof {
                    lemma_first_alias_stops(self.infos(), tok@, 0, i as int);
                }
                return Some(i);
            }
            i += 1;
        }
        proof {
            lemma_first_alias_none(self.infos(), tok@, 0);
        }
        None
    }

    /// Looks `name` up: the descriptor whose name equals it, else the
    /// first-registered descriptor with it among the aliases, else nothing.
    pub fn find(&self, name: &str) -> (r: Option<&CommandInfo>)
        ensures
            match r {
                Some(info) => spec_find(self.infos(), name@) == Some(info@),
                None => spec_find(self.infos(), name@) is None,
            },
    {
        let key = String::from_str(name);
        match self.find_position(&key) {
            Some(i) => Some(&self.entries[i].info),
            None => None,
        }
    }

    /// The handler of the command `name` resolves to, if any.
    pub fn handler_of(&self, name: &str) -> (r: Option<&H>)
        ensures
            match r {
                Some(h) => spec_find_index(self.infos(), name@) matches Some(i) && *h
                    == self.handlers()[i],
                None => spec_find_index(self.infos(), name@) is None,
            },
    {
        let key = String::from_str(name);
        match self.find_position(&key) {
            Some(i) => Some(&self.entries[i].handler),
            None => None,
        }
    }

    /// The registered descriptors, in registration order.
    pub fn all(&self) -> (r: Vec<CommandInfo>)
        ensures
            r@.map_values(|c: CommandInfo| c@) == self.infos(),
    {
        let n = self.entries.len();
        let mut r: Vec<CommandInfo> = Vec::new();
        let mut i: usize = 0;
        while i < n
            invariant
                n == self.entries@.len(),
                0 <= i <= n,
                r@.len() == i,
                forall|j: int| 0 <= j < i ==> #[trigger] r@[j]@ == self.infos()[j],
            decreases n - i,
        {
            r.push(self.entries[i].info.duplicate());
            i += 1;
        }
        proof {
            assert(r@.map_values(|c: CommandInfo| c@) =~= self.infos());
        }
        r
    }
}

impl<H: CommandHandler> CommandRegistry<H> {
    /// Resolves `name`, validates the argument count against the descriptor's
    /// bounds, and invokes the handler on the raw tokens.
    ///
    /// The dispatcher itself decides three failures, and on each of them no
    /// handler runs and no state changes: an unresolved name, fewer tokens
    /// than the minimum, and — when the maximum is bounded — more tokens than
    /// the maximum. Otherwise the resolved command's handler is invoked, once,
    /// with exactly the given tokens, and its own result is returned
    /// unchanged.
    pub fn execute_command(&mut self, name: &str, args: &Vec<String>) -> (r: Result<
        (),
        CommandError,
    >)
        ensures
            final(self).infos() == old(self).infos(),
            final(self).is_frozen() == old(self).is_frozen(),
            match spec_find_index(old(self).infos(), name@) {
                None => r matches Err(e) && e@ == CommandErrorView::CommandNotFound(name@) && final(self).handlers() == old(self).handlers(),
                Some(i) => {
                    let d = old(self).infos()[i];
                    if args@.len() < d.min {
                        r matches Err(e) && e@ == CommandErrorView::TooFewArguments(
                            args@.len() as nat,
                            d,
                        ) && final(self).handlers() == old(self).handlers()
                    } else if d.max != usize::MAX && args@.len() > d.max {
                        r matches Err(e) && e@ == CommandErrorView::TooManyArguments(
                            args@.len() as nat,
                            d,
                        ) && final(self).handlers() == old(self).handlers()
                    } else {
                        final(self).handlers().len() == old(self).handlers().len() && final(self).handlers()[i].invocations() == old(self).handlers()[i].invocations().push(
                            args.deep_view(),
                        ) && (forall|j: int|
                            0 <= j < old(self).handlers().len() && j != i ==> final(self).handlers()[j] == old(self).handlers()[j])
                    }
                },
            },
    {
        let key = String::from_str(name);
        let idx = match self.find_position(&key) {
            Some(i) => i,
            None => {
                return Err(CommandError::CommandNotFound(key));
            },
        };
        let min = self.entries[idx].info.min();
        let max = self.entries[idx].info.max();
        if args.len() < min {
            return Err(CommandError::TooFewArguments(args.len(), self.entries[idx].info.duplicate()));
        }
        if max != usize::MAX && args.len() > max {
            return Err(
                CommandError::TooManyArguments(args.len(), self.entries[idx].info.duplicate()),
            );
        }
        let ghost old_entries = self.entries@;
        let e = &mut self.entries[idx];
        let r = e.handler.call(args);
        proof {
            assert(self.infos() =~= old_entries.map_values(|e: CommandEntry<H>| e.info@));
            assert forall|j: int|
                0 <= j < self.handlers().len() && j != idx as int implies self.handlers()[j]
                == old_entries.map_values(|e: CommandEntry<H>| e.handler)[j] by {}
        }
        r
    }
}

/// Collision is witnessed by one shared token.
proof fn lemma_collides_from_token(infos: Seq<CommandInfoView>, info: CommandInfoView, tok: Seq<char>)
    requires
        spec_token_claimed(infos, tok),
        spec_claims(info, tok),
    ensures
        spec_collides(infos, info),
{
    let i = choose|i: int| 0 <= i < infos.len() && spec_claims(infos[i], tok);
    assert(spec_claims(infos[i], tok) && spec_claims(info, tok));
}

/// A descriptor none of whose tokens is already claimed collides with
/// nothing.
proof fn lemma_no_collision(infos: Seq<CommandInfoView>, info: CommandInfoView)
    requires
        !spec_token_claimed(infos, info.name),
        forall|t: int|
            0 <= t < info.aliases.len() ==> !spec_token_claimed(infos, #[trigger] info.aliases[t]),
    ensures
        !spec_collides(infos, info),
{
    if spec_collides(infos, info) {
        let (i, tok) = choose|i: int, tok: Seq<char>|
            0 <= i < infos.len() && #[trigger] spec_claims(infos[i], tok) && #[trigger] spec_claims(
                info,
                tok,
            );
        assert(spec_token_claimed(infos, tok));
        if info.name == tok {
        } else {
            let k = choose|k: int| 0 <= k < info.aliases.len() && info.aliases[k] == tok;
            assert(!spec_token_claimed(infos, info.aliases[k]));
        }
    }
}

/// Whether the descriptor answers to `tok`, as `spec_claims` says.
fn claims_token(info: &CommandInfo, tok: &String) -> (r: bool)
    ensures
        r == spec_claims(info@, tok@),
{
    if string_eq(info.name(), tok) {
        return true;
    }
    has_alias(info, tok)
}

/// Whether `tok` is among the descriptor's aliases, as `spec_has_alias` says.
fn has_alias(info: &CommandInfo, tok: &String) -> (r: bool)
    ensures
        r == spec_has_alias(info@, tok@),
{
    let aliases = info.aliases();
    let n = aliases.len();
    let mut k: usize = 0;
    while k < n
        invariant
            n == info@.aliases.len(),
            aliases.deep_view() == info@.aliases,
            0 <= k <= n,
            forall|j: int| 0 <= j < k ==> info@.aliases[j] != tok@,
        decreases n - k,
    {
        if string_eq(&aliases[k], tok) {
            assert(info@.aliases[k as int] == tok@);
            return true;
        }
        k += 1;
    }
    false
}

/// String equality, by contents.
fn string_eq(a: &String, b: &String) -> (r: bool)
    ensures
        r == (a@ == b@),
{
    (*a).eq(b)
}

} // verus!
