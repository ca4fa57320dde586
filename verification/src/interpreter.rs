//! Running one form of source text.

use crate::decimal::Ledger;
use crate::env::Env;
use crate::error::result_view;
use crate::error::Error;
use crate::error::ErrorView;
use crate::eval::eval;
use crate::lexer::lex;
use crate::lexer::lexed;
use crate::parser::parse;
use crate::parser::parsed;
use crate::semantics::evaluated;
use crate::semantics::failed;
use crate::semantics::Answers;
use crate::semantics::Scope;
use crate::semantics::Step;
use crate::settled::is_settled;
use crate::settled::is_settled_scope;
use crate::settled::law_evaluation_gives_no_name;
use crate::tree::ObjectView;
use crate::tree::StutterObject;
use vstd::prelude::*;

verus! {

/// How deep forms may be nested where no depth is given.
pub const DEFAULT_DEPTH: usize = 256;

/// What a text evaluates to: `Nil` where it holds no token, else the
/// value of the one form that its tokens make, under no local bindings.
pub open spec fn ran(text: Seq<char>, globals: Scope, answers: Answers, depth: nat) -> Step<
    ObjectView,
> {
    match lexed(text, answers) {
        Err(e) => failed(e, globals),
        Ok(tokens) => if tokens.len() == 0 {
            Step { result: Ok(ObjectView::Nil), globals }
        } else {
            match parsed(tokens) {
                Err(e) => failed(e, globals),
                Ok(tree) => evaluated(tree, Map::empty(), globals, true, answers, depth),
            }
        },
    }
}

/// Whether the work stopped for an answer of the host.
pub open spec fn is_pending(result: Result<ObjectView, ErrorView>) -> bool {
    result matches Err(ErrorView::NeedsDecimal(_))
}

/// Evaluates the one form of `cmd`, nested no deeper than `depth`. Where
/// the work stops for an answer of the host, the global definitions are
/// left as they were, so that it can be done again from the start. No
/// value that it gives is a name, as long as none is defined as one.
pub fn run_within(cmd: &String, global_env: &mut Env, ledger: &Ledger, depth: usize) -> (r: Result<
    StutterObject,
    Error,
>)
    ensures
        result_view(r) == ran(cmd@, old(global_env)@, ledger@, depth as nat).result,
        final(global_env)@ == if is_pending(result_view(r)) {
            old(global_env)@
        } else {
            ran(cmd@, old(global_env)@, ledger@, depth as nat).globals
        },
        is_settled_scope(old(global_env)@) ==> is_settled_scope(final(global_env)@),
        is_settled_scope(old(global_env)@) ==> (r matches Ok(value) ==> is_settled(value@)),
{
    let tokens = match lex(cmd, ledger) {
        Ok(tokens) => tokens,
        Err(e) => {
            return Err(e);
        },
    };
    if tokens.len() == 0 {
        Ok(StutterObject::Nil)
    } else {
        let tree = match parse(&tokens) {
            Ok(tree) => tree,
            Err(e) => {
                return Err(e);
            },
        };
        let env = Env::new();
        let before = global_env.clone();
        proof {
            if is_settled_scope(global_env@) {
                law_evaluation_gives_no_name(
                    tree@,
                    env@,
                    global_env@,
                    true,
                    ledger@,
                    depth as nat,
                );
            }
        }
        match eval(&tree, &env, global_env, true, ledger, depth) {
            Err(Error::NeedsDecimal(query)) => {
                *global_env = before;
                Err(Error::NeedsDecimal(query))
            },
            result => result,
        }
    }
}

/// Evaluates the one form of `cmd`, nested no deeper than
/// `DEFAULT_DEPTH`.
pub fn run(cmd: &String, global_env: &mut Env, ledger: &Ledger) -> (r: Result<
    StutterObject,
    Error,
>)
    ensures
        result_view(r) == ran(cmd@, old(global_env)@, ledger@, DEFAULT_DEPTH as nat).result,
        final(global_env)@ == if is_pending(result_view(r)) {
            old(global_env)@
        } else {
            ran(cmd@, old(global_env)@, ledger@, DEFAULT_DEPTH as nat).globals
        },
        is_settled_scope(old(global_env)@) ==> is_settled_scope(final(global_env)@),
        is_settled_scope(old(global_env)@) ==> (r matches Ok(value) ==> is_settled(value@)),
{
    run_within(cmd, global_env, ledger, DEFAULT_DEPTH)
}

} // verus!
