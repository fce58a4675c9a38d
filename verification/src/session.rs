use crate::ast::grammar::{program, ParseError};
use crate::ast::parser::Parser;
use crate::ast::statement::Statement;
use crate::ast::syntax::{statement_views, StatementView};
use crate::common::error::{Error, ErrorView};
use crate::runtime::interpreter::Interpreter;
use crate::runtime::resolver::{resolve_statements, Resolution, Resolver};
use crate::runtime::semantics::{execute_block, extends, follows, Oracle};
use crate::scanner::scanner::{
    error_views, law_scan_ends_with_end_token, scan, token_views, Scanner,
};
use crate::scanner::tokens::Token;
use vstd::prelude::*;

verus! {

/// The number of calls of functions of the program that may be nested, where
/// the caller of [`run`] has no reason to choose another.
pub const DEFAULT_DEPTH: usize = 500;

/// How a run ended.
#[derive(Debug)]
pub enum Finished {
    /// Every statement was executed.
    Completed,
    /// The source text could not be read as tokens.
    ScanFailed(Vec<Error>),
    /// Some declaration could not be parsed.
    ParseFailed(Vec<ParseError>),
    /// A static rule was broken.
    ResolveFailed(Error),
    /// A statement failed when it was executed.
    RuntimeFailed(Error),
}

impl Finished {
    /// The status that a process ends with after such a run: 0 after
    /// success, 65 after an error found before the program runs, 70 after
    /// an error found while it runs.
    pub open spec fn status(self) -> u8 {
        match self {
            Finished::Completed => 0,
            Finished::RuntimeFailed(_) => 70,
            _ => 65,
        }
    }

    /// The status that a process ends with after such a run.
    pub fn exit_code(&self) -> (r: u8)
        ensures
            r == self.status(),
    {
        match self {
            Finished::Completed => 0,
            Finished::RuntimeFailed(_) => 70,
            _ => 65,
        }
    }
}

/// What a run leaves behind: the tokens of the source text, the resolved
/// statements that were executed, and how the run ended.
#[derive(Debug)]
pub struct Run {
    pub tokens: Vec<Token>,
    pub statements: Vec<Statement>,
    pub finished: Finished,
}

/// The state in which every resolution starts: no scope, no function.
pub open spec fn unresolved() -> Resolution {
    Resolution { scopes: Seq::empty(), in_function: false }
}

/// The statements of the program that the tokens spell.
pub open spec fn parsed(tokens: Seq<Token>) -> Seq<StatementView> {
    program(tokens, 0, Seq::empty(), Seq::empty()).statements
}

/// Whether `finished` says truly how the stages before execution ended for
/// the source text `source`, whose tokens are `tokens`: with the errors of
/// the scan where there are any, else with the errors of the parser where
/// there are any, else with the error of the resolver.
pub open spec fn stopped(finished: Finished, source: Seq<char>, tokens: Seq<Token>) -> bool {
    match finished {
        Finished::ScanFailed(errors) => {
            &&& errors@.len() > 0
            &&& error_views(errors@) == scan(source).errors
        },
        Finished::ParseFailed(errors) => {
            &&& scan(source).errors.len() == 0
            &&& errors@.len() > 0
            &&& errors@ == program(tokens, 0, Seq::empty(), Seq::empty()).errors
        },
        Finished::ResolveFailed(error) => {
            &&& scan(source).errors.len() == 0
            &&& program(tokens, 0, Seq::empty(), Seq::empty()).errors.len() == 0
            &&& resolve_statements(unresolved(), parsed(tokens), 0, Seq::empty()).1 == Err::<
                Seq<StatementView>,
                ErrorView,
            >(error@)
        },
        _ => false,
    }
}

/// Whether the source text `source`, whose tokens are `tokens`, passes every
/// stage before execution, and `statements` are its resolved statements.
pub open spec fn ready(source: Seq<char>, tokens: Seq<Token>, statements: Seq<Statement>) -> bool {
    &&& scan(source).errors.len() == 0
    &&& program(tokens, 0, Seq::empty(), Seq::empty()).errors.len() == 0
    &&& resolve_statements(unresolved(), parsed(tokens), 0, Seq::empty()).1 == Ok::<
        Seq<StatementView>,
        ErrorView,
    >(statement_views(statements))
}

/// What the stages before execution leave behind: the tokens of the source
/// text, its resolved statements, and the stage that failed, if one did.
#[derive(Debug)]
pub struct Prepared {
    pub tokens: Vec<Token>,
    pub statements: Vec<Statement>,
    pub failed: Option<Finished>,
}

/// Scans, parses and resolves a source text, stage by stage; a stage that
/// reports an error ends the preparation.
pub fn prepare(source: String) -> (r: Prepared)
    requires
        source@.len() < usize::MAX,
    ensures
        token_views(r.tokens@) == scan(source@).tokens,
        match r.failed {
            Some(finished) => stopped(finished, source@, r.tokens@) && r.statements@.len() == 0,
            None => ready(source@, r.tokens@, r.statements@),
        },
{
    let mut scanner = Scanner::new(source);
    scanner.scan_tokens();
    proof {
        law_scan_ends_with_end_token(source@, 0, 1);
        assert(token_views(scanner.tokens@) =~= scan(source@).tokens);
        assert(error_views(scanner.errors@) =~= scan(source@).errors);
        let views = token_views(scanner.tokens@);
        assert(views[views.len() - 1] == scanner.tokens@[scanner.tokens@.len() - 1]@);
    }
    let Scanner { tokens, errors, .. } = scanner;
    assert(error_views(errors@).len() == errors@.len());
    if errors.len() > 0 {
        return Prepared {
            tokens,
            statements: Vec::new(),
            failed: Some(Finished::ScanFailed(errors)),
        };
    }
    let mut parser = Parser::new(tokens);
    assert(parser.errors@ =~= Seq::<ParseError>::empty());
    let statements = parser.parse();
    let Parser { tokens, errors, .. } = parser;
    if errors.len() > 0 {
        return Prepared {
            tokens,
            statements: Vec::new(),
            failed: Some(Finished::ParseFailed(errors)),
        };
    }
    let mut resolver = Resolver::new();
    match resolver.resolve_statements(&statements) {
        Err(error) => Prepared {
            tokens,
            statements: Vec::new(),
            failed: Some(Finished::ResolveFailed(error)),
        },
        Ok(resolved) => Prepared { tokens, statements: resolved, failed: None },
    }
}

/// Scans, parses, resolves and executes a source text, stage by stage; a
/// stage that reports an error ends the run, and the stages behind it do
/// not take place.
pub fn run(interpreter: &mut Interpreter, source: String, depth: usize) -> (r: Run)
    requires
        old(interpreter).wf(),
        source@.len() < usize::MAX,
    ensures
        final(interpreter).wf(),
        token_views(r.tokens@) == scan(source@).tokens,
        extends(final(interpreter)@.log, old(interpreter)@.log),
        match r.finished {
            Finished::RuntimeFailed(error) => {
                &&& ready(source@, r.tokens@, r.statements@)
                &&& forall|oracle: Oracle| #[trigger]
                    follows(oracle, final(interpreter)@.log) ==> execute_block(
                        old(interpreter)@,
                        r.statements@,
                        0,
                        depth,
                        oracle,
                    ) == (
                        final(interpreter)@,
                        Err::<Option<crate::common::literal::LiteralView>, ErrorView>(error@),
                    )
            },
            Finished::Completed => {
                &&& ready(source@, r.tokens@, r.statements@)
                &&& forall|oracle: Oracle| #[trigger]
                    follows(oracle, final(interpreter)@.log) ==> {
                        let (after, completion) = execute_block(
                            old(interpreter)@,
                            r.statements@,
                            0,
                            depth,
                            oracle,
                        );
                        after == final(interpreter)@ && completion.is_ok()
                    }
            },
            _ => stopped(r.finished, source@, r.tokens@) && final(interpreter)@ == old(
                interpreter,
            )@,
        },
{
    let Prepared { tokens, statements, failed } = prepare(source);
    match failed {
        Some(finished) => Run { tokens, statements, finished },
        None => match interpreter.interpret(&statements, depth) {
            Ok(_) => Run { tokens, statements, finished: Finished::Completed },
            Err(error) => Run { tokens, statements, finished: Finished::RuntimeFailed(error) },
        },
    }
}

} // verus!
