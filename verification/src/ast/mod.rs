pub mod error;
pub mod grammar;
pub mod parser;
pub mod token_iter;
pub mod ty;
pub mod types;

pub use types::{
    BinaryOperator, Block, BlockItem, Const, Declaration, EnumVariantDef, Expr, ExprKind,
    ImportDecl, MatchArm, NodeId, NodeIdGen, Param, Pattern, PatternKind, Program, Statement,
    StatementKind, StructLiteralField, StructTypeField, TypeExpr, TypeExprKind, UnaryOperator,
};

use crate::ast::error::Error;
use crate::ast::grammar::{decls_shape, import_paths, program_at};
use crate::ast::parser::Parser;
use crate::lexer::types::Token;
use vstd::prelude::*;

verus! {

/// Parses with node ids starting at `node_base`, returning the program and
/// the next free id. The module loader chains these so ids stay unique
/// across the files it merges.
pub fn parse_at(tokens: Vec<Token>, node_base: u32) -> (r: Result<(Program, u32), Error>)
    requires
        Parser::tokens_ok(tokens@, node_base as int),
    ensures
        r matches Ok((p, next)) ==> next >= node_base && p.declarations.len() + p.imports.len()
            > 0,
        match program_at(tokens@) {
            Some((ds, is)) => r matches Ok((p, _)) && decls_shape(p.declarations@) == ds
                && import_paths(p.imports@) == is,
            None => r is Err,
        },
{
    let mut parser = Parser::new_at(tokens, node_base);
    let program = parser.parse()?;
    Ok((program, parser.node_id_count()))
}

} // verus!
