//! The macro-processing stage of the pipeline: its settings, and the
//! expansion of a parsed program with a macro environment.
use vstd::prelude::*;
use crate::ast::{AstNode, nodes_view};
use crate::errors::SutraError;
use crate::expander::{MacroEnv, expand_macros_recursively, traced_spec, steps_view, node_result_matches};
use crate::parser::{wrap_in_do, wrap_in_do_spec};

verus! {

/// How the pipeline processes macros: whether it validates the expanded
/// program, how deep evaluation may recurse, and which test (file and
/// name) errors should be reported against.
#[derive(Debug, Clone)]
pub struct MacroProcessor {
    pub validate: bool,
    pub max_depth: usize,
    pub test_file: Option<String>,
    pub test_name: Option<String>,
}

impl Default for MacroProcessor {
    /// Validating, with a recursion limit of 100, outside any test.
    fn default() -> (r: Self)
        ensures
            r.validate,
            r.max_depth == 100,
            r.test_file is None,
            r.test_name is None,
    {
        MacroProcessor { validate: true, max_depth: 100, test_file: None, test_name: None }
    }
}

impl MacroProcessor {
    /// A processor with the given settings, outside any test.
    pub fn new(validate: bool, max_depth: usize) -> (r: Self)
        ensures
            r.validate == validate,
            r.max_depth == max_depth,
            r.test_file is None,
            r.test_name is None,
    {
        MacroProcessor { validate, max_depth, test_file: None, test_name: None }
    }

    /// The same processor, reporting errors against the test `test_name` of
    /// the file `test_file`.
    pub fn with_test_context(self, test_file: String, test_name: String) -> (r: Self)
        ensures
            r.validate == self.validate,
            r.max_depth == self.max_depth,
            r.test_file == Some(test_file),
            r.test_name == Some(test_name),
    {
        let mut p = self;
        p.test_file = Some(test_file);
        p.test_name = Some(test_name);
        p
    }

    /// Expands a program with the macros of `env` (its top-level forms,
    /// wrapped in `(do ...)` when there are several; definitions are
    /// ordinary forms here), giving back the expansion and the environment
    /// with the steps recorded in its trace.
    pub fn partition_and_process_macros(&self, ast_nodes: Vec<AstNode>, env: MacroEnv)
        -> (r: Result<(AstNode, MacroEnv), SutraError>)
        ensures
            ({
                let t = traced_spec(env.user_macros@, env.core_macros@, wrap_in_do_spec(nodes_view(ast_nodes@)), 0);
                match t.0 {
                    Ok(m) => r matches Ok((n, e)) && n@ == m
                        && e.user_macros@ == env.user_macros@
                        && e.core_macros@ == env.core_macros@
                        && e.source == env.source
                        && steps_view(e.trace@) == steps_view(env.trace@) + t.1,
                    Err(f) => r matches Err(e) && e.fault() == f,
                }
            }),
    {
        let mut env = env;
        let program = wrap_in_do(ast_nodes);
        match expand_macros_recursively(program, &mut env) {
            Ok(expanded) => Ok((expanded, env)),
            Err(e) => Err(e),
        }
    }

    /// Expands a program with the macros of `env`, which keeps the steps in
    /// its trace: its top-level forms, wrapped in `(do ...)` when there are
    /// several.
    pub fn process_with_existing_macros(&self, ast_nodes: Vec<AstNode>, env: &mut MacroEnv)
        -> (r: Result<AstNode, SutraError>)
        ensures
            ({
                let t = traced_spec(old(env).user_macros@, old(env).core_macros@,
                    wrap_in_do_spec(nodes_view(ast_nodes@)), 0);
                &&& node_result_matches(r, t.0)
                &&& steps_view(final(env).trace@) == steps_view(old(env).trace@) + t.1
            }),
            final(env).user_macros@ == old(env).user_macros@,
            final(env).core_macros@ == old(env).core_macros@,
            final(env).source == old(env).source,
    {
        let program = wrap_in_do(ast_nodes);
        expand_macros_recursively(program, env)
    }

    /// Expands one node with the macros of `env`, which keeps the steps in
    /// its trace.
    pub fn expand_with_macros(&self, ast: AstNode, env: &mut MacroEnv) -> (r: Result<AstNode, SutraError>)
        ensures
            node_result_matches(r, traced_spec(old(env).user_macros@, old(env).core_macros@, ast@, 0).0),
            steps_view(final(env).trace@) == steps_view(old(env).trace@)
                + traced_spec(old(env).user_macros@, old(env).core_macros@, ast@, 0).1,
            final(env).user_macros@ == old(env).user_macros@,
            final(env).core_macros@ == old(env).core_macros@,
            final(env).source == old(env).source,
    {
        expand_macros_recursively(ast, env)
    }
}

} // verus!
