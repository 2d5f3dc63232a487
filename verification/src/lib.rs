//! Derives conversions between record types from annotations.
//!
//! A target record names the types it can be built from and, field by field,
//! how each field is filled: under which name the value is found in the
//! source, through which function it passes, or which expression stands in
//! for it when the source has nothing to give.
//!
//! ```text
//! #[from(A, B)]
//! struct C {
//!     the_same: String,
//!     #[from(overrides = (A = (rename = "first_name"), B = (map = "lowercase")))]
//!     name: String,
//!     #[from(skip, default = "String::new()")]
//!     note: String,
//! }
//! ```
//!
//! The library takes the declaration as plain values ([`decl`]) and hands the
//! text of its annotations to the lexer of `proc_macro2`, and the tokens to
//! the parsers of `syn` and `syn_unnamed_struct` ([`reader`], behind
//! [`guard`]), which give trees ([`tree`]). Which tokens the lexer finds in
//! a text depends on the process, and no contract says it; what the parsers
//! find in tokens has a name, and everything that is done with tokens has an
//! exact contract. From what was read, the library resolves the directives
//! of each field ([`directive`]), plans how each field is filled from each
//! source type ([`plan`]) and writes one routine for each source type
//! ([`emit`]); where a routine uses a text of an annotation, the parsers are
//! asked whether it is what it has to be. [`derive`] does all of this in one
//! call, [`decl::derive_read`] what comes after the reading. Nothing is
//! compiled or run here: a routine says what the conversion does, as a value
//! and as code.
//!
//! Everything but the lexer and the parsers is proved against the contracts
//! in this crate, and [`laws`] holds what follows for every declaration.

pub mod decl;
pub mod directive;
pub mod emit;
pub mod error;
pub mod guard;
pub mod laws;
pub mod plan;
pub mod reader;
pub mod tree;

use crate::decl::{
    decl_fits, derive_read, marked, read_decl, resolved, ReadDeclModel, Shape, TargetDecl,
};
use crate::emit::{emit, routines_fit, Routine, RoutineModel, Verdicts};
use crate::error::{outcome, DeriveError, Failure};
use crate::laws::{
    holds_subject, law_derived_routines_set_every_field, law_failures_of_a_derivation,
};
use vstd::prelude::*;

verus! {

/// Whether a result is what a declaration as read comes to, for answers of
/// the parsers that fit the texts in use: the failure of resolving it, or
/// else what its routines come to.
pub open spec fn derived(
    result: Result<Seq<RoutineModel>, Failure>,
    read: ReadDeclModel,
    verdicts: Seq<Seq<Verdicts>>,
) -> bool {
    match resolved(read) {
        Err(failure) => result == Err::<Seq<RoutineModel>, Failure>(failure),
        Ok((types, fields)) => routines_fit(result, read.name, fields, types, verdicts),
    }
}

/// Derives, for a declared type, the routines that build it from each of the
/// source types that its annotations name.
///
/// The annotations of this library's name are read first. Then the source
/// types are gathered, the declaration has to be a struct, its fields are
/// resolved in their order, each of which has to have a name, and a routine
/// is written for each source type, which asks the parsers about the texts
/// in use. The result is what the declaration comes to for something that
/// the lexer made of each text that was handed to it: of the annotations,
/// and of the texts in use. Everything after the lexer is fixed.
/// Routines that were written build the declared struct and set each of its
/// fields; a malformed list of types is one that an annotation of the target
/// holds.
pub fn derive(decl: &TargetDecl) -> (r: Result<Vec<Routine>, DeriveError>)
    ensures
        exists|read: ReadDeclModel, verdicts: Seq<Seq<Verdicts>>|
            decl_fits(read, decl.deep_view()) && #[trigger] derived(outcome(r), read, verdicts),
        r matches Ok(routines) ==> decl.shape == Shape::Struct && forall|i: int|
            0 <= i < routines.len() ==> (#[trigger] routines.deep_view()[i]).target == decl.name@
                && routines.deep_view()[i].assignments.len() == decl.fields.len(),
        r matches Err(DeriveError::MalformedTypeAnnotation(text)) ==> exists|i: int|
            0 <= i < marked(decl.deep_view().annotations).len() && holds_subject(
                #[trigger] marked(decl.deep_view().annotations)[i],
                text@,
            ),
{
    let read = read_decl(decl);
    match derive_read(&read) {
        Err(e) => {
            proof {
                assert(derived(
                    Err::<Seq<RoutineModel>, Failure>(e.deep_view()),
                    read.deep_view(),
                    Seq::empty(),
                ));
                law_failures_of_a_derivation(
                    decl.deep_view(),
                    read.deep_view(),
                    Seq::empty(),
                    e.deep_view(),
                );
            }
            Err(e)
        },
        Ok((types, fields)) => {
            let r = emit(read.name.as_str(), &fields, &types);
            proof {
                let verdicts = choose|verdicts: Seq<Seq<Verdicts>>|
                    routines_fit(
                        outcome(r),
                        read.name@,
                        fields.deep_view(),
                        types.deep_view(),
                        verdicts,
                    );
                assert(derived(outcome(r), read.deep_view(), verdicts));
                if r is Ok {
                    law_derived_routines_set_every_field(
                        decl.deep_view(),
                        read.deep_view(),
                        verdicts,
                        outcome(r)->Ok_0,
                    );
                } else {
                    law_failures_of_a_derivation(
                        decl.deep_view(),
                        read.deep_view(),
                        verdicts,
                        outcome(r)->Err_0,
                    );
                }
            }
            r
        },
    }
}

} // verus!
