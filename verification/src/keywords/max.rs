use vstd::prelude::*;

use crate::json::{json_get, Json, JsonNumber, JsonValue};
use crate::keywords::{CompilationError, CompilationResult, Scope, Validator, WalkContext};
use crate::validators;

verus! {

/// The keyword that bounds a number from above.
pub const KEYWORD: &'static str = "max";

/// Compiles the `max` keyword.
#[derive(Debug)]
pub struct Max;

impl Max {
    /// The validator that `schema` asks for with `max`: none where the schema has no
    /// such member, a bound where the member is a number, and an error otherwise.
    pub fn compile(&self, schema: &JsonValue, ctx: &WalkContext, _scope: &Scope) -> (res:
        CompilationResult)
        ensures
            match json_get(schema@, KEYWORD@) {
                None => res == Ok::<Option<Validator>, CompilationError>(None),
                Some(Json::Number(n)) => res == Ok::<Option<Validator>, CompilationError>(
                    Some(Validator::Max(validators::max::Max { number: n })),
                ),
                Some(_) => res matches Err(e) && e.keyword@ == KEYWORD@ && e.message@
                    == "expected number"@,
            },
            !(schema is Object) ==> res == Ok::<Option<Validator>, CompilationError>(None),
            schema matches JsonValue::Object(m) ==> (m@.dom().contains(KEYWORD@) && m@[KEYWORD@] is Number
                ==> res == Ok::<Option<Validator>, CompilationError>(
                Some(Validator::Max(validators::max::Max { number: m@[KEYWORD@]->Number_0 })),
            )),
    {
        let value = match schema.get(KEYWORD) {
            Some(x) => x,
            None => return Ok(None),
        };

        if let JsonValue::Number(number) = value {
            return Ok(Some(Validator::Max(validators::max::Max { number: *number })));
        }

        ctx.compilation_error(KEYWORD, "expected number")
    }
}

} // verus!

verus! {

/// Whatever number a schema object holds under `max`, whole, negative or
/// fractional, and whatever else it holds, the lookup that `compile` makes finds
/// exactly that number.
pub proof fn lemma_max_finds_any_number(m: Map<Seq<char>, Json>, n: JsonNumber)
    ensures
        json_get(Json::Object(m.insert(KEYWORD@, Json::Number(n))), KEYWORD@) == Some(
            Json::Number(n),
        ),
{
}

} // verus!
