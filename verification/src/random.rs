//! The random-choice extension: picks one entry of its `choices` parameter
//! uniformly at random and interpolates the positional arguments into it.

use vstd::prelude::*;

use rand::seq::SliceRandom;

verus! {

use crate::extension::Extension;
use crate::extension::ExtensionError;
use crate::extension::ExtensionOut;
use crate::extension::ExtensionResult;
use crate::extension::RenderContext;
use crate::params::Params;
use crate::params::Value;
use crate::text::render_args;
use crate::text::rendered;
use vstd::string::StringExecFns;

/// The text each choice contributes: its characters if it is text, the empty
/// string for any other kind of element.
pub open spec fn choice_texts(vs: Seq<Value>) -> Seq<Seq<char>> {
    vs.map_values(|v: Value| v.text_of())
}

/// Every outcome one `calculate` call of the random extension admits:
/// no `choices` key contributes nothing; a `choices` value that is not a
/// sequence, or an empty sequence, fails the render pass; otherwise the
/// output is one of the choices with the positional arguments substituted.
pub open spec fn random_calc_rel(params: Params, args: Seq<Seq<char>>, r: ExtensionOut) -> bool {
    match params.spec_get("choices"@) {
        None => r matches Ok(None),
        Some(v) => match v {
            Value::Sequence(cs) => if cs@.len() == 0 {
                r matches Err(ExtensionError::Internal)
            } else {
                r matches Ok(Some(ExtensionResult::Single(out))) && exists|i: int|
                    0 <= i < cs@.len() && out@ == rendered(choice_texts(cs@)[i], args)
            },
            _ => r matches Err(ExtensionError::Internal),
        },
    }
}

/// Relies on rand's `SliceRandom::choose` (with `rand::thread_rng`): the
/// result is `None` exactly when the slice is empty, and otherwise one
/// random element of the slice; its body shows the element is picked by a
/// random in-bounds index.
#[verifier::external_body]
fn choose_one(choices: &Vec<String>) -> (r: Option<String>)
    ensures
        r is Some <==> choices@.len() > 0,
        r matches Some(s) ==> exists|i: int| 0 <= i < choices@.len() && s@ == choices@[i]@,
{
    choices.choose(&mut rand::thread_rng()).cloned()
}

/// Maps each choice to the text it contributes; elements that are not text
/// become the empty string.
fn to_choice_texts(choices: &Vec<Value>) -> (r: Vec<String>)
    ensures
        r@.len() == choices@.len(),
        forall|i: int| 0 <= i < r@.len() ==> r@[i]@ == choices@[i].text_of(),
{
    let mut out: Vec<String> = Vec::new();
    let mut j: usize = 0;
    while j < choices.len()
        invariant
            j <= choices@.len(),
            out@.len() == j,
            forall|i: int| 0 <= i < j ==> out@[i]@ == choices@[i].text_of(),
        decreases choices@.len() - j,
    {
        match choices[j].as_str() {
            Some(s) => out.push(s.clone()),
            None => out.push(String::new()),
        }
        j += 1;
    }
    out
}

/// The random-choice extension.
pub struct RandomExtension {}

impl RandomExtension {
    /// Creates the extension; it keeps no state across calls.
    pub fn new() -> (r: RandomExtension)
        ensures
            r == (RandomExtension {  }),
    {
        RandomExtension {  }
    }
}

impl Extension for RandomExtension {
    open spec fn spec_name(&self) -> Seq<char> {
        "random"@
    }

    open spec fn calc_rel(&self, params: Params, args: Seq<Seq<char>>, r: ExtensionOut) -> bool {
        random_calc_rel(params, args, r)
    }

    fn name(&self) -> (r: String)
        ensures
            r@ == self.spec_name(),
    {
        String::from_str("random")
    }

    fn calculate(&self, params: &Params, args: &Vec<String>, context: &RenderContext) -> (r:
        ExtensionOut)
        ensures
            self.calc_rel(*params, args.deep_view(), r),
    {
        let choices = match params.get("choices") {
            None => {
                return Ok(None);
            },
            Some(v) => v,
        };
        let choices = match choices.as_sequence() {
            None => {
                return Err(ExtensionError::Internal);
            },
            Some(cs) => cs,
        };
        let texts = to_choice_texts(choices);
        match choose_one(&texts) {
            Some(output) => {
                let filled = render_args(output.as_str(), args);
                proof {
                    let i = choose|i: int|
                        0 <= i < texts@.len() && output@ == texts@[i]@;
                    assert(choice_texts(choices@)[i] == choices@[i].text_of());
                    assert(filled@ == rendered(choice_texts(choices@)[i], args.deep_view()));
                }
                Ok(Some(ExtensionResult::Single(filled)))
            },
            None => Err(ExtensionError::Internal),
        }
    }
}

} // verus!
