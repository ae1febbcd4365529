//! The render engine: evaluates an ordered plan of extensions for one
//! expansion, accumulating each contribution into the render context. A
//! failing extension aborts the whole pass and the partial context is
//! discarded; an extension with nothing to contribute is skipped silently.

use vstd::prelude::*;

verus! {

use crate::extension::Extension;
use crate::extension::ExtensionError;
use crate::extension::ExtensionOut;
use crate::extension::ExtensionResult;
use crate::extension::RenderContext;
use crate::params::Params;
use crate::params::Value;
use crate::random::RandomExtension;
use crate::random::choice_texts;
use crate::random::random_calc_rel;
use crate::text::rendered;
use crate::text::str_eq;

/// One entry of a render plan: which extension to run, with which parameters.
#[derive(Debug, PartialEq)]
pub struct RenderStep {
    pub name: String,
    pub params: Params,
}

/// Whether a step names an extension this engine dispatches to.
pub open spec fn step_known(s: RenderStep) -> bool {
    s.name@ == "random"@
}

/// Whether a step fails its render pass: its `choices` value is present but
/// is not a sequence, or is an empty sequence.
pub open spec fn step_fails(s: RenderStep) -> bool {
    step_known(s) && match s.params.spec_get("choices"@) {
        Some(Value::Sequence(cs)) => cs@.len() == 0,
        Some(_) => true,
        None => false,
    }
}

/// Whether a step contributes a result to the context: its `choices` value
/// is a non-empty sequence.
pub open spec fn step_contributes(s: RenderStep) -> bool {
    step_known(s) && match s.params.spec_get("choices"@) {
        Some(Value::Sequence(cs)) => cs@.len() > 0,
        _ => false,
    }
}

/// The steps of a plan that contribute a result, in plan order.
pub open spec fn contributing(steps: Seq<RenderStep>) -> Seq<RenderStep>
    decreases steps.len(),
{
    if steps.len() == 0 {
        Seq::empty()
    } else {
        contributing(steps.drop_last()) + if step_contributes(steps.last()) {
            seq![steps.last()]
        } else {
            Seq::empty()
        }
    }
}

/// The values a contributing step admits: one of its choices with the
/// positional arguments substituted.
pub open spec fn step_value_rel(s: RenderStep, args: Seq<Seq<char>>, res: ExtensionResult) -> bool {
    match s.params.spec_get("choices"@) {
        Some(Value::Sequence(cs)) => res matches ExtensionResult::Single(out) && exists|i: int|
            0 <= i < cs@.len() && out@ == rendered(choice_texts(cs@)[i], args),
        _ => false,
    }
}

/// Runs one named extension. Only registered names are dispatched; an
/// unregistered name contributes nothing rather than failing the pass.
pub fn render(extension_name: &str, params: &Params, args: &Vec<String>, context: &RenderContext)
    -> (r: ExtensionOut)
    ensures
        extension_name@ == "random"@ ==> random_calc_rel(*params, args.deep_view(), r),
        extension_name@ != "random"@ ==> r matches Ok(None),
{
    if str_eq(extension_name, "random") {
        let extension = RandomExtension::new();
        extension.calculate(params, args, context)
    } else {
        Ok(None)
    }
}

/// Runs a plan in order, invoking each step's extension with the context
/// built so far. The pass fails, with no partial context, exactly when some
/// step fails; otherwise the context holds, in plan order, one entry per
/// contributing step, recorded under the step's name and admissible for it.
pub fn run_pipeline(steps: &Vec<RenderStep>, args: &Vec<String>) -> (r: Result<
    RenderContext,
    ExtensionError,
>)
    ensures
        r is Err <==> exists|i: int| 0 <= i < steps@.len() && step_fails(#[trigger] steps@[i]),
        r matches Err(e) ==> e == ExtensionError::Internal,
        r matches Ok(ctx) ==> {
            &&& ctx.entries@.len() == contributing(steps@).len()
            &&& forall|j: int|
                0 <= j < ctx.entries@.len() ==> (#[trigger] ctx.entries@[j]).0@ == contributing(
                    steps@,
                )[j].name@ && step_value_rel(
                    contributing(steps@)[j],
                    args.deep_view(),
                    ctx.entries@[j].1,
                )
        },
{
    let ghost argv = args.deep_view();
    let mut context = RenderContext::new();
    let mut i: usize = 0;
    proof {
        assert(contributing(steps@.take(0)) =~= Seq::<RenderStep>::empty());
    }
    while i < steps.len()
        invariant
            i <= steps@.len(),
            argv == args.deep_view(),
            forall|k: int| 0 <= k < i ==> !step_fails(#[trigger] steps@[k]),
            context.entries@.len() == contributing(steps@.take(i as int)).len(),
            forall|j: int|
                0 <= j < context.entries@.len() ==> (#[trigger] context.entries@[j]).0@
                    == contributing(steps@.take(i as int))[j].name@ && step_value_rel(
                    contributing(steps@.take(i as int))[j],
                    argv,
                    context.entries@[j].1,
                ),
        decreases steps@.len() - i,
    {
        let ghost taken = steps@.take(i + 1);
        let step = &steps[i];
        let out = render(step.name.as_str(), &step.params, args, &context);
        proof {
            assert(taken.last() == steps@[i as int]);
            assert(taken.drop_last() =~= steps@.take(i as int));
        }
        match out {
            Err(_) => {
                return Err(ExtensionError::Internal);
            },
            Ok(None) => {
                proof {
                    assert(contributing(taken) =~= contributing(steps@.take(i as int)));
                }
            },
            Ok(Some(res)) => {
                let name = step.name.clone();
                context.insert(name, res);
                proof {
                    assert(contributing(taken) =~= contributing(steps@.take(i as int)).push(
                        steps@[i as int],
                    ));
                }
            },
        }
        i += 1;
    }
    proof {
        assert(steps@.take(steps@.len() as int) =~= steps@);
    }
    Ok(context)
}

} // verus!
