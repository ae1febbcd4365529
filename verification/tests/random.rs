use espanso_core::extension::Extension;
use espanso_core::extension::ExtensionError;
use espanso_core::extension::ExtensionResult;
use espanso_core::extension::RenderContext;
use espanso_core::params::Params;
use espanso_core::params::Value;
use espanso_core::random::RandomExtension;
use espanso_core::render::RenderStep;
use espanso_core::render::render;
use espanso_core::render::run_pipeline;
use espanso_core::text::render_args;

fn choice_params(choices: &[&str]) -> Params {
    let mut params = Params::new();
    let values: Vec<Value> = choices.iter().map(|c| Value::text(c)).collect();
    params.insert(String::from("choices"), Value::Sequence(values));
    params
}

#[test]
fn test_random_basic() {
    let choices = vec!["first", "second", "third"];
    let params = choice_params(&choices);

    let extension = RandomExtension::new();
    let output = extension
        .calculate(&params, &vec![], &RenderContext::new())
        .unwrap();

    assert!(output.is_some());

    let output = output.unwrap();

    assert!(choices
        .into_iter()
        .any(|x| ExtensionResult::Single(x.to_owned()) == output));
}

#[test]
fn test_random_with_args() {
    let choices = vec!["first $0$", "second $0$", "$0$ third"];
    let params = choice_params(&choices);

    let extension = RandomExtension::new();
    let output = extension
        .calculate(&params, &vec!["test".to_owned()], &RenderContext::new())
        .unwrap();

    assert!(output.is_some());

    let output = output.unwrap();

    let rendered_choices = vec!["first test", "second test", "test third"];

    assert!(rendered_choices
        .into_iter()
        .any(|x| ExtensionResult::Single(x.to_owned()) == output));
}

#[test]
fn test_random_missing_choices_contributes_nothing() {
    let params = Params::new();

    let extension = RandomExtension::new();
    let output = extension.calculate(&params, &vec![], &RenderContext::new());

    assert_eq!(output, Ok(None));
}

#[test]
fn test_random_empty_choices_fails() {
    let mut params = Params::new();
    params.insert(String::from("choices"), Value::Sequence(vec![]));

    let extension = RandomExtension::new();
    let output = extension.calculate(&params, &vec![], &RenderContext::new());

    assert_eq!(output, Err(ExtensionError::Internal));
}

#[test]
fn test_random_choices_not_a_sequence_fails() {
    let mut params = Params::new();
    params.insert(String::from("choices"), Value::text("alone"));

    let extension = RandomExtension::new();
    let output = extension.calculate(&params, &vec![], &RenderContext::new());

    assert_eq!(output, Err(ExtensionError::Internal));
}

#[test]
fn test_random_non_text_choice_becomes_empty() {
    let mut params = Params::new();
    params.insert(String::from("choices"), Value::Sequence(vec![Value::Null]));

    let extension = RandomExtension::new();
    let output = extension.calculate(&params, &vec![], &RenderContext::new());

    assert_eq!(
        output,
        Ok(Some(ExtensionResult::Single(String::new())))
    );
}

#[test]
fn test_params_later_insert_shadows_earlier() {
    let mut params = Params::new();
    params.insert(String::from("choices"), Value::text("old"));
    params.insert(String::from("choices"), Value::Sequence(vec![Value::text("new")]));

    let extension = RandomExtension::new();
    let output = extension.calculate(&params, &vec![], &RenderContext::new());

    assert_eq!(output, Ok(Some(ExtensionResult::Single("new".to_owned()))));
}

#[test]
fn test_random_name() {
    let extension = RandomExtension::new();
    assert_eq!(extension.name(), "random");
}

#[test]
fn test_render_args_two_positions() {
    let args = vec!["x".to_owned(), "y".to_owned()];
    assert_eq!(render_args("a $0$ b $1$", &args), "a x b y");
}

#[test]
fn test_render_args_repeated_placeholder() {
    let args = vec!["go".to_owned()];
    assert_eq!(render_args("$0$ $0$!", &args), "go go!");
}

#[test]
fn test_render_args_unmatched_placeholder_stays_literal() {
    let args = vec!["x".to_owned()];
    assert_eq!(render_args("a $0$ b $1$", &args), "a x b $1$");
}

#[test]
fn test_render_args_no_args_leaves_text_alone() {
    let args: Vec<String> = vec![];
    assert_eq!(render_args("plain $0$ text", &args), "plain $0$ text");
}

#[test]
fn test_render_dispatches_by_name() {
    let params = choice_params(&["only"]);
    let args = vec![];
    let context = RenderContext::new();

    let output = render("random", &params, &args, &context);
    assert_eq!(output, Ok(Some(ExtensionResult::Single("only".to_owned()))));

    let output = render("unknown", &params, &args, &context);
    assert_eq!(output, Ok(None));
}

#[test]
fn test_pipeline_accumulates_in_order() {
    let steps = vec![
        RenderStep {
            name: String::from("random"),
            params: choice_params(&["one"]),
        },
        RenderStep {
            name: String::from("random"),
            params: Params::new(),
        },
        RenderStep {
            name: String::from("random"),
            params: choice_params(&["two"]),
        },
    ];

    let context = run_pipeline(&steps, &vec![]).unwrap();

    assert_eq!(
        context.get("random"),
        Some(&ExtensionResult::Single("two".to_owned()))
    );
    assert_eq!(context.get("other"), None);
    assert_eq!(context.entries.len(), 2);
    assert_eq!(context.entries[0].0, "random");
    assert_eq!(
        context.entries[0].1,
        ExtensionResult::Single("one".to_owned())
    );
    assert_eq!(
        context.entries[1].1,
        ExtensionResult::Single("two".to_owned())
    );
}

#[test]
fn test_pipeline_failure_discards_partial_context() {
    let steps = vec![
        RenderStep {
            name: String::from("random"),
            params: choice_params(&["kept"]),
        },
        RenderStep {
            name: String::from("random"),
            params: choice_params(&[]),
        },
    ];

    let result = run_pipeline(&steps, &vec![]);

    assert_eq!(result, Err(ExtensionError::Internal));
}
