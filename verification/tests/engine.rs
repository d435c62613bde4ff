use script_host::engine::{
    alert_callback, evaluate, install, Evaluation, Installation, ScriptError, V8Wrapper,
};
use std::cell::Cell;

fn text(s: &str) -> Evaluation {
    Evaluation::Text(String::from(s))
}

#[test]
fn new_wrapper_has_no_context() {
    let wrapper: V8Wrapper<u32> = V8Wrapper::new();
    assert!(!wrapper.has_context());
    assert_eq!(wrapper.live_context(), None);
}

#[test]
fn ensure_context_creates_once() {
    let made = Cell::new(0u32);
    let mut wrapper: V8Wrapper<u32> = V8Wrapper::new();
    wrapper.ensure_context(|| {
        made.set(made.get() + 1);
        7
    });
    assert_eq!(wrapper.live_context(), Some(&7));
    wrapper.ensure_context(|| {
        made.set(made.get() + 1);
        8
    });
    assert_eq!(wrapper.live_context(), Some(&7));
    assert_eq!(made.get(), 1);
}

#[test]
fn execute_script_returns_the_text() {
    let mut wrapper: V8Wrapper<u32> = V8Wrapper::new();
    let result = wrapper.execute_script(
        "'Hello' + ' World!'",
        || 1,
        |context, source| {
            assert_eq!(*context, 1);
            assert_eq!(source, "'Hello' + ' World!'");
            text("Hello World!")
        },
    );
    assert_eq!(result, Ok(String::from("Hello World!")));
    assert!(wrapper.has_context());
}

#[test]
fn execute_script_keeps_the_context_between_scripts() {
    let made = Cell::new(0u32);
    let mut wrapper: V8Wrapper<u32> = V8Wrapper::new();
    let first = wrapper.execute_script(
        "variable = 10",
        || {
            made.set(made.get() + 1);
            41
        },
        |_, _| text("10"),
    );
    assert_eq!(first, Ok(String::from("10")));
    let second = wrapper.execute_script(
        "variable",
        || {
            made.set(made.get() + 1);
            42
        },
        |context, _| {
            assert_eq!(*context, 41);
            text("10")
        },
    );
    assert_eq!(second, Ok(String::from("10")));
    assert_eq!(made.get(), 1);
    assert_eq!(wrapper.live_context(), Some(&41));
}

#[test]
fn execute_script_reports_the_first_failing_step() {
    let mut wrapper: V8Wrapper<u32> = V8Wrapper::new();
    assert_eq!(
        wrapper.execute_script("x", || 1, |_, _| Evaluation::NoSource),
        Err(ScriptError::CreateString)
    );
    assert_eq!(
        wrapper.execute_script("x +", || 1, |_, _| Evaluation::NoScript),
        Err(ScriptError::Compile)
    );
    assert_eq!(
        wrapper.execute_script("throw 1", || 1, |_, _| Evaluation::NoValue),
        Err(ScriptError::Run)
    );
    assert_eq!(
        wrapper.execute_script("Symbol()", || 1, |_, _| Evaluation::NoText),
        Err(ScriptError::Stringify)
    );
}

#[test]
fn a_failed_script_still_leaves_a_context() {
    let mut wrapper: V8Wrapper<u32> = V8Wrapper::new();
    let result = wrapper.execute_script("x +", || 5, |_, _| Evaluation::NoScript);
    assert_eq!(result, Err(ScriptError::Compile));
    assert_eq!(wrapper.live_context(), Some(&5));
}

#[test]
fn evaluation_into_result() {
    assert_eq!(text("7").into_result(), Ok(String::from("7")));
    assert_eq!(text("").into_result(), Ok(String::new()));
    assert_eq!(Evaluation::NoSource.into_result(), Err(ScriptError::CreateString));
    assert_eq!(Evaluation::NoScript.into_result(), Err(ScriptError::Compile));
    assert_eq!(Evaluation::NoValue.into_result(), Err(ScriptError::Run));
    assert_eq!(Evaluation::NoText.into_result(), Err(ScriptError::Stringify));
}

#[test]
fn installation_into_result() {
    assert_eq!(Installation::Installed.into_result(), Ok(()));
    assert_eq!(Installation::NoFunction.into_result(), Err(ScriptError::AlertFunction));
    assert_eq!(Installation::NoName.into_result(), Err(ScriptError::AlertName));
}

#[test]
fn inject_alert_creates_the_context_when_needed() {
    let mut wrapper: V8Wrapper<u32> = V8Wrapper::new();
    let result = wrapper.inject_alert(
        || 3,
        |context| {
            assert_eq!(*context, 3);
            Installation::Installed
        },
    );
    assert_eq!(result, Ok(()));
    assert_eq!(wrapper.live_context(), Some(&3));
}

#[test]
fn inject_alert_uses_the_live_context() {
    let mut wrapper: V8Wrapper<u32> = V8Wrapper::new();
    wrapper.ensure_context(|| 11);
    let result = wrapper.inject_alert(
        || 12,
        |context| {
            assert_eq!(*context, 11);
            Installation::Installed
        },
    );
    assert_eq!(result, Ok(()));
    assert_eq!(wrapper.live_context(), Some(&11));
}

#[test]
fn inject_alert_reports_failures() {
    let mut wrapper: V8Wrapper<u32> = V8Wrapper::new();
    assert_eq!(
        wrapper.inject_alert(|| 1, |_| Installation::NoFunction),
        Err(ScriptError::AlertFunction)
    );
    assert_eq!(
        wrapper.inject_alert(|| 1, |_| Installation::NoName),
        Err(ScriptError::AlertName)
    );
}

#[test]
fn reset_drops_the_context() {
    let mut wrapper: V8Wrapper<u32> = V8Wrapper::new();
    wrapper.ensure_context(|| 1);
    assert!(wrapper.has_context());
    wrapper.reset();
    assert!(!wrapper.has_context());
    let result = wrapper.execute_script(
        "variable",
        || 2,
        |context, _| {
            assert_eq!(*context, 2);
            Evaluation::NoValue
        },
    );
    assert_eq!(result, Err(ScriptError::Run));
    assert_eq!(wrapper.live_context(), Some(&2));
}

#[test]
fn reset_without_a_context_is_harmless() {
    let mut wrapper: V8Wrapper<u32> = V8Wrapper::new();
    wrapper.reset();
    assert!(!wrapper.has_context());
}

#[test]
fn error_messages() {
    assert_eq!(ScriptError::CreateString.message(), "Failed to create V8 string");
    assert_eq!(ScriptError::Compile.message(), "Failed to compile script");
    assert_eq!(ScriptError::Run.message(), "Failed to run script");
    assert_eq!(ScriptError::Stringify.message(), "Failed to convert result to string");
    assert_eq!(ScriptError::AlertFunction.message(), "Failed to create alert function");
    assert_eq!(ScriptError::AlertName.message(), "Failed to create alert name string");
}

#[test]
fn alert_with_a_message() {
    let line = alert_callback(1, || Some(String::from("Hello from button")));
    assert_eq!(line, "Alert: Hello from button");
}

#[test]
fn alert_reads_only_the_first_argument() {
    let line = alert_callback(3, || Some(String::from("one")));
    assert_eq!(line, "Alert: one");
}

#[test]
fn alert_without_arguments_does_not_ask_for_one() {
    let asked = Cell::new(false);
    let line = alert_callback(0, || {
        asked.set(true);
        Some(String::from("unused"))
    });
    assert_eq!(line, "Alert: ");
    assert!(!asked.get());
    let negative = alert_callback(-1, || Some(String::from("unused")));
    assert_eq!(negative, "Alert: ");
}

#[test]
fn alert_with_an_argument_that_has_no_text() {
    let line = alert_callback(1, || None);
    assert_eq!(line, "Alert: ");
}

#[test]
fn evaluate_runs_all_four_steps_in_order() {
    let order = Cell::new(0u32);
    let evaluation = evaluate(
        || {
            assert_eq!(order.replace(1), 0);
            Some("1 + 2")
        },
        |source: &str| {
            assert_eq!(order.replace(2), 1);
            Some(source.len())
        },
        |script: usize| {
            assert_eq!(order.replace(3), 2);
            Some(script as u64 - 2)
        },
        |value: u64| {
            assert_eq!(order.replace(4), 3);
            Some(format!("{}", value))
        },
    );
    assert_eq!(order.get(), 4);
    assert_eq!(evaluation.into_result(), Ok(String::from("3")));
}

#[test]
fn evaluate_stops_where_no_source_string_is_made() {
    let ran = Cell::new(0u32);
    let evaluation = evaluate(
        || None::<u8>,
        |_| {
            ran.set(ran.get() + 1);
            Some(0u8)
        },
        |_| {
            ran.set(ran.get() + 1);
            Some(0u8)
        },
        |_| {
            ran.set(ran.get() + 1);
            Some(String::new())
        },
    );
    assert!(matches!(evaluation, Evaluation::NoSource));
    assert_eq!(ran.get(), 0);
}

#[test]
fn evaluate_stops_where_the_source_does_not_compile() {
    let ran = Cell::new(0u32);
    let evaluation = evaluate(
        || Some(1u8),
        |_| None::<u8>,
        |_| {
            ran.set(ran.get() + 1);
            Some(0u8)
        },
        |_| {
            ran.set(ran.get() + 1);
            Some(String::new())
        },
    );
    assert!(matches!(evaluation, Evaluation::NoScript));
    assert_eq!(ran.get(), 0);
}

#[test]
fn evaluate_stops_where_the_script_gives_no_value() {
    let ran = Cell::new(0u32);
    let evaluation = evaluate(
        || Some(1u8),
        |source| Some(source + 1),
        |_| None::<u8>,
        |_| {
            ran.set(ran.get() + 1);
            Some(String::new())
        },
    );
    assert!(matches!(evaluation, Evaluation::NoValue));
    assert_eq!(ran.get(), 0);
}

#[test]
fn evaluate_reports_a_value_without_text() {
    let evaluation = evaluate(|| Some(1u8), |s| Some(s), |p| Some(p), |_| None);
    assert!(matches!(evaluation, Evaluation::NoText));
}

#[test]
fn install_sets_the_function_under_its_name() {
    let set = Cell::new(None);
    let installation = install(
        || Some(9u32),
        || Some("alert"),
        |name, function| set.set(Some((name, function))),
    );
    assert_eq!(installation, Installation::Installed);
    assert_eq!(set.get(), Some(("alert", 9u32)));
}

#[test]
fn install_without_a_function_makes_no_name() {
    let asked = Cell::new(false);
    let set = Cell::new(false);
    let installation = install(
        || None::<u32>,
        || {
            asked.set(true);
            Some("alert")
        },
        |_, _| set.set(true),
    );
    assert_eq!(installation, Installation::NoFunction);
    assert!(!asked.get());
    assert!(!set.get());
}

#[test]
fn install_without_a_name_sets_nothing() {
    let set = Cell::new(false);
    let installation = install(|| Some(9u32), || None::<u8>, |_, _| set.set(true));
    assert_eq!(installation, Installation::NoName);
    assert!(!set.get());
}

#[test]
fn a_script_goes_through_wrapper_and_steps() {
    let mut wrapper: V8Wrapper<u32> = V8Wrapper::new();
    let result = wrapper.execute_script(
        "x +",
        || 1,
        |_, source| {
            evaluate(
                || Some(String::from(source)),
                |code: String| if code.ends_with('+') { None } else { Some(code) },
                |script: String| Some(script),
                |value: String| Some(value),
            )
        },
    );
    assert_eq!(result, Err(ScriptError::Compile));
    assert_eq!(
        result.map_err(|error| error.message()),
        Err(String::from("Failed to compile script"))
    );
}

#[test]
fn both_steps_may_share_one_engine() {
    let engine = std::cell::RefCell::new(Vec::<String>::new());
    let mut wrapper: V8Wrapper<usize> = V8Wrapper::new();
    let result = wrapper.execute_script(
        "variable = 10",
        || {
            engine.borrow_mut().push(String::from("context"));
            0
        },
        |context, source| {
            let mut engine = engine.borrow_mut();
            engine.push(String::from(source));
            Evaluation::Text(format!("{} in {}", engine.len(), engine[*context]))
        },
    );
    assert_eq!(result, Ok(String::from("2 in context")));
    assert_eq!(
        *engine.borrow(),
        vec![String::from("context"), String::from("variable = 10")]
    );
}
