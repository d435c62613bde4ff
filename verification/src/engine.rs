//! The lifecycle of a script engine's persistent context, and what one
//! evaluation hands back to the host.
//!
//! The engine itself is not reached from here. The host passes the engine's
//! work in as functions; this module decides when they run and what their
//! outcome means.

use vstd::prelude::*;
use vstd::string::*;

verus! {

/// Why a request to the engine failed.
#[derive(Clone, Copy, Debug, PartialEq, Eq, Structural)]
pub enum ScriptError {
    /// The engine could not allocate a string for the source text.
    CreateString,
    /// The source text did not compile.
    Compile,
    /// Running the compiled script gave no value.
    Run,
    /// The script's value could not be turned into a string.
    Stringify,
    /// The engine could not instantiate the native `alert` function.
    AlertFunction,
    /// The engine could not allocate a string for the name `alert`.
    AlertName,
}

impl ScriptError {
    /// The text shown to the user for this error.
    pub open spec fn message_text(self) -> Seq<char> {
        match self {
            ScriptError::CreateString => "Failed to create V8 string"@,
            ScriptError::Compile => "Failed to compile script"@,
            ScriptError::Run => "Failed to run script"@,
            ScriptError::Stringify => "Failed to convert result to string"@,
            ScriptError::AlertFunction => "Failed to create alert function"@,
            ScriptError::AlertName => "Failed to create alert name string"@,
        }
    }

    /// Returns the text shown to the user for this error.
    pub fn message(&self) -> (text: String)
        ensures
            text@ == self.message_text(),
    {
        match self {
            ScriptError::CreateString => String::from_str("Failed to create V8 string"),
            ScriptError::Compile => String::from_str("Failed to compile script"),
            ScriptError::Run => String::from_str("Failed to run script"),
            ScriptError::Stringify => String::from_str("Failed to convert result to string"),
            ScriptError::AlertFunction => String::from_str("Failed to create alert function"),
            ScriptError::AlertName => String::from_str("Failed to create alert name string"),
        }
    }
}

/// How far the engine got with one script: the first step that gave nothing,
/// or the text of the script's value.
#[derive(Debug)]
pub enum Evaluation {
    /// No engine string could be made from the source text.
    NoSource,
    /// The source text did not compile.
    NoScript,
    /// The compiled script ran and gave no value.
    NoValue,
    /// The value has no string form.
    NoText,
    /// The value's string form.
    Text(String),
}

impl Evaluation {
    /// What the caller of a script gets for this outcome.
    pub open spec fn outcome(self) -> Result<String, ScriptError> {
        match self {
            Evaluation::NoSource => Err(ScriptError::CreateString),
            Evaluation::NoScript => Err(ScriptError::Compile),
            Evaluation::NoValue => Err(ScriptError::Run),
            Evaluation::NoText => Err(ScriptError::Stringify),
            Evaluation::Text(text) => Ok(text),
        }
    }

    /// Turns the engine's outcome into the caller's result: the text, or the
    /// error of the first step that gave nothing.
    pub fn into_result(self) -> (result: Result<String, ScriptError>)
        ensures
            result == self.outcome(),
    {
        match self {
            Evaluation::NoSource => Err(ScriptError::CreateString),
            Evaluation::NoScript => Err(ScriptError::Compile),
            Evaluation::NoValue => Err(ScriptError::Run),
            Evaluation::NoText => Err(ScriptError::Stringify),
            Evaluation::Text(text) => Ok(text),
        }
    }
}

/// How far the engine got with binding the native `alert` function.
#[derive(Clone, Copy, Debug, PartialEq, Eq, Structural)]
pub enum Installation {
    /// The function template gave no function.
    NoFunction,
    /// No engine string could be made for the property name.
    NoName,
    /// The function was set on the global object.
    Installed,
}

impl Installation {
    /// What the caller of an installation gets for this outcome.
    pub open spec fn outcome(self) -> Result<(), ScriptError> {
        match self {
            Installation::NoFunction => Err(ScriptError::AlertFunction),
            Installation::NoName => Err(ScriptError::AlertName),
            Installation::Installed => Ok(()),
        }
    }

    /// Turns the engine's outcome into the caller's result.
    pub fn into_result(self) -> (result: Result<(), ScriptError>)
        ensures
            result == self.outcome(),
    {
        match self {
            Installation::NoFunction => Err(ScriptError::AlertFunction),
            Installation::NoName => Err(ScriptError::AlertName),
            Installation::Installed => Ok(()),
        }
    }
}

/// Whether `evaluation` is what the four steps of an evaluation lead to: each
/// step ran on what the one before it gave, and the first step that gave
/// nothing ended the evaluation.
pub open spec fn steps_lead_to<S, P, V, F1, F2, F3, F4>(
    make_source: F1,
    compile: F2,
    run: F3,
    stringify: F4,
    evaluation: Evaluation,
) -> bool where
    F1: FnOnce() -> Option<S>,
    F2: FnOnce(S) -> Option<P>,
    F3: FnOnce(P) -> Option<V>,
    F4: FnOnce(V) -> Option<String>,
 {
    match evaluation {
        Evaluation::NoSource => make_source.ensures((), None),
        Evaluation::NoScript => exists|source: S|
            make_source.ensures((), Some(source)) && #[trigger] compile.ensures((source,), None),
        Evaluation::NoValue => exists|source: S, script: P|
            {
                &&& make_source.ensures((), Some(source))
                &&& #[trigger] compile.ensures((source,), Some(script))
                &&& run.ensures((script,), None)
            },
        Evaluation::NoText => exists|source: S, script: P, value: V|
            {
                &&& make_source.ensures((), Some(source))
                &&& #[trigger] compile.ensures((source,), Some(script))
                &&& #[trigger] run.ensures((script,), Some(value))
                &&& stringify.ensures((value,), None)
            },
        Evaluation::Text(text) => exists|source: S, script: P, value: V|
            {
                &&& make_source.ensures((), Some(source))
                &&& #[trigger] compile.ensures((source,), Some(script))
                &&& #[trigger] run.ensures((script,), Some(value))
                &&& stringify.ensures((value,), Some(text))
            },
    }
}

/// Takes one script through the engine: makes the engine's string for the
/// source text, compiles it, runs it, and turns the value into text. Each
/// step is the engine's; a step runs only where the one before it gave
/// something.
pub fn evaluate<S, P, V, F1, F2, F3, F4>(
    make_source: F1,
    compile: F2,
    run: F3,
    stringify: F4,
) -> (evaluation: Evaluation) where
    F1: FnOnce() -> Option<S>,
    F2: FnOnce(S) -> Option<P>,
    F3: FnOnce(P) -> Option<V>,
    F4: FnOnce(V) -> Option<String>,

    requires
        make_source.requires(()),
        forall|source: S| #[trigger] compile.requires((source,)),
        forall|script: P| #[trigger] run.requires((script,)),
        forall|value: V| #[trigger] stringify.requires((value,)),
    ensures
        steps_lead_to(make_source, compile, run, stringify, evaluation),
{
    match make_source() {
        None => Evaluation::NoSource,
        Some(source) => match compile(source) {
            None => Evaluation::NoScript,
            Some(script) => match run(script) {
                None => Evaluation::NoValue,
                Some(value) => match stringify(value) {
                    None => Evaluation::NoText,
                    Some(text) => Evaluation::Text(text),
                },
            },
        },
    }
}

/// Whether `installation` is what the steps of binding `alert` lead to: the
/// function is made first, then its name, and only with both is it set on the
/// global object.
pub open spec fn binding_leads_to<Fun, Name, F1, F2, F3>(
    make_function: F1,
    make_name: F2,
    set: F3,
    installation: Installation,
) -> bool where
    F1: FnOnce() -> Option<Fun>,
    F2: FnOnce() -> Option<Name>,
    F3: FnOnce(Name, Fun) -> (),
 {
    match installation {
        Installation::NoFunction => make_function.ensures((), None),
        Installation::NoName => exists|function: Fun| #[trigger]
            make_function.ensures((), Some(function)) && make_name.ensures((), None),
        Installation::Installed => exists|function: Fun, name: Name|
            {
                &&& make_function.ensures((), Some(function))
                &&& make_name.ensures((), Some(name))
                &&& #[trigger] set.ensures((name, function), ())
            },
    }
}

/// Binds the native `alert` function: makes the function, then the engine's
/// string for its name, then sets the one under the other on the global
/// object. Each step is the engine's.
pub fn install<Fun, Name, F1, F2, F3>(
    make_function: F1,
    make_name: F2,
    set: F3,
) -> (installation: Installation) where
    F1: FnOnce() -> Option<Fun>,
    F2: FnOnce() -> Option<Name>,
    F3: FnOnce(Name, Fun) -> (),

    requires
        make_function.requires(()),
        make_name.requires(()),
        forall|name: Name, function: Fun| #[trigger] set.requires((name, function)),
    ensures
        binding_leads_to(make_function, make_name, set, installation),
{
    match make_function() {
        None => Installation::NoFunction,
        Some(function) => match make_name() {
            None => Installation::NoName,
            Some(name) => {
                set(name, function);
                Installation::Installed
            },
        },
    }
}

/// Whether `after` is the context that a request leaves behind which found
/// `before`: the one it found, or else one that `create` made.
pub open spec fn context_after<C, F: FnOnce() -> C>(
    before: Option<C>,
    after: Option<C>,
    create: F,
) -> bool {
    match before {
        Some(_) => after == before,
        None => after is Some && create.ensures((), after.unwrap()),
    }
}

/// Owner of an engine's persistent context, of handle type `C`.
///
/// The context is made on first use, kept across requests so that scripts see
/// each other's globals, and dropped by `reset`.
pub struct V8Wrapper<C> {
    context: Option<C>,
}

impl<C> V8Wrapper<C> {
    /// The context that requests currently run in, if one has been made.
    pub closed spec fn context(&self) -> Option<C> {
        self.context
    }

    /// A wrapper that has not made a context yet.
    pub fn new() -> (wrapper: Self)
        ensures
            wrapper.context() is None,
    {
        V8Wrapper { context: None }
    }

    /// Whether a context is live.
    pub fn has_context(&self) -> (live: bool)
        ensures
            live == self.context() is Some,
    {
        self.context.is_some()
    }

    /// The live context, if any.
    pub fn live_context(&self) -> (context: Option<&C>)
        ensures
            context is Some == self.context() is Some,
            context is Some ==> *context.unwrap() == self.context().unwrap(),
    {
        self.context.as_ref()
    }

    /// Makes the context with `create` if none is live; keeps the live one
    /// otherwise, without calling `create`.
    pub fn ensure_context<F: FnOnce() -> C>(&mut self, create: F)
        requires
            old(self).context() is None ==> create.requires(()),
        ensures
            final(self).context() is Some,
            context_after(old(self).context(), final(self).context(), create),
    {
        if self.context.is_none() {
            let fresh = create();
            self.context = Some(fresh);
        }
    }

    /// Runs one script in the persistent context, making the context first if
    /// none is live. `evaluate` is the engine's work on the source text in
    /// that context; the result is its text, or the error of the first step
    /// that gave nothing.
    pub fn execute_script<F, G>(
        &mut self,
        source_code: &str,
        create: F,
        evaluate: G,
    ) -> (result: Result<String, ScriptError>) where
        F: FnOnce() -> C,
        G: FnOnce(&C, &str) -> Evaluation,

        requires
            old(self).context() is None ==> create.requires(()),
            forall|context: &C| #[trigger] evaluate.requires((context, source_code)),
        ensures
            final(self).context() is Some,
            context_after(old(self).context(), final(self).context(), create),
            exists|evaluation: Evaluation|
                {
                    &&& #[trigger] evaluate.ensures(
                        (&final(self).context().unwrap(), source_code),
                        evaluation,
                    )
                    &&& result == evaluation.outcome()
                },
    {
        self.ensure_context(create);
        let evaluation = evaluate(self.context.as_ref().unwrap(), source_code);
        evaluation.into_result()
    }

    /// Binds the native `alert` function in the persistent context, making
    /// the context first if none is live. `install` is the engine's work in
    /// that context.
    pub fn inject_alert<F, G>(&mut self, create: F, install: G) -> (result: Result<(), ScriptError>) where
        F: FnOnce() -> C,
        G: FnOnce(&C) -> Installation,

        requires
            old(self).context() is None ==> create.requires(()),
            forall|context: &C| #[trigger] install.requires((context,)),
        ensures
            final(self).context() is Some,
            context_after(old(self).context(), final(self).context(), create),
            exists|installation: Installation|
                {
                    &&& #[trigger] install.ensures(
                        (&final(self).context().unwrap(),),
                        installation,
                    )
                    &&& result == installation.outcome()
                },
    {
        self.ensure_context(create);
        let installation = install(self.context.as_ref().unwrap());
        installation.into_result()
    }

    /// Drops the context, and with it every global that scripts have set.
    pub fn reset(&mut self)
        ensures
            final(self).context() is None,
    {
        self.context = None;
    }
}

/// The prefix of every line that `alert` prints.
pub open spec fn alert_prefix() -> Seq<char> {
    "Alert: "@
}

/// The line that a call of `alert` prints: the prefix, then the text of the
/// first argument, or nothing where that argument has no text.
pub open spec fn alert_line(first: Option<String>) -> Seq<char> {
    match first {
        Some(text) => alert_prefix() + text@,
        None => alert_prefix(),
    }
}

/// The native side of `alert`, called with the number of arguments that the
/// script passed. Only where there is at least one argument is `first` asked
/// for the text of the first; the result is the line to print.
pub fn alert_callback<F: FnOnce() -> Option<String>>(length: i32, first: F) -> (line: String)
    requires
        length > 0 ==> first.requires(()),
    ensures
        length <= 0 ==> line@ == alert_prefix(),
        length > 0 ==> exists|text: Option<String>| #[trigger]
            first.ensures((), text) && line@ == alert_line(text),
{
    let mut line = String::from_str("Alert: ");
    if length > 0 {
        let text = first();
        match &text {
            Some(message) => {
                line.append(message.as_str());
            },
            None => {},
        }
    }
    line
}

} // verus!
