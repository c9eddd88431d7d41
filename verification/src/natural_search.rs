//! Runs a search in natural language through FunctionGemma.

use vstd::prelude::*;
use vstd::string::*;

use crate::prompt::{build_function_gemma_prompt, prompt_for, FunctionGemmaPromptPayload};
use crate::text::{
    contains, ends_with, lemma_ends_with, matches_at, same_text, signed_decimal, signed_text,
    to_chars, trim, trim_text,
};
use crate::tool_call::{
    is_tool_call, law_output_is_the_expected_call, normalize_tool_call_output, output_call,
    texts_view, END_FUNCTION_CALL_TOKEN,
};

verus! {

pub const START_FUNCTION_RESPONSE_TOKEN: &'static str = "<start_function_response>";

/// The context size that is tried first.
pub const DEFAULT_CONTEXT_SIZE: i32 = 16_384;

/// The context sizes that are tried next.
pub const FALLBACK_CONTEXT_SIZES: [i32; 2] = [8_192, 4_096];

pub const DEFAULT_MAX_TOKENS: i32 = 128;

pub const DEFAULT_SEED: i64 = 0;

pub const DEFAULT_N_BATCH: i32 = 256;

/// The most threads that a context uses, and the number where the machine does
/// not tell how many it has.
pub const MAX_THREADS: usize = 4;

/// A search to run.
#[derive(Clone, Debug)]
pub struct RunFunctionGemmaNaturalSearchRequest {
    pub prompt_payload_json: String,
    pub model_path: String,
}

/// What a search comes to.
#[derive(Clone, Debug)]
pub struct RunFunctionGemmaNaturalSearchResult {
    pub raw_output: String,
    pub normalized_tool_call_json: String,
}

/// `r` is the error with the given text.
pub open spec fn fails_with<T>(r: Result<T, String>, text: Seq<char>) -> bool {
    r matches Err(message) && message@ == text
}

// ---------------------------------------------------------------------------
// The runtime
// ---------------------------------------------------------------------------

/// A loaded model and a context to run it in.
pub struct FunctionGemmaRuntime<M, C> {
    pub model_path: String,
    pub context_size: i32,
    pub model: M,
    pub context: C,
}

/// How a context is made.
#[derive(Clone, Copy, Debug, PartialEq, Eq, Structural)]
pub struct ContextPlan {
    pub context_size: i32,
    pub n_threads: i32,
    pub n_batch: i32,
}

/// The context sizes in the order in which they are tried.
pub open spec fn context_sizes() -> Seq<i32> {
    seq![16_384i32, 8_192i32, 4_096i32]
}

/// The context sizes in the order in which they are tried.
pub fn candidate_context_sizes() -> (sizes: Vec<i32>)
    ensures
        sizes@ == context_sizes(),
{
    let mut sizes: Vec<i32> = Vec::new();
    sizes.push(DEFAULT_CONTEXT_SIZE);
    sizes.push(FALLBACK_CONTEXT_SIZES[0]);
    sizes.push(FALLBACK_CONTEXT_SIZES[1]);
    assert(sizes@ =~= context_sizes());
    sizes
}

/// The threads that a context uses on a machine with so many.
pub open spec fn thread_count(available: Option<usize>) -> int {
    match available {
        Some(count) => if count < 1 {
            1
        } else if count > MAX_THREADS {
            MAX_THREADS as int
        } else {
            count as int
        },
        None => MAX_THREADS as int,
    }
}

/// The threads that a context uses. `available` is how many the machine has, if
/// it tells.
pub fn default_thread_count(available: Option<usize>) -> (count: i32)
    ensures
        count == thread_count(available),
{
    match available {
        Some(count) => {
            if count < 1 {
                1
            } else if count > MAX_THREADS {
                MAX_THREADS as i32
            } else {
                count as i32
            }
        },
        None => MAX_THREADS as i32,
    }
}

/// How the context of the given size is made.
pub open spec fn context_plan(size: i32, n_threads: i32) -> ContextPlan {
    ContextPlan { context_size: size, n_threads, n_batch: DEFAULT_N_BATCH }
}

/// The first `n` context sizes.
pub open spec fn sizes_text(n: nat) -> Seq<char>
    decreases n,
{
    if n == 0 || n > context_sizes().len() {
        Seq::empty()
    } else {
        let last = signed_decimal(context_sizes()[n - 1] as int);
        if n == 1 {
            last
        } else {
            sizes_text((n - 1) as nat) + ", "@ + last
        }
    }
}

/// Why the first `n` contexts could not be made.
pub open spec fn attempts_text<C>(attempts: Seq<Result<C, String>>, n: nat) -> Seq<char>
    decreases n,
{
    if n == 0 || n > attempts.len() || n > context_sizes().len() {
        Seq::empty()
    } else {
        let last = signed_decimal(context_sizes()[n - 1] as int) + ": "@ + attempts[n
            - 1]->Err_0@;
        if n == 1 {
            last
        } else {
            attempts_text(attempts, (n - 1) as nat) + " | "@ + last
        }
    }
}

pub open spec fn no_context_text<C>(attempts: Seq<Result<C, String>>) -> Seq<char> {
    "Failed to create FunctionGemma context. Attempted sizes "@ + sizes_text(3) + ". Errors: "@
        + attempts_text(attempts, 3)
}

/// `attempts` are attempts to make contexts of one size behind the other: all
/// but the last failed, and the last succeeded or was that with the last size.
pub open spec fn may_attempt<M, C, F: Fn(&M, ContextPlan) -> Result<C, String>>(
    create_context: F,
    model: &M,
    n_threads: i32,
    attempts: Seq<Result<C, String>>,
) -> bool {
    &&& 0 < attempts.len() <= context_sizes().len()
    &&& forall|i: int|
        0 <= i < attempts.len() ==> create_context.ensures(
            (model, context_plan(context_sizes()[i], n_threads)),
            #[trigger] attempts[i],
        )
    &&& forall|i: int| 0 <= i < attempts.len() - 1 ==> (#[trigger] attempts[i]) is Err
    &&& attempts.last() is Err ==> attempts.len() == context_sizes().len()
}

fn write_sizes(sizes: &Vec<i32>) -> (text: String)
    requires
        sizes@ == context_sizes(),
    ensures
        text@ == sizes_text(3),
{
    let mut text = String::new();
    let mut i: usize = 0;
    assert(text@ =~= Seq::<char>::empty());
    while i < sizes.len()
        invariant
            sizes@ == context_sizes(),
            i <= sizes@.len(),
            text@ == sizes_text(i as nat),
        decreases sizes@.len() - i,
    {
        let size = signed_text(sizes[i]);
        if i == 0 {
            text = size;
        } else {
            text.append(", ");
            text.append(size.as_str());
        }
        i = i + 1;
    }
    text
}

proof fn lemma_attempts_text_depends_on_attempts_so_far<C>(
    attempts: Seq<Result<C, String>>,
    next: Result<C, String>,
    n: nat,
)
    requires
        n <= attempts.len(),
    ensures
        attempts_text(attempts.push(next), n) == attempts_text(attempts, n),
    decreases n,
{
    if n > 0 {
        lemma_attempts_text_depends_on_attempts_so_far(attempts, next, (n - 1) as nat);
    }
}

/// Makes a context of the first size with which that succeeds.
pub fn create_first_context<M, C, F: Fn(&M, ContextPlan) -> Result<C, String>>(
    create_context: &F,
    model: &M,
    n_threads: i32,
) -> (r: Result<(C, i32), String>)
    requires
        forall|plan: ContextPlan| create_context.requires((model, plan)),
    ensures
        exists|attempts: Seq<Result<C, String>>|
            {
                &&& #[trigger] may_attempt(*create_context, model, n_threads, attempts)
                &&& match attempts.last() {
                    Ok(context) => r == Ok::<(C, i32), String>(
                        (context, context_sizes()[attempts.len() - 1]),
                    ),
                    Err(_) => fails_with(r, no_context_text(attempts)),
                }
            },
{
    let sizes = candidate_context_sizes();
    let mut errors = String::new();
    let ghost mut attempts: Seq<Result<C, String>> = Seq::empty();
    let mut i: usize = 0;
    assert(errors@ =~= Seq::<char>::empty());
    while i < sizes.len()
        invariant
            sizes@ == context_sizes(),
            i <= sizes@.len(),
            attempts.len() == i,
            forall|plan: ContextPlan| create_context.requires((model, plan)),
            forall|j: int|
                0 <= j < i ==> create_context.ensures(
                    (model, context_plan(context_sizes()[j], n_threads)),
                    #[trigger] attempts[j],
                ),
            forall|j: int| 0 <= j < i ==> (#[trigger] attempts[j]) is Err,
            errors@ == attempts_text(attempts, i as nat),
        decreases sizes@.len() - i,
    {
        let size: i32 = sizes[i];
        let plan = ContextPlan { context_size: size, n_threads, n_batch: DEFAULT_N_BATCH };
        let attempt = create_context(model, plan);
        proof {
            lemma_attempts_text_depends_on_attempts_so_far(attempts, attempt, i as nat);
            attempts = attempts.push(attempt);
        }
        match attempt {
            Ok(context) => {
                assert(may_attempt(*create_context, model, n_threads, attempts));
                return Ok((context, size));
            },
            Err(text) => {
                let mut error = signed_text(size);
                error.append(": ");
                error.append(text.as_str());
                if i == 0 {
                    errors = error;
                } else {
                    errors.append(" | ");
                    errors.append(error.as_str());
                }
            },
        }
        i = i + 1;
    }
    assert(may_attempt(*create_context, model, n_threads, attempts));
    let mut message = "Failed to create FunctionGemma context. Attempted sizes ".to_owned();
    message.append(write_sizes(&sizes).as_str());
    message.append(". Errors: ");
    message.append(errors.as_str());
    Err(message)
}

/// The runtime holds the given model.
pub open spec fn holds_model<M, C>(
    state: Option<FunctionGemmaRuntime<M, C>>,
    model_path: Seq<char>,
) -> bool {
    state matches Some(runtime) && runtime.model_path@ == model_path
}

pub open spec fn poisoned_text() -> Seq<char> {
    "FunctionGemma runtime mutex is poisoned"@
}

/// `after` and `r` may be what comes of loading a model in place of what
/// `before` holds.
pub open spec fn may_load<
    M,
    C,
    L: FnOnce(&str) -> Result<M, String>,
    F: Fn(&M, ContextPlan) -> Result<C, String>,
>(
    before: Option<FunctionGemmaRuntime<M, C>>,
    after: Option<FunctionGemmaRuntime<M, C>>,
    model_path: &str,
    n_threads: i32,
    load_model: L,
    create_context: F,
    r: Result<(), String>,
) -> bool {
    exists|loaded: Result<M, String>| #[trigger]
        load_model.ensures((model_path,), loaded) && match loaded {
            Err(text) => {
                &&& fails_with(r, "Failed to load FunctionGemma model: "@ + text@)
                &&& after == before
            },
            Ok(model) => exists|attempts: Seq<Result<C, String>>|
                {
                    &&& #[trigger] may_attempt(create_context, &model, n_threads, attempts)
                    &&& match attempts.last() {
                        Ok(context) => {
                            &&& r is Ok
                            &&& after is Some
                            &&& after->Some_0.model_path@ == model_path@
                            &&& after->Some_0.context_size == context_sizes()[attempts.len() - 1]
                            &&& after->Some_0.model == model
                            &&& after->Some_0.context == context
                        },
                        Err(_) => {
                            &&& fails_with(r, no_context_text(attempts))
                            &&& after == before
                        },
                    }
                },
        }
}

/// Makes the runtime hold a model: it is loaded unless it is held already.
///
/// `backend` is what comes of starting the inference backend, and `poisoned`
/// tells whether a thread panicked while it held the runtime.
pub fn ensure_function_gemma_runtime<
    M,
    C,
    L: FnOnce(&str) -> Result<M, String>,
    F: Fn(&M, ContextPlan) -> Result<C, String>,
>(
    backend: Result<(), String>,
    state: &mut Option<FunctionGemmaRuntime<M, C>>,
    poisoned: bool,
    model_path: &str,
    n_threads: i32,
    load_model: L,
    create_context: F,
) -> (r: Result<(), String>)
    requires
        load_model.requires((model_path,)),
        forall|model: &M, plan: ContextPlan| create_context.requires((model, plan)),
    ensures
        backend matches Err(text) ==> {
            &&& fails_with(r, "Failed to initialize inference backend: "@ + text@)
            &&& *final(state) == *old(state)
        },
        backend is Ok && poisoned ==> {
            &&& fails_with(r, poisoned_text())
            &&& *final(state) == *old(state)
        },
        backend is Ok && !poisoned && holds_model(*old(state), model_path@) ==> r is Ok
            && *final(state) == *old(state),
        backend is Ok && !poisoned && !holds_model(*old(state), model_path@) ==> may_load(
            *old(state),
            *final(state),
            model_path,
            n_threads,
            load_model,
            create_context,
            r,
        ),
        r is Ok ==> holds_model(*final(state), model_path@),
{
    match backend {
        Err(text) => {
            let mut message = "Failed to initialize inference backend: ".to_owned();
            message.append(text.as_str());
            return Err(message);
        },
        Ok(()) => {},
    }
    if poisoned {
        return Err("FunctionGemma runtime mutex is poisoned".to_owned());
    }
    let held = match &*state {
        Some(runtime) => same_text(runtime.model_path.as_str(), model_path),
        None => false,
    };
    if held {
        return Ok(());
    }
    let loaded = load_model(model_path);
    let ghost given = loaded;
    assert(load_model.ensures((model_path,), given));
    let model = match loaded {
        Ok(model) => model,
        Err(text) => {
            let mut message = "Failed to load FunctionGemma model: ".to_owned();
            message.append(text.as_str());
            return Err(message);
        },
    };
    match create_first_context(&create_context, &model, n_threads) {
        Err(text) => Err(text),
        Ok((context, context_size)) => {
            *state = Some(
                FunctionGemmaRuntime {
                    model_path: model_path.to_owned(),
                    context_size,
                    model,
                    context,
                },
            );
            Ok(())
        },
    }
}

/// Lets go of the model and its context. `poisoned` tells whether a thread
/// panicked while it held the runtime.
pub fn release_function_gemma_runtime<M, C>(
    state: &mut Option<FunctionGemmaRuntime<M, C>>,
    poisoned: bool,
) -> (r: Result<(), String>)
    ensures
        poisoned ==> {
            &&& fails_with(r, poisoned_text())
            &&& *final(state) == *old(state)
        },
        !poisoned ==> r is Ok && *final(state) is None,
{
    if poisoned {
        return Err("FunctionGemma runtime mutex is poisoned".to_owned());
    }
    *state = None;
    Ok(())
}

// ---------------------------------------------------------------------------
// The search
// ---------------------------------------------------------------------------

/// What is generated from. The temperature and the penalties are neutral.
#[derive(Debug)]
pub struct GenerationPlan {
    pub prompt: String,
    pub max_tokens: i32,
    pub seed: i64,
    pub stop_sequences: Vec<String>,
}

/// Where the generation stops.
pub open spec fn stop_texts() -> Seq<Seq<char>> {
    seq![
        END_FUNCTION_CALL_TOKEN@,
        "<end_of_turn>"@,
        "<start_of_turn>"@,
        START_FUNCTION_RESPONSE_TOKEN@,
        "<eos>"@,
    ]
}

/// The plan for a prompt.
pub open spec fn plans_prompt(plan: GenerationPlan, prompt: Seq<char>) -> bool {
    &&& plan.prompt@ == prompt
    &&& plan.max_tokens == DEFAULT_MAX_TOKENS
    &&& plan.seed == DEFAULT_SEED
    &&& texts_view(plan.stop_sequences@) == stop_texts()
}

/// The plan for a prompt.
pub fn plan_generation(prompt: String) -> (plan: GenerationPlan)
    ensures
        plans_prompt(plan, prompt@),
{
    let mut stop_sequences: Vec<String> = Vec::new();
    stop_sequences.push(END_FUNCTION_CALL_TOKEN.to_owned());
    stop_sequences.push("<end_of_turn>".to_owned());
    stop_sequences.push("<start_of_turn>".to_owned());
    stop_sequences.push(START_FUNCTION_RESPONSE_TOKEN.to_owned());
    stop_sequences.push("<eos>".to_owned());
    assert(texts_view(stop_sequences@) =~= stop_texts());
    GenerationPlan {
        prompt,
        max_tokens: DEFAULT_MAX_TOKENS,
        seed: DEFAULT_SEED,
        stop_sequences,
    }
}

/// What the model reports while it generates.
#[derive(Debug)]
pub enum GenerateEvent {
    Text(String),
    Error(String),
    Done,
}

/// What was generated.
#[derive(Debug)]
pub struct Generation {
    pub text: String,
    pub stream_error: Option<String>,
}

/// The text of all events together.
pub open spec fn events_text(events: Seq<GenerateEvent>) -> Seq<char>
    decreases events.len(),
{
    if events.len() == 0 {
        Seq::empty()
    } else {
        match events.last() {
            GenerateEvent::Text(text) => events_text(events.drop_last()) + text@,
            _ => events_text(events.drop_last()),
        }
    }
}

/// The last error among the events.
pub open spec fn events_error(events: Seq<GenerateEvent>) -> Option<Seq<char>>
    decreases events.len(),
{
    if events.len() == 0 {
        None
    } else {
        match events.last() {
            GenerateEvent::Error(text) => Some(text@),
            _ => events_error(events.drop_last()),
        }
    }
}

impl Generation {
    /// What was generated is what the events report.
    pub open spec fn gathers(self, events: Seq<GenerateEvent>) -> bool {
        &&& self.text@ == events_text(events)
        &&& match self.stream_error {
            Some(text) => events_error(events) == Some(text@),
            None => events_error(events) is None,
        }
    }

    /// Nothing yet.
    pub fn new() -> (generation: Generation)
        ensures
            generation.gathers(Seq::empty()),
    {
        let text = String::new();
        assert(text@ =~= Seq::<char>::empty());
        Generation { text, stream_error: None }
    }

    /// Takes in an event.
    pub fn accept(&mut self, event: GenerateEvent)
        ensures
            forall|events: Seq<GenerateEvent>|
                old(self).gathers(events) ==> #[trigger] final(self).gathers(events.push(event)),
            event matches GenerateEvent::Text(piece) ==> {
                &&& final(self).text@ == old(self).text@ + piece@
                &&& final(self).stream_error == old(self).stream_error
            },
            event matches GenerateEvent::Error(text) ==> {
                &&& final(self).text@ == old(self).text@
                &&& final(self).stream_error == Some(text)
            },
            event is Done ==> *final(self) == *old(self),
    {
        let ghost before = *self;
        let ghost given = event;
        match event {
            GenerateEvent::Text(text) => {
                self.text.append(text.as_str());
            },
            GenerateEvent::Error(text) => {
                self.stream_error = Some(text);
            },
            GenerateEvent::Done => {},
        }
        assert forall|events: Seq<GenerateEvent>| before.gathers(events) implies #[trigger]
            self.gathers(events.push(given)) by {
            assert(events.push(given).drop_last() == events);
            assert(events.push(given).last() == given);
        }
    }
}

/// `r` is what comes of what was generated. `outcome` tells whether the
/// generation succeeded.
pub open spec fn generation_settles(
    outcome: Result<(), String>,
    generation: Generation,
    r: Result<RunFunctionGemmaNaturalSearchResult, String>,
) -> bool {
    match (outcome, generation.stream_error) {
        (Err(text), _) => fails_with(r, "FunctionGemma generation failed: "@ + text@),
        (_, Some(text)) => fails_with(r, "FunctionGemma generation stream error: "@ + text@),
        (Ok(()), None) => match output_call(generation.text@) {
            Err(text) => fails_with(r, text),
            Ok(call) => r matches Ok(result) && result.raw_output@ == generation.text@
                && result.normalized_tool_call_json@ == call,
        },
    }
}

/// What comes of what was generated.
pub fn settle_generation(outcome: Result<(), String>, generation: Generation) -> (r: Result<
    RunFunctionGemmaNaturalSearchResult,
    String,
>)
    ensures
        generation_settles(outcome, generation, r),
{
    match outcome {
        Err(text) => {
            let mut message = "FunctionGemma generation failed: ".to_owned();
            message.append(text.as_str());
            return Err(message);
        },
        Ok(()) => {},
    }
    match generation.stream_error {
        Some(text) => {
            let mut message = "FunctionGemma generation stream error: ".to_owned();
            message.append(text.as_str());
            return Err(message);
        },
        None => {},
    }
    match normalize_tool_call_output(generation.text.as_str()) {
        Err(text) => Err(text),
        Ok(call) => Ok(
            RunFunctionGemmaNaturalSearchResult {
                raw_output: generation.text,
                normalized_tool_call_json: call,
            },
        ),
    }
}

/// `r` may be what comes of a prompt.
pub open spec fn may_answer<
    C,
    E: FnOnce(&String) -> Result<C, String>,
    G: FnOnce(C, GenerationPlan) -> (Result<(), String>, Generation),
>(
    prompt: Seq<char>,
    model_path: &String,
    ensure_runtime: E,
    generate: G,
    r: Result<RunFunctionGemmaNaturalSearchResult, String>,
) -> bool {
    exists|runtime: Result<C, String>| #[trigger]
        ensure_runtime.ensures((model_path,), runtime) && match runtime {
            Err(text) => fails_with(r, text@),
            Ok(context) => exists|
                plan: GenerationPlan,
                outcome: Result<(), String>,
                generation: Generation,
            |
                {
                    &&& #[trigger] plans_prompt(plan, prompt)
                    &&& generate.ensures((context, plan), (outcome, generation))
                    &&& #[trigger] generation_settles(outcome, generation, r)
                },
        }
}

/// Runs a search: a prompt is made of the payload, the model generates from it,
/// and what it writes is turned into the call of the search tool.
///
/// `parse_payload` reads the payload, `ensure_runtime` makes a context that
/// holds the model, and `generate` generates in it.
pub fn run_function_gemma_natural_search<
    C,
    P: FnOnce(&String) -> Result<FunctionGemmaPromptPayload, String>,
    E: FnOnce(&String) -> Result<C, String>,
    G: FnOnce(C, GenerationPlan) -> (Result<(), String>, Generation),
>(
    req: &RunFunctionGemmaNaturalSearchRequest,
    parse_payload: P,
    ensure_runtime: E,
    generate: G,
) -> (r: Result<RunFunctionGemmaNaturalSearchResult, String>)
    requires
        parse_payload.requires((&req.prompt_payload_json,)),
        ensure_runtime.requires((&req.model_path,)),
        forall|context: C, plan: GenerationPlan| generate.requires((context, plan)),
    ensures
        trim(req.model_path@).len() == 0 ==> fails_with(r, "FunctionGemma model path is empty"@),
        trim(req.model_path@).len() > 0 && trim(req.prompt_payload_json@).len() == 0 ==> fails_with(
            r,
            "FunctionGemma prompt payload JSON is empty"@,
        ),
        trim(req.model_path@).len() > 0 && trim(req.prompt_payload_json@).len() > 0 ==> exists|
            parsed: Result<FunctionGemmaPromptPayload, String>,
        | #[trigger]
            parse_payload.ensures((&req.prompt_payload_json,), parsed) && match parsed {
                Err(text) => fails_with(
                    r,
                    "Invalid FunctionGemma prompt payload JSON: "@ + text@,
                ),
                Ok(payload) => match prompt_for(
                    payload.developer_prompt@,
                    payload.tool_schema_json@,
                    payload.user_query@,
                ) {
                    Err(text) => fails_with(r, text),
                    Ok(prompt) => may_answer(
                        prompt,
                        &req.model_path,
                        ensure_runtime,
                        generate,
                        r,
                    ),
                },
            },
{
    if to_chars(trim_text(req.model_path.as_str()).as_str()).len() == 0 {
        return Err("FunctionGemma model path is empty".to_owned());
    }
    if to_chars(trim_text(req.prompt_payload_json.as_str()).as_str()).len() == 0 {
        return Err("FunctionGemma prompt payload JSON is empty".to_owned());
    }
    let parsed = parse_payload(&req.prompt_payload_json);
    let ghost given = parsed;
    assert(parse_payload.ensures((&req.prompt_payload_json,), given));
    let payload = match parsed {
        Ok(payload) => payload,
        Err(text) => {
            let mut message = "Invalid FunctionGemma prompt payload JSON: ".to_owned();
            message.append(text.as_str());
            return Err(message);
        },
    };
    let prompt = match build_function_gemma_prompt(&payload) {
        Ok(prompt) => prompt,
        Err(text) => {
            return Err(text);
        },
    };
    let runtime = ensure_runtime(&req.model_path);
    let ghost held = runtime;
    assert(ensure_runtime.ensures((&req.model_path,), held));
    let context = match runtime {
        Ok(context) => context,
        Err(text) => {
            return Err(text);
        },
    };
    let ghost wanted = prompt@;
    let plan = plan_generation(prompt);
    let ghost planned = plan;
    let (outcome, generation) = generate(context, plan);
    let ghost told = outcome;
    let ghost generated = generation;
    let r = settle_generation(outcome, generation);
    assert(plans_prompt(planned, wanted));
    assert(generation_settles(told, generated, r));
    r
}

/// A search that succeeds hands out what the model wrote and a call of the
/// search tool.
pub proof fn law_search_answers_with_the_tool_call(
    outcome: Result<(), String>,
    generation: Generation,
    r: Result<RunFunctionGemmaNaturalSearchResult, String>,
)
    requires
        generation_settles(outcome, generation, r),
    ensures
        r matches Ok(result) ==> result.raw_output@ == generation.text@ && is_tool_call(
            result.normalized_tool_call_json@,
        ),
{
    law_output_is_the_expected_call(generation.text@);
}

/// A piece of text is taken in whole: what was generated before stands in front
/// of it, every character of it follows, and nothing else does. No other event
/// changes the text.
pub proof fn law_pieces_are_taken_in_whole(events: Seq<GenerateEvent>, event: GenerateEvent)
    ensures
        event matches GenerateEvent::Text(piece) ==> events_text(events.push(event))
            == events_text(events) + piece@,
        !(event is Text) ==> events_text(events.push(event)) == events_text(events),
        events_text(Seq::empty()).len() == 0,
{
    assert(events.push(event).drop_last() =~= events);
}

/// How the output of the model is cut into pieces changes nothing: two pieces
/// are gathered as one that holds both, whatever comes before and behind them.
pub proof fn law_cut_of_the_output_is_free(
    before: Seq<GenerateEvent>,
    first: String,
    second: String,
    both: String,
    behind: Seq<GenerateEvent>,
)
    requires
        both@ == first@ + second@,
    ensures
        events_text(
            before.push(GenerateEvent::Text(first)).push(GenerateEvent::Text(second)) + behind,
        ) == events_text(before.push(GenerateEvent::Text(both)) + behind),
        events_error(
            before.push(GenerateEvent::Text(first)).push(GenerateEvent::Text(second)) + behind,
        ) == events_error(before.push(GenerateEvent::Text(both)) + behind),
    decreases behind.len(),
{
    let cut = before.push(GenerateEvent::Text(first)).push(GenerateEvent::Text(second));
    let whole = before.push(GenerateEvent::Text(both));
    if behind.len() == 0 {
        assert(cut + behind =~= cut);
        assert(whole + behind =~= whole);
        let once = before.push(GenerateEvent::Text(first));
        law_pieces_are_taken_in_whole(before, GenerateEvent::Text(first));
        law_pieces_are_taken_in_whole(once, GenerateEvent::Text(second));
        law_pieces_are_taken_in_whole(before, GenerateEvent::Text(both));
        law_last_error_is_kept(before, GenerateEvent::Text(first));
        law_last_error_is_kept(once, GenerateEvent::Text(second));
        law_last_error_is_kept(before, GenerateEvent::Text(both));
        assert(events_text(before) + first@ + second@ =~= events_text(before) + (first@
            + second@));
    } else {
        law_cut_of_the_output_is_free(before, first, second, both, behind.drop_last());
        assert(cut + behind =~= (cut + behind.drop_last()).push(behind.last()));
        assert(whole + behind =~= (whole + behind.drop_last()).push(behind.last()));
        law_pieces_are_taken_in_whole(cut + behind.drop_last(), behind.last());
        law_pieces_are_taken_in_whole(whole + behind.drop_last(), behind.last());
        law_last_error_is_kept(cut + behind.drop_last(), behind.last());
        law_last_error_is_kept(whole + behind.drop_last(), behind.last());
    }
}

/// An error on the way is not forgotten, and the last of several is told.
pub proof fn law_last_error_is_kept(events: Seq<GenerateEvent>, event: GenerateEvent)
    ensures
        event matches GenerateEvent::Error(text) ==> events_error(events.push(event)) == Some(
            text@,
        ),
        !(event is Error) ==> events_error(events.push(event)) == events_error(events),
        events_error(Seq::empty()) is None,
{
    assert(events.push(event).drop_last() =~= events);
}

/// A search succeeds only where the generation ended well and no error came on
/// the way. Then what the model wrote is handed out as it is; where an error
/// came, its text ends the message.
pub proof fn law_search_tells_every_failure(
    outcome: Result<(), String>,
    generation: Generation,
    r: Result<RunFunctionGemmaNaturalSearchResult, String>,
)
    requires
        generation_settles(outcome, generation, r),
    ensures
        r matches Ok(result) ==> outcome is Ok && generation.stream_error is None
            && result.raw_output@ == generation.text@,
        outcome matches Err(text) ==> (r matches Err(message) && ends_with(message@, text@)),
        outcome is Ok && generation.stream_error is Some ==> (r matches Err(message) && ends_with(
            message@,
            generation.stream_error.unwrap()@,
        )),
        outcome is Ok && generation.stream_error is None ==> (r is Ok <==> output_call(
            generation.text@,
        ) is Ok),
{
    if let Err(text) = outcome {
        lemma_ends_with("FunctionGemma generation failed: "@, text@);
    } else if let Some(text) = generation.stream_error {
        lemma_ends_with("FunctionGemma generation stream error: "@, text@);
    }
}

/// A context uses as many threads as the machine has, but at least one and at
/// most four.
pub proof fn law_threads_are_few(available: Option<usize>)
    ensures
        1 <= thread_count(available) <= 4,
        available matches Some(count) ==> (1 <= count <= 4 ==> thread_count(available) == count),
        available matches Some(count) ==> (count > 4 ==> thread_count(available) == 4),
        available is None ==> thread_count(available) == 4,
{
}

/// Ever smaller contexts are tried, each half as large as the one before it,
/// from 16384 down to 4096.
pub proof fn law_contexts_shrink()
    ensures
        context_sizes().first() == 16_384,
        context_sizes().last() == 4_096,
        forall|i: int|
            0 <= i < context_sizes().len() - 1 ==> #[trigger] context_sizes()[i] == 2
                * context_sizes()[i + 1],
{
}

/// A generation goes by the prompt as it is, writes up to 128 tokens, starts
/// from the seed 0, and stops at what ends a call, a turn or the text, and at
/// what begins another turn or a response.
pub proof fn law_generation_goes_by_the_prompt(plan: GenerationPlan, prompt: Seq<char>)
    requires
        plans_prompt(plan, prompt),
    ensures
        plan.prompt@ == prompt,
        plan.max_tokens == 128,
        plan.seed == 0,
        plan.stop_sequences@.len() == 5,
        plan.stop_sequences@[0]@ == "<end_function_call>"@,
        plan.stop_sequences@[1]@ == "<end_of_turn>"@,
        plan.stop_sequences@[2]@ == "<start_of_turn>"@,
        plan.stop_sequences@[3]@ == "<start_function_response>"@,
        plan.stop_sequences@[4]@ == "<eos>"@,
{
    let texts = texts_view(plan.stop_sequences@);
    assert(texts.len() == plan.stop_sequences@.len());
    assert(stop_texts().len() == 5);
    assert(texts[0] == plan.stop_sequences@[0]@);
    assert(texts[1] == plan.stop_sequences@[1]@);
    assert(texts[2] == plan.stop_sequences@[2]@);
    assert(texts[3] == plan.stop_sequences@[3]@);
    assert(texts[4] == plan.stop_sequences@[4]@);
}

/// A context of a smaller size is tried only where every larger one failed, none
/// is tried behind one that was made, and none is left untried where none was
/// made. Each is asked for with its own size, the given threads, and batches of
/// 256.
pub proof fn law_largest_context_is_made<M, C, F: Fn(&M, ContextPlan) -> Result<C, String>>(
    create_context: F,
    model: &M,
    n_threads: i32,
    attempts: Seq<Result<C, String>>,
    i: int,
)
    requires
        may_attempt(create_context, model, n_threads, attempts),
        0 <= i < attempts.len(),
    ensures
        attempts[i] is Ok ==> i == attempts.len() - 1,
        attempts.last() is Err ==> attempts.len() == 3,
        create_context.ensures(
            (
                model,
                (ContextPlan {
                    context_size: if i == 0 {
                        16_384
                    } else if i == 1 {
                        8_192
                    } else {
                        4_096
                    },
                    n_threads,
                    n_batch: 256,
                }),
            ),
            attempts[i],
        ),
{
    let attempt = attempts[i];
    assert(context_plan(context_sizes()[i], n_threads) == (ContextPlan {
        context_size: if i == 0 {
            16_384
        } else if i == 1 {
            8_192
        } else {
            4_096
        },
        n_threads,
        n_batch: 256,
    }));
}

/// A model that cannot be loaded, or gets no context, leaves what was held as it
/// was. One that is loaded is held in its stead, under its own path.
pub proof fn law_failed_load_changes_nothing<
    M,
    C,
    L: FnOnce(&str) -> Result<M, String>,
    F: Fn(&M, ContextPlan) -> Result<C, String>,
>(
    before: Option<FunctionGemmaRuntime<M, C>>,
    after: Option<FunctionGemmaRuntime<M, C>>,
    model_path: &str,
    n_threads: i32,
    load_model: L,
    create_context: F,
    r: Result<(), String>,
)
    requires
        may_load(before, after, model_path, n_threads, load_model, create_context, r),
    ensures
        r is Err ==> after == before,
        r is Ok ==> (after matches Some(runtime) && runtime.model_path@ == model_path@
            && load_model.ensures((model_path,), Ok(runtime.model)) && (runtime.context_size
            == 16_384 || runtime.context_size == 8_192 || runtime.context_size == 4_096)),
        holds_model(after, model_path@) || r is Err,
{
    let loaded = choose|loaded: Result<M, String>| #[trigger]
        load_model.ensures((model_path,), loaded) && match loaded {
            Err(text) => {
                &&& fails_with(r, "Failed to load FunctionGemma model: "@ + text@)
                &&& after == before
            },
            Ok(model) => exists|attempts: Seq<Result<C, String>>|
                {
                    &&& #[trigger] may_attempt(create_context, &model, n_threads, attempts)
                    &&& match attempts.last() {
                        Ok(context) => {
                            &&& r is Ok
                            &&& after is Some
                            &&& after->Some_0.model_path@ == model_path@
                            &&& after->Some_0.context_size == context_sizes()[attempts.len() - 1]
                            &&& after->Some_0.model == model
                            &&& after->Some_0.context == context
                        },
                        Err(_) => {
                            &&& fails_with(r, no_context_text(attempts))
                            &&& after == before
                        },
                    }
                },
        };
}

/// Only a runtime that holds a model of just this path counts as holding it.
pub proof fn law_held_model_goes_by_its_path<M, C>(
    state: Option<FunctionGemmaRuntime<M, C>>,
    model_path: Seq<char>,
    other_path: Seq<char>,
)
    ensures
        state is None ==> !holds_model(state, model_path),
        state matches Some(runtime) ==> holds_model(state, runtime.model_path@),
        holds_model(state, model_path) && holds_model(state, other_path) ==> model_path
            == other_path,
{
}

/// Where no context could be made, the message tells every error, behind the
/// sizes that were tried.
pub proof fn law_every_context_error_is_told<C>(attempts: Seq<Result<C, String>>, i: int)
    requires
        attempts.len() == 3,
        0 <= i < 3,
    ensures
        contains(no_context_text(attempts), attempts[i]->Err_0@),
{
    let first = signed_decimal(16_384) + ": "@ + attempts[0]->Err_0@;
    let second = signed_decimal(8_192) + ": "@ + attempts[1]->Err_0@;
    let third = signed_decimal(4_096) + ": "@ + attempts[2]->Err_0@;
    let head = "Failed to create FunctionGemma context. Attempted sizes "@ + sizes_text(3)
        + ". Errors: "@;
    assert(attempts_text(attempts, 1) == first);
    assert(attempts_text(attempts, 2) == first + " | "@ + second);
    assert(attempts_text(attempts, 3) == first + " | "@ + second + " | "@ + third);
    let text = no_context_text(attempts);
    assert(text =~= head + first + " | "@ + second + " | "@ + third);
    let error = attempts[i]->Err_0@;
    let at = if i == 0 {
        (head + first).len() - error.len()
    } else if i == 1 {
        (head + first + " | "@ + second).len() - error.len()
    } else {
        text.len() - error.len()
    };
    assert(text.subrange(at, at + error.len()) =~= error);
    assert(matches_at(text, error, at));
}

/// A search that succeeds hands out what was generated from just this prompt in
/// a context for just this model.
pub proof fn law_search_answers_the_prompt<
    C,
    E: FnOnce(&String) -> Result<C, String>,
    G: FnOnce(C, GenerationPlan) -> (Result<(), String>, Generation),
>(
    prompt: Seq<char>,
    model_path: &String,
    ensure_runtime: E,
    generate: G,
    r: Result<RunFunctionGemmaNaturalSearchResult, String>,
)
    requires
        may_answer(prompt, model_path, ensure_runtime, generate, r),
    ensures
        r matches Ok(result) ==> exists|
            context: C,
            plan: GenerationPlan,
            outcome: Result<(), String>,
            generation: Generation,
        |
            {
                &&& #[trigger] ensure_runtime.ensures((model_path,), Ok(context))
                &&& plan.prompt@ == prompt
                &&& #[trigger] generate.ensures((context, plan), (outcome, generation))
                &&& outcome is Ok
                &&& generation.stream_error is None
                &&& result.raw_output@ == generation.text@
                &&& output_call(generation.text@) == Ok::<Seq<char>, Seq<char>>(
                    result.normalized_tool_call_json@,
                )
            },
{
    if let Ok(result) = r {
        let runtime = choose|runtime: Result<C, String>| #[trigger]
            ensure_runtime.ensures((model_path,), runtime) && match runtime {
                Err(text) => fails_with(r, text@),
                Ok(context) => exists|
                    plan: GenerationPlan,
                    outcome: Result<(), String>,
                    generation: Generation,
                |
                    {
                        &&& #[trigger] plans_prompt(plan, prompt)
                        &&& generate.ensures((context, plan), (outcome, generation))
                        &&& #[trigger] generation_settles(outcome, generation, r)
                    },
            };
        let context = runtime->Ok_0;
        let (plan, outcome, generation) = choose|
            plan: GenerationPlan,
            outcome: Result<(), String>,
            generation: Generation,
        |
            {
                &&& #[trigger] plans_prompt(plan, prompt)
                &&& generate.ensures((context, plan), (outcome, generation))
                &&& #[trigger] generation_settles(outcome, generation, r)
            };
        law_search_tells_every_failure(outcome, generation, r);
        assert(runtime == Ok::<C, String>(context));
        assert(ensure_runtime.ensures((model_path,), Ok(context)));
        assert(generate.ensures((context, plan), (outcome, generation)));
    }
}

/// What was generated is the text of the events and their last error, no more and
/// no less.
pub proof fn law_generation_is_what_the_events_report(
    generation: Generation,
    events: Seq<GenerateEvent>,
)
    ensures
        generation.gathers(events) <==> generation.text@ == events_text(events) && (match (
            generation.stream_error,
            events_error(events),
        ) {
            (Some(text), Some(error)) => text@ == error,
            (None, None) => true,
            _ => false,
        }),
{
}

} // verus!
