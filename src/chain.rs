//! The chain executor: steps run in order against one growing context; each
//! step's output is validated and processed before it joins the context under
//! the step's name. The first failing step ends the chain.
//!
//! The host drives it: while [`PromptChain::next_request`] has a request, it
//! sends it and hands the reply to [`PromptChain::advance`]; then
//! [`PromptChain::outcome`] says how the chain ended.

use vstd::prelude::*;
use crate::completion::{single_prompt, CompletionRequest, Role};
use crate::orchestrator::lookup;
use crate::text::{chars_of, contains, contains_seq, is_space, is_space_char, prefix, prefix_of, string_of, trim_chars, trimmed};

verus! {

/// A piece of a prompt template.
#[derive(Debug, Clone)]
pub enum TemplatePart {
    /// Text written as it is.
    Text(String),
    /// The context value under this key; nothing where there is none.
    Context(String),
}

/// A check on a step's output.
#[derive(Debug, Clone)]
pub enum Validator {
    /// The output holds every one of these texts.
    ContainsAll(Vec<String>),
    /// The output has more than this many words.
    MoreWordsThan(usize),
}

/// A change made to a step's output before it joins the context.
#[derive(Debug, Clone, Copy, PartialEq, Eq, Structural)]
pub enum Processor {
    /// White space at either end is removed.
    Trim,
}

/// One step of a chain.
#[derive(Debug, Clone)]
pub struct ChainStep {
    pub name: String,
    pub prompt_template: Vec<TemplatePart>,
    pub validator: Option<Validator>,
    pub processor: Option<Processor>,
}

/// One executed step.
#[derive(Debug, Clone)]
pub struct ChainHistory {
    pub step: String,
    pub prompt: String,
    pub output: String,
}

/// Why a chain failed.
#[derive(Debug, Clone)]
pub enum ChainError {
    /// The completion call of the step failed.
    Completion { step: String, message: String },
    /// The step's output failed validation; the preview holds its first
    /// hundred characters.
    Validation { step: String, preview: String },
}

/// The context value under `key`; empty where there is none.
pub open spec fn context_value(ctx: Seq<(String, String)>, key: Seq<char>) -> Seq<char> {
    match lookup(ctx, key) {
        Some(v) => v,
        None => Seq::empty(),
    }
}

/// A template filled in from the context.
pub open spec fn rendered(parts: Seq<TemplatePart>, ctx: Seq<(String, String)>) -> Seq<char>
    decreases parts.len(),
{
    if parts.len() == 0 {
        Seq::empty()
    } else {
        rendered(parts.drop_last(), ctx) + match parts.last() {
            TemplatePart::Text(t) => t@,
            TemplatePart::Context(k) => context_value(ctx, k@),
        }
    }
}

/// The number of words of `s`: maximal runs without white space.
pub open spec fn word_count(s: Seq<char>) -> nat
    decreases s.len(),
{
    if s.len() == 0 {
        0
    } else {
        word_count(s.drop_last()) + if !is_space(s.last()) && (s.len() == 1 || is_space(s[s.len() - 2])) {
            1nat
        } else {
            0nat
        }
    }
}

/// The output passes the check.
pub open spec fn passes(v: Validator, out: Seq<char>) -> bool {
    match v {
        Validator::ContainsAll(needles) => forall|i: int| 0 <= i < needles@.len() ==> contains_seq(out, #[trigger] needles@[i]@),
        Validator::MoreWordsThan(n) => word_count(out) > n,
    }
}

/// The output as it joins the context.
pub open spec fn processed(p: Option<Processor>, out: Seq<char>) -> Seq<char> {
    match p {
        Some(Processor::Trim) => trimmed(out),
        None => out,
    }
}

/// Fills in a template from the context (see [`rendered`]).
pub fn render(parts: &Vec<TemplatePart>, ctx: &Vec<(String, String)>) -> (r: String)
    ensures
        r@ == rendered(parts@, ctx@),
{
    let mut r = String::new();
    let mut k: usize = 0;
    while k < parts.len()
        invariant
            k <= parts.len(),
            r@ == rendered(parts@.take(k as int), ctx@),
        decreases parts.len() - k,
    {
        assert(parts@.take(k + 1).drop_last() =~= parts@.take(k as int));
        match &parts[k] {
            TemplatePart::Text(t) => {
                r.append(t.as_str());
            },
            TemplatePart::Context(key) => {
                match last_value(ctx, key.as_str()) {
                    Some(v) => {
                        r.append(v.as_str());
                    },
                    None => {},
                }
            },
        }
        k += 1;
    }
    assert(parts@.take(parts.len() as int) =~= parts@);
    r
}

fn last_value(ctx: &Vec<(String, String)>, key: &str) -> (r: Option<String>)
    ensures
        match lookup(ctx@, key@) {
            Some(v) => r is Some && r->0@ == v,
            None => r is None,
        },
{
    let mut k: usize = ctx.len();
    assert(ctx@.take(k as int) =~= ctx@);
    while k > 0
        invariant
            k <= ctx.len(),
            lookup(ctx@, key@) == lookup(ctx@.take(k as int), key@),
        decreases k,
    {
        assert(ctx@.take(k as int).drop_last() =~= ctx@.take(k - 1));
        if crate::text::str_eq(ctx[k - 1].0.as_str(), key) {
            return Some(ctx[k - 1].1.clone());
        }
        k -= 1;
    }
    None
}

/// The number of words of `s` (see [`word_count`]).
pub fn count_words(s: &str) -> (r: usize)
    ensures
        r == word_count(s@),
{
    let cs = chars_of(s);
    let mut n: usize = 0;
    let mut k: usize = 0;
    while k < cs.len()
        invariant
            cs@ == s@,
            k <= cs.len(),
            n == word_count(cs@.take(k as int)),
            n <= k,
        decreases cs.len() - k,
    {
        assert(cs@.take(k + 1).drop_last() =~= cs@.take(k as int));
        if !is_space_char(cs[k]) && (k == 0 || is_space_char(cs[k - 1])) {
            n += 1;
        }
        k += 1;
    }
    assert(cs@.take(cs.len() as int) =~= cs@);
    n
}

fn contains_all(needles: &Vec<String>, output: &str) -> (r: bool)
    ensures
        r == forall|i: int| 0 <= i < needles@.len() ==> contains_seq(output@, #[trigger] needles@[i]@),
{
    let out = chars_of(output);
    let mut k: usize = 0;
    while k < needles.len()
        invariant
            out@ == output@,
            k <= needles.len(),
            forall|i: int| 0 <= i < k ==> contains_seq(output@, #[trigger] needles@[i]@),
        decreases needles.len() - k,
    {
        let n = chars_of(needles[k].as_str());
        if !contains(out.as_slice(), n.as_slice()) {
            assert(!contains_seq(output@, needles@[k as int]@));
            return false;
        }
        k += 1;
    }
    true
}

impl Validator {
    /// Whether the output passes the check (see [`passes`]).
    pub fn check(&self, output: &str) -> (r: bool)
        ensures
            r == passes(*self, output@),
    {
        match self {
            Validator::ContainsAll(needles) => contains_all(needles, output),
            Validator::MoreWordsThan(n) => count_words(output) > *n,
        }
    }
}

/// Applies the processor to the output (see [`processed`]).
pub fn process(p: Option<Processor>, output: &str) -> (r: String)
    ensures
        r@ == processed(p, output@),
{
    match p {
        Some(Processor::Trim) => {
            let cs = chars_of(output);
            let t = trim_chars(cs.as_slice());
            string_of(t.as_slice())
        },
        None => output.to_owned(),
    }
}

/// Where one run of a chain stands.
#[derive(Debug, Clone)]
pub struct ChainRun {
    pub context: Vec<(String, String)>,
    pub next_step: usize,
    pub output: String,
    pub failed: Option<ChainError>,
}

/// A step of the chain is still to run.
pub open spec fn step_pending(steps: Seq<ChainStep>, run: ChainRun) -> bool {
    run.failed is None && run.next_step < steps.len()
}

/// Executes steps in order against one context.
pub struct PromptChain {
    pub model: String,
    pub steps: Vec<ChainStep>,
    pub history: Vec<ChainHistory>,
}

impl PromptChain {
    /// A chain with no steps, using `model`.
    pub fn new(model: String) -> (r: PromptChain)
        ensures
            r.model == model,
            r.steps@.len() == 0,
            r.history@.len() == 0,
    {
        PromptChain { model, steps: Vec::new(), history: Vec::new() }
    }

    /// Appends a step.
    pub fn add_step(&mut self, step: ChainStep)
        ensures
            final(self).steps@ == old(self).steps@.push(step),
            final(self).model == old(self).model,
            final(self).history == old(self).history,
    {
        self.steps.push(step);
    }

    /// The executed steps of the latest run.
    pub fn history(&self) -> (r: &Vec<ChainHistory>)
        ensures
            *r == self.history,
    {
        &self.history
    }

    /// Starts a run from an initial context, with a fresh history.
    pub fn start(&mut self, context: Vec<(String, String)>) -> (r: ChainRun)
        ensures
            final(self).history@.len() == 0,
            final(self).steps == old(self).steps,
            final(self).model == old(self).model,
            r.context == context,
            r.next_step == 0,
            r.output@.len() == 0,
            r.failed is None,
    {
        self.history = Vec::new();
        ChainRun { context, next_step: 0, output: String::new(), failed: None }
    }

    /// The request of the next step, where one is still to run: its template
    /// filled in from the context.
    pub fn next_request(&self, run: &ChainRun) -> (r: Option<CompletionRequest>)
        ensures
            r is Some <==> step_pending(self.steps@, *run),
            r is Some ==> {
                &&& r->0.messages@.len() == 1
                &&& r->0.messages@[0].content@ == rendered(self.steps@[run.next_step as int].prompt_template@, run.context@)
                &&& r->0.messages@[0].role == Role::User
                &&& r->0.system is None
                &&& r->0.temperature_milli is None
                &&& r->0.model@ == self.model@
                &&& r->0.max_tokens == 4096
            },
    {
        if run.failed.is_none() && run.next_step < self.steps.len() {
            let prompt = render(&self.steps[run.next_step].prompt_template, &run.context);
            Some(single_prompt(prompt, self.model.as_str(), 4096))
        } else {
            None
        }
    }

    /// Takes the reply to the pending step. A failed call or an output that
    /// fails validation ends the chain with an error naming the step, and no
    /// later step runs. Otherwise the processed output joins the context
    /// under the step's name, the step is recorded, and the next one is due.
    pub fn advance(&mut self, run: &mut ChainRun, reply: Result<String, String>)
        requires
            step_pending(old(self).steps@, *old(run)),
        ensures
            final(self).steps == old(self).steps,
            final(self).model == old(self).model,
            ({
                let step = old(self).steps@[old(run).next_step as int];
                match reply {
                    Err(e) => {
                        &&& final(run).failed == Some(ChainError::Completion { step: step.name, message: e })
                        &&& final(self).history == old(self).history
                    },
                    Ok(out) => if step.validator is Some && !passes(step.validator->0, out@) {
                        &&& final(run).failed is Some
                        &&& final(run).failed->0 is Validation
                        &&& final(run).failed->0->Validation_step@ == step.name@
                        &&& final(run).failed->0->Validation_preview@ == prefix(out@, 100)
                        &&& final(self).history == old(self).history
                    } else {
                        &&& final(run).failed is None
                        &&& final(run).next_step == old(run).next_step + 1
                        &&& final(run).output == out
                        &&& final(run).context@.len() == old(run).context@.len() + 1
                        &&& final(run).context@.take(old(run).context@.len() as int) == old(run).context@
                        &&& final(run).context@.last().0@ == step.name@
                        &&& final(run).context@.last().1@ == processed(step.processor, out@)
                        &&& final(self).history@.len() == old(self).history@.len() + 1
                        &&& final(self).history@.take(old(self).history@.len() as int) == old(self).history@
                        &&& final(self).history@.last().step@ == step.name@
                        &&& final(self).history@.last().prompt@ == rendered(step.prompt_template@, old(run).context@)
                        &&& final(self).history@.last().output@ == out@
                    },
                }
            }),
    {
        let i = run.next_step;
        assert(i < self.steps.len());
        let name = self.steps[i].name.clone();
        match reply {
            Err(e) => {
                run.failed = Some(ChainError::Completion { step: name, message: e });
            },
            Ok(out) => {
                let valid = match &self.steps[i].validator {
                    Some(v) => v.check(out.as_str()),
                    None => true,
                };
                if !valid {
                    let preview = prefix_of(out.as_str(), 100);
                    run.failed = Some(ChainError::Validation { step: name, preview });
                    return;
                }
                let prompt = render(&self.steps[i].prompt_template, &run.context);
                let value = process(self.steps[i].processor, out.as_str());
                let ghost ctx0 = run.context@;
                run.context.push((name.clone(), value));
                assert(run.context@.take(ctx0.len() as int) =~= ctx0);
                let ghost h0 = self.history@;
                self.history.push(ChainHistory { step: name, prompt, output: out.clone() });
                assert(self.history@.take(h0.len() as int) =~= h0);
                run.output = out;
                run.next_step = i + 1;
            },
        }
    }

    /// How the run ended: the output of the last step, or the first failure.
    pub fn outcome(&self, run: ChainRun) -> (r: Result<String, ChainError>)
        ensures
            match run.failed {
                Some(e) => r == Err::<String, ChainError>(e),
                None => r == Ok::<String, ChainError>(run.output),
            },
    {
        match run.failed {
            Some(e) => Err(e),
            None => Ok(run.output),
        }
    }
}

/// Once a step has failed, no later step of the chain is asked for.
pub proof fn lemma_failed_chain_stops(steps: Seq<ChainStep>, run: ChainRun)
    requires
        run.failed is Some,
    ensures
        !step_pending(steps, run),
{
}

} // verus!
