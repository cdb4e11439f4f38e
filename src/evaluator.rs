//! The evaluator-optimizer loop: generate, evaluate, and feed the evaluation
//! back into the next generation until a score threshold is met or the
//! iteration budget runs out; and a variant driven by the generator's own
//! stated confidence.
//!
//! Scores and confidences are in millionths (see [`crate::protocol::ONE`]).

use vstd::prelude::*;
use crate::completion::{single_prompt, CompletionRequest, Role};
use crate::graph::copy_strings;
use crate::protocol::{
    confidence_of, extract_json_list, extract_json_number, extract_json_string, list_field,
    number_field, decimal_micros, stated_confidence, string_field, strip_confidence, without_confidence,
};
use crate::text::{concat, decimal, decimal_text, digit_char, join, joined, string_of, trim_chars, trimmed, views};

verus! {

/// A criterion the evaluator is asked to weigh; its weight, in thousandths,
/// is advice written into the prompt.
#[derive(Debug, Clone)]
pub struct EvaluationCriterion {
    pub name: String,
    pub description: String,
    pub weight_milli: u32,
}

/// What the evaluator said of one output.
#[derive(Debug, Clone)]
pub struct EvaluationResult {
    pub overall_score: u64,
    pub criteria_scores: Vec<(String, u64)>,
    pub feedback: String,
    pub suggestions: Vec<String>,
}

/// Reads an evaluation reply: the `overall_score` number (zero where there is
/// none), the `feedback` string (empty where there is none) and the items of
/// the `suggestions` list.
pub fn parse_evaluation_json(json: &str) -> (r: EvaluationResult)
    ensures
        r.overall_score == match number_field(json@, "overall_score"@) {
            Some(t) => match decimal_micros(t) {
                Some(v) => v,
                None => 0,
            },
            None => 0,
        },
        r.feedback@ == match string_field(json@, "feedback"@) {
            Some(t) => t,
            None => Seq::<char>::empty(),
        },
        views(r.suggestions@) == list_field(json@, "suggestions"@),
        r.criteria_scores@.len() == 0,
{
    let overall_score = match extract_json_number(json, "overall_score") {
        Some(v) => v,
        None => 0,
    };
    let feedback = match extract_json_string(json, "feedback") {
        Some(t) => t,
        None => String::new(),
    };
    let suggestions = extract_json_list(json, "suggestions");
    EvaluationResult { overall_score, criteria_scores: Vec::new(), feedback, suggestions }
}

/// The digits of a fraction in thousandths, without trailing zeros.
pub open spec fn milli_fraction(f: nat) -> Seq<char> {
    let d1 = f / 100;
    let d2 = (f / 10) % 10;
    let d3 = f % 10;
    if d3 != 0 {
        seq![digit_char(d1), digit_char(d2), digit_char(d3)]
    } else if d2 != 0 {
        seq![digit_char(d1), digit_char(d2)]
    } else {
        seq![digit_char(d1)]
    }
}

/// A number of thousandths written as a decimal: `1500` is `1.5`, `1000` is `1`.
pub open spec fn milli_text(w: nat) -> Seq<char> {
    decimal(w / 1000) + if w % 1000 == 0 {
        Seq::<char>::empty()
    } else {
        seq!['.'] + milli_fraction(w % 1000)
    }
}

fn digit(d: u32) -> (c: char)
    requires
        d < 10,
    ensures
        c == digit_char(d as nat),
{
    ((d as u8) + 48u8) as char
}

/// A number of thousandths written as a decimal (see [`milli_text`]).
pub fn milli_decimal(w: u32) -> (r: String)
    ensures
        r@ == milli_text(w as nat),
{
    let mut r = decimal_text((w / 1000) as usize);
    let f = w % 1000;
    if f != 0 {
        let mut cs: Vec<char> = Vec::new();
        cs.push('.');
        cs.push(digit(f / 100));
        if f % 10 != 0 {
            cs.push(digit((f / 10) % 10));
            cs.push(digit(f % 10));
        } else if (f / 10) % 10 != 0 {
            cs.push(digit((f / 10) % 10));
        }
        assert(cs@ =~= seq!['.'] + milli_fraction(f as nat));
        let tail = string_of(cs.as_slice());
        r.append(tail.as_str());
    }
    r
}

/// One line of the criteria list: `- name (weight: w): description`.
pub open spec fn criterion_line(c: EvaluationCriterion) -> Seq<char> {
    "- "@ + c.name@ + " (weight: "@ + milli_text(c.weight_milli as nat) + "): "@ + c.description@
}

/// The criteria used where none are registered.
pub const DEFAULT_CRITERIA: &'static str = "- quality: Overall quality and correctness\n- clarity: Clear and understandable\n- completeness: Addresses all aspects";

/// The criteria as the evaluation prompt lists them.
pub open spec fn criteria_text(cs: Seq<EvaluationCriterion>) -> Seq<char> {
    if cs.len() == 0 {
        DEFAULT_CRITERIA@
    } else {
        joined(cs.map_values(|c: EvaluationCriterion| criterion_line(c)), "\n"@)
    }
}

/// The closing of the evaluation prompt, which fixes the reply format.
pub const EVALUATION_FORMAT: &'static str = "\n\nRespond with JSON in this exact format:\n{\n    \"overall_score\": 0.0-1.0,\n    \"criteria_scores\": {\n        \"criterion_name\": 0.0-1.0\n    },\n    \"feedback\": \"Overall assessment\",\n    \"suggestions\": [\"specific improvement 1\", \"specific improvement 2\"]\n}";

/// The evaluation prompt for `output` under the criteria.
pub open spec fn evaluation_prompt_text(cs: Seq<EvaluationCriterion>, output: Seq<char>) -> Seq<char> {
    "Evaluate this output against the following criteria:\n\n"@ + criteria_text(cs) + "\n\nOutput to evaluate:\n"@
        + output + EVALUATION_FORMAT@
}

/// The evaluation prompt (see [`evaluation_prompt_text`]).
pub fn evaluation_prompt(criteria: &Vec<EvaluationCriterion>, output: &str) -> (r: String)
    ensures
        r@ == evaluation_prompt_text(criteria@, output@),
{
    let listed = if criteria.len() == 0 {
        String::from_str(DEFAULT_CRITERIA)
    } else {
        let mut lines: Vec<String> = Vec::new();
        let mut k: usize = 0;
        while k < criteria.len()
            invariant
                k <= criteria.len(),
                lines.len() == k,
                forall|j: int| 0 <= j < k ==> #[trigger] lines@[j]@ == criterion_line(criteria@[j]),
            decreases criteria.len() - k,
        {
            let c = &criteria[k];
            let mut line = concat("- ", c.name.as_str());
            line.append(" (weight: ");
            let w = milli_decimal(c.weight_milli);
            line.append(w.as_str());
            line.append("): ");
            line.append(c.description.as_str());
            lines.push(line);
            k += 1;
        }
        assert(views(lines@) =~= criteria@.map_values(|c: EvaluationCriterion| criterion_line(c)));
        join(&lines, "\n")
    };
    let mut r = concat("Evaluate this output against the following criteria:\n\n", listed.as_str());
    r.append("\n\nOutput to evaluate:\n");
    r.append(output);
    r.append(EVALUATION_FORMAT);
    r
}

/// The feedback part of a refinement prompt.
pub open spec fn feedback_text(e: EvaluationResult) -> Seq<char> {
    "Previous evaluation feedback:\n"@ + e.feedback@ + "\n\nSpecific suggestions:\n"@ + joined(
        e.suggestions@.map_values(|t: String| "- "@ + t@),
        "\n"@,
    )
}

/// The generation prompt: the task alone for the first output; afterwards
/// the task, the previous output and the previous evaluation.
pub open spec fn generation_prompt_text(task: Seq<char>, previous: Seq<char>, evaluation: Option<EvaluationResult>) -> Seq<char> {
    if previous.len() == 0 {
        "Task to carry out:\n\n"@ + task + "\n\nProvide your best output:"@
    } else {
        "Improve this output based on the feedback:\n\nOriginal task: "@ + task + "\n\nPrevious output:\n"@
            + previous + "\n\n"@ + match evaluation {
            Some(e) => feedback_text(e),
            None => Seq::<char>::empty(),
        } + "\n\nProvide an improved version:"@
    }
}

/// The generation prompt (see [`generation_prompt_text`]).
pub fn generation_prompt(task: &str, previous: &str, evaluation: &Option<EvaluationResult>) -> (r: String)
    ensures
        r@ == generation_prompt_text(task@, previous@, *evaluation),
{
    if previous.is_empty() {
        let mut r = concat("Task to carry out:\n\n", task);
        r.append("\n\nProvide your best output:");
        return r;
    }
    let mut r = concat("Improve this output based on the feedback:\n\nOriginal task: ", task);
    r.append("\n\nPrevious output:\n");
    r.append(previous);
    r.append("\n\n");
    match evaluation {
        Some(e) => {
            let mut items: Vec<String> = Vec::new();
            let mut k: usize = 0;
            while k < e.suggestions.len()
                invariant
                    k <= e.suggestions.len(),
                    items.len() == k,
                    forall|j: int| 0 <= j < k ==> #[trigger] items@[j]@ == "- "@ + e.suggestions@[j]@,
                decreases e.suggestions.len() - k,
            {
                items.push(concat("- ", e.suggestions[k].as_str()));
                k += 1;
            }
            assert(views(items@) =~= e.suggestions@.map_values(|t: String| "- "@ + t@));
            r.append("Previous evaluation feedback:\n");
            r.append(e.feedback.as_str());
            r.append("\n\nSpecific suggestions:\n");
            let listed = join(&items, "\n");
            r.append(listed.as_str());
        },
        None => {},
    }
    r.append("\n\nProvide an improved version:");
    r
}

/// One round of the loop.
#[derive(Debug, Clone)]
pub struct IterationRecord {
    pub iteration: usize,
    pub output: String,
    pub evaluation: EvaluationResult,
}

/// What the loop hands back.
#[derive(Debug, Clone)]
pub struct OptimizationResult {
    pub final_output: String,
    pub final_score: u64,
    pub iterations: usize,
    pub met_threshold: bool,
    pub history: Vec<IterationRecord>,
}

/// Where one run of the loop stands between rounds.
#[derive(Debug, Clone)]
pub struct OptimizationRun {
    pub current_output: String,
    pub last_evaluation: Option<EvaluationResult>,
}

/// Round `b` scored highest, and no earlier round scored as high.
pub open spec fn is_best(h: Seq<IterationRecord>, b: int) -> bool {
    &&& 0 <= b < h.len()
    &&& forall|i: int| 0 <= i < h.len() ==> #[trigger] h[i].evaluation.overall_score <= h[b].evaluation.overall_score
    &&& forall|i: int| 0 <= i < b ==> #[trigger] h[i].evaluation.overall_score < h[b].evaluation.overall_score
}

/// Two evaluations say the same.
pub open spec fn same_evaluation(a: EvaluationResult, b: EvaluationResult) -> bool {
    &&& a.overall_score == b.overall_score
    &&& a.feedback@ == b.feedback@
    &&& views(a.suggestions@) == views(b.suggestions@)
    &&& a.criteria_scores@.len() == b.criteria_scores@.len()
    &&& forall|k: int| 0 <= k < a.criteria_scores@.len() ==> (#[trigger] a.criteria_scores@[k]).0@ == b.criteria_scores@[k].0@
        && a.criteria_scores@[k].1 == b.criteria_scores@[k].1
}

/// Two rounds say the same.
pub open spec fn same_iteration(a: IterationRecord, b: IterationRecord) -> bool {
    a.iteration == b.iteration && a.output@ == b.output@ && same_evaluation(a.evaluation, b.evaluation)
}

/// A copy of an evaluation.
pub fn copy_evaluation(e: &EvaluationResult) -> (r: EvaluationResult)
    ensures
        same_evaluation(r, *e),
{
    let mut scores: Vec<(String, u64)> = Vec::new();
    let mut k: usize = 0;
    while k < e.criteria_scores.len()
        invariant
            k <= e.criteria_scores.len(),
            scores.len() == k,
            forall|j: int| 0 <= j < k ==> (#[trigger] scores@[j]).0@ == e.criteria_scores@[j].0@
                && scores@[j].1 == e.criteria_scores@[j].1,
        decreases e.criteria_scores.len() - k,
    {
        scores.push((e.criteria_scores[k].0.clone(), e.criteria_scores[k].1));
        k += 1;
    }
    let suggestions = copy_strings(&e.suggestions);
    assert(views(suggestions@) =~= views(e.suggestions@));
    EvaluationResult {
        overall_score: e.overall_score,
        criteria_scores: scores,
        feedback: e.feedback.clone(),
        suggestions,
    }
}

fn copy_history(h: &Vec<IterationRecord>) -> (r: Vec<IterationRecord>)
    ensures
        r@.len() == h@.len(),
        forall|i: int| 0 <= i < h@.len() ==> same_iteration(#[trigger] r@[i], h@[i]),
{
    let mut r: Vec<IterationRecord> = Vec::new();
    let mut k: usize = 0;
    while k < h.len()
        invariant
            k <= h.len(),
            r.len() == k,
            forall|i: int| 0 <= i < k ==> same_iteration(#[trigger] r@[i], h@[i]),
        decreases h.len() - k,
    {
        let it = &h[k];
        r.push(IterationRecord { iteration: it.iteration, output: it.output.clone(), evaluation: copy_evaluation(&it.evaluation) });
        k += 1;
    }
    r
}

/// Generates, evaluates and refines.
pub struct EvaluatorOptimizer {
    pub generator_model: String,
    pub evaluator_model: String,
    pub criteria: Vec<EvaluationCriterion>,
    pub history: Vec<IterationRecord>,
}

impl EvaluatorOptimizer {
    /// Generation and evaluation both with `model`, no criteria, no history.
    pub fn new(model: String) -> (r: EvaluatorOptimizer)
        ensures
            r.generator_model@ == model@,
            r.evaluator_model@ == model@,
            r.criteria@.len() == 0,
            r.history@.len() == 0,
    {
        EvaluatorOptimizer {
            generator_model: model.clone(),
            evaluator_model: model,
            criteria: Vec::new(),
            history: Vec::new(),
        }
    }

    /// Evaluates with `model` instead.
    pub fn with_evaluator_model(self, model: String) -> (r: EvaluatorOptimizer)
        ensures
            r.evaluator_model == model,
            r.generator_model == self.generator_model,
            r.criteria == self.criteria,
            r.history == self.history,
    {
        let mut r = self;
        r.evaluator_model = model;
        r
    }

    /// Adds a criterion to those the evaluator weighs.
    pub fn add_criterion(&mut self, criterion: EvaluationCriterion)
        ensures
            final(self).criteria@ == old(self).criteria@.push(criterion),
            final(self).generator_model == old(self).generator_model,
            final(self).evaluator_model == old(self).evaluator_model,
            final(self).history == old(self).history,
    {
        self.criteria.push(criterion);
    }

    /// The rounds of the latest run.
    pub fn history(&self) -> (r: &Vec<IterationRecord>)
        ensures
            *r == self.history,
    {
        &self.history
    }

    /// Starts a run: the history is cleared and there is no output yet.
    pub fn start(&mut self) -> (r: OptimizationRun)
        ensures
            final(self).history@.len() == 0,
            final(self).criteria == old(self).criteria,
            final(self).generator_model == old(self).generator_model,
            final(self).evaluator_model == old(self).evaluator_model,
            r.current_output@.len() == 0,
            r.last_evaluation is None,
    {
        self.history = Vec::new();
        OptimizationRun { current_output: String::new(), last_evaluation: None }
    }

    /// The outcome of a run whose budget allows no round: the history is
    /// cleared, and the result is unmet, with no output, no score and no
    /// rounds. Running out of budget is no error.
    pub fn without_rounds(&mut self) -> (r: OptimizationResult)
        ensures
            final(self).history@.len() == 0,
            final(self).criteria == old(self).criteria,
            final(self).generator_model == old(self).generator_model,
            final(self).evaluator_model == old(self).evaluator_model,
            !r.met_threshold,
            r.iterations == 0,
            r.final_output@.len() == 0,
            r.final_score == 0,
            r.history@.len() == 0,
    {
        self.history = Vec::new();
        OptimizationResult {
            final_output: String::new(),
            final_score: 0,
            iterations: 0,
            met_threshold: false,
            history: Vec::new(),
        }
    }

    /// The request that generates the next output of `run`.
    pub fn generation_request(&self, task: &str, run: &OptimizationRun) -> (r: CompletionRequest)
        ensures
            r.messages@.len() == 1,
            r.messages@[0].content@ == generation_prompt_text(task@, run.current_output@, run.last_evaluation),
            r.messages@[0].role == Role::User,
            r.system is None,
            r.model@ == self.generator_model@,
            r.max_tokens == 4096,
            r.temperature_milli is None,
    {
        single_prompt(generation_prompt(task, run.current_output.as_str(), &run.last_evaluation),
            self.generator_model.as_str(), 4096)
    }

    /// The request that evaluates `output`.
    pub fn evaluation_request(&self, output: &str) -> (r: CompletionRequest)
        ensures
            r.messages@.len() == 1,
            r.messages@[0].content@ == evaluation_prompt_text(self.criteria@, output@),
            r.messages@[0].role == Role::User,
            r.system is None,
            r.model@ == self.evaluator_model@,
            r.max_tokens == 1024,
            r.temperature_milli is None,
    {
        single_prompt(evaluation_prompt(&self.criteria, output), self.evaluator_model.as_str(), 1024)
    }

    /// Records a round: its output and evaluation join the history. The run
    /// ends, met, when the score reaches the threshold; it ends, unmet, with
    /// the best round so far when the budget of `max_iterations` rounds is
    /// spent; otherwise the round becomes the basis of the next one.
    pub fn record(
        &mut self,
        run: &mut OptimizationRun,
        output: String,
        evaluation: EvaluationResult,
        threshold: u64,
        max_iterations: usize,
    ) -> (r: Option<OptimizationResult>)
        requires
            old(self).history@.len() < max_iterations,
        ensures
            final(self).history@.len() == old(self).history@.len() + 1,
            final(self).history@.take(old(self).history@.len() as int) == old(self).history@,
            final(self).history@.last().iteration == old(self).history@.len() + 1,
            final(self).history@.last().output == output,
            final(self).history@.last().evaluation == evaluation,
            final(self).criteria == old(self).criteria,
            final(self).generator_model == old(self).generator_model,
            final(self).evaluator_model == old(self).evaluator_model,
            evaluation.overall_score >= threshold ==> {
                &&& r is Some
                &&& r->0.met_threshold
                &&& r->0.final_output@ == output@
                &&& r->0.final_score == evaluation.overall_score
                &&& r->0.iterations == final(self).history@.len()
            },
            evaluation.overall_score < threshold && final(self).history@.len() == max_iterations ==> {
                &&& r is Some
                &&& !r->0.met_threshold
                &&& r->0.iterations == max_iterations
                &&& exists|b: int| is_best(final(self).history@, b)
                    && r->0.final_output@ == final(self).history@[b].output@
                    && r->0.final_score == final(self).history@[b].evaluation.overall_score
            },
            evaluation.overall_score < threshold && final(self).history@.len() < max_iterations ==> {
                &&& r is None
                &&& final(run).current_output@ == output@
                &&& final(run).last_evaluation is Some
                &&& same_evaluation(final(run).last_evaluation->0, evaluation)
            },
            r is Some ==> r->0.history@.len() == final(self).history@.len()
                && forall|i: int| 0 <= i < final(self).history@.len()
                    ==> same_iteration(#[trigger] r->0.history@[i], final(self).history@[i]),
    {
        let score = evaluation.overall_score;
        let n = self.history.len() + 1;
        self.history.push(IterationRecord { iteration: n, output, evaluation });
        if score >= threshold {
            let last = &self.history[n - 1];
            return Some(OptimizationResult {
                final_output: last.output.clone(),
                final_score: score,
                iterations: n,
                met_threshold: true,
                history: copy_history(&self.history),
            });
        }
        if n == max_iterations {
            let mut best: usize = 0;
            let mut k: usize = 1;
            while k < n
                invariant
                    n == self.history@.len(),
                    1 <= k <= n,
                    best < k,
                    forall|i: int| 0 <= i < k ==> #[trigger] self.history@[i].evaluation.overall_score
                        <= self.history@[best as int].evaluation.overall_score,
                    forall|i: int| 0 <= i < best ==> #[trigger] self.history@[i].evaluation.overall_score
                        < self.history@[best as int].evaluation.overall_score,
                decreases n - k,
            {
                if self.history[k].evaluation.overall_score > self.history[best].evaluation.overall_score {
                    best = k;
                }
                k += 1;
            }
            assert(is_best(self.history@, best as int));
            let b = &self.history[best];
            return Some(OptimizationResult {
                final_output: b.output.clone(),
                final_score: b.evaluation.overall_score,
                iterations: max_iterations,
                met_threshold: false,
                history: copy_history(&self.history),
            });
        }
        let last = &self.history[n - 1];
        run.current_output = last.output.clone();
        run.last_evaluation = Some(copy_evaluation(&last.evaluation));
        None
    }
}

/// The prompt that asks for an answer and a stated confidence.
pub open spec fn confidence_prompt_text(task: Seq<char>) -> Seq<char> {
    "Carry out the following task and assess your confidence:\n\n"@ + task + CONFIDENCE_FORMAT@
}

/// The closing of the confidence prompt, which fixes the reply format.
pub const CONFIDENCE_FORMAT: &'static str = "\n\nAfter your response, on a new line, provide your confidence level (0.0-1.0) that your answer is correct and complete.\n\nFormat:\n[Your response here]\n\nCONFIDENCE: [0.0-1.0]";

/// Splits a reply into its answer, without confidence lines and trimmed, and
/// the confidence it states.
pub fn parse_confidence_response(text: &str) -> (r: (String, u64))
    ensures
        r.0@ == trimmed(without_confidence(text@, 0)),
        r.1 == stated_confidence(text@),
{
    let stripped = strip_confidence(text);
    let t = trim_chars(stripped.as_slice());
    (string_of(t.as_slice()), confidence_of(text))
}

/// One attempt of the confidence loop.
#[derive(Debug, Clone)]
pub struct AttemptRecord {
    pub attempt: usize,
    pub output: String,
    pub confidence: u64,
}

/// What the confidence loop hands back.
#[derive(Debug, Clone)]
pub struct ConfidenceResult {
    pub output: String,
    pub confidence: u64,
    pub attempts: Vec<AttemptRecord>,
    pub met_threshold: bool,
}

/// Where one run of the confidence loop stands.
#[derive(Debug, Clone)]
pub struct ConfidenceRun {
    pub attempts: Vec<AttemptRecord>,
    pub best_output: String,
    pub best_confidence: u64,
}

impl ConfidenceRun {
    /// No attempt yet; the best so far is empty with confidence zero.
    pub fn new() -> (r: ConfidenceRun)
        ensures
            r.attempts@.len() == 0,
            r.best_output@.len() == 0,
            r.best_confidence == 0,
    {
        ConfidenceRun { attempts: Vec::new(), best_output: String::new(), best_confidence: 0 }
    }

    /// Records the reply of an attempt and says whether its confidence reaches
    /// the threshold. An attempt becomes the best only with a confidence
    /// strictly above the best so far.
    pub fn record_attempt(&mut self, response: &str, threshold: u64) -> (met: bool)
        requires
            old(self).attempts@.len() < usize::MAX,
        ensures
            met == (stated_confidence(response@) >= threshold),
            final(self).attempts@.len() == old(self).attempts@.len() + 1,
            final(self).attempts@.take(old(self).attempts@.len() as int) == old(self).attempts@,
            final(self).attempts@.last().attempt == old(self).attempts@.len() + 1,
            final(self).attempts@.last().output@ == trimmed(without_confidence(response@, 0)),
            final(self).attempts@.last().confidence == stated_confidence(response@),
            stated_confidence(response@) > old(self).best_confidence ==> {
                &&& final(self).best_confidence == stated_confidence(response@)
                &&& final(self).best_output@ == trimmed(without_confidence(response@, 0))
            },
            stated_confidence(response@) <= old(self).best_confidence ==> {
                &&& final(self).best_confidence == old(self).best_confidence
                &&& final(self).best_output == old(self).best_output
            },
    {
        let (output, confidence) = parse_confidence_response(response);
        if confidence > self.best_confidence {
            self.best_confidence = confidence;
            self.best_output = output.clone();
        }
        let n = self.attempts.len() + 1;
        self.attempts.push(AttemptRecord { attempt: n, output, confidence });
        confidence >= threshold
    }

    /// Ends the run: the latest attempt where it met the threshold, the best
    /// attempt otherwise.
    pub fn into_result(self, met: bool) -> (r: ConfidenceResult)
        requires
            met ==> self.attempts@.len() > 0,
        ensures
            r.met_threshold == met,
            r.attempts == self.attempts,
            met ==> r.output@ == self.attempts@.last().output@ && r.confidence == self.attempts@.last().confidence,
            !met ==> r.output == self.best_output && r.confidence == self.best_confidence,
    {
        if met {
            let last = &self.attempts[self.attempts.len() - 1];
            let output = last.output.clone();
            let confidence = last.confidence;
            ConfidenceResult { output, confidence, attempts: self.attempts, met_threshold: true }
        } else {
            ConfidenceResult {
                output: self.best_output,
                confidence: self.best_confidence,
                attempts: self.attempts,
                met_threshold: false,
            }
        }
    }
}

/// Retries until the generator states enough confidence.
pub struct ConfidenceBasedOptimizer {
    pub model: String,
}

impl ConfidenceBasedOptimizer {
    pub fn new(model: String) -> (r: ConfidenceBasedOptimizer)
        ensures
            r.model == model,
    {
        ConfidenceBasedOptimizer { model }
    }

    /// The request of attempt `attempt` (from 0): the first at the default
    /// temperature, later ones at 0.3.
    pub fn attempt_request(&self, task: &str, attempt: usize) -> (r: CompletionRequest)
        ensures
            r.messages@.len() == 1,
            r.messages@[0].content@ == confidence_prompt_text(task@),
            r.messages@[0].role == Role::User,
            r.system is None,
            r.model@ == self.model@,
            r.max_tokens == 4096,
            r.temperature_milli == if attempt == 0 { None } else { Some(300u32) },
    {
        let mut prompt = concat("Carry out the following task and assess your confidence:\n\n", task);
        prompt.append(CONFIDENCE_FORMAT);
        let mut r = single_prompt(prompt, self.model.as_str(), 4096);
        if attempt > 0 {
            r.temperature_milli = Some(300);
        }
        r
    }
}

} // verus!
