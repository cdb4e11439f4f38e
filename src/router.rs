//! Routing: a classifier sorts free text into one of the registered
//! categories with a confidence, and the text goes to that category's handler,
//! or to the fallback handler. A second router picks a model by how complex a
//! task is.
//!
//! Handlers stay with the host under their category; the router decides which
//! one runs.

use vstd::prelude::*;
use crate::completion::{single_prompt, CompletionRequest, Role};
use crate::protocol::{decimal_micros, extract_json_number, extract_json_string, number_field, string_field};
use crate::text::{chars_of, concat, join, joined, lower_of, lowercase, str_eq, trim_chars, trimmed, views};

verus! {

/// What the classifier said of an input; the confidence is in millionths.
#[derive(Debug, Clone)]
pub struct ClassificationResult {
    pub category: String,
    pub confidence: u64,
    pub reasoning: String,
}

/// A category the router knows, described for the classifier.
#[derive(Debug, Clone)]
pub struct Route {
    pub category: String,
    pub description: String,
}

/// Where an input goes.
#[derive(Debug, Clone, Copy, PartialEq, Eq, Structural)]
pub enum RouteDecision {
    /// The handler of the route at this position.
    Handler(usize),
    /// The fallback handler.
    Fallback,
}

/// Why an input could not be routed.
#[derive(Debug, Clone)]
pub enum RouteError {
    /// The confidence, in millionths, was below the threshold and there is no
    /// fallback.
    LowConfidence(u64),
    /// The category has no route and there is no fallback.
    UnknownCategory(String),
}

/// Reads a classification reply: the `category` string (empty where there is
/// none), the `confidence` number (one half where there is none) and the
/// `reasoning` string (empty where there is none).
pub fn parse_classification_json(json: &str) -> (r: ClassificationResult)
    ensures
        r.category@ == match string_field(json@, "category"@) {
            Some(t) => t,
            None => Seq::<char>::empty(),
        },
        r.confidence == match number_field(json@, "confidence"@) {
            Some(t) => match decimal_micros(t) {
                Some(v) => v,
                None => 500_000,
            },
            None => 500_000,
        },
        r.reasoning@ == match string_field(json@, "reasoning"@) {
            Some(t) => t,
            None => Seq::<char>::empty(),
        },
{
    let category = match extract_json_string(json, "category") {
        Some(t) => t,
        None => String::new(),
    };
    let confidence = match extract_json_number(json, "confidence") {
        Some(v) => v,
        None => 500_000,
    };
    let reasoning = match extract_json_string(json, "reasoning") {
        Some(t) => t,
        None => String::new(),
    };
    ClassificationResult { category, confidence, reasoning }
}

/// No two routes share a category.
pub open spec fn categories_unique(routes: Seq<Route>) -> bool {
    forall|i: int, j: int|
        0 <= i < routes.len() && 0 <= j < routes.len() && i != j ==> #[trigger] routes[i].category@ != #[trigger] routes[j].category@
}

/// The route of `category`, if any.
pub open spec fn route_of(routes: Seq<Route>, category: Seq<char>) -> Option<int> {
    if exists|i: int| 0 <= i < routes.len() && routes[i].category@ == category {
        Some(choose|i: int| 0 <= i < routes.len() && routes[i].category@ == category)
    } else {
        None
    }
}

/// The closing of the classification prompt, which fixes the reply format.
pub const CLASSIFY_FORMAT: &'static str = "\n\nRespond with JSON in this exact format:\n{\n    \"category\": \"<category_name>\",\n    \"confidence\": <0.0-1.0>,\n    \"reasoning\": \"<brief explanation>\"\n}";

/// The classification prompt: the categories, one per line, and the input.
pub open spec fn classify_prompt_text(routes: Seq<Route>, input: Seq<char>) -> Seq<char> {
    "Classify the following input into one of these categories:\n"@ + joined(
        routes.map_values(|r: Route| "- "@ + r.category@ + ": "@ + r.description@),
        "\n"@,
    ) + "\n\nInput: "@ + input + CLASSIFY_FORMAT@
}

/// Sends each input to the handler of its category.
pub struct Router {
    pub model: String,
    pub routes: Vec<Route>,
    pub has_fallback: bool,
}

impl Router {
    /// A router with no routes and no fallback, using `model`.
    pub fn new(model: String) -> (r: Router)
        ensures
            r.model == model,
            r.routes@.len() == 0,
            !r.has_fallback,
    {
        Router { model, routes: Vec::new(), has_fallback: false }
    }

    /// Each category has one route.
    pub open spec fn well_formed(&self) -> bool {
        categories_unique(self.routes@)
    }

    fn find_route(&self, category: &str) -> (r: Option<usize>)
        requires
            self.well_formed(),
        ensures
            match r {
                Some(i) => i < self.routes@.len() && route_of(self.routes@, category@) == Some(i as int),
                None => route_of(self.routes@, category@) is None,
            },
    {
        let mut i: usize = 0;
        while i < self.routes.len()
            invariant
                categories_unique(self.routes@),
                i <= self.routes.len(),
                forall|j: int| 0 <= j < i ==> self.routes@[j].category@ != category@,
            decreases self.routes.len() - i,
        {
            if str_eq(self.routes[i].category.as_str(), category) {
                proof {
                    assert(0 <= i < self.routes@.len() && self.routes@[i as int].category@ == category@);
                    let c = choose|j: int| 0 <= j < self.routes@.len() && self.routes@[j].category@ == category@;
                    if c != i as int {
                        assert(self.routes@[c].category@ != self.routes@[i as int].category@);
                    }
                }
                return Some(i);
            }
            i += 1;
        }
        None
    }

    /// Adds a route, replacing the route of the same category.
    pub fn add_route(&mut self, route: Route)
        requires
            old(self).well_formed(),
        ensures
            final(self).well_formed(),
            final(self).model == old(self).model,
            final(self).has_fallback == old(self).has_fallback,
            match route_of(old(self).routes@, route.category@) {
                Some(i) => final(self).routes@ == old(self).routes@.update(i, route),
                None => final(self).routes@ == old(self).routes@.push(route),
            },
    {
        match self.find_route(route.category.as_str()) {
            Some(i) => {
                let ghost before = self.routes@;
                self.routes[i] = route;
                assert forall|a: int, b: int|
                    0 <= a < self.routes@.len() && 0 <= b < self.routes@.len() && a != b
                    implies #[trigger] self.routes@[a].category@ != #[trigger] self.routes@[b].category@ by {
                    if a != i && b != i {
                        assert(before[a].category@ != before[b].category@);
                    }
                }
            },
            None => {
                let ghost before = self.routes@;
                self.routes.push(route);
                assert forall|a: int, b: int|
                    0 <= a < self.routes@.len() && 0 <= b < self.routes@.len() && a != b
                    implies #[trigger] self.routes@[a].category@ != #[trigger] self.routes@[b].category@ by {
                    if a < before.len() && b < before.len() {
                        assert(before[a].category@ != before[b].category@);
                    } else if a < before.len() {
                        assert(before[a].category@ != self.routes@[b].category@);
                    } else {
                        assert(before[b].category@ != self.routes@[a].category@);
                    }
                }
            },
        }
    }

    /// Declares that a fallback handler is set.
    pub fn set_fallback(&mut self)
        ensures
            final(self).has_fallback,
            final(self).model == old(self).model,
            final(self).routes == old(self).routes,
    {
        self.has_fallback = true;
    }

    /// The request that classifies `input`.
    pub fn classify_request(&self, input: &str) -> (r: CompletionRequest)
        ensures
            r.messages@.len() == 1,
            r.messages@[0].content@ == classify_prompt_text(self.routes@, input@),
            r.messages@[0].role == Role::User,
            r.system is None,
            r.model@ == self.model@,
            r.max_tokens == 256,
            r.temperature_milli is None,
    {
        let mut lines: Vec<String> = Vec::new();
        let mut k: usize = 0;
        while k < self.routes.len()
            invariant
                k <= self.routes.len(),
                lines.len() == k,
                forall|j: int| 0 <= j < k ==> #[trigger] lines@[j]@
                    == "- "@ + self.routes@[j].category@ + ": "@ + self.routes@[j].description@,
            decreases self.routes.len() - k,
        {
            let mut line = concat("- ", self.routes[k].category.as_str());
            line.append(": ");
            line.append(self.routes[k].description.as_str());
            lines.push(line);
            k += 1;
        }
        assert(views(lines@) =~= self.routes@.map_values(|r: Route| "- "@ + r.category@ + ": "@ + r.description@));
        let mut prompt = String::from_str("Classify the following input into one of these categories:\n");
        let listed = join(&lines, "\n");
        prompt.append(listed.as_str());
        prompt.append("\n\nInput: ");
        prompt.append(input);
        prompt.append(CLASSIFY_FORMAT);
        single_prompt(prompt, self.model.as_str(), 256)
    }

    /// Where a classified input goes. Below the confidence threshold it goes
    /// to the fallback, or fails for low confidence; otherwise to the route of
    /// its category, or, where there is none, to the fallback, or fails naming
    /// the category.
    pub fn decide(&self, classification: &ClassificationResult, threshold: u64) -> (r: Result<RouteDecision, RouteError>)
        requires
            self.well_formed(),
        ensures
            classification.confidence < threshold ==> if self.has_fallback {
                r == Ok::<RouteDecision, RouteError>(RouteDecision::Fallback)
            } else {
                r is Err && r->Err_0 is LowConfidence && r->Err_0->LowConfidence_0 == classification.confidence
            },
            classification.confidence >= threshold ==> match route_of(self.routes@, classification.category@) {
                Some(i) => r == Ok::<RouteDecision, RouteError>(RouteDecision::Handler(i as usize)),
                None => if self.has_fallback {
                    r == Ok::<RouteDecision, RouteError>(RouteDecision::Fallback)
                } else {
                    r is Err && r->Err_0 is UnknownCategory
                        && r->Err_0->UnknownCategory_0@ == classification.category@
                },
            },
    {
        if classification.confidence < threshold {
            if self.has_fallback {
                return Ok(RouteDecision::Fallback);
            }
            return Err(RouteError::LowConfidence(classification.confidence));
        }
        match self.find_route(classification.category.as_str()) {
            Some(i) => Ok(RouteDecision::Handler(i)),
            None => {
                if self.has_fallback {
                    Ok(RouteDecision::Fallback)
                } else {
                    Err(RouteError::UnknownCategory(classification.category.clone()))
                }
            },
        }
    }
}

/// How complex a task is.
#[derive(Debug, Clone, Copy, PartialEq, Eq, Structural)]
pub enum Complexity {
    Simple,
    Moderate,
    Complex,
}

/// The complexity a lower-cased, trimmed answer names; moderate for any
/// other answer.
pub open spec fn complexity_named(t: Seq<char>) -> Complexity {
    if t == "simple"@ {
        Complexity::Simple
    } else if t == "complex"@ {
        Complexity::Complex
    } else {
        Complexity::Moderate
    }
}

/// The complexity an answer names, read lower-cased and trimmed.
pub fn complexity_from_answer(lowered: &str) -> (r: Complexity)
    ensures
        r == complexity_named(trimmed(lowered@)),
{
    let cs = chars_of(lowered);
    let t = trim_chars(cs.as_slice());
    let text = crate::text::string_of(t.as_slice());
    if str_eq(text.as_str(), "simple") {
        Complexity::Simple
    } else if str_eq(text.as_str(), "complex") {
        Complexity::Complex
    } else {
        Complexity::Moderate
    }
}

/// The complexity the classifier's reply names (see [`complexity_named`]).
pub fn assess_complexity(response: &str) -> (r: Complexity)
    ensures
        r == complexity_named(trimmed(lower_of(response@))),
{
    let lowered = lowercase(response);
    complexity_from_answer(lowered.as_str())
}


/// The closing of the complexity prompt.
pub const COMPLEXITY_FORMAT: &'static str = "\n\nRespond with just one word: Simple, Moderate, or Complex";

/// The opening of the complexity prompt.
pub const COMPLEXITY_HEAD: &'static str = "Assess the complexity of the following task on a scale:\n- Simple: Factual lookup, simple formatting, basic questions\n- Moderate: Analysis, summarization, code review\n- Complex: Multi-step reasoning, creative writing, complex coding\n\nTask: ";

/// Picks a model by how complex a task is, from one model per complexity.
pub struct ModelRouter {
    pub classification_model: String,
    pub simple_model: String,
    pub moderate_model: String,
    pub complex_model: String,
}

impl ModelRouter {
    pub fn new(classification_model: String, simple_model: String, moderate_model: String, complex_model: String) -> (r: ModelRouter)
        ensures
            r.classification_model == classification_model,
            r.simple_model == simple_model,
            r.moderate_model == moderate_model,
            r.complex_model == complex_model,
    {
        ModelRouter { classification_model, simple_model, moderate_model, complex_model }
    }

    /// The model for each complexity.
    pub open spec fn model_for(&self, c: Complexity) -> Seq<char> {
        match c {
            Complexity::Simple => self.simple_model@,
            Complexity::Moderate => self.moderate_model@,
            Complexity::Complex => self.complex_model@,
        }
    }

    /// The request that asks how complex `input` is.
    pub fn assess_request(&self, input: &str) -> (r: CompletionRequest)
        ensures
            r.messages@.len() == 1,
            r.messages@[0].content@ == COMPLEXITY_HEAD@ + input@ + COMPLEXITY_FORMAT@,
            r.messages@[0].role == Role::User,
            r.system is None,
            r.model@ == self.classification_model@,
            r.max_tokens == 10,
            r.temperature_milli is None,
    {
        let mut prompt = concat(COMPLEXITY_HEAD, input);
        prompt.append(COMPLEXITY_FORMAT);
        single_prompt(prompt, self.classification_model.as_str(), 10)
    }

    /// The request that runs `input` on the model for its complexity.
    pub fn route_request(&self, input: &str, complexity: Complexity) -> (r: CompletionRequest)
        ensures
            r.messages@.len() == 1,
            r.messages@[0].content@ == input@,
            r.messages@[0].role == Role::User,
            r.system is None,
            r.model@ == self.model_for(complexity),
            r.max_tokens == 4096,
            r.temperature_milli is None,
    {
        let model = match complexity {
            Complexity::Simple => self.simple_model.as_str(),
            Complexity::Moderate => self.moderate_model.as_str(),
            Complexity::Complex => self.complex_model.as_str(),
        };
        single_prompt(input.to_owned(), model, 4096)
    }
}

} // verus!
