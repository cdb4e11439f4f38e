//! The task-graph orchestrator: a task is decomposed into a graph of subtasks,
//! each run by a worker for its capability in dependency order and fed the
//! outputs of its dependencies, and the outputs are synthesized into one
//! result.
//!
//! The host runs the calls: it sends [`Orchestrator::decompose_request`],
//! decodes the reply (see [`task_array_text`]) and hands it to
//! [`Orchestrator::plan`]; orders the plan with
//! [`crate::graph::topological_sort`]; runs each node with the worker that
//! [`Orchestrator::worker_for`] picks, given [`dependency_results`]; records
//! each outcome with [`GraphRun::record`]; and finally sends
//! [`Orchestrator::synthesis_request`].

use vstd::prelude::*;
use crate::completion::{single_prompt, CompletionRequest, Role};
use crate::graph::Subtask;
use crate::text::{chars_of, concat, contains, contains_seq, join, joined, lines_from, matches_at, occurs_at, split_lines, str_eq, views};

verus! {

/// A worker of one capability.
pub trait Worker {
    /// The capability tag the worker is registered under.
    spec fn tag(&self) -> Seq<char>;

    /// The capability tag the worker is registered under.
    fn worker_type(&self) -> (r: String)
        ensures
            r@ == self.tag(),
    ;
}

/// A worker that asks the completion service under its own system prompt.
#[derive(Debug, Clone)]
pub struct LLMWorker {
    pub worker_type: String,
    pub system_prompt: String,
    pub model: String,
}

impl Worker for LLMWorker {
    open spec fn tag(&self) -> Seq<char> {
        self.worker_type@
    }

    fn worker_type(&self) -> (r: String) {
        self.worker_type.clone()
    }
}

/// One dependency output as a worker sees it: `[id]: output`.
pub open spec fn dependency_line(d: (String, String)) -> Seq<char> {
    "["@ + d.0@ + "]: "@ + d.1@
}

/// The prompt of a completion-service worker.
pub open spec fn worker_prompt_text(system_prompt: Seq<char>, description: Seq<char>, deps: Seq<(String, String)>) -> Seq<char> {
    system_prompt + "\n\nTask: "@ + description + (if deps.len() == 0 {
        Seq::<char>::empty()
    } else {
        "\n\nContext from previous tasks:\n"@ + joined(deps.map_values(|d: (String, String)| dependency_line(d)), "\n"@)
    }) + "\n\nProvide your result:"@
}

impl LLMWorker {
    pub fn new(worker_type: &str, system_prompt: &str, model: &str) -> (r: LLMWorker)
        ensures
            r.worker_type@ == worker_type@,
            r.system_prompt@ == system_prompt@,
            r.model@ == model@,
    {
        LLMWorker { worker_type: worker_type.to_owned(), system_prompt: system_prompt.to_owned(), model: model.to_owned() }
    }

    /// The prompt for `subtask`, given the outputs of its dependencies.
    pub fn prompt(&self, subtask: &Subtask, deps: &Vec<(String, String)>) -> (r: String)
        ensures
            r@ == worker_prompt_text(self.system_prompt@, subtask.description@, deps@),
    {
        let mut r = concat(self.system_prompt.as_str(), "\n\nTask: ");
        r.append(subtask.description.as_str());
        if deps.len() > 0 {
            let mut lines: Vec<String> = Vec::new();
            let mut k: usize = 0;
            while k < deps.len()
                invariant
                    k <= deps.len(),
                    lines.len() == k,
                    forall|j: int| 0 <= j < k ==> #[trigger] lines@[j]@ == dependency_line(deps@[j]),
                decreases deps.len() - k,
            {
                let mut line = concat("[", deps[k].0.as_str());
                line.append("]: ");
                line.append(deps[k].1.as_str());
                lines.push(line);
                k += 1;
            }
            assert(views(lines@) =~= deps@.map_values(|d: (String, String)| dependency_line(d)));
            r.append("\n\nContext from previous tasks:\n");
            let listed = join(&lines, "\n");
            r.append(listed.as_str());
        }
        r.append("\n\nProvide your result:");
        r
    }

    /// The request that runs `subtask`.
    pub fn request(&self, subtask: &Subtask, deps: &Vec<(String, String)>) -> (r: CompletionRequest)
        ensures
            r.messages@.len() == 1,
            r.messages@[0].content@ == worker_prompt_text(self.system_prompt@, subtask.description@, deps@),
            r.messages@[0].role == Role::User,
            r.system is None,
            r.model@ == self.model@,
            r.max_tokens == 4096,
            r.temperature_milli is None,
    {
        single_prompt(self.prompt(subtask, deps), self.model.as_str(), 4096)
    }
}

/// The outcome of one node.
#[derive(Debug, Clone)]
pub struct WorkerResult {
    pub subtask_id: String,
    pub result: Option<String>,
    pub success: bool,
    pub error: Option<String>,
}

/// What the orchestrator hands back.
#[derive(Debug, Clone)]
pub struct OrchestratorResult {
    pub final_result: String,
    pub subtasks: Vec<Subtask>,
    pub worker_results: Vec<WorkerResult>,
}

/// The output recorded under `id`, if any.
pub open spec fn lookup(results: Seq<(String, String)>, id: Seq<char>) -> Option<Seq<char>>
    decreases results.len(),
{
    if results.len() == 0 {
        None
    } else if results.last().0@ == id {
        Some(results.last().1@)
    } else {
        lookup(results.drop_last(), id)
    }
}

/// The outputs of a node's declared dependencies that have one, in declared
/// order; a dependency that failed or never ran is left out.
pub open spec fn gathered(deps: Seq<String>, results: Seq<(String, String)>) -> Seq<(Seq<char>, Seq<char>)>
    decreases deps.len(),
{
    if deps.len() == 0 {
        Seq::empty()
    } else {
        let rest = gathered(deps.drop_last(), results);
        match lookup(results, deps.last()@) {
            Some(v) => rest.push((deps.last()@, v)),
            None => rest,
        }
    }
}

/// The views of a list of pairs of strings.
pub open spec fn pair_views(v: Seq<(String, String)>) -> Seq<(Seq<char>, Seq<char>)> {
    v.map_values(|p: (String, String)| (p.0@, p.1@))
}

fn lookup_result(results: &Vec<(String, String)>, id: &str) -> (r: Option<String>)
    ensures
        match lookup(results@, id@) {
            Some(v) => r is Some && r->0@ == v,
            None => r is None,
        },
{
    let mut k: usize = results.len();
    assert(results@.take(k as int) =~= results@);
    while k > 0
        invariant
            k <= results.len(),
            lookup(results@, id@) == lookup(results@.take(k as int), id@),
        decreases k,
    {
        assert(results@.take(k as int).drop_last() =~= results@.take(k - 1));
        if str_eq(results[k - 1].0.as_str(), id) {
            return Some(results[k - 1].1.clone());
        }
        k -= 1;
    }
    None
}

/// The outputs of the dependencies of `subtask` (see [`gathered`]).
pub fn dependency_results(subtask: &Subtask, results: &Vec<(String, String)>) -> (r: Vec<(String, String)>)
    ensures
        pair_views(r@) == gathered(subtask.dependencies@, results@),
{
    let deps = &subtask.dependencies;
    let mut r: Vec<(String, String)> = Vec::new();
    let mut k: usize = 0;
    while k < deps.len()
        invariant
            k <= deps.len(),
            deps == subtask.dependencies,
            pair_views(r@) == gathered(deps@.take(k as int), results@),
        decreases deps.len() - k,
    {
        assert(deps@.take(k + 1).drop_last() =~= deps@.take(k as int));
        let ghost before = r@;
        match lookup_result(results, deps[k].as_str()) {
            Some(v) => {
                r.push((deps[k].clone(), v));
                assert(pair_views(r@) =~= pair_views(before).push((deps@[k as int]@, r@.last().1@)));
            },
            None => {},
        }
        k += 1;
    }
    assert(deps@.take(deps.len() as int) =~= deps@);
    r
}

/// The state of one run of the graph.
#[derive(Debug, Clone)]
pub struct GraphRun {
    pub results: Vec<(String, String)>,
    pub worker_results: Vec<WorkerResult>,
}

impl GraphRun {
    /// Nothing has run yet.
    pub fn new() -> (r: GraphRun)
        ensures
            r.results@.len() == 0,
            r.worker_results@.len() == 0,
    {
        GraphRun { results: Vec::new(), worker_results: Vec::new() }
    }

    /// Records what the worker made of `subtask`: on success its output
    /// becomes available to later nodes; a failure is recorded and nothing else
    /// changes, so later nodes still run.
    pub fn record(&mut self, subtask: &Subtask, reply: Result<String, String>)
        ensures
            final(self).worker_results@.len() == old(self).worker_results@.len() + 1,
            final(self).worker_results@.take(old(self).worker_results@.len() as int) == old(self).worker_results@,
            final(self).worker_results@.last().subtask_id@ == subtask.id@,
            final(self).worker_results@.last().success == reply is Ok,
            match reply {
                Ok(out) => {
                    &&& final(self).results@ == old(self).results@.push(final(self).results@.last())
                    &&& final(self).results@.last().0@ == subtask.id@
                    &&& final(self).results@.last().1@ == out@
                    &&& final(self).worker_results@.last().result == Some(out)
                    &&& final(self).worker_results@.last().error is None
                },
                Err(e) => {
                    &&& final(self).results == old(self).results
                    &&& final(self).worker_results@.last().result is None
                    &&& final(self).worker_results@.last().error == Some(e)
                },
            },
    {
        match reply {
            Ok(out) => {
                self.results.push((subtask.id.clone(), out.clone()));
                self.worker_results.push(WorkerResult {
                    subtask_id: subtask.id.clone(),
                    result: Some(out),
                    success: true,
                    error: None,
                });
            },
            Err(e) => {
                self.worker_results.push(WorkerResult {
                    subtask_id: subtask.id.clone(),
                    result: None,
                    success: false,
                    error: Some(e),
                });
            },
        }
    }
}

/// Decomposes tasks and delegates the parts to workers.
pub struct Orchestrator {
    pub model: String,
    pub worker_types: Vec<String>,
}

/// A registry with each capability once.
pub open spec fn types_unique(ts: Seq<String>) -> bool {
    forall|i: int, j: int| 0 <= i < ts.len() && 0 <= j < ts.len() && i != j ==> #[trigger] ts[i]@ != #[trigger] ts[j]@
}

/// The registered worker for `tag`, if any.
pub open spec fn registered(ts: Seq<String>, tag: Seq<char>) -> Option<int> {
    if exists|i: int| 0 <= i < ts.len() && ts[i]@ == tag {
        Some(choose|i: int| 0 <= i < ts.len() && ts[i]@ == tag)
    } else {
        None
    }
}

/// The prompt that asks for a task graph.
pub open spec fn decompose_prompt_text(task: Seq<char>, types: Seq<String>) -> Seq<char> {
    "Break the following task into subtasks that can be delegated to specialized workers.\n\nTask: "@ + task
        + "\n\nAvailable worker types: "@ + joined(views(types), ", "@) + DECOMPOSE_FORMAT@
}

/// The closing of the decomposition prompt, which fixes the reply format.
pub const DECOMPOSE_FORMAT: &'static str = "\n\nRespond with JSON array of subtasks:\n[\n  {\n    \"id\": \"subtask_1\",\n    \"description\": \"What needs to be done\",\n    \"worker_type\": \"worker_type\",\n    \"dependencies\": []\n  },\n  {\n    \"id\": \"subtask_2\",\n    \"description\": \"Another task\",\n    \"worker_type\": \"worker_type\",\n    \"dependencies\": [\"subtask_1\"]\n  }\n]\n\nOnly include the JSON array, no other text.";

/// The synthesis prompt: the task and every output, under its node's id.
pub open spec fn synthesis_prompt_text(task: Seq<char>, results: Seq<(String, String)>) -> Seq<char> {
    "Synthesize these subtask results into a cohesive final result.\n\nOriginal Task: "@ + task
        + "\n\nSubtask Results:\n"@ + joined(
        results.map_values(|p: (String, String)| "### "@ + p.0@ + "\n"@ + p.1@),
        "\n\n"@,
    ) + "\n\nProvide a well-organized final result that addresses the original task:"@
}

impl Orchestrator {
    /// An orchestrator with no workers, using `model`.
    pub fn new(model: String) -> (r: Orchestrator)
        ensures
            r.model == model,
            r.worker_types@.len() == 0,
    {
        Orchestrator { model, worker_types: Vec::new() }
    }

    /// The registry holds each capability once.
    pub open spec fn well_formed(&self) -> bool {
        types_unique(self.worker_types@)
    }

    /// Registers `worker` under its capability; registering a capability
    /// again leaves the registry as it was.
    pub fn register_worker<W: Worker>(&mut self, worker: &W)
        requires
            old(self).well_formed(),
        ensures
            final(self).well_formed(),
            final(self).model == old(self).model,
            match registered(old(self).worker_types@, worker.tag()) {
                Some(_) => final(self).worker_types == old(self).worker_types,
                None => final(self).worker_types@.len() == old(self).worker_types@.len() + 1
                    && final(self).worker_types@.take(old(self).worker_types@.len() as int) == old(self).worker_types@
                    && final(self).worker_types@.last()@ == worker.tag(),
            },
    {
        let tag = worker.worker_type();
        match self.worker_index(tag.as_str()) {
            Some(_) => {},
            None => {
                let ghost before = self.worker_types@;
                self.worker_types.push(tag);
                assert(self.worker_types@.take(before.len() as int) =~= before);
                assert forall|i: int, j: int|
                    0 <= i < self.worker_types@.len() && 0 <= j < self.worker_types@.len() && i != j
                    implies #[trigger] self.worker_types@[i]@ != #[trigger] self.worker_types@[j]@ by {
                    if i < before.len() && j < before.len() {
                        assert(before[i]@ != before[j]@);
                    }
                }
            },
        }
    }

    /// The position of the worker registered for `tag`, if any.
    pub fn worker_index(&self, tag: &str) -> (r: Option<usize>)
        requires
            self.well_formed(),
        ensures
            match r {
                Some(i) => i < self.worker_types@.len() && registered(self.worker_types@, tag@) == Some(i as int),
                None => registered(self.worker_types@, tag@) is None,
            },
    {
        let mut i: usize = 0;
        while i < self.worker_types.len()
            invariant
                types_unique(self.worker_types@),
                i <= self.worker_types.len(),
                forall|j: int| 0 <= j < i ==> self.worker_types@[j]@ != tag@,
            decreases self.worker_types.len() - i,
        {
            if str_eq(self.worker_types[i].as_str(), tag) {
                proof {
                    assert(0 <= i < self.worker_types@.len() && self.worker_types@[i as int]@ == tag@);
                    let c = choose|j: int| 0 <= j < self.worker_types@.len() && self.worker_types@[j]@ == tag@;
                    if c != i as int {
                        assert(self.worker_types@[c]@ != self.worker_types@[i as int]@);
                    }
                }
                return Some(i);
            }
            i += 1;
        }
        None
    }

    /// The request that asks for a task graph, naming the registered
    /// capabilities.
    pub fn decompose_request(&self, task: &str) -> (r: CompletionRequest)
        ensures
            r.messages@.len() == 1,
            r.messages@[0].content@ == decompose_prompt_text(task@, self.worker_types@),
            r.messages@[0].role == Role::User,
            r.system is None,
            r.model@ == self.model@,
            r.max_tokens == 2048,
            r.temperature_milli is None,
    {
        let mut prompt = concat(
            "Break the following task into subtasks that can be delegated to specialized workers.\n\nTask: ",
            task,
        );
        prompt.append("\n\nAvailable worker types: ");
        let listed = join(&self.worker_types, ", ");
        prompt.append(listed.as_str());
        prompt.append(DECOMPOSE_FORMAT);
        single_prompt(prompt, self.model.as_str(), 2048)
    }

    /// The graph to run: the decoded graph where the reply could be decoded;
    /// otherwise a single node `main` covering the whole task, under the
    /// first registered capability, or `general` where none is registered.
    pub fn plan(&self, task: &str, decoded: Option<Vec<Subtask>>) -> (r: Vec<Subtask>)
        ensures
            decoded is Some ==> r == decoded->0,
            decoded is None ==> {
                &&& r@.len() == 1
                &&& r@[0].id@ == "main"@
                &&& r@[0].description@ == task@
                &&& r@[0].worker_type@ == if self.worker_types@.len() > 0 {
                    self.worker_types@[0]@
                } else {
                    "general"@
                }
                &&& r@[0].dependencies@.len() == 0
            },
    {
        match decoded {
            Some(v) => v,
            None => {
                let worker_type = if self.worker_types.len() > 0 {
                    self.worker_types[0].clone()
                } else {
                    String::from_str("general")
                };
                let mut r: Vec<Subtask> = Vec::new();
                r.push(Subtask {
                    id: String::from_str("main"),
                    description: task.to_owned(),
                    worker_type,
                    dependencies: Vec::new(),
                });
                r
            },
        }
    }

    /// The registered worker for the node's capability; `None` where none is
    /// registered, and the node goes to [`Orchestrator::default_worker`].
    pub fn worker_for(&self, subtask: &Subtask) -> (r: Option<usize>)
        requires
            self.well_formed(),
        ensures
            match r {
                Some(i) => i < self.worker_types@.len() && registered(self.worker_types@, subtask.worker_type@) == Some(i as int),
                None => registered(self.worker_types@, subtask.worker_type@) is None,
            },
    {
        self.worker_index(subtask.worker_type.as_str())
    }

    /// The worker for a capability that has none registered: the completion
    /// service, told that it is a specialist of that capability.
    pub fn default_worker(&self, subtask: &Subtask) -> (r: LLMWorker)
        ensures
            r.worker_type@ == subtask.worker_type@,
            r.system_prompt@ == "You are a "@ + subtask.worker_type@ + " specialist."@,
            r.model@ == self.model@,
    {
        let mut system_prompt = concat("You are a ", subtask.worker_type.as_str());
        system_prompt.append(" specialist.");
        LLMWorker { worker_type: subtask.worker_type.clone(), system_prompt, model: self.model.clone() }
    }

    /// The request that synthesizes the outputs into one result.
    pub fn synthesis_request(&self, task: &str, results: &Vec<(String, String)>) -> (r: CompletionRequest)
        ensures
            r.messages@.len() == 1,
            r.messages@[0].content@ == synthesis_prompt_text(task@, results@),
            r.messages@[0].role == Role::User,
            r.system is None,
            r.model@ == self.model@,
            r.max_tokens == 4096,
            r.temperature_milli is None,
    {
        let mut sections: Vec<String> = Vec::new();
        let mut k: usize = 0;
        while k < results.len()
            invariant
                k <= results.len(),
                sections.len() == k,
                forall|j: int| 0 <= j < k ==> #[trigger] sections@[j]@ == "### "@ + results@[j].0@ + "\n"@ + results@[j].1@,
            decreases results.len() - k,
        {
            let mut s = concat("### ", results[k].0.as_str());
            s.append("\n");
            s.append(results[k].1.as_str());
            sections.push(s);
            k += 1;
        }
        assert(views(sections@) =~= results@.map_values(|p: (String, String)| "### "@ + p.0@ + "\n"@ + p.1@));
        let mut prompt = concat("Synthesize these subtask results into a cohesive final result.\n\nOriginal Task: ", task);
        prompt.append("\n\nSubtask Results:\n");
        let listed = join(&sections, "\n\n");
        prompt.append(listed.as_str());
        prompt.append("\n\nProvide a well-organized final result that addresses the original task:");
        single_prompt(prompt, self.model.as_str(), 4096)
    }
}

/// The lines from the first that opens a bracket on.
pub open spec fn from_bracket(ls: Seq<Seq<char>>) -> Seq<Seq<char>>
    decreases ls.len(),
{
    if ls.len() == 0 {
        ls
    } else if ls[0].len() > 0 && ls[0][0] == '[' {
        ls
    } else {
        from_bracket(ls.skip(1))
    }
}

/// The lines up to, not including, the first that opens a code fence.
pub open spec fn before_fence(ls: Seq<Seq<char>>) -> Seq<Seq<char>>
    decreases ls.len(),
{
    if ls.len() == 0 {
        ls
    } else if occurs_at(ls[0], crate::agent::FENCE@, 0) {
        Seq::empty()
    } else {
        seq![ls[0]] + before_fence(ls.skip(1))
    }
}

/// The text to decode as a task graph: where the reply holds a code fence, its
/// lines from the first that opens a bracket up to the next fence line;
/// otherwise the reply itself.
pub open spec fn task_array_text(s: Seq<char>) -> Seq<char> {
    if contains_seq(s, crate::agent::FENCE@) {
        joined(before_fence(from_bracket(lines_from(s, 0))), "\n"@)
    } else {
        s
    }
}

fn first_bracket_line(lines: &Vec<String>) -> (a: usize)
    ensures
        a <= lines.len(),
        from_bracket(views(lines@)) == views(lines@).skip(a as int),
{
    let ghost ls = views(lines@);
    let mut a: usize = 0;
    assert(ls.skip(0) =~= ls);
    loop
        invariant
            ls == views(lines@),
            a <= lines.len(),
            from_bracket(ls) == from_bracket(ls.skip(a as int)),
        decreases lines.len() - a,
    {
        if a == lines.len() {
            return a;
        }
        let first = chars_of(lines[a].as_str());
        assert(ls.skip(a as int)[0] == first@);
        if first.len() > 0 && first[0] == '[' {
            return a;
        }
        assert(ls.skip(a as int).skip(1) =~= ls.skip(a + 1));
        a += 1;
    }
}

fn lines_before_fence(lines: &Vec<String>, a: usize) -> (r: Vec<String>)
    requires
        a <= lines.len(),
    ensures
        views(r@) == before_fence(views(lines@).skip(a as int)),
{
    let ghost ls = views(lines@);
    let fence = chars_of(crate::agent::FENCE);
    let mut kept: Vec<String> = Vec::new();
    let mut b = a;
    assert(views(kept@) + before_fence(ls.skip(a as int)) =~= before_fence(ls.skip(a as int)));
    loop
        invariant
            ls == views(lines@),
            fence@ == crate::agent::FENCE@,
            a <= b <= lines.len(),
            before_fence(ls.skip(a as int)) == views(kept@) + before_fence(ls.skip(b as int)),
        decreases lines.len() - b,
    {
        if b == lines.len() {
            assert(views(kept@) + before_fence(ls.skip(b as int)) =~= views(kept@));
            return kept;
        }
        let line = chars_of(lines[b].as_str());
        assert(ls.skip(b as int)[0] == line@);
        if matches_at(line.as_slice(), fence.as_slice(), 0) {
            assert(views(kept@) + before_fence(ls.skip(b as int)) =~= views(kept@));
            return kept;
        }
        let ghost before = views(kept@);
        kept.push(lines[b].clone());
        assert(ls.skip(b as int).skip(1) =~= ls.skip(b + 1));
        assert(views(kept@) + before_fence(ls.skip(b + 1)) =~= before + (seq![line@] + before_fence(ls.skip(b + 1))));
        b += 1;
    }
}

/// The text to decode as a task graph (see [`task_array_text`]).
pub fn extract_task_array(response: &str) -> (r: String)
    ensures
        r@ == task_array_text(response@),
{
    let cs = chars_of(response);
    let fence = chars_of(crate::agent::FENCE);
    if !contains(cs.as_slice(), fence.as_slice()) {
        return response.to_owned();
    }
    let lines = split_lines(response);
    let a = first_bracket_line(&lines);
    let kept = lines_before_fence(&lines, a);
    join(&kept, "\n")
}

} // verus!
