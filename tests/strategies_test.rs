use agent_patterns::agent::{
    clean_json, ActionKind, AgentAction, AgentState, AgentTool, AutonomousAgent, ParameterDef,
};
use agent_patterns::chain::{ChainError, ChainStep, PromptChain, Processor, TemplatePart, Validator};
use agent_patterns::completion::Role;
use agent_patterns::evaluator::{
    milli_decimal, parse_confidence_response, parse_evaluation_json, ConfidenceRun, EvaluationCriterion,
    EvaluatorOptimizer,
};
use agent_patterns::fanout::{
    code_review_result, code_review_subtasks, fan_in, is_safe_vote, parse_vote, safety_tally, tally_votes,
    check_outcome, safety_vote_of, GuardrailsParallelizer, Subtask, SubtaskResult, VotingParallelizer,
};
use agent_patterns::graph::{topological_sort, GraphError, Subtask as Node};
use agent_patterns::orchestrator::{dependency_results, extract_task_array, GraphRun, LLMWorker, Orchestrator};
use agent_patterns::protocol::{extract_json_list, extract_json_number, extract_json_string, parse_micros};
use agent_patterns::router::{
    assess_complexity, parse_classification_json, ClassificationResult, Complexity, ModelRouter, Route,
    RouteDecision, RouteError, Router,
};
use agent_patterns::text::{decimal_text, replace_all};

#[test]
fn test_parameter_def() {
    let param = ParameterDef {
        param_type: "string".to_string(),
        description: "Test param".to_string(),
        required: true,
    };
    assert!(param.required);
}

#[test]
fn test_agent_state_default() {
    let state = AgentState::default();
    assert_eq!(state.total_steps, 0);
    assert!(!state.is_complete);
}

#[test]
fn test_validator() {
    let validator = Validator::ContainsAll(vec!["1.".to_string(), "2.".to_string()]);
    assert!(validator.check("1. First item\n2. Second item"));
    assert!(!validator.check("No numbers here"));
}

#[test]
fn test_complexity_enum() {
    assert_ne!(Complexity::Simple, Complexity::Complex);
}

#[test]
fn test_parse_confidence() {
    let text = "Here is my answer.\n\nCONFIDENCE: 0.85";
    let (output, confidence) = parse_confidence_response(text);
    assert!(!output.contains("CONFIDENCE"));
    assert!(((confidence as f64) / 1_000_000.0 - 0.85).abs() < 0.01);
}

#[test]
fn test_evaluation_criterion() {
    let criterion = EvaluationCriterion {
        name: "test".to_string(),
        description: "Test criterion".to_string(),
        weight_milli: 1000,
    };
    assert_eq!(criterion.name, "test");
}

#[test]
fn test_parse_classification() {
    let json = r#"{"category": "technical", "confidence": 0.85, "reasoning": "test"}"#;
    let result = parse_classification_json(json);
    assert_eq!(result.category, "technical");
    assert!(((result.confidence as f64) / 1_000_000.0 - 0.85).abs() < 0.01);
}

#[test]
fn test_subtask_result_creation() {
    let result = SubtaskResult {
        name: "test".to_string(),
        result: Some("output".to_string()),
        success: true,
        error: None,
        duration_ms: 100,
    };
    assert!(result.success);
    assert_eq!(result.name, "test");
}

fn step(name: &str, template: Vec<TemplatePart>, validator: Option<Validator>) -> ChainStep {
    ChainStep { name: name.to_string(), prompt_template: template, validator, processor: None }
}

#[test]
fn test_chain_execution() {
    let mut chain = PromptChain::new("model".to_string());
    chain.add_step(step(
        "outline",
        vec![TemplatePart::Text("Outline: ".to_string()), TemplatePart::Context("topic".to_string())],
        Some(Validator::ContainsAll(vec!["1.".to_string()])),
    ));
    chain.add_step(ChainStep {
        name: "draft".to_string(),
        prompt_template: vec![TemplatePart::Text("Expand: ".to_string()), TemplatePart::Context("outline".to_string())],
        validator: None,
        processor: Some(Processor::Trim),
    });
    let mut run = chain.start(vec![("topic".to_string(), "AI".to_string())]);
    let first = chain.next_request(&run).unwrap();
    assert_eq!(first.messages[0].content, "Outline: AI");
    chain.advance(&mut run, Ok("  1. Intro  ".to_string()));
    let second = chain.next_request(&run).unwrap();
    assert_eq!(second.messages[0].content, "Expand:   1. Intro  ");
    chain.advance(&mut run, Ok("Article".to_string()));
    assert!(chain.next_request(&run).is_none());
    assert_eq!(chain.history().len(), 2);
    assert_eq!(chain.outcome(run).unwrap(), "Article");
    let again = chain.start(Vec::new());
    assert!(chain.history().is_empty());
    assert_eq!(again.next_step, 0);
}

#[test]
fn chain_stops_at_failed_validation() {
    let mut chain = PromptChain::new("model".to_string());
    chain.add_step(step("first", vec![TemplatePart::Text("a".to_string())], Some(Validator::MoreWordsThan(1000))));
    chain.add_step(step("second", vec![TemplatePart::Text("b".to_string())], None));
    let mut run = chain.start(Vec::new());
    chain.advance(&mut run, Ok("too short".to_string()));
    assert!(chain.next_request(&run).is_none());
    assert!(chain.history().is_empty());
    match chain.outcome(run) {
        Err(ChainError::Validation { step, preview }) => {
            assert_eq!(step, "first");
            assert_eq!(preview, "too short");
        },
        other => panic!("unexpected {:?}", other),
    }
}

#[test]
fn chain_reports_completion_failure() {
    let mut chain = PromptChain::new("model".to_string());
    chain.add_step(step("only", vec![], None));
    let mut run = chain.start(Vec::new());
    chain.advance(&mut run, Err("timeout".to_string()));
    assert!(matches!(chain.outcome(run), Err(ChainError::Completion { .. })));
}

#[test]
fn chain_preview_is_truncated() {
    let mut chain = PromptChain::new("model".to_string());
    chain.add_step(step("s", vec![], Some(Validator::ContainsAll(vec!["zzz".to_string()]))));
    let mut run = chain.start(Vec::new());
    chain.advance(&mut run, Ok("x".repeat(150)));
    match chain.outcome(run) {
        Err(ChainError::Validation { preview, .. }) => assert_eq!(preview.chars().count(), 100),
        other => panic!("unexpected {:?}", other),
    }
}

#[test]
fn fan_in_keeps_every_outcome() {
    let subtasks: Vec<Subtask> = (0..4).map(|i| Subtask { name: format!("t{}", i), prompt: "p".to_string() }).collect();
    let replies = vec![Ok("a".to_string()), Err("boom".to_string()), Ok("c".to_string()), Err("late".to_string())];
    let results = fan_in(&subtasks, &replies, &vec![5, 6, 7, 8]);
    assert_eq!(results.len(), 4);
    assert_eq!(results.iter().filter(|r| !r.success).count(), 2);
    assert_eq!(results.iter().filter(|r| r.success).count(), 2);
    assert_eq!(results[1].error.as_deref(), Some("boom"));
    assert_eq!(results[2].result.as_deref(), Some("c"));
}

#[test]
fn code_review_gathers_analyses() {
    let subtasks = code_review_subtasks("fn f() {}");
    assert_eq!(subtasks.len(), 4);
    assert_eq!(subtasks[3].name, "bugs");
    assert!(subtasks[0].prompt.starts_with("Analyze this code for security vulnerabilities:\n```\nfn f() {}\n```\n"));
    let replies = vec![Ok("sec".to_string()), Err("x".to_string()), Ok("main".to_string()), Ok("bug".to_string())];
    let results = fan_in(&subtasks, &replies, &vec![10, 40, 20, 30]);
    let review = code_review_result(&results);
    assert_eq!(review.security_analysis, "sec");
    assert_eq!(review.performance_analysis, "");
    assert_eq!(review.maintainability_analysis, "main");
    assert_eq!(review.bug_analysis, "bug");
    assert_eq!(review.total_duration_ms, 40);
}

#[test]
fn votes_one_one_two_reach_consensus() {
    let options = vec!["A".to_string(), "B".to_string()];
    let votes: Vec<Option<usize>> = ["1", "1", "2"].iter().map(|r| parse_vote(r, 2)).collect();
    let result = tally_votes(&options, &votes);
    assert_eq!(result.winning_index, 0);
    assert_eq!(result.winning_option, "A");
    assert_eq!(result.total_votes, 3);
    assert!(result.consensus);
}

#[test]
fn votes_one_two_have_no_consensus() {
    let options = vec!["A".to_string(), "B".to_string()];
    let votes: Vec<Option<usize>> = ["1", "2"].iter().map(|r| parse_vote(r, 2)).collect();
    let result = tally_votes(&options, &votes);
    assert!(!result.consensus);
    assert_eq!(result.winning_index, 0);
    assert_eq!(result.vote_counts[1].votes, 1);
}

#[test]
fn votes_parse_and_tie_break() {
    assert_eq!(parse_vote(" 2\n", 3), Some(1));
    assert_eq!(parse_vote("+3", 3), Some(2));
    assert_eq!(parse_vote("1\u{a0}", 3), Some(0));
    assert_eq!(parse_vote("0", 3), None);
    assert_eq!(parse_vote("4", 3), None);
    assert_eq!(parse_vote("two", 3), None);
    assert_eq!(parse_vote("99999999999999999999999", 3), None);
    let options = vec!["A".to_string(), "B".to_string(), "C".to_string()];
    let result = tally_votes(&options, &vec![Some(2), Some(1), None]);
    assert_eq!(result.winning_index, 1);
    assert_eq!(result.total_votes, 2);
    let empty = tally_votes(&options, &vec![None]);
    assert_eq!(empty.winning_index, 0);
    assert!(!empty.consensus);
}

#[test]
fn vote_request_numbers_options() {
    let voter = VotingParallelizer::new("m".to_string());
    let req = voter.vote_request("Which?", &vec!["Red".to_string(), "Blue".to_string()]);
    assert_eq!(
        req.messages[0].content,
        "Consider this question:\nWhich?\n\nOptions:\n1. Red\n2. Blue\n\nAnalyze carefully and respond with only the number of your chosen option."
    );
    assert_eq!(req.temperature_milli, Some(700));
    assert_eq!(req.max_tokens, 10);
}

#[test]
fn safety_votes() {
    assert!(is_safe_vote("safe"));
    assert!(!is_safe_vote("unsafe"));
    assert!(!is_safe_vote(""));
    assert!(safety_vote_of(&Ok("SAFE".to_string())));
    assert!(!safety_vote_of(&Err("down".to_string())));
    assert!(!check_outcome(3, &Err("down".to_string())).passed);
    let all = safety_tally(&vec![true, true]);
    assert!(all.is_safe && all.unanimous);
    let mixed = safety_tally(&vec![true, false, true]);
    assert!(!mixed.is_safe);
    assert!(!mixed.unanimous);
    assert_eq!((mixed.safe_votes, mixed.unsafe_votes), (2, 1));
    let none = safety_tally(&vec![false, false]);
    assert!(none.unanimous && !none.is_safe);
}

#[test]
fn guardrail_failure_withholds_result() {
    let guard = GuardrailsParallelizer::new("m".to_string(), "small".to_string());
    let checks = vec![check_outcome(0, &Ok("pass".to_string())), check_outcome(1, &Ok("FAIL".to_string())), check_outcome(2, &Ok("Pass.".to_string()))];
    assert_eq!(checks[1].name, "guardrail_1");
    let out = guard.guard(Ok("primary".to_string()), checks).unwrap();
    assert!(out.result.is_none());
    assert!(out.blocked);
    assert_eq!(out.blocking_guardrails, vec!["guardrail_1".to_string()]);
}

#[test]
fn guardrails_release_result_when_all_pass() {
    let guard = GuardrailsParallelizer::new("m".to_string(), "small".to_string());
    let out = guard.guard(Ok("primary".to_string()), vec![check_outcome(0, &Ok("PASS".to_string()))]).unwrap();
    assert_eq!(out.result.as_deref(), Some("primary"));
    assert!(!out.blocked);
    assert!(guard.guard(Err("down".to_string()), Vec::new()).is_err());
    let req = guard.check_request("Is {input} ok? {input}", "x");
    assert_eq!(req.messages[0].content, "Is x ok? x\n\nRespond with only 'PASS' or 'FAIL'.");
    assert_eq!(req.model, "small");
}

fn node(id: &str, deps: &[&str]) -> Node {
    Node {
        id: id.to_string(),
        description: format!("do {}", id),
        worker_type: "general".to_string(),
        dependencies: deps.iter().map(|d| d.to_string()).collect(),
    }
}

#[test]
fn topological_order_respects_dependencies() {
    let nodes = vec![node("c", &["b"]), node("a", &[]), node("b", &["a", "missing"])];
    let sorted = topological_sort(&nodes).unwrap();
    let ids: Vec<&str> = sorted.iter().map(|n| n.id.as_str()).collect();
    assert_eq!(ids, vec!["a", "b", "c"]);
}

#[test]
fn cycle_fails_before_any_node() {
    let nodes = vec![node("a", &["b"]), node("b", &["a"])];
    match topological_sort(&nodes) {
        Err(GraphError::CircularDependency(id)) => assert_eq!(id, "a"),
        other => panic!("unexpected {:?}", other),
    }
    assert!(topological_sort(&vec![node("self", &["self"])]).is_err());
    assert!(topological_sort(&Vec::new()).unwrap().is_empty());
}

#[test]
fn orchestrator_plan_and_run() {
    let mut orch = Orchestrator::new("m".to_string());
    let plan = orch.plan("Write", None);
    assert_eq!(plan[0].id, "main");
    assert_eq!(plan[0].worker_type, "general");
    orch.register_worker(&LLMWorker::new("writer", "You write.", "m"));
    orch.register_worker(&LLMWorker::new("writer", "Again.", "m"));
    assert_eq!(orch.worker_types.len(), 1);
    assert_eq!(orch.plan("Write", None)[0].worker_type, "writer");
    let a = node("a", &[]);
    let b = node("b", &["a", "x"]);
    assert_eq!(orch.worker_for(&a), None);
    assert_eq!(orch.default_worker(&a).system_prompt, "You are a general specialist.");
    let mut run = GraphRun::new();
    run.record(&a, Ok("A out".to_string()));
    let deps = dependency_results(&b, &run.results);
    assert_eq!(deps, vec![("a".to_string(), "A out".to_string())]);
    let worker = LLMWorker::new("general", "Sys", "m");
    assert_eq!(worker.prompt(&b, &deps), "Sys\n\nTask: do b\n\nContext from previous tasks:\n[a]: A out\n\nProvide your result:");
    run.record(&b, Err("fail".to_string()));
    assert_eq!(run.worker_results.len(), 2);
    assert!(!run.worker_results[1].success);
    let synth = orch.synthesis_request("T", &run.results);
    assert!(synth.messages[0].content.contains("### a\nA out"));
}

#[test]
fn task_array_framing() {
    let fenced = "Here:\n```json\n[\n  {\"id\": \"x\"}\n]\n```\nDone";
    assert_eq!(extract_task_array(fenced), "[\n  {\"id\": \"x\"}\n]");
    assert_eq!(extract_task_array("[1]"), "[1]");
}

#[test]
fn evaluator_stops_at_threshold() {
    let mut opt = EvaluatorOptimizer::new("m".to_string());
    let mut run = opt.start();
    let scores = ["0.5", "0.7", "0.9"];
    let mut result = None;
    for (i, s) in scores.iter().enumerate() {
        let eval = parse_evaluation_json(&format!("{{\"overall_score\": {}, \"feedback\": \"f{}\"}}", s, i));
        let output = format!("draft {}", i + 1);
        result = opt.record(&mut run, output, eval, 850_000, 5);
        if result.is_some() {
            break;
        }
    }
    let result = result.unwrap();
    assert_eq!(result.iterations, 3);
    assert!(result.met_threshold);
    assert_eq!(result.final_score, 900_000);
    assert_eq!(result.final_output, "draft 3");
    assert_eq!(opt.history().len(), 3);
}

#[test]
fn evaluator_returns_earliest_best_when_budget_spent() {
    let mut opt = EvaluatorOptimizer::new("m".to_string());
    let mut run = opt.start();
    let mut result = None;
    for (i, s) in ["0.6", "0.8", "0.8"].iter().enumerate() {
        let eval = parse_evaluation_json(&format!("{{\"overall_score\": {}}}", s));
        result = opt.record(&mut run, format!("out {}", i + 1), eval, 950_000, 3);
    }
    let result = result.unwrap();
    assert!(!result.met_threshold);
    assert_eq!(result.iterations, 3);
    assert_eq!(result.final_output, "out 2");
    assert_eq!(result.final_score, 800_000);
}

#[test]
fn evaluator_prompts() {
    let mut opt = EvaluatorOptimizer::new("gen".to_string()).with_evaluator_model("eval".to_string());
    let req = opt.evaluation_request("text");
    assert!(req.messages[0].content.contains("- quality: Overall quality and correctness"));
    assert_eq!(req.model, "eval");
    opt.add_criterion(EvaluationCriterion { name: "clarity".to_string(), description: "Clear".to_string(), weight_milli: 1500 });
    let req = opt.evaluation_request("text");
    assert!(req.messages[0].content.contains("- clarity (weight: 1.5): Clear"));
    assert_eq!(milli_decimal(1000), "1");
    assert_eq!(milli_decimal(2250), "2.25");
    assert_eq!(milli_decimal(5), "0.005");
    let mut run = opt.start();
    let first = opt.generation_request("Task", &run);
    assert_eq!(first.messages[0].content, "Task to carry out:\n\nTask\n\nProvide your best output:");
    let eval = parse_evaluation_json(r#"{"overall_score": 0.1, "feedback": "More", "suggestions": ["a", "b"]}"#);
    assert_eq!(eval.suggestions, vec!["a".to_string(), "b".to_string()]);
    opt.record(&mut run, "v1".to_string(), eval, 900_000, 3);
    let next = opt.generation_request("Task", &run);
    assert!(next.messages[0].content.contains("Previous output:\nv1\n\nPrevious evaluation feedback:\nMore\n\nSpecific suggestions:\n- a\n- b"));
}

#[test]
fn confidence_attempts() {
    let mut run = ConfidenceRun::new();
    assert!(!run.record_attempt("first\nconfidence: 0.4", 800_000));
    assert!(!run.record_attempt("second", 800_000));
    assert_eq!(run.best_confidence, 500_000);
    assert_eq!(run.best_output, "second");
    let result = run.into_result(false);
    assert_eq!(result.attempts.len(), 2);
    assert_eq!(result.output, "second");
    let (out, c) = parse_confidence_response("x\nCONFIDENCE: 7");
    assert_eq!(out, "x");
    assert_eq!(c, 1_000_000);
}

#[test]
fn protocol_fields() {
    let reply = "```json\n{\"feedback\":\"ok\", \"overall_score\":  0.75, \"suggestions\": [\"x\", \"\", \"y\"]}\n```";
    assert_eq!(extract_json_string(reply, "feedback").as_deref(), Some("ok"));
    assert_eq!(extract_json_number(reply, "overall_score"), Some(750_000));
    assert_eq!(extract_json_list(reply, "suggestions"), vec!["x".to_string(), "y".to_string()]);
    assert_eq!(extract_json_number(reply, "missing"), None);
    assert_eq!(extract_json_number("\"s\": 1.2.3", "s"), None);
    assert_eq!(parse_micros(&['.', '5']), Some(500_000));
    assert_eq!(parse_micros(&['5', '.']), Some(5_000_000));
    assert_eq!(parse_micros(&['.']), None);
    assert_eq!(clean_json("Sure:\n```json\n{\"a\": 1}\n```"), "{\"a\": 1}");
    assert_eq!(clean_json("{\"a\": 1}"), "{\"a\": 1}");
}

#[test]
fn text_helpers() {
    assert_eq!(decimal_text(0), "0");
    assert_eq!(decimal_text(120), "120");
    assert_eq!(replace_all("aaa", "aa", "b"), "ba");
}

fn router() -> Router {
    let mut r = Router::new("m".to_string());
    r.add_route(Route { category: "technical".to_string(), description: "Tech".to_string() });
    r.add_route(Route { category: "billing".to_string(), description: "Money".to_string() });
    r
}

fn classified(category: &str, confidence: u64) -> ClassificationResult {
    ClassificationResult { category: category.to_string(), confidence, reasoning: String::new() }
}

#[test]
fn router_dispatches_confident_match() {
    let r = router();
    assert_eq!(r.decide(&classified("billing", 900_000), 700_000).unwrap(), RouteDecision::Handler(1));
}

#[test]
fn router_low_confidence_without_fallback_fails() {
    let r = router();
    match r.decide(&classified("billing", 400_000), 700_000) {
        Err(RouteError::LowConfidence(c)) => assert_eq!(c, 400_000),
        other => panic!("unexpected {:?}", other),
    }
}

#[test]
fn router_fallbacks_and_unknown() {
    let mut r = router();
    assert!(matches!(r.decide(&classified("sales", 900_000), 700_000), Err(RouteError::UnknownCategory(_))));
    r.set_fallback();
    assert_eq!(r.decide(&classified("sales", 900_000), 700_000).unwrap(), RouteDecision::Fallback);
    assert_eq!(r.decide(&classified("billing", 100_000), 700_000).unwrap(), RouteDecision::Fallback);
    assert!(r.classify_request("hi").messages[0].content.contains("- technical: Tech\n- billing: Money"));
    let parsed = parse_classification_json("no json");
    assert_eq!(parsed.confidence, 500_000);
    assert_eq!(parsed.category, "");
}

#[test]
fn complexity_routing() {
    assert_eq!(assess_complexity("  Simple\n"), Complexity::Simple);
    assert_eq!(assess_complexity("COMPLEX"), Complexity::Complex);
    assert_eq!(assess_complexity("hard"), Complexity::Moderate);
    let mr = ModelRouter::new("c".to_string(), "s".to_string(), "m".to_string(), "big".to_string());
    assert_eq!(mr.route_request("x", Complexity::Complex).model, "big");
    assert_eq!(mr.route_request("x", Complexity::Moderate).model, "m");
}

fn action(thought: Option<&str>, name: Option<&str>, result: Option<&str>) -> Option<AgentAction> {
    Some(AgentAction {
        thought: thought.map(|s| s.to_string()),
        action: name.map(|s| s.to_string()),
        args: serde_json::Value::Object(serde_json::Map::new()),
        result: result.map(|s| s.to_string()),
    })
}

#[test]
fn agent_completes_on_first_step() {
    let mut agent = AutonomousAgent::new("m".to_string());
    agent.start("Find");
    assert!(agent.next_turn(5));
    let reply = r#"{"action":"complete","result":"done"}"#;
    agent.process_response(reply, action(None, Some("complete"), Some("done")), None);
    assert!(!agent.next_turn(5));
    let result = agent.finish();
    assert!(result.success);
    assert_eq!(result.final_result, "done");
    assert_eq!(result.total_steps, 1);
    assert_eq!(result.tool_calls, 0);
}

#[test]
fn agent_budget_runs_out() {
    let mut agent = AutonomousAgent::new("m".to_string());
    agent.start("Find");
    while agent.next_turn(2) {
        agent.process_response("thinking...", None, None);
    }
    let result = agent.finish();
    assert!(!result.success);
    assert_eq!(result.final_result, "Task not completed within step limit");
    assert_eq!(result.total_steps, 2);
    assert_eq!(result.action_history.len(), 2);
    assert_eq!(result.action_history[0].action_type, ActionKind::TextResponse);
}

#[test]
fn agent_tool_calls_and_unknown_actions() {
    let mut agent = AutonomousAgent::new("m".to_string());
    agent.register_tool(AgentTool {
        name: "search".to_string(),
        description: "Search".to_string(),
        parameters: vec![("query".to_string(), ParameterDef { param_type: "string".to_string(), description: "Query".to_string(), required: true })],
    });
    agent.start("Find");
    let req = agent.request();
    assert!(req.system.unwrap().contains("- search(query: string (Query)): Search"));
    assert_eq!(req.messages[0].content, "Task: Find");
    assert!(agent.next_turn(5));
    let a = action(Some("look"), Some("search"), None);
    assert_eq!(agent.tool_to_call(&a), Some(0));
    agent.process_response("{...}", a, Some("3 hits".to_string()));
    assert_eq!(agent.state().tool_calls, 1);
    assert_eq!(agent.state().action_history.len(), 2);
    assert_eq!(agent.conversation_history.last().unwrap().content, "Tool result: 3 hits");
    let b = action(None, Some("fly"), None);
    assert_eq!(agent.tool_to_call(&b), None);
    assert!(agent.next_turn(5));
    agent.process_response("fly!", b, None);
    let last = agent.conversation_history.last().unwrap();
    assert_eq!(last.role, Role::User);
    assert_eq!(last.content, "Unknown action: fly. Available tools: search");
    assert!(agent.next_turn(5));
    agent.process_response("no result field", action(None, Some("complete"), None), None);
    assert_eq!(agent.finish().final_result, "no result field");
}
