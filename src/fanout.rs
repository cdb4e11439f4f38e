//! Fan-out and fan-in: independent subtasks run side by side, the outcomes
//! collected without one failure cancelling the others; and the strategies
//! built on that, voting and guardrails.
//!
//! Outcomes are kept in submission order.

use vstd::prelude::*;
use crate::completion::{single_prompt, CompletionRequest, Role};
use crate::text::{
    all_digits, chars_of, concat, contains, contains_seq, decimal, decimal_text, digits_value, join,
    joined, lemma_digits_value_grows, replace_all, replaced, trim_chars, trimmed, upper_of, uppercase,
    views,
};

verus! {

/// One independent subtask: a name and the prompt to send.
#[derive(Debug, Clone)]
pub struct Subtask {
    pub name: String,
    pub prompt: String,
}

/// The outcome of one subtask, with the time it took in milliseconds.
#[derive(Debug, Clone)]
pub struct SubtaskResult {
    pub name: String,
    pub result: Option<String>,
    pub success: bool,
    pub error: Option<String>,
    pub duration_ms: u64,
}

/// The outcome of one subtask, from the reply of the completion service.
pub fn subtask_outcome(name: String, reply: Result<String, String>, duration_ms: u64) -> (r: SubtaskResult)
    ensures
        r.name == name,
        r.success == reply is Ok,
        r.result == match reply {
            Ok(t) => Some(t),
            Err(_) => None::<String>,
        },
        r.error == match reply {
            Ok(_) => None::<String>,
            Err(e) => Some(e),
        },
        r.duration_ms == duration_ms,
{
    match reply {
        Ok(t) => SubtaskResult { name, result: Some(t), success: true, error: None, duration_ms },
        Err(e) => SubtaskResult { name, result: None, success: false, error: Some(e), duration_ms },
    }
}

/// The number of failed outcomes.
pub open spec fn failures(rs: Seq<SubtaskResult>) -> nat
    decreases rs.len(),
{
    if rs.len() == 0 {
        0
    } else {
        failures(rs.drop_last()) + if rs.last().success { 0nat } else { 1nat }
    }
}

/// The number of successful outcomes.
pub open spec fn successes(rs: Seq<SubtaskResult>) -> nat
    decreases rs.len(),
{
    if rs.len() == 0 {
        0
    } else {
        successes(rs.drop_last()) + if rs.last().success { 1nat } else { 0nat }
    }
}

/// The number of failed replies.
pub open spec fn errors(replies: Seq<Result<String, String>>) -> nat
    decreases replies.len(),
{
    if replies.len() == 0 {
        0
    } else {
        errors(replies.drop_last()) + if replies.last() is Ok { 0nat } else { 1nat }
    }
}

/// A copy of a reply.
pub fn copy_reply(reply: &Result<String, String>) -> (r: Result<String, String>)
    ensures
        r == *reply,
{
    match reply {
        Ok(t) => Ok(t.clone()),
        Err(e) => Err(e.clone()),
    }
}

/// The outcomes of all subtasks, in submission order: one for every subtask,
/// whatever became of the others.
pub fn fan_in(subtasks: &Vec<Subtask>, replies: &Vec<Result<String, String>>, durations: &Vec<u64>) -> (r: Vec<SubtaskResult>)
    requires
        subtasks.len() == replies.len(),
        subtasks.len() == durations.len(),
    ensures
        r.len() == subtasks.len(),
        forall|i: int| 0 <= i < r.len() ==> {
            &&& (#[trigger] r@[i]).name == subtasks@[i].name
            &&& r@[i].success == replies@[i] is Ok
            &&& r@[i].duration_ms == durations@[i]
            &&& r@[i].result == match replies@[i] {
                Ok(t) => Some(t),
                Err(_) => None::<String>,
            }
            &&& r@[i].error == match replies@[i] {
                Ok(_) => None::<String>,
                Err(e) => Some(e),
            }
        },
{
    let mut r: Vec<SubtaskResult> = Vec::new();
    let mut k: usize = 0;
    while k < subtasks.len()
        invariant
            subtasks.len() == replies.len(),
            subtasks.len() == durations.len(),
            k <= subtasks.len(),
            r.len() == k,
            forall|i: int| 0 <= i < k ==> {
                &&& (#[trigger] r@[i]).name == subtasks@[i].name
                &&& r@[i].success == replies@[i] is Ok
                &&& r@[i].duration_ms == durations@[i]
                &&& r@[i].result == match replies@[i] {
                    Ok(t) => Some(t),
                    Err(_) => None::<String>,
                }
                &&& r@[i].error == match replies@[i] {
                    Ok(_) => None::<String>,
                    Err(e) => Some(e),
                }
            },
        decreases subtasks.len() - k,
    {
        r.push(subtask_outcome(subtasks[k].name.clone(), copy_reply(&replies[k]), durations[k]));
        k += 1;
    }
    r
}

/// Fan-out keeps every outcome: where `k` of `n` replies failed, the outcomes
/// hold `k` failures and `n - k` successes.
pub proof fn lemma_fan_in_counts(replies: Seq<Result<String, String>>, outcomes: Seq<SubtaskResult>)
    requires
        outcomes.len() == replies.len(),
        forall|i: int| 0 <= i < outcomes.len() ==> (#[trigger] outcomes[i]).success == replies[i] is Ok,
    ensures
        outcomes.len() == replies.len(),
        failures(outcomes) == errors(replies),
        successes(outcomes) == replies.len() - errors(replies),
    decreases replies.len(),
{
    if replies.len() > 0 {
        let o = outcomes.drop_last();
        let r = replies.drop_last();
        assert forall|i: int| 0 <= i < o.len() implies (#[trigger] o[i]).success == r[i] is Ok by {
            assert(outcomes[i].success == replies[i] is Ok);
        }
        lemma_fan_in_counts(r, o);
        assert(outcomes.last().success == replies.last() is Ok);
    }
}

/// Runs subtasks side by side with one model.
pub struct SectioningParallelizer {
    pub model: String,
}

impl SectioningParallelizer {
    pub fn new(model: String) -> (r: SectioningParallelizer)
        ensures
            r.model == model,
    {
        SectioningParallelizer { model }
    }

    /// One request per subtask, in submission order.
    pub fn requests(&self, subtasks: &Vec<Subtask>) -> (r: Vec<CompletionRequest>)
        ensures
            r.len() == subtasks.len(),
            forall|i: int| 0 <= i < r.len() ==> {
                &&& (#[trigger] r@[i]).messages@.len() == 1
                &&& r@[i].messages@[0].content@ == subtasks@[i].prompt@
                &&& r@[i].messages@[0].role == Role::User
                &&& r@[i].system is None
                &&& r@[i].temperature_milli is None
                &&& r@[i].model@ == self.model@
                &&& r@[i].max_tokens == 2048
            },
    {
        let mut r: Vec<CompletionRequest> = Vec::new();
        let mut k: usize = 0;
        while k < subtasks.len()
            invariant
                k <= subtasks.len(),
                r.len() == k,
                forall|i: int| 0 <= i < k ==> {
                    &&& (#[trigger] r@[i]).messages@.len() == 1
                    &&& r@[i].messages@[0].content@ == subtasks@[i].prompt@
                    &&& r@[i].messages@[0].role == Role::User
                    &&& r@[i].system is None
                    &&& r@[i].temperature_milli is None
                    &&& r@[i].model@ == self.model@
                    &&& r@[i].max_tokens == 2048
                },
            decreases subtasks.len() - k,
        {
            r.push(single_prompt(subtasks[k].prompt.clone(), self.model.as_str(), 2048));
            k += 1;
        }
        r
    }
}

/// How many votes name option `i`.
pub open spec fn count_votes(votes: Seq<Option<usize>>, i: int) -> nat
    decreases votes.len(),
{
    if votes.len() == 0 {
        0
    } else {
        count_votes(votes.drop_last(), i) + if votes.last() == Some(i as usize) { 1nat } else { 0nat }
    }
}

/// How many votes name one of the first `n` options.
pub open spec fn valid_votes(votes: Seq<Option<usize>>, n: nat) -> nat
    decreases votes.len(),
{
    if votes.len() == 0 {
        0
    } else {
        valid_votes(votes.drop_last(), n) + match votes.last() {
            Some(v) => if v < n { 1nat } else { 0nat },
            None => 0nat,
        }
    }
}

/// Option `w` has the most votes, and no option before it has as many.
pub open spec fn is_winner(votes: Seq<Option<usize>>, n: nat, w: int) -> bool {
    &&& 0 <= w < n
    &&& forall|i: int| 0 <= i < n ==> #[trigger] count_votes(votes, i) <= count_votes(votes, w)
    &&& forall|i: int| 0 <= i < w ==> #[trigger] count_votes(votes, i) < count_votes(votes, w)
}

/// Votes for one option.
#[derive(Debug, Clone)]
pub struct VoteCount {
    pub option: String,
    pub votes: usize,
}

/// The outcome of a vote.
#[derive(Debug, Clone)]
pub struct VotingResult {
    pub winning_option: String,
    pub winning_index: usize,
    pub vote_counts: Vec<VoteCount>,
    pub total_votes: usize,
    pub consensus: bool,
}

/// The vote a reply casts among `n` options: the reply, trimmed, is a
/// numeral (an optional `+` and digits) between 1 and `n`; the vote is its
/// index from 0.
pub open spec fn vote_of(s: Seq<char>, n: nat) -> Option<nat> {
    let t = trimmed(s);
    let d = if t.len() > 0 && t[0] == '+' { t.skip(1) } else { t };
    if d.len() > 0 && all_digits(d) && 1 <= digits_value(d) <= n {
        Some((digits_value(d) - 1) as nat)
    } else {
        None
    }
}

/// The vote a reply casts among `option_count` options (see [`vote_of`]).
pub fn parse_vote(response: &str, option_count: usize) -> (r: Option<usize>)
    ensures
        match vote_of(response@, option_count as nat) {
            Some(v) => r == Some(v as usize),
            None => r is None,
        },
{
    let cs = chars_of(response);
    let t = trim_chars(cs.as_slice());
    let start: usize = if t.len() > 0 && t[0] == '+' { 1 } else { 0 };
    let ghost d = if t@.len() > 0 && t@[0] == '+' { t@.skip(1) } else { t@ };
    assert(d =~= t@.subrange(start as int, t@.len() as int));
    if start >= t.len() {
        return None;
    }
    let mut acc: usize = 0;
    let mut k: usize = start;
    assert(d.take(0) =~= Seq::<char>::empty());
    while k < t.len()
        invariant
            t@ == trimmed(response@),
            d == if t@.len() > 0 && t@[0] == '+' { t@.skip(1) } else { t@ },
            start <= k <= t.len(),
            d == t@.subrange(start as int, t@.len() as int),
            acc as nat == digits_value(d.take(k - start)),
            acc <= option_count,
            all_digits(d.take(k - start)),
        decreases t.len() - k,
    {
        let c = t[k];
        assert(d[k - start] == c);
        if !('0' <= c && c <= '9') {
            assert(!all_digits(d));
            return None;
        }
        let digit = ((c as u32) - 48u32) as usize;
        let next: u128 = (acc as u128) * 10 + (digit as u128);
        assert(d.take(k - start + 1).drop_last() =~= d.take(k - start));
        assert(next == digits_value(d.take(k - start + 1)));
        if next > option_count as u128 {
            proof {
                if all_digits(d) {
                    lemma_digits_value_grows(d, k - start + 1);
                }
            }
            return None;
        }
        acc = next as usize;
        k += 1;
        assert(all_digits(d.take(k - start)));
    }
    assert(d.take(k - start) =~= d);
    if acc >= 1 {
        Some(acc - 1)
    } else {
        None
    }
}

/// The vote prompt: the question and the numbered options.
pub open spec fn vote_prompt_text(question: Seq<char>, options: Seq<String>) -> Seq<char> {
    "Consider this question:\n"@ + question + "\n\nOptions:\n"@ + joined(
        Seq::new(options.len(), |i: int| decimal((i + 1) as nat) + ". "@ + options[i]@),
        "\n"@,
    ) + "\n\nAnalyze carefully and respond with only the number of your chosen option."@
}

/// The vote prompt (see [`vote_prompt_text`]).
pub fn vote_prompt(question: &str, options: &Vec<String>) -> (r: String)
    requires
        options.len() < usize::MAX,
    ensures
        r@ == vote_prompt_text(question@, options@),
{
    let mut lines: Vec<String> = Vec::new();
    let mut k: usize = 0;
    while k < options.len()
        invariant
            options.len() < usize::MAX,
            k <= options.len(),
            lines.len() == k,
            forall|i: int| 0 <= i < k ==> #[trigger] lines@[i]@ == decimal((i + 1) as nat) + ". "@ + options@[i]@,
        decreases options.len() - k,
    {
        let mut line = decimal_text(k + 1);
        line.append(". ");
        line.append(options[k].as_str());
        lines.push(line);
        k += 1;
    }
    assert(views(lines@) =~= Seq::new(options@.len(), |i: int| decimal((i + 1) as nat) + ". "@ + options@[i]@));
    let mut r = concat("Consider this question:\n", question);
    r.append("\n\nOptions:\n");
    let listed = join(&lines, "\n");
    r.append(listed.as_str());
    r.append("\n\nAnalyze carefully and respond with only the number of your chosen option.");
    r
}

fn count_for(votes: &Vec<Option<usize>>, i: usize) -> (r: usize)
    ensures
        r == count_votes(votes@, i as int),
{
    let mut c: usize = 0;
    let mut k: usize = 0;
    while k < votes.len()
        invariant
            k <= votes.len(),
            c == count_votes(votes@.take(k as int), i as int),
            c <= k,
        decreases votes.len() - k,
    {
        assert(votes@.take(k + 1).drop_last() =~= votes@.take(k as int));
        if votes[k] == Some(i) {
            c += 1;
        }
        k += 1;
    }
    assert(votes@.take(votes.len() as int) =~= votes@);
    c
}

fn count_valid(votes: &Vec<Option<usize>>, n: usize) -> (r: usize)
    ensures
        r == valid_votes(votes@, n as nat),
{
    let mut c: usize = 0;
    let mut k: usize = 0;
    while k < votes.len()
        invariant
            k <= votes.len(),
            c == valid_votes(votes@.take(k as int), n as nat),
            c <= k,
        decreases votes.len() - k,
    {
        assert(votes@.take(k + 1).drop_last() =~= votes@.take(k as int));
        match votes[k] {
            Some(v) => {
                if v < n {
                    c += 1;
                }
            },
            None => {},
        }
        k += 1;
    }
    assert(votes@.take(votes.len() as int) =~= votes@);
    c
}

/// Tallies the votes cast among `options`. The winner is the option with the
/// most votes, the first such where several tie, and the first option where
/// no valid vote was cast. There is consensus when the winner holds more than
/// half of the valid votes.
pub fn tally_votes(options: &Vec<String>, votes: &Vec<Option<usize>>) -> (r: VotingResult)
    ensures
        r.vote_counts@.len() == options@.len(),
        forall|i: int| 0 <= i < options@.len() ==> {
            &&& (#[trigger] r.vote_counts@[i]).option@ == options@[i]@
            &&& r.vote_counts@[i].votes == count_votes(votes@, i)
        },
        r.total_votes == valid_votes(votes@, options@.len()),
        options@.len() > 0 ==> is_winner(votes@, options@.len(), r.winning_index as int),
        options@.len() == 0 ==> r.winning_index == 0,
        r.winning_option@ == if options@.len() > 0 {
            options@[r.winning_index as int]@
        } else {
            Seq::<char>::empty()
        },
        r.consensus == (r.total_votes > 0 && options@.len() > 0
            && count_votes(votes@, r.winning_index as int) > r.total_votes / 2),
{
    let n = options.len();
    let mut counts: Vec<VoteCount> = Vec::new();
    let mut best: usize = 0;
    let mut best_count: usize = 0;
    let mut i: usize = 0;
    while i < n
        invariant
            n == options.len(),
            i <= n,
            counts.len() == i,
            forall|j: int| 0 <= j < i ==> {
                &&& (#[trigger] counts@[j]).option@ == options@[j]@
                &&& counts@[j].votes == count_votes(votes@, j)
            },
            i > 0 ==> best < i && best_count == count_votes(votes@, best as int),
            i == 0 ==> best == 0,
            forall|j: int| 0 <= j < i ==> #[trigger] count_votes(votes@, j) <= best_count,
            forall|j: int| 0 <= j < best ==> #[trigger] count_votes(votes@, j) < best_count,
        decreases n - i,
    {
        let c = count_for(votes, i);
        if i == 0 || c > best_count {
            best = i;
            best_count = c;
        }
        counts.push(VoteCount { option: options[i].clone(), votes: c });
        i += 1;
    }
    let total = count_valid(votes, n);
    let winning_option = if n > 0 { options[best].clone() } else { String::new() };
    let consensus = total > 0 && n > 0 && best_count > total / 2;
    VotingResult { winning_option, winning_index: best, vote_counts: counts, total_votes: total, consensus }
}

/// Asks several voters the same question.
pub struct VotingParallelizer {
    pub model: String,
}

impl VotingParallelizer {
    pub fn new(model: String) -> (r: VotingParallelizer)
        ensures
            r.model == model,
    {
        VotingParallelizer { model }
    }

    /// The request each voter receives: the vote prompt, a ten-token answer,
    /// sampled at temperature 0.7.
    pub fn vote_request(&self, question: &str, options: &Vec<String>) -> (r: CompletionRequest)
        requires
            options.len() < usize::MAX,
        ensures
            r.messages@.len() == 1,
            r.messages@[0].content@ == vote_prompt_text(question@, options@),
            r.messages@[0].role == Role::User,
            r.system is None,
            r.model@ == self.model@,
            r.max_tokens == 10,
            r.temperature_milli == Some(700u32),
    {
        let mut r = single_prompt(vote_prompt(question, options), self.model.as_str(), 10);
        r.temperature_milli = Some(700);
        r
    }

    /// The request each safety voter receives.
    pub fn safety_request(&self, content: &str) -> (r: CompletionRequest)
        ensures
            r.messages@.len() == 1,
            r.messages@[0].content@ == safety_prompt_text(content@),
            r.messages@[0].role == Role::User,
            r.system is None,
            r.model@ == self.model@,
            r.max_tokens == 10,
            r.temperature_milli is None,
    {
        single_prompt(safety_prompt(content), self.model.as_str(), 10)
    }
}

/// The prompt that asks whether content is safe.
pub open spec fn safety_prompt_text(content: Seq<char>) -> Seq<char> {
    "Evaluate if this content is safe and appropriate:\n\n"@ + content + "\n\nRespond with only 'SAFE' or 'UNSAFE'."@
}

/// The prompt that asks whether content is safe.
pub fn safety_prompt(content: &str) -> (r: String)
    ensures
        r@ == safety_prompt_text(content@),
{
    let mut r = concat("Evaluate if this content is safe and appropriate:\n\n", content);
    r.append("\n\nRespond with only 'SAFE' or 'UNSAFE'.");
    r
}

/// An upper-cased reply says SAFE and does not say UNSAFE.
pub open spec fn safe_verdict(upper: Seq<char>) -> bool {
    contains_seq(upper, "SAFE"@) && !contains_seq(upper, "UNSAFE"@)
}

/// Whether an upper-cased reply is a vote for safe.
pub fn verdict_is_safe(upper: &str) -> (r: bool)
    ensures
        r == safe_verdict(upper@),
{
    let cs = chars_of(upper);
    let safe = chars_of("SAFE");
    let not_safe = chars_of("UNSAFE");
    contains(cs.as_slice(), safe.as_slice()) && !contains(cs.as_slice(), not_safe.as_slice())
}

/// Whether a reply is a vote for safe.
pub fn is_safe_vote(response: &str) -> (r: bool)
    ensures
        r == safe_verdict(upper_of(response@)),
{
    let upper = uppercase(response);
    verdict_is_safe(upper.as_str())
}

/// The vote that the result of a safety call casts: a failed call votes
/// unsafe.
pub fn safety_vote_of(reply: &Result<String, String>) -> (r: bool)
    ensures
        r == match reply {
            Ok(t) => safe_verdict(upper_of(t@)),
            Err(_) => false,
        },
{
    match reply {
        Ok(t) => is_safe_vote(t.as_str()),
        Err(_) => false,
    }
}

/// The outcome of a safety vote.
#[derive(Debug, Clone)]
pub struct SafetyVotingResult {
    pub is_safe: bool,
    pub safe_votes: usize,
    pub unsafe_votes: usize,
    pub unanimous: bool,
}

/// How many votes say safe.
pub open spec fn safe_count(votes: Seq<bool>) -> nat
    decreases votes.len(),
{
    if votes.len() == 0 {
        0
    } else {
        safe_count(votes.drop_last()) + if votes.last() { 1nat } else { 0nat }
    }
}

/// Tallies a safety vote: safe only when every voter says so, and unanimous
/// when all voters agree either way.
pub fn safety_tally(votes: &Vec<bool>) -> (r: SafetyVotingResult)
    ensures
        r.safe_votes == safe_count(votes@),
        r.unsafe_votes == votes@.len() - safe_count(votes@),
        r.is_safe == forall|i: int| 0 <= i < votes@.len() ==> #[trigger] votes@[i],
        r.unanimous == ((forall|i: int| 0 <= i < votes@.len() ==> #[trigger] votes@[i])
            || (forall|i: int| 0 <= i < votes@.len() ==> !#[trigger] votes@[i])),
{
    let mut safe: usize = 0;
    let mut all_safe = true;
    let mut all_unsafe = true;
    let mut k: usize = 0;
    while k < votes.len()
        invariant
            k <= votes.len(),
            safe == safe_count(votes@.take(k as int)),
            safe <= k,
            all_safe == forall|i: int| 0 <= i < k ==> #[trigger] votes@[i],
            all_unsafe == forall|i: int| 0 <= i < k ==> !#[trigger] votes@[i],
        decreases votes.len() - k,
    {
        assert(votes@.take(k + 1).drop_last() =~= votes@.take(k as int));
        if votes[k] {
            safe += 1;
            all_unsafe = false;
        } else {
            all_safe = false;
        }
        k += 1;
    }
    assert(votes@.take(votes.len() as int) =~= votes@);
    SafetyVotingResult {
        is_safe: all_safe,
        safe_votes: safe,
        unsafe_votes: votes.len() - safe,
        unanimous: all_safe || all_unsafe,
    }
}

/// The outcome of one policy check.
#[derive(Debug, Clone)]
pub struct GuardrailResult {
    pub name: String,
    pub passed: bool,
}

/// The primary result, released only when every check passed.
#[derive(Debug, Clone)]
pub struct GuardrailedResult {
    pub result: Option<String>,
    pub blocked: bool,
    pub guardrail_results: Vec<GuardrailResult>,
    pub blocking_guardrails: Vec<String>,
}

/// The prompt of a policy check: its template with the input put in place of
/// every `{input}`, followed by the answer format.
pub open spec fn check_prompt_text(template: Seq<char>, input: Seq<char>) -> Seq<char> {
    replaced(template, "{input}"@, input) + "\n\nRespond with only 'PASS' or 'FAIL'."@
}

/// An upper-cased reply of a check says PASS.
pub open spec fn pass_verdict(upper: Seq<char>) -> bool {
    contains_seq(upper, "PASS"@)
}

/// Whether an upper-cased reply of a check says PASS.
pub fn verdict_passes(upper: &str) -> (r: bool)
    ensures
        r == pass_verdict(upper@),
{
    let cs = chars_of(upper);
    let pass = chars_of("PASS");
    contains(cs.as_slice(), pass.as_slice())
}

/// The `index`-th check's outcome, from the result of its call: it passes
/// when the call succeeded and the upper-cased reply says PASS; a failed call
/// fails the check.
pub fn check_outcome(index: usize, reply: &Result<String, String>) -> (r: GuardrailResult)
    ensures
        r.name@ == "guardrail_"@ + decimal(index as nat),
        r.passed == match reply {
            Ok(t) => pass_verdict(upper_of(t@)),
            Err(_) => false,
        },
{
    let number = decimal_text(index);
    let passed = match reply {
        Ok(t) => {
            let upper = uppercase(t.as_str());
            verdict_passes(upper.as_str())
        },
        Err(_) => false,
    };
    GuardrailResult { name: concat("guardrail_", number.as_str()), passed }
}

/// Some check failed.
pub open spec fn any_failed(checks: Seq<GuardrailResult>) -> bool {
    exists|i: int| 0 <= i < checks.len() && !(#[trigger] checks[i]).passed
}

/// The names of the failed checks, in order.
pub open spec fn failed_names(checks: Seq<GuardrailResult>) -> Seq<Seq<char>>
    decreases checks.len(),
{
    if checks.len() == 0 {
        Seq::empty()
    } else if checks.last().passed {
        failed_names(checks.drop_last())
    } else {
        failed_names(checks.drop_last()).push(checks.last().name@)
    }
}

/// Runs a primary task beside policy checks.
pub struct GuardrailsParallelizer {
    pub model: String,
    pub check_model: String,
}

impl GuardrailsParallelizer {
    /// Runs the primary task with `model` and the checks with `check_model`.
    pub fn new(model: String, check_model: String) -> (r: GuardrailsParallelizer)
        ensures
            r.model == model,
            r.check_model == check_model,
    {
        GuardrailsParallelizer { model, check_model }
    }

    /// The request of the primary task.
    pub fn task_request(&self, task_prompt: &str) -> (r: CompletionRequest)
        ensures
            r.messages@.len() == 1,
            r.messages@[0].content@ == task_prompt@,
            r.messages@[0].role == Role::User,
            r.system is None,
            r.model@ == self.model@,
            r.max_tokens == 4096,
            r.temperature_milli is None,
    {
        single_prompt(task_prompt.to_owned(), self.model.as_str(), 4096)
    }

    /// The request of one policy check on `input`.
    pub fn check_request(&self, template: &str, input: &str) -> (r: CompletionRequest)
        ensures
            r.messages@.len() == 1,
            r.messages@[0].content@ == check_prompt_text(template@, input@),
            r.messages@[0].role == Role::User,
            r.system is None,
            r.model@ == self.check_model@,
            r.max_tokens == 10,
            r.temperature_milli is None,
    {
        proof {
            reveal_strlit("{input}");
        }
        let mut prompt = replace_all(template, "{input}", input);
        prompt.append("\n\nRespond with only 'PASS' or 'FAIL'.");
        single_prompt(prompt, self.check_model.as_str(), 10)
    }

    /// Joins the primary result with the checks' outcomes. A failed primary
    /// call fails the whole. Otherwise the result is released only when no
    /// check failed; when one did, it is withheld, the outcome is blocked,
    /// and the failed checks are named.
    pub fn guard(&self, main: Result<String, String>, checks: Vec<GuardrailResult>) -> (r: Result<GuardrailedResult, String>)
        ensures
            main is Err ==> r == Err::<GuardrailedResult, String>(main->Err_0),
            main is Ok ==> r is Ok,
            r is Ok ==> {
                &&& r->Ok_0.blocked == any_failed(checks@)
                &&& r->Ok_0.result == if any_failed(checks@) { None } else { Some(main->Ok_0) }
                &&& r->Ok_0.guardrail_results@ == checks@
                &&& views(r->Ok_0.blocking_guardrails@) == failed_names(checks@)
            },
    {
        let main_result = match main {
            Ok(t) => t,
            Err(e) => {
                return Err(e);
            },
        };
        let mut blocking: Vec<String> = Vec::new();
        let mut all_passed = true;
        let mut k: usize = 0;
        while k < checks.len()
            invariant
                k <= checks.len(),
                all_passed == !any_failed(checks@.take(k as int)),
                views(blocking@) == failed_names(checks@.take(k as int)),
            decreases checks.len() - k,
        {
            let ghost before = blocking@;
            assert(checks@.take(k + 1).drop_last() =~= checks@.take(k as int));
            if !checks[k].passed {
                all_passed = false;
                blocking.push(checks[k].name.clone());
                assert(views(blocking@) =~= views(before).push(checks@[k as int].name@));
                assert(!checks@.take(k + 1)[k as int].passed);
            } else {
                assert(views(blocking@) =~= views(before));
                proof {
                    if !all_passed {
                        let i = choose|i: int| 0 <= i < k && !(#[trigger] checks@.take(k as int)[i]).passed;
                        assert(checks@.take(k + 1)[i] == checks@.take(k as int)[i]);
                    } else {
                        assert forall|i: int| 0 <= i < k + 1 implies (#[trigger] checks@.take(k + 1)[i]).passed by {
                            if i < k {
                                assert(checks@.take(k + 1)[i] == checks@.take(k as int)[i]);
                            }
                        }
                    }
                }
            }
            k += 1;
        }
        assert(checks@.take(checks.len() as int) =~= checks@);
        Ok(GuardrailedResult {
            result: if all_passed { Some(main_result) } else { None },
            blocked: !all_passed,
            guardrail_results: checks,
            blocking_guardrails: blocking,
        })
    }
}

/// The result of a code review split into four analyses, with the longest
/// time any of them took.
#[derive(Debug, Clone)]
pub struct CodeReviewResult {
    pub security_analysis: String,
    pub performance_analysis: String,
    pub maintainability_analysis: String,
    pub bug_analysis: String,
    pub total_duration_ms: u64,
}

/// A review prompt: what to look for, the code in a fence, what to report.
pub open spec fn review_prompt_text(ask: Seq<char>, code: Seq<char>, report: Seq<char>) -> Seq<char> {
    ask + "\n```\n"@ + code + "\n```\n"@ + report
}

fn review_subtask(name: &str, ask: &str, code: &str, report: &str) -> (r: Subtask)
    ensures
        r.name@ == name@,
        r.prompt@ == review_prompt_text(ask@, code@, report@),
{
    let mut prompt = concat(ask, "\n```\n");
    prompt.append(code);
    prompt.append("\n```\n");
    prompt.append(report);
    Subtask { name: name.to_owned(), prompt }
}

/// The four analyses of a code review.
pub fn code_review_subtasks(code: &str) -> (r: Vec<Subtask>)
    ensures
        r@.len() == 4,
        r@[0].name@ == "security"@,
        r@[0].prompt@ == review_prompt_text("Analyze this code for security vulnerabilities:"@, code@,
            "List any security issues found with severity and recommendations."@),
        r@[1].name@ == "performance"@,
        r@[1].prompt@ == review_prompt_text("Analyze this code for performance issues:"@, code@,
            "Identify inefficiencies and suggest optimizations."@),
        r@[2].name@ == "maintainability"@,
        r@[2].prompt@ == review_prompt_text("Analyze this code for maintainability:"@, code@,
            "Check code structure, naming, and suggest improvements."@),
        r@[3].name@ == "bugs"@,
        r@[3].prompt@ == review_prompt_text("Analyze this code for potential bugs:"@, code@,
            "Identify logic errors, edge cases, and potential runtime issues."@),
{
    let mut r: Vec<Subtask> = Vec::new();
    r.push(review_subtask("security", "Analyze this code for security vulnerabilities:", code,
        "List any security issues found with severity and recommendations."));
    r.push(review_subtask("performance", "Analyze this code for performance issues:", code,
        "Identify inefficiencies and suggest optimizations."));
    r.push(review_subtask("maintainability", "Analyze this code for maintainability:", code,
        "Check code structure, naming, and suggest improvements."));
    r.push(review_subtask("bugs", "Analyze this code for potential bugs:", code,
        "Identify logic errors, edge cases, and potential runtime issues."));
    r
}

/// The text of the first outcome named `name`; empty where that outcome
/// failed or there is none.
pub open spec fn analysis_named(results: Seq<SubtaskResult>, name: Seq<char>) -> Seq<char>
    decreases results.len(),
{
    if results.len() == 0 {
        Seq::empty()
    } else if results[0].name@ == name {
        match results[0].result {
            Some(t) => t@,
            None => Seq::empty(),
        }
    } else {
        analysis_named(results.skip(1), name)
    }
}

/// The longest duration among the outcomes; zero where there are none.
pub open spec fn longest(results: Seq<SubtaskResult>) -> u64
    decreases results.len(),
{
    if results.len() == 0 {
        0
    } else {
        let m = longest(results.drop_last());
        if results.last().duration_ms > m { results.last().duration_ms } else { m }
    }
}

fn find_analysis(results: &Vec<SubtaskResult>, name: &str) -> (r: String)
    ensures
        r@ == analysis_named(results@, name@),
{
    let mut k: usize = 0;
    assert(results@.skip(0) =~= results@);
    while k < results.len()
        invariant
            k <= results.len(),
            analysis_named(results@, name@) == analysis_named(results@.skip(k as int), name@),
        decreases results.len() - k,
    {
        assert(results@.skip(k as int)[0] == results@[k as int]);
        if str_eq_string(&results[k].name, name) {
            return match &results[k].result {
                Some(t) => t.clone(),
                None => String::new(),
            };
        }
        assert(results@.skip(k as int).skip(1) =~= results@.skip(k + 1));
        k += 1;
    }
    String::new()
}

fn str_eq_string(a: &String, b: &str) -> (r: bool)
    ensures
        r == (a@ == b@),
{
    crate::text::str_eq(a.as_str(), b)
}

/// Gathers the four analyses of a code review from the outcomes.
pub fn code_review_result(results: &Vec<SubtaskResult>) -> (r: CodeReviewResult)
    ensures
        r.security_analysis@ == analysis_named(results@, "security"@),
        r.performance_analysis@ == analysis_named(results@, "performance"@),
        r.maintainability_analysis@ == analysis_named(results@, "maintainability"@),
        r.bug_analysis@ == analysis_named(results@, "bugs"@),
        r.total_duration_ms == longest(results@),
{
    let mut total: u64 = 0;
    let mut k: usize = 0;
    while k < results.len()
        invariant
            k <= results.len(),
            total == longest(results@.take(k as int)),
        decreases results.len() - k,
    {
        assert(results@.take(k + 1).drop_last() =~= results@.take(k as int));
        if results[k].duration_ms > total {
            total = results[k].duration_ms;
        }
        k += 1;
    }
    assert(results@.take(results.len() as int) =~= results@);
    CodeReviewResult {
        security_analysis: find_analysis(results, "security"),
        performance_analysis: find_analysis(results, "performance"),
        maintainability_analysis: find_analysis(results, "maintainability"),
        bug_analysis: find_analysis(results, "bugs"),
        total_duration_ms: total,
    }
}

} // verus!
