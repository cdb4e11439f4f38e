//! The state of the skills browser: the skills, an optional filter and the
//! selection.

use vstd::prelude::*;
use crate::skill::Skill;
use crate::text::{chars_of, contains, contains_seq, lower_of, lowercase, str_eq};

verus! {

/// The state of the browser.
#[derive(Debug, Clone)]
pub struct AppState {
    pub skills: Vec<Skill>,
    pub selected_index: usize,
    pub filter: Option<String>,
    pub status_message: String,
    pub show_help: bool,
    pub scroll_position: u16,
}

/// The skill passes the filter: there is none, or its name or description
/// holds the filter text.
pub open spec fn shown(s: Skill, filter: Option<String>) -> bool {
    match filter {
        None => true,
        Some(f) => contains_seq(s.name@, f@) || contains_seq(s.description@, f@),
    }
}

/// The skills that pass the filter, in order.
pub open spec fn filtered(skills: Seq<Skill>, filter: Option<String>) -> Seq<Skill>
    decreases skills.len(),
{
    if skills.len() == 0 {
        skills
    } else if shown(skills.last(), filter) {
        filtered(skills.drop_last(), filter).push(skills.last())
    } else {
        filtered(skills.drop_last(), filter)
    }
}

/// The language a lower-cased skill name suggests.
pub open spec fn language_rule(t: Seq<char>) -> Seq<char> {
    if contains_seq(t, "rust"@) || contains_seq(t, "rs"@) {
        "Rust"@
    } else if contains_seq(t, "python"@) || contains_seq(t, "py"@) {
        "Python"@
    } else if contains_seq(t, "typescript"@) || contains_seq(t, "javascript"@) || contains_seq(t, "ts"@)
        || contains_seq(t, "js"@) {
        "TypeScript"@
    } else if contains_seq(t, "go"@) {
        "Go"@
    } else if contains_seq(t, "csharp"@) || contains_seq(t, "dotnet"@) {
        "C#"@
    } else {
        "Other"@
    }
}

fn has(t: &Vec<char>, needle: &str) -> (r: bool)
    ensures
        r == contains_seq(t@, needle@),
{
    let n = chars_of(needle);
    contains(t.as_slice(), n.as_slice())
}

/// The language a lower-cased skill name suggests (see [`language_rule`]).
pub fn language_of_lowered(lowered: &str) -> (r: String)
    ensures
        r@ == language_rule(lowered@),
{
    let t = chars_of(lowered);
    if has(&t, "rust") || has(&t, "rs") {
        String::from_str("Rust")
    } else if has(&t, "python") || has(&t, "py") {
        String::from_str("Python")
    } else if has(&t, "typescript") || has(&t, "javascript") || has(&t, "ts") || has(&t, "js") {
        String::from_str("TypeScript")
    } else if has(&t, "go") {
        String::from_str("Go")
    } else if has(&t, "csharp") || has(&t, "dotnet") {
        String::from_str("C#")
    } else {
        String::from_str("Other")
    }
}

/// The language a skill name suggests, read lower-cased.
pub fn detect_language(name: &str) -> (r: String)
    ensures
        r@ == language_rule(lower_of(name@)),
{
    let lowered = lowercase(name);
    language_of_lowered(lowered.as_str())
}

/// How many skills suggest the language `lang`.
pub open spec fn language_count(skills: Seq<Skill>, lang: Seq<char>) -> nat
    decreases skills.len(),
{
    if skills.len() == 0 {
        0
    } else {
        language_count(skills.drop_last(), lang) + if language_rule(lower_of(skills.last().name@)) == lang {
            1nat
        } else {
            0nat
        }
    }
}

fn find_language(r: &Vec<(String, usize)>, lang: &str) -> (at: Option<usize>)
    ensures
        match at {
            Some(j) => j < r@.len() && r@[j as int].0@ == lang@,
            None => forall|j: int| 0 <= j < r@.len() ==> (#[trigger] r@[j]).0@ != lang@,
        },
{
    let mut i: usize = 0;
    while i < r.len()
        invariant
            i <= r.len(),
            forall|j: int| 0 <= j < i ==> (#[trigger] r@[j]).0@ != lang@,
        decreases r.len() - i,
    {
        if str_eq(r[i].0.as_str(), lang) {
            return Some(i);
        }
        i += 1;
    }
    None
}

impl AppState {
    /// The browser over `skills`, nothing filtered, the first selected.
    pub fn new(skills: Vec<Skill>) -> (r: AppState)
        ensures
            r.skills == skills,
            r.selected_index == 0,
            r.filter is None,
            r.status_message@ == "Ready"@,
            !r.show_help,
            r.scroll_position == 0,
    {
        AppState {
            skills,
            selected_index: 0,
            filter: None,
            status_message: String::from_str("Ready"),
            show_help: false,
            scroll_position: 0,
        }
    }

    /// The skills that pass the filter (see [`filtered`]).
    pub fn filtered_skills(&self) -> (r: Vec<&Skill>)
        ensures
            r@.len() == filtered(self.skills@, self.filter).len(),
            forall|i: int| 0 <= i < r@.len() ==> *#[trigger] r@[i] == filtered(self.skills@, self.filter)[i],
    {
        let mut r: Vec<&Skill> = Vec::new();
        let mut k: usize = 0;
        while k < self.skills.len()
            invariant
                k <= self.skills.len(),
                r@.len() == filtered(self.skills@.take(k as int), self.filter).len(),
                forall|i: int| 0 <= i < r@.len() ==> *#[trigger] r@[i] == filtered(self.skills@.take(k as int), self.filter)[i],
            decreases self.skills.len() - k,
        {
            assert(self.skills@.take(k + 1).drop_last() =~= self.skills@.take(k as int));
            let s = &self.skills[k];
            let show = match &self.filter {
                None => true,
                Some(f) => {
                    let fc = chars_of(f.as_str());
                    let name = chars_of(s.name.as_str());
                    let desc = chars_of(s.description.as_str());
                    contains(name.as_slice(), fc.as_slice()) || contains(desc.as_slice(), fc.as_slice())
                },
            };
            if show {
                r.push(s);
            }
            k += 1;
        }
        assert(self.skills@.take(self.skills.len() as int) =~= self.skills@);
        r
    }

    /// The selected skill among those that pass the filter, if the selection
    /// points at one.
    pub fn selected_skill(&self) -> (r: Option<&Skill>)
        ensures
            r is Some <==> self.selected_index < filtered(self.skills@, self.filter).len(),
            r is Some ==> *r->0 == filtered(self.skills@, self.filter)[self.selected_index as int],
    {
        let shown = self.filtered_skills();
        if self.selected_index < shown.len() {
            Some(shown[self.selected_index])
        } else {
            None
        }
    }

    /// Moves the selection up one, unless it is at the top; a move scrolls
    /// the details back to the start.
    pub fn move_up(&mut self)
        ensures
            old(self).selected_index > 0 ==> final(self).selected_index == old(self).selected_index - 1
                && final(self).scroll_position == 0,
            old(self).selected_index == 0 ==> final(self).selected_index == 0
                && final(self).scroll_position == old(self).scroll_position,
            final(self).skills == old(self).skills,
            final(self).filter == old(self).filter,
            final(self).status_message == old(self).status_message,
            final(self).show_help == old(self).show_help,
    {
        if self.selected_index > 0 {
            self.selected_index = self.selected_index - 1;
            self.scroll_position = 0;
        }
    }

    /// Moves the selection down one, unless it is at the last skill that
    /// passes the filter; a move scrolls the details back to the start.
    pub fn move_down(&mut self)
        ensures
            old(self).selected_index + 1 < filtered(old(self).skills@, old(self).filter).len()
                ==> final(self).selected_index == old(self).selected_index + 1 && final(self).scroll_position == 0,
            !(old(self).selected_index + 1 < filtered(old(self).skills@, old(self).filter).len())
                ==> final(self).selected_index == old(self).selected_index
                && final(self).scroll_position == old(self).scroll_position,
            final(self).skills == old(self).skills,
            final(self).filter == old(self).filter,
            final(self).status_message == old(self).status_message,
            final(self).show_help == old(self).show_help,
    {
        let n = self.filtered_skills().len();
        let last = if n > 0 { n - 1 } else { 0 };
        if self.selected_index < last {
            self.selected_index = self.selected_index + 1;
            self.scroll_position = 0;
        }
    }

    /// The languages the skills suggest, each once in the order first met,
    /// with how many skills suggest it.
    #[verifier::rlimit(100)]
    pub fn get_language_stats(&self) -> (r: Vec<(String, usize)>)
        ensures
            forall|i: int, j: int| 0 <= i < j < r@.len() ==> (#[trigger] r@[i]).0@ != (#[trigger] r@[j]).0@,
            forall|i: int| 0 <= i < r@.len() ==> (#[trigger] r@[i]).1 == language_count(self.skills@, r@[i].0@),
            forall|k: int| 0 <= k < self.skills@.len() ==> exists|i: int| 0 <= i < r@.len()
                && (#[trigger] r@[i]).0@ == language_rule(lower_of((#[trigger] self.skills@[k]).name@)),
            forall|i: int| 0 <= i < r@.len() ==> exists|k: int| 0 <= k < self.skills@.len()
                && (#[trigger] r@[i]).0@ == language_rule(lower_of((#[trigger] self.skills@[k]).name@)),
            forall|i: int| 0 <= i < r@.len() ==> (#[trigger] r@[i]).1 >= 1,
    {
        let mut r: Vec<(String, usize)> = Vec::new();
        let mut k: usize = 0;
        while k < self.skills.len()
            invariant
                k <= self.skills.len(),
                forall|i: int, j: int| 0 <= i < j < r@.len() ==> (#[trigger] r@[i]).0@ != (#[trigger] r@[j]).0@,
                forall|i: int| 0 <= i < r@.len() ==> (#[trigger] r@[i]).1 == language_count(self.skills@.take(k as int), r@[i].0@),
                forall|i: int| 0 <= i < r@.len() ==> (#[trigger] r@[i]).1 <= k,
                forall|m: int| 0 <= m < k ==> exists|i: int| 0 <= i < r@.len()
                    && (#[trigger] r@[i]).0@ == language_rule(lower_of((#[trigger] self.skills@[m]).name@)),
                forall|i: int| 0 <= i < r@.len() ==> exists|m: int| 0 <= m < k
                    && (#[trigger] r@[i]).0@ == language_rule(lower_of((#[trigger] self.skills@[m]).name@)),
                forall|i: int| 0 <= i < r@.len() ==> (#[trigger] r@[i]).1 >= 1,
            decreases self.skills.len() - k,
        {
            let lang = detect_language(self.skills[k].name.as_str());
            let ghost pre = self.skills@.take(k as int);
            assert(self.skills@.take(k + 1).drop_last() =~= pre);
            assert(self.skills@.take(k + 1).last() == self.skills@[k as int]);
            let at = find_language(&r, lang.as_str());
            let ghost before = r@;
            match at {
                Some(j) => {
                    let c = r[j].1;
                    r[j] = (r[j].0.clone(), c + 1);
                    proof {
                        assert forall|a: int| 0 <= a < r@.len() implies (#[trigger] r@[a]).1
                            == language_count(self.skills@.take(k + 1), r@[a].0@) by {
                            if a != j {
                                assert(r@[a] == before[a]);
                                assert(before[a].0@ != before[j as int].0@);
                            }
                        }
                        assert forall|a: int, b: int| 0 <= a < b < r@.len() implies
                            (#[trigger] r@[a]).0@ != (#[trigger] r@[b]).0@ by {
                            assert(before[a].0@ != before[b].0@);
                        }
                        assert forall|a: int| 0 <= a < r@.len() implies exists|m: int| 0 <= m < k + 1
                            && (#[trigger] r@[a]).0@ == language_rule(lower_of((#[trigger] self.skills@[m]).name@)) by {
                            let m = choose|m: int| 0 <= m < k
                                && (#[trigger] before[a]).0@ == language_rule(lower_of(self.skills@[m].name@));
                            assert(r@[a].0@ == before[a].0@);
                        }
                        assert forall|a: int| 0 <= a < r@.len() implies (#[trigger] r@[a]).1 >= 1 by {
                            if a != j {
                                assert(r@[a] == before[a]);
                            }
                        }
                        assert forall|m: int| 0 <= m < k + 1 implies exists|a: int| 0 <= a < r@.len()
                            && (#[trigger] r@[a]).0@ == language_rule(lower_of((#[trigger] self.skills@[m]).name@)) by {
                            if m < k {
                                let a = choose|a: int| 0 <= a < before.len()
                                    && (#[trigger] before[a]).0@ == language_rule(lower_of(self.skills@[m].name@));
                                assert(r@[a].0@ == before[a].0@);
                            } else {
                                assert(r@[j as int].0@ == lang@);
                            }
                        }
                    }
                },
                None => {
                    r.push((lang, 1));
                    proof {
                        assert forall|a: int| 0 <= a < r@.len() implies (#[trigger] r@[a]).1
                            == language_count(self.skills@.take(k + 1), r@[a].0@) by {
                            if a < before.len() {
                                assert(r@[a] == before[a]);
                            } else {
                                assert(language_count(pre, r@[a].0@) == 0) by {
                                    lemma_unseen_language(pre, r@[a].0@, before, k as int);
                                }
                            }
                        }
                        assert forall|m: int| 0 <= m < k + 1 implies exists|a: int| 0 <= a < r@.len()
                            && (#[trigger] r@[a]).0@ == language_rule(lower_of((#[trigger] self.skills@[m]).name@)) by {
                            if m < k {
                                let a = choose|a: int| 0 <= a < before.len()
                                    && (#[trigger] before[a]).0@ == language_rule(lower_of(self.skills@[m].name@));
                                assert(r@[a].0@ == before[a].0@);
                            } else {
                                assert(r@[before.len() as int].0@ == lang@);
                            }
                        }
                        assert forall|a: int| 0 <= a < r@.len() implies exists|m: int| 0 <= m < k + 1
                            && (#[trigger] r@[a]).0@ == language_rule(lower_of((#[trigger] self.skills@[m]).name@)) by {
                            if a < before.len() {
                                let m = choose|m: int| 0 <= m < k
                                    && (#[trigger] before[a]).0@ == language_rule(lower_of(self.skills@[m].name@));
                                assert(r@[a].0@ == before[a].0@);
                            } else {
                                assert(r@[a].0@ == language_rule(lower_of(self.skills@[k as int].name@)));
                            }
                        }
                        assert forall|a: int| 0 <= a < r@.len() implies (#[trigger] r@[a]).1 >= 1 by {
                            if a < before.len() {
                                assert(r@[a] == before[a]);
                            }
                        }
                    }
                },
            }
            k += 1;
        }
        assert(self.skills@.take(self.skills.len() as int) =~= self.skills@);
        r
    }
}

/// A language that no listed entry names was suggested by none of the
/// skills before.
proof fn lemma_unseen_language(pre: Seq<Skill>, lang: Seq<char>, entries: Seq<(String, usize)>, k: int)
    requires
        pre.len() == k,
        forall|j: int| 0 <= j < entries.len() ==> (#[trigger] entries[j]).0@ != lang,
        forall|m: int| 0 <= m < k ==> exists|i: int| 0 <= i < entries.len()
            && (#[trigger] entries[i]).0@ == language_rule(lower_of((#[trigger] pre[m]).name@)),
    ensures
        language_count(pre, lang) == 0,
    decreases pre.len(),
{
    if pre.len() > 0 {
        let front = pre.drop_last();
        assert forall|m: int| 0 <= m < k - 1 implies exists|i: int| 0 <= i < entries.len()
            && (#[trigger] entries[i]).0@ == language_rule(lower_of((#[trigger] front[m]).name@)) by {
            assert(front[m] == pre[m]);
        }
        lemma_unseen_language(front, lang, entries, k - 1);
        let i = choose|i: int| 0 <= i < entries.len()
            && (#[trigger] entries[i]).0@ == language_rule(lower_of(pre[k - 1].name@));
        assert(entries[i].0@ != lang);
    }
}

} // verus!
