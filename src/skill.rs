//! Skills: directories holding a `SKILL.md` whose frontmatter names and
//! describes the skill.
//!
//! The host reads the files and decodes the frontmatter as YAML; the library
//! frames it.

use vstd::prelude::*;
use crate::text::{chars_of, contains, contains_seq, join, joined, lines_from, split_lines, views};

verus! {

/// A skill, with the feed it came from (`local` for the local directory).
#[derive(Debug, Clone)]
pub struct Skill {
    pub name: String,
    pub description: String,
    pub version: Option<String>,
    pub path: String,
    pub source: String,
}

/// Why a file has no frontmatter to read.
#[derive(Debug, Clone, Copy, PartialEq, Eq, Structural)]
pub enum FrontmatterError {
    /// The first line is no `---` delimiter.
    NoFrontmatter,
    /// No later line closes it.
    Unclosed,
}

/// The delimiter of a frontmatter block.
pub const DELIMITER: &'static str = "---";

/// Line `i` is the first after the opening one to hold the delimiter.
pub open spec fn closes_at(ls: Seq<Seq<char>>, i: int) -> bool {
    &&& 1 <= i < ls.len()
    &&& contains_seq(ls[i], DELIMITER@)
    &&& forall|j: int| 1 <= j < i ==> !contains_seq(#[trigger] ls[j], DELIMITER@)
}

/// The frontmatter of a file: the lines between a first line holding the
/// delimiter and the next line holding it, joined by line feeds.
pub open spec fn frontmatter_of(s: Seq<char>) -> Result<Seq<char>, FrontmatterError> {
    let ls = lines_from(s, 0);
    if ls.len() == 0 || !contains_seq(ls[0], DELIMITER@) {
        Err(FrontmatterError::NoFrontmatter)
    } else if exists|i: int| closes_at(ls, i) {
        Ok(joined(ls.subrange(1, choose|i: int| closes_at(ls, i)), "\n"@))
    } else {
        Err(FrontmatterError::Unclosed)
    }
}

/// The frontmatter of a file (see [`frontmatter_of`]).
pub fn extract_frontmatter(content: &str) -> (r: Result<String, FrontmatterError>)
    ensures
        match frontmatter_of(content@) {
            Ok(t) => r is Ok && r->Ok_0@ == t,
            Err(e) => r == Err::<String, FrontmatterError>(e),
        },
{
    let lines = split_lines(content);
    let ghost ls = views(lines@);
    let delim = chars_of(DELIMITER);
    if lines.len() == 0 {
        return Err(FrontmatterError::NoFrontmatter);
    }
    let first = chars_of(lines[0].as_str());
    assert(ls[0] == first@);
    if !contains(first.as_slice(), delim.as_slice()) {
        return Err(FrontmatterError::NoFrontmatter);
    }
    let mut i: usize = 1;
    while i < lines.len()
        invariant
            ls == views(lines@),
            ls == lines_from(content@, 0),
            ls.len() > 0,
            contains_seq(ls[0], DELIMITER@),
            delim@ == DELIMITER@,
            1 <= i <= lines.len(),
            forall|j: int| 1 <= j < i ==> !contains_seq(#[trigger] ls[j], DELIMITER@),
        decreases lines.len() - i,
    {
        let line = chars_of(lines[i].as_str());
        assert(ls[i as int] == line@);
        if contains(line.as_slice(), delim.as_slice()) {
            proof {
                assert(closes_at(ls, i as int));
                let c = choose|c: int| closes_at(ls, c);
                if c < i {
                    assert(!contains_seq(ls[c], DELIMITER@));
                } else if c > i {
                    assert(!contains_seq(ls[i as int], DELIMITER@));
                }
            }
            let mut inner: Vec<String> = Vec::new();
            let mut k: usize = 1;
            while k < i
                invariant
                    ls == views(lines@),
                    1 <= k <= i < lines.len(),
                    inner@.len() == k - 1,
                    forall|j: int| 0 <= j < k - 1 ==> #[trigger] inner@[j]@ == ls[j + 1],
                decreases i - k,
            {
                inner.push(lines[k].clone());
                k += 1;
            }
            assert(views(inner@) =~= ls.subrange(1, i as int));
            return Ok(join(&inner, "\n"));
        }
        i += 1;
    }
    proof {
        if exists|c: int| closes_at(ls, c) {
            let c = choose|c: int| closes_at(ls, c);
            assert(!contains_seq(ls[c], DELIMITER@));
        }
    }
    Err(FrontmatterError::Unclosed)
}

/// `a` comes before `b` in character order.
pub open spec fn text_before(a: Seq<char>, b: Seq<char>) -> bool
    decreases a.len(),
{
    if b.len() == 0 {
        false
    } else if a.len() == 0 {
        true
    } else if a[0] != b[0] {
        (a[0] as u32) < (b[0] as u32)
    } else {
        text_before(a.skip(1), b.skip(1))
    }
}

proof fn lemma_text_before_transitive(a: Seq<char>, b: Seq<char>, c: Seq<char>)
    requires
        text_before(a, b),
        text_before(b, c),
    ensures
        text_before(a, c),
    decreases a.len(),
{
    if a.len() > 0 && b.len() > 0 && c.len() > 0 && a[0] == b[0] && b[0] == c[0] {
        lemma_text_before_transitive(a.skip(1), b.skip(1), c.skip(1));
    }
}

proof fn lemma_text_before_irreflexive(a: Seq<char>)
    ensures
        !text_before(a, a),
    decreases a.len(),
{
    if a.len() > 0 {
        lemma_text_before_irreflexive(a.skip(1));
    }
}

/// Whether `a` comes before `b` in character order.
pub fn name_before(a: &str, b: &str) -> (r: bool)
    ensures
        r == text_before(a@, b@),
{
    let x = chars_of(a);
    let y = chars_of(b);
    let mut i: usize = 0;
    assert(x@.skip(0) =~= x@);
    assert(y@.skip(0) =~= y@);
    loop
        invariant
            x@ == a@,
            y@ == b@,
            i <= x.len(),
            i <= y.len(),
            text_before(a@, b@) == text_before(x@.skip(i as int), y@.skip(i as int)),
        decreases x.len() - i,
    {
        if i == y.len() {
            return false;
        }
        if i == x.len() {
            return true;
        }
        assert(x@.skip(i as int)[0] == x@[i as int]);
        assert(y@.skip(i as int)[0] == y@[i as int]);
        if x[i] != y[i] {
            return (x[i] as u32) < (y[i] as u32);
        }
        assert(x@.skip(i as int).skip(1) =~= x@.skip(i + 1));
        assert(y@.skip(i as int).skip(1) =~= y@.skip(i + 1));
        i += 1;
    }
}

/// No skill comes before an earlier one by name.
pub open spec fn sorted_by_name(s: Seq<Skill>) -> bool {
    forall|i: int, j: int| 0 <= i < j < s.len() ==> !text_before(#[trigger] s[j].name@, #[trigger] s[i].name@)
}

/// A copy of a skill.
pub fn copy_skill(s: &Skill) -> (r: Skill)
    ensures
        r == *s,
{
    Skill {
        name: s.name.clone(),
        description: s.description.clone(),
        version: match &s.version {
            Some(v) => Some(v.clone()),
            None => None,
        },
        path: s.path.clone(),
        source: s.source.clone(),
    }
}

/// The same skills, ordered by name.
pub fn sort_by_name(skills: &Vec<Skill>) -> (r: Vec<Skill>)
    ensures
        sorted_by_name(r@),
        r@.to_multiset() == skills@.to_multiset(),
{
    broadcast use vstd::seq_lib::to_multiset_insert;
    let mut r: Vec<Skill> = Vec::new();
    let mut k: usize = 0;
    assert(r@ =~= skills@.take(0));
    while k < skills.len()
        invariant
            k <= skills.len(),
            sorted_by_name(r@),
            r@.to_multiset() == skills@.take(k as int).to_multiset(),
        decreases skills.len() - k,
    {
        let s = &skills[k];
        let mut p: usize = 0;
        while p < r.len() && !name_before(s.name.as_str(), r[p].name.as_str())
            invariant
                p <= r.len(),
                forall|i: int| 0 <= i < p ==> !text_before(s.name@, #[trigger] r@[i].name@),
            decreases r.len() - p,
        {
            p += 1;
        }
        let ghost before = r@;
        r.insert(p, copy_skill(s));
        proof {
            assert(skills@.take(k + 1) =~= skills@.take(k as int).push(skills@[k as int]));
            vstd::seq_lib::to_multiset_build(skills@.take(k as int), skills@[k as int]);
            assert(r@ == before.insert(p as int, skills@[k as int]));
            vstd::seq_lib::to_multiset_insert(before, p as int, skills@[k as int]);
            assert forall|i: int, j: int| 0 <= i < j < r@.len() implies
                !text_before(#[trigger] r@[j].name@, #[trigger] r@[i].name@) by {
                if j == p {
                    assert(!text_before(s.name@, before[i].name@));
                } else if i == p {
                    let old_j = j - 1;
                    assert(r@[j] == before[old_j]);
                    if text_before(before[old_j].name@, s.name@) {
                        if p < before.len() {
                            assert(text_before(s.name@, before[p as int].name@));
                            lemma_text_before_transitive(before[old_j].name@, s.name@, before[p as int].name@);
                            if old_j != p {
                                assert(!text_before(before[old_j].name@, before[p as int].name@));
                            } else {
                                lemma_text_before_irreflexive(before[p as int].name@);
                            }
                        }
                    }
                } else {
                    let oi = if i < p { i } else { i - 1 };
                    let oj = if j < p { j } else { j - 1 };
                    assert(r@[i] == before[oi]);
                    assert(r@[j] == before[oj]);
                }
            }
        }
        k += 1;
    }
    assert(skills@.take(skills.len() as int) =~= skills@);
    r
}

} // verus!
