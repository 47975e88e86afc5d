//! From a process's control-group membership to the id of its container.
//!
//! Three runtime conventions are known, each as a pattern whose first group
//! is the 64-digit id. They are tried in a fixed order and the first one
//! that matches decides.

use vstd::prelude::*;
use vstd::string::StringExecFns;

verus! {

/// An id below a `/docker/` path segment.
pub const DOCKER_PATTERN: &'static str = "/docker/([a-f0-9]{64})";

/// An id below `/kubepods/<class>/pod<uid>/` (containerd and CRI-O with the
/// cgroupfs driver).
pub const KUBEPODS_PATTERN: &'static str = "/kubepods/[^/]*/pod[^/]*/([a-f0-9]{64})";

/// An id behind the prefix `cri-containerd-`.
pub const CRI_CONTAINERD_PATTERN: &'static str = "cri-containerd-([a-f0-9]{64})";

/// Number of patterns.
pub const PATTERN_COUNT: usize = 3;

/// The patterns in the order in which they are tried.
pub open spec fn patterns() -> Seq<Seq<char>> {
    seq![DOCKER_PATTERN@, KUBEPODS_PATTERN@, CRI_CONTAINERD_PATTERN@]
}

/// `regex::Error`, the error of compiling a pattern. Nothing is known of
/// its content.
#[verifier::external_type_specification]
#[verifier::external_body]
pub struct ExRegexError(regex::Error);

/// Whether `regex::Regex::new` accepts `pattern`.
pub uninterp spec fn regex_compiles(pattern: Seq<char>) -> bool;

/// What the first capture group of `pattern` holds in the leftmost match in
/// `haystack`, as `regex::Regex::captures` finds it; `None` where nothing
/// matches or the group takes no part in the match.
pub uninterp spec fn regex_first_group(pattern: Seq<char>, haystack: Seq<char>) -> Option<
    Seq<char>,
>;

/// Compiles `pattern` with `regex::Regex::new` and searches `haystack` with
/// `Regex::captures`. Trusted: the call fails exactly where the pattern does
/// not compile, and otherwise hands back the text of the first group of the
/// leftmost match.
#[verifier::external_body]
fn first_group(pattern: &str, haystack: &str) -> (r: Result<Option<String>, regex::Error>)
    ensures
        r is Ok <==> regex_compiles(pattern@),
        r matches Ok(found) ==> found.deep_view() == regex_first_group(pattern@, haystack@),
{
    let re = regex::Regex::new(pattern)?;
    Ok(re.captures(haystack).and_then(|c| c.get(1)).map(|m| m.as_str().to_string()))
}

/// What one pattern says about a cgroup file.
#[derive(Clone, Debug, PartialEq, Eq)]
pub enum PatternOutcome {
    /// The pattern could not be compiled.
    Invalid,
    /// The pattern matches nowhere.
    NoMatch,
    /// The id that the pattern found.
    Id(String),
}

/// Why an outcome could not be had.
#[derive(Clone, Debug, PartialEq, Eq)]
pub enum PatternError {
    /// A pattern could not be compiled.
    Invalid,
}

impl DeepView for PatternOutcome {
    type V = Option<Option<Seq<char>>>;

    /// `None` for a pattern that does not compile, else what it found.
    open spec fn deep_view(&self) -> Option<Option<Seq<char>>> {
        match self {
            PatternOutcome::Invalid => None,
            PatternOutcome::NoMatch => Some(None),
            PatternOutcome::Id(id) => Some(Some(id@)),
        }
    }
}

/// The verdict that names the container `id`.
pub open spec fn found(id: Seq<char>) -> Result<Option<Seq<char>>, PatternError> {
    Ok(Some(id))
}

/// The verdict that names no container.
pub open spec fn nothing() -> Result<Option<Seq<char>>, PatternError> {
    Ok(None)
}

/// The outcome of a pattern that compiles and matches nowhere.
pub open spec fn miss() -> Option<Option<Seq<char>>> {
    Some(None)
}

/// The outcome of a pattern that finds `id`.
pub open spec fn hit(id: Seq<char>) -> Option<Option<Seq<char>>> {
    Some(Some(id))
}

/// What `pattern` says about `content`.
pub open spec fn outcome_of(pattern: Seq<char>, content: Seq<char>) -> Option<Option<Seq<char>>> {
    if regex_compiles(pattern) {
        Some(regex_first_group(pattern, content))
    } else {
        None
    }
}

/// What the patterns say about `content`, in the order in which they are tried.
pub open spec fn outcomes_of(content: Seq<char>) -> Seq<Option<Option<Seq<char>>>> {
    patterns().map_values(|p: Seq<char>| outcome_of(p, content))
}

/// The verdict of a run of outcomes: the first one that is not a plain miss
/// decides, an id by being the answer, a pattern that does not compile by
/// being the failure. A run of misses finds nothing.
pub open spec fn verdict(outcomes: Seq<Option<Option<Seq<char>>>>) -> Result<
    Option<Seq<char>>,
    PatternError,
>
    decreases outcomes.len(),
{
    if outcomes.len() == 0 {
        Ok(None)
    } else {
        match outcomes[0] {
            None => Err(PatternError::Invalid),
            Some(Some(id)) => Ok(Some(id)),
            Some(None) => verdict(outcomes.drop_first()),
        }
    }
}

/// The container id that a cgroup file names.
pub open spec fn container_id_of(content: Seq<char>) -> Result<Option<Seq<char>>, PatternError> {
    verdict(outcomes_of(content))
}

/// The view of a result of the search.
pub open spec fn found_view(r: Result<Option<String>, PatternError>) -> Result<
    Option<Seq<char>>,
    PatternError,
> {
    match r {
        Ok(found) => Ok(found.deep_view()),
        Err(e) => Err(e),
    }
}

/// Decides from the outcomes of the patterns, given in the order in which
/// they were tried.
pub fn resolve_outcomes(outcomes: &Vec<PatternOutcome>) -> (r: Result<Option<String>, PatternError>)
    ensures
        found_view(r) == verdict(outcomes.deep_view()),
{
    let mut k: usize = 0;
    proof {
        assert(outcomes.deep_view().skip(0) =~= outcomes.deep_view());
    }
    while k < outcomes.len()
        invariant
            k <= outcomes.len(),
            verdict(outcomes.deep_view()) == verdict(outcomes.deep_view().skip(k as int)),
        decreases outcomes.len() - k,
    {
        let ghost rest = outcomes.deep_view().skip(k as int);
        proof {
            assert(rest[0] == outcomes[k as int].deep_view());
            assert(rest.drop_first() =~= outcomes.deep_view().skip(k + 1));
        }
        match &outcomes[k] {
            PatternOutcome::Invalid => {
                return Err(PatternError::Invalid);
            },
            PatternOutcome::Id(id) => {
                return Ok(Some(id.clone()));
            },
            PatternOutcome::NoMatch => {},
        }
        k = k + 1;
    }
    Ok(None)
}

/// A run of misses that ends in an outcome which decides has the verdict of
/// any longer run that starts with it.
pub proof fn lemma_verdict_of_prefix(outcomes: Seq<Option<Option<Seq<char>>>>, k: int)
    requires
        0 < k <= outcomes.len(),
        forall|j: int| 0 <= j < k - 1 ==> outcomes[j] == miss(),
        outcomes[k - 1] != miss() || k == outcomes.len(),
    ensures
        verdict(outcomes.take(k)) == verdict(outcomes),
    decreases k,
{
    let head = outcomes.take(k);
    assert(head[0] == outcomes[0]);
    if k == 1 {
        assert(head.drop_first() =~= Seq::empty());
        if outcomes[0] == miss() {
            assert(outcomes.drop_first() =~= Seq::empty());
        }
    } else {
        assert(head.drop_first() =~= outcomes.drop_first().take(k - 1));
        lemma_verdict_of_prefix(outcomes.drop_first(), k - 1);
    }
}

/// The pattern tried in place `k`.
fn pattern(k: usize) -> (p: &'static str)
    requires
        k < PATTERN_COUNT,
    ensures
        p@ == patterns()[k as int],
{
    if k == 0 {
        DOCKER_PATTERN
    } else if k == 1 {
        KUBEPODS_PATTERN
    } else {
        CRI_CONTAINERD_PATTERN
    }
}

/// What the pattern in place `k` says about `content`.
fn try_pattern(k: usize, content: &str) -> (o: PatternOutcome)
    requires
        k < PATTERN_COUNT,
    ensures
        o.deep_view() == outcomes_of(content@)[k as int],
{
    match first_group(pattern(k), content) {
        Err(_) => PatternOutcome::Invalid,
        Ok(None) => PatternOutcome::NoMatch,
        Ok(Some(id)) => PatternOutcome::Id(id),
    }
}

/// Finds the container id in the content of a cgroup membership file: the
/// patterns are tried in their order, and the first that matches ends the
/// search.
pub fn extract_container_id(content: &str) -> (r: Result<Option<String>, PatternError>)
    ensures
        found_view(r) == container_id_of(content@),
{
    let ghost all = outcomes_of(content@);
    let mut outcomes: Vec<PatternOutcome> = Vec::new();
    let mut k: usize = 0;
    let mut decided = false;
    proof {
        assert(outcomes.deep_view() =~= all.take(0));
    }
    while k < PATTERN_COUNT && !decided
        invariant
            k <= PATTERN_COUNT,
            all == outcomes_of(content@),
            all.len() == PATTERN_COUNT,
            outcomes.deep_view() == all.take(k as int),
            decided ==> k > 0 && all[k - 1] != miss(),
            forall|j: int| 0 <= j < k - 1 ==> all[j] == miss(),
            !decided && k > 0 ==> all[k - 1] == miss(),
        decreases PATTERN_COUNT - k,
    {
        let outcome = try_pattern(k, content);
        decided = match outcome {
            PatternOutcome::NoMatch => false,
            _ => true,
        };
        let ghost before = outcomes.deep_view();
        outcomes.push(outcome);
        proof {
            assert(outcomes.deep_view() =~= before.push(outcome.deep_view()));
            assert(before.push(all[k as int]) =~= all.take(k + 1));
        }
        k = k + 1;
    }
    proof {
        if k == 0 {
            assert(all.take(0) =~= all);
        } else {
            lemma_verdict_of_prefix(all, k as int);
        }
    }
    resolve_outcomes(&outcomes)
}

/// Priority: where the patterns before place `k` compile and miss and the
/// one in place `k` finds an id, that id is the answer, whatever the later
/// patterns say. Where all of them compile and miss, there is no id.
pub proof fn lemma_first_match_wins(content: Seq<char>, k: int, id: Seq<char>)
    ensures
        0 <= k < PATTERN_COUNT && (forall|j: int|
            0 <= j < k ==> #[trigger] outcomes_of(content)[j] == miss()) && outcomes_of(
            content,
        )[k] == hit(id) ==> container_id_of(content) == found(id),
        (forall|j: int| 0 <= j < PATTERN_COUNT ==> #[trigger] outcomes_of(content)[j] == miss())
            ==> container_id_of(content) == nothing(),
{
    let all = outcomes_of(content);
    reveal_with_fuel(verdict, 4);
    assert(all.len() == 3);
    assert(all.drop_first().len() == 2);
    assert(all.drop_first()[0] == all[1]);
    assert(all.drop_first().drop_first().len() == 1);
    assert(all.drop_first().drop_first()[0] == all[2]);
    assert(all.drop_first().drop_first().drop_first().len() == 0);
}

/// The three patterns in their order: an id that the docker pattern finds
/// is chosen over any other; one that the kubepods pattern finds is chosen
/// over one behind `cri-containerd-`, and only where the docker pattern
/// misses; the third pattern decides only where both others miss.
pub proof fn lemma_pattern_order(content: Seq<char>, id: Seq<char>)
    ensures
        patterns() == seq![DOCKER_PATTERN@, KUBEPODS_PATTERN@, CRI_CONTAINERD_PATTERN@],
        outcome_of(DOCKER_PATTERN@, content) == hit(id) ==> container_id_of(content) == found(id),
        outcome_of(DOCKER_PATTERN@, content) == miss() && outcome_of(KUBEPODS_PATTERN@, content)
            == hit(id) ==> container_id_of(content) == found(id),
        outcome_of(DOCKER_PATTERN@, content) == miss() && outcome_of(KUBEPODS_PATTERN@, content)
            == miss() && outcome_of(CRI_CONTAINERD_PATTERN@, content) == hit(id)
            ==> container_id_of(content) == found(id),
        outcome_of(DOCKER_PATTERN@, content) == miss() && outcome_of(KUBEPODS_PATTERN@, content)
            == miss() && outcome_of(CRI_CONTAINERD_PATTERN@, content) == miss()
            ==> container_id_of(content) == nothing(),
{
    let all = outcomes_of(content);
    assert(all[0] == outcome_of(DOCKER_PATTERN@, content));
    assert(all[1] == outcome_of(KUBEPODS_PATTERN@, content));
    assert(all[2] == outcome_of(CRI_CONTAINERD_PATTERN@, content));
    lemma_first_match_wins(content, 0, id);
    lemma_first_match_wins(content, 1, id);
    lemma_first_match_wins(content, 2, id);
}

/// The decimal digit `d` as a character.
pub open spec fn digit(d: nat) -> char {
    if d == 0 {
        '0'
    } else if d == 1 {
        '1'
    } else if d == 2 {
        '2'
    } else if d == 3 {
        '3'
    } else if d == 4 {
        '4'
    } else if d == 5 {
        '5'
    } else if d == 6 {
        '6'
    } else if d == 7 {
        '7'
    } else if d == 8 {
        '8'
    } else {
        '9'
    }
}

/// `n` in decimal, without leading zeros.
pub open spec fn decimal(n: nat) -> Seq<char>
    decreases n,
{
    if n < 10 {
        seq![digit(n)]
    } else {
        decimal(n / 10).push(digit(n % 10))
    }
}

/// Where the kernel shows the control groups of process `pid`.
pub open spec fn cgroup_path_of(pid: nat) -> Seq<char> {
    "/proc/"@ + decimal(pid) + "/cgroup"@
}

fn digit_str(d: u32) -> (s: &'static str)
    requires
        d < 10,
    ensures
        s@ == seq![digit(d as nat)],
{
    proof {
        reveal_strlit("0");
        reveal_strlit("1");
        reveal_strlit("2");
        reveal_strlit("3");
        reveal_strlit("4");
        reveal_strlit("5");
        reveal_strlit("6");
        reveal_strlit("7");
        reveal_strlit("8");
        reveal_strlit("9");
    }
    let s = if d == 0 {
        "0"
    } else if d == 1 {
        "1"
    } else if d == 2 {
        "2"
    } else if d == 3 {
        "3"
    } else if d == 4 {
        "4"
    } else if d == 5 {
        "5"
    } else if d == 6 {
        "6"
    } else if d == 7 {
        "7"
    } else if d == 8 {
        "8"
    } else {
        "9"
    };
    proof {
        assert(s@ =~= seq![digit(d as nat)]);
    }
    s
}

fn push_decimal(out: &mut String, n: u32)
    ensures
        final(out)@ == old(out)@ + decimal(n as nat),
    decreases n,
{
    if n >= 10 {
        push_decimal(out, n / 10);
    }
    out.append(digit_str(n % 10));
    proof {
        assert(out@ =~= old(out)@ + decimal(n as nat));
    }
}

/// The path of the cgroup membership file of process `pid`.
pub fn cgroup_path(pid: u32) -> (path: String)
    ensures
        path@ == cgroup_path_of(pid as nat),
{
    let mut path = String::from_str("/proc/");
    push_decimal(&mut path, pid);
    path.append("/cgroup");
    path
}

} // verus!
