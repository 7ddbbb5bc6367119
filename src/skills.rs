//! Skills: their configuration, and matching a prompt against their keyword
//! and pattern triggers. Reading the configuration file and scanning skill
//! directories is the caller's part.
use vstd::prelude::*;

use vstd::utf8::encode_utf8;

use crate::text::{owned, owned_opt};

verus! {

/// How a skill is used.
#[derive(Clone, Copy, Debug, PartialEq, Eq, Structural)]
pub enum SkillType {
    Workflow,
    Domain,
    Execution,
}

impl Default for SkillType {
    fn default() -> (r: Self)
        ensures
            r == SkillType::Domain,
    {
        SkillType::Domain
    }
}

/// How firmly a skill is applied.
#[derive(Clone, Copy, Debug, PartialEq, Eq, Structural)]
pub enum EnforcementLevel {
    Require,
    Suggest,
    Silent,
}

impl Default for EnforcementLevel {
    fn default() -> (r: Self)
        ensures
            r == EnforcementLevel::Suggest,
    {
        EnforcementLevel::Suggest
    }
}

#[derive(Clone, Copy, Debug, PartialEq, Eq, Structural)]
pub enum Priority {
    High,
    Medium,
    Low,
}

impl Default for Priority {
    fn default() -> (r: Self)
        ensures
            r == Priority::Medium,
    {
        Priority::Medium
    }
}

/// What activates a skill: words contained in the prompt, or patterns
/// that match it.
pub struct SkillTrigger {
    pub keywords: Vec<String>,
    pub patterns: Vec<String>,
}

pub struct Skill {
    pub name: String,
    pub version: String,
    pub skill_type: SkillType,
    pub description: String,
    pub enabled: bool,
    pub source: Option<String>,
    pub imported_from: Option<String>,
    pub imported_at: Option<String>,
    pub body: Option<String>,
    pub triggers: SkillTrigger,
}

/// A slash command.
pub struct Command {
    pub name: String,
    pub version: String,
    pub stage: Option<u8>,
    pub description: String,
    pub icon: Option<String>,
    pub source: Option<String>,
    pub imported_from: Option<String>,
}

pub struct SkillsSettings {
    pub auto_suggest: bool,
    pub max_concurrent_skills: u8,
    pub progressive_loading: bool,
}

pub struct CommandsSettings {
    pub namespace: String,
    pub auto_install: bool,
}

pub struct TriggerSettings {
    pub case_sensitive: bool,
    pub min_keyword_length: u8,
    pub max_matches_per_prompt: u8,
}

pub struct SkillsConfig {
    pub settings: SkillsSettings,
    pub builtin: Vec<Skill>,
    pub user: Vec<Skill>,
}

pub struct CommandsConfig {
    pub settings: CommandsSettings,
    pub builtin: Vec<Command>,
    pub auxiliary: Vec<Command>,
    pub user: Vec<Command>,
}

pub struct TriggerRulesConfig {
    pub settings: TriggerSettings,
    pub priority_order: Vec<String>,
}

/// What was installed into one project.
pub struct ProjectState {
    pub initialized_at: String,
    pub commands_version: String,
    pub skills_installed: Vec<String>,
    pub custom_overrides: Vec<String>,
}

/// The tools configuration; `projects` is keyed by project path.
pub struct ToolsConfig {
    pub version: String,
    pub updated_at: Option<String>,
    pub skills: SkillsConfig,
    pub commands: CommandsConfig,
    pub trigger_rules: TriggerRulesConfig,
    pub projects: Vec<(String, ProjectState)>,
}

pub struct MigrationResult {
    pub migrated: bool,
    pub from_version: Option<String>,
    pub to_version: String,
    pub message: String,
}

pub struct SkillScanError {
    pub dir_name: String,
    pub error: String,
}

pub struct SkillScanResult {
    pub skills: Vec<Skill>,
    pub errors: Vec<SkillScanError>,
    pub scanned_path: String,
}

/// A skill that a prompt activated, with the triggers that fired.
pub struct SkillMatch {
    pub skill: Skill,
    pub score: u32,
    pub matched_keywords: Vec<String>,
    pub matched_patterns: Vec<String>,
}

pub struct MatchResult {
    pub matches: Vec<SkillMatch>,
    pub input: String,
    pub case_sensitive: bool,
}

/// The light description of a skill.
pub struct SkillMetadata {
    pub name: String,
    pub description: String,
    pub skill_type: SkillType,
    pub enabled: bool,
    pub has_body: bool,
    pub has_resources: bool,
}

pub struct SkillBody {
    pub name: String,
    pub content: String,
    pub word_count: usize,
}

#[derive(Clone, Copy, Debug, PartialEq, Eq, Structural)]
pub enum ResourceType {
    Reference,
    Script,
    Asset,
}

pub struct SkillResource {
    pub name: String,
    pub path: String,
    pub resource_type: ResourceType,
    pub size: u64,
}

pub struct SkillResources {
    pub skill_name: String,
    pub references: Vec<SkillResource>,
    pub scripts: Vec<SkillResource>,
    pub assets: Vec<SkillResource>,
}

pub struct LoadedResource {
    pub path: String,
    pub content: String,
    pub resource_type: ResourceType,
}

/// What a user skill's directory holds, as found on disk.
pub struct SkillFiles {
    pub has_body: bool,
    pub has_resources: bool,
}

impl TriggerSettings {
    pub fn new() -> (r: TriggerSettings)
        ensures
            !r.case_sensitive,
            r.min_keyword_length == 2,
            r.max_matches_per_prompt == 3,
    {
        TriggerSettings { case_sensitive: false, min_keyword_length: 2, max_matches_per_prompt: 3 }
    }
}

/// The text `s` folded to lower case, as `str::to_lowercase` does it.
pub uninterp spec fn lower_of(s: Seq<char>) -> Seq<char>;

/// Whether `p` is a valid pattern that the regex crate compiles under its
/// default size limit.
pub uninterp spec fn pattern_compiles(p: Seq<char>) -> bool;

/// Whether the compiled pattern `p` matches somewhere in `s`.
pub uninterp spec fn pattern_matches(p: Seq<char>, s: Seq<char>) -> bool;

/// Relies on `str::to_lowercase`: the result depends on the text alone.
#[verifier::external_body]
fn lowercase(s: &str) -> (r: String)
    ensures
        r@ == lower_of(s@),
{
    s.to_lowercase()
}

/// Relies on regex's `Regex::new`, which refuses an invalid pattern, and
/// `Regex::is_match`, which tells whether the pattern matches anywhere in `s`.
#[verifier::external_body]
fn regex_find(pattern: &str, s: &str) -> (r: Option<bool>)
    ensures
        r is Some == pattern_compiles(pattern@),
        r matches Some(b) ==> b == pattern_matches(pattern@, s@),
{
    match regex::Regex::new(pattern) {
        Ok(re) => Some(re.is_match(s)),
        Err(_) => None,
    }
}

/// `needle` occurs in `hay`.
pub open spec fn contains(hay: Seq<char>, needle: Seq<char>) -> bool {
    exists|i: int| 0 <= i <= hay.len() - needle.len() && #[trigger] hay.subrange(i, i + needle.len()) == needle
}

fn chars_of(s: &str) -> (r: Vec<char>)
    ensures
        r@ == s@,
{
    let n = s.unicode_len();
    let mut v: Vec<char> = Vec::new();
    let mut i: usize = 0;
    while i < n
        invariant
            n == s@.len(),
            0 <= i <= n,
            v@ == s@.take(i as int),
        decreases n - i,
    {
        v.push(s.get_char(i));
        i = i + 1;
        proof {
            assert(v@ =~= s@.take(i as int));
        }
    }
    proof {
        assert(s@.take(n as int) =~= s@);
    }
    v
}

fn occurs_at(hay: &Vec<char>, needle: &Vec<char>, i: usize) -> (r: bool)
    requires
        i + needle@.len() <= hay@.len(),
    ensures
        r == (hay@.subrange(i as int, i + needle@.len()) == needle@),
{
    let hlen = hay.len();
    let mut j: usize = 0;
    while j < needle.len()
        invariant
            hlen == hay@.len(),
            i + needle@.len() <= hay@.len(),
            0 <= j <= needle@.len(),
            forall|k: int| 0 <= k < j ==> hay@[i + k] == needle@[k],
        decreases needle@.len() - j,
    {
        if hay[i + j] != needle[j] {
            proof {
                assert(hay@.subrange(i as int, i + needle@.len())[j as int] != needle@[j as int]);
            }
            return false;
        }
        j = j + 1;
    }
    proof {
        assert(hay@.subrange(i as int, i + needle@.len()) =~= needle@);
    }
    true
}

/// Whether `needle` occurs in `hay`.
pub fn text_contains(hay: &str, needle: &str) -> (r: bool)
    ensures
        r == contains(hay@, needle@),
{
    let h = chars_of(hay);
    let n = chars_of(needle);
    if n.len() > h.len() {
        return false;
    }
    let last = h.len() - n.len();
    let mut i: usize = 0;
    while i <= last
        invariant
            h@ == hay@,
            n@ == needle@,
            last == h@.len() - n@.len(),
            0 <= i <= last + 1,
            forall|k: int| 0 <= k < i ==> #[trigger] hay@.subrange(k, k + needle@.len()) != needle@,
        decreases last + 1 - i,
    {
        if occurs_at(&h, &n, i) {
            return true;
        }
        if i == last {
            return false;
        }
        i = i + 1;
    }
    false
}

/// Whether `keyword` fires on `input` under `settings`: long enough, and
/// contained in the input (after folding both when matching ignores case).
pub open spec fn keyword_fires(input: Seq<char>, keyword: String, settings: TriggerSettings) -> bool {
    &&& encode_utf8(keyword@).len() >= settings.min_keyword_length
    &&& if settings.case_sensitive {
        contains(input, keyword@)
    } else {
        contains(lower_of(input), lower_of(keyword@))
    }
}

/// The pattern handed to the regex crate: prefixed with `(?i)` when matching
/// ignores case.
pub open spec fn full_pattern(p: Seq<char>, case_sensitive: bool) -> Seq<char> {
    if case_sensitive {
        p
    } else {
        "(?i)"@ + p
    }
}

/// Whether `pattern` fires on `input`; an invalid pattern never fires.
pub open spec fn pattern_fires(input: Seq<char>, pattern: Seq<char>, case_sensitive: bool) -> bool {
    pattern_compiles(full_pattern(pattern, case_sensitive)) && pattern_matches(
        full_pattern(pattern, case_sensitive),
        input,
    )
}

/// The keywords of `kws` that fire, in order.
pub open spec fn fired_keywords(input: Seq<char>, kws: Seq<String>, settings: TriggerSettings) -> Seq<String> {
    kws.filter(|k: String| keyword_fires(input, k, settings))
}

/// The patterns of `ps` that fire, in order.
pub open spec fn fired_patterns(input: Seq<char>, ps: Seq<String>, case_sensitive: bool) -> Seq<String> {
    ps.filter(|p: String| pattern_fires(input, p@, case_sensitive))
}

/// Ten points per keyword and twenty per pattern, capped at the largest `u32`.
pub open spec fn score_of(keywords: nat, patterns: nat) -> u32 {
    let s = 10 * keywords + 20 * patterns;
    if s > u32::MAX {
        u32::MAX
    } else {
        s as u32
    }
}

/// Rank of a skill type among equal scores: workflow, then execution, then domain.
pub open spec fn type_rank(t: SkillType) -> nat {
    match t {
        SkillType::Workflow => 0,
        SkillType::Execution => 1,
        SkillType::Domain => 2,
    }
}

/// `a` ranks ahead of `b`, or level with it.
pub open spec fn ranks_before(a: SkillMatch, b: SkillMatch) -> bool {
    a.score > b.score || (a.score == b.score && type_rank(a.skill.skill_type) <= type_rank(
        b.skill.skill_type,
    ))
}

pub open spec fn ranked(ms: Seq<SkillMatch>) -> bool {
    forall|i: int, j: int| 0 <= i < j < ms.len() ==> ranks_before(#[trigger] ms[i], #[trigger] ms[j])
}

/// `m` is what `skill` scores on `input`.
pub open spec fn scored_as(m: SkillMatch, skill: Skill, input: Seq<char>, settings: TriggerSettings) -> bool {
    let kws = fired_keywords(input, skill.triggers.keywords@, settings);
    let ps = fired_patterns(input, skill.triggers.patterns@, settings.case_sensitive);
    &&& skill.enabled
    &&& same_skill(m.skill, skill)
    &&& m.matched_keywords@ == kws
    &&& m.matched_patterns@ == ps
    &&& m.score == score_of(kws.len(), ps.len())
    &&& m.score > 0
}

fn clone_strings(v: &Vec<String>) -> (r: Vec<String>)
    ensures
        r@ == v@,
{
    let mut out: Vec<String> = Vec::new();
    let mut i: usize = 0;
    while i < v.len()
        invariant
            0 <= i <= v@.len(),
            out@ == v@.take(i as int),
        decreases v@.len() - i,
    {
        out.push(v[i].clone());
        i = i + 1;
        proof {
            assert(out@ =~= v@.take(i as int));
        }
    }
    proof {
        assert(v@.take(v@.len() as int) =~= v@);
    }
    out
}

/// `s` is enabled and some trigger of it fires on `input`.
pub open spec fn qualifies(s: Skill, input: Seq<char>, settings: TriggerSettings) -> bool {
    s.enabled && score_of(
        fired_keywords(input, s.triggers.keywords@, settings).len(),
        fired_patterns(input, s.triggers.patterns@, settings.case_sensitive).len(),
    ) > 0
}




/// Two skills with the same fields.
pub open spec fn same_skill(a: Skill, b: Skill) -> bool {
    &&& a.name == b.name
    &&& a.version == b.version
    &&& a.skill_type == b.skill_type
    &&& a.description == b.description
    &&& a.enabled == b.enabled
    &&& a.source == b.source
    &&& a.imported_from == b.imported_from
    &&& a.imported_at == b.imported_at
    &&& a.body == b.body
    &&& a.triggers.keywords@ == b.triggers.keywords@
    &&& a.triggers.patterns@ == b.triggers.patterns@
}

impl Skill {
    pub fn duplicate(&self) -> (r: Skill)
        ensures
            same_skill(r, *self),
    {
        Skill {
            name: self.name.clone(),
            version: self.version.clone(),
            skill_type: self.skill_type,
            description: self.description.clone(),
            enabled: self.enabled,
            source: owned_opt(&self.source),
            imported_from: owned_opt(&self.imported_from),
            imported_at: owned_opt(&self.imported_at),
            body: owned_opt(&self.body),
            triggers: SkillTrigger {
                keywords: clone_strings(&self.triggers.keywords),
                patterns: clone_strings(&self.triggers.patterns),
            },
        }
    }
}

fn keyword_fires_exec(input: &str, input_lower: &String, keyword: &String, settings: &TriggerSettings) -> (r: bool)
    requires
        input_lower@ == lower_of(input@),
    ensures
        r == keyword_fires(input@, *keyword, *settings),
{
    if keyword.as_str().as_bytes().len() < settings.min_keyword_length as usize {
        return false;
    }
    if settings.case_sensitive {
        text_contains(input, keyword.as_str())
    } else {
        let k = lowercase(keyword.as_str());
        text_contains(input_lower.as_str(), k.as_str())
    }
}

fn pattern_fires_exec(input: &str, pattern: &String, case_sensitive: bool) -> (r: bool)
    ensures
        r == pattern_fires(input@, pattern@, case_sensitive),
{
    let full = if case_sensitive {
        pattern.clone()
    } else {
        proof {
            reveal_strlit("(?i)");
        }
        String::from_str("(?i)").concat(pattern.as_str())
    };
    match regex_find(full.as_str(), input) {
        Some(b) => b,
        None => false,
    }
}

/// The match of one skill, if enabled and any trigger fires.
fn score_skill(input: &str, input_lower: &String, skill: &Skill, settings: &TriggerSettings) -> (r: Option<SkillMatch>)
    requires
        input_lower@ == lower_of(input@),
    ensures
        match r {
            Some(m) => scored_as(m, *skill, input@, *settings),
            None => !skill.enabled || score_of(
                fired_keywords(input@, skill.triggers.keywords@, *settings).len(),
                fired_patterns(input@, skill.triggers.patterns@, settings.case_sensitive).len(),
            ) == 0,
        },
{
    if !skill.enabled {
        return None;
    }
    let kws = &skill.triggers.keywords;
    let mut matched_keywords: Vec<String> = Vec::new();
    let mut i: usize = 0;
    while i < kws.len()
        invariant
            input_lower@ == lower_of(input@),
            0 <= i <= kws@.len(),
            matched_keywords@ == fired_keywords(input@, kws@.take(i as int), *settings),
        decreases kws@.len() - i,
    {
        let ok = keyword_fires_exec(input, input_lower, &kws[i], settings);
        proof {
            reveal(Seq::filter);
            assert(kws@.take(i + 1).drop_last() =~= kws@.take(i as int));
        }
        if ok {
            matched_keywords.push(kws[i].clone());
        }
        i = i + 1;
    }
    let ps = &skill.triggers.patterns;
    let mut matched_patterns: Vec<String> = Vec::new();
    let mut j: usize = 0;
    while j < ps.len()
        invariant
            0 <= j <= ps@.len(),
            matched_patterns@ == fired_patterns(input@, ps@.take(j as int), settings.case_sensitive),
        decreases ps@.len() - j,
    {
        let ok = pattern_fires_exec(input, &ps[j], settings.case_sensitive);
        proof {
            reveal(Seq::filter);
            assert(ps@.take(j + 1).drop_last() =~= ps@.take(j as int));
        }
        if ok {
            matched_patterns.push(ps[j].clone());
        }
        j = j + 1;
    }
    proof {
        assert(kws@.take(kws@.len() as int) =~= kws@);
        assert(ps@.take(ps@.len() as int) =~= ps@);
    }
    let k = matched_keywords.len() as u64;
    let p = matched_patterns.len() as u64;
    let total: u64 = if k > 1_000_000_000 || p > 1_000_000_000 {
        u32::MAX as u64
    } else {
        10 * k + 20 * p
    };
    let score: u32 = if total > u32::MAX as u64 {
        u32::MAX
    } else {
        total as u32
    };
    if score == 0 {
        return None;
    }
    Some(SkillMatch { skill: skill.duplicate(), score, matched_keywords, matched_patterns })
}

fn type_rank_exec(t: SkillType) -> (r: u8)
    ensures
        r == type_rank(t),
{
    match t {
        SkillType::Workflow => 0,
        SkillType::Execution => 1,
        SkillType::Domain => 2,
    }
}

fn before(a: &SkillMatch, b: &SkillMatch) -> (r: bool)
    ensures
        r == ranks_before(*a, *b),
{
    a.score > b.score || (a.score == b.score && type_rank_exec(a.skill.skill_type) <= type_rank_exec(
        b.skill.skill_type,
    ))
}

/// Inserts `m` after every element that ranks ahead of it or level with it,
/// and returns where it went.
fn insert_ranked(ms: &mut Vec<SkillMatch>, m: SkillMatch) -> (idx: usize)
    requires
        ranked(old(ms)@),
    ensures
        ranked(final(ms)@),
        idx <= old(ms)@.len(),
        final(ms)@ == old(ms)@.insert(idx as int, m),
        forall|k: int| 0 <= k < idx ==> ranks_before(#[trigger] old(ms)@[k], m),
        forall|k: int| idx <= k < old(ms)@.len() ==> !ranks_before(#[trigger] old(ms)@[k], m),
{
    let mut i: usize = ms.len();
    while i > 0 && !before(&ms[i - 1], &m)
        invariant
            0 <= i <= ms@.len(),
            ms@ == old(ms)@,
            forall|k: int| i <= k < ms@.len() ==> !ranks_before(#[trigger] ms@[k], m),
        decreases i,
    {
        i = i - 1;
    }
    let ghost pre = ms@;
    let ghost mm = m;
    proof {
        assert forall|k: int| 0 <= k < i implies ranks_before(#[trigger] pre[k], mm) by {
            if k < i - 1 {
                assert(ranks_before(pre[k], pre[i - 1]));
            }
        }
    }
    ms.insert(i, m);
    proof {
        let post = ms@;
        assert forall|a: int, b: int| 0 <= a < b < post.len() implies ranks_before(
            #[trigger] post[a],
            #[trigger] post[b],
        ) by {
            if b < i {
                assert(post[a] == pre[a] && post[b] == pre[b]);
            } else if b == i {
                assert(post[a] == pre[a]);
            } else if a < i {
                assert(post[a] == pre[a] && post[b] == pre[b - 1]);
                assert(ranks_before(pre[a], mm));
                assert(!ranks_before(pre[b - 1], mm));
            } else if a == i {
                assert(post[b] == pre[b - 1]);
                assert(!ranks_before(pre[b - 1], mm));
            } else {
                assert(post[a] == pre[a - 1] && post[b] == pre[b - 1]);
            }
        }
    }
    i
}

/// Two matches rank level: same score and same type rank.
pub open spec fn equal_rank(a: SkillMatch, b: SkillMatch) -> bool {
    a.score == b.score && type_rank(a.skill.skill_type) == type_rank(b.skill.skill_type)
}

/// `src[a]` is the index among the first `n` skills of the skill that match
/// `a` of `ms` scores; distinct matches come from distinct skills, and matches
/// that rank level keep the order of their skills.
pub open spec fn sourced(
    ms: Seq<SkillMatch>,
    src: Seq<int>,
    skills: Seq<Skill>,
    n: int,
    input: Seq<char>,
    settings: TriggerSettings,
) -> bool {
    &&& src.len() == ms.len()
    &&& forall|a: int|
        0 <= a < ms.len() ==> 0 <= #[trigger] src[a] < n && scored_as(ms[a], skills[src[a]], input, settings)
    &&& forall|a: int, b: int| 0 <= a < b < ms.len() ==> #[trigger] src[a] != #[trigger] src[b]
    &&& forall|a: int, b: int|
        0 <= a < b < ms.len() && equal_rank(#[trigger] ms[a], #[trigger] ms[b]) ==> src[a] < src[b]
}

/// What `match_skills` returns for `skills`: the ranked matches of the
/// qualifying skills, equal ranks in the skills' order, cut to the limit; a
/// qualifying skill left out ranks after every kept match.
pub open spec fn skills_matched(
    r: Seq<SkillMatch>,
    skills: Seq<Skill>,
    input: Seq<char>,
    settings: TriggerSettings,
) -> bool {
    &&& r.len() <= settings.max_matches_per_prompt
    &&& ranked(r)
    &&& exists|src: Seq<int>|
        {
            &&& #[trigger] sourced(r, src, skills, skills.len() as int, input, settings)
            &&& forall|j: int|
                0 <= j < skills.len() && qualifies(#[trigger] skills[j], input, settings) ==> {
                    ||| exists|a: int| 0 <= a < src.len() && src[a] == j
                    ||| (r.len() == settings.max_matches_per_prompt && exists|m: SkillMatch|
                        #[trigger] scored_as(m, skills[j], input, settings) && forall|k: int|
                            0 <= k < r.len() ==> ranks_before(#[trigger] r[k], m) && (equal_rank(r[k], m)
                                ==> src[k] < j))
                }
        }
}

/// The skills that `input` activates under `settings`, best first: each an
/// enabled skill with a positive score, ranked by score and then by type,
/// equal ranks in the order of `skills`, at most `max_matches_per_prompt`.
#[verifier::rlimit(80)]
pub fn match_skills(input: &str, skills: &Vec<Skill>, settings: &TriggerSettings) -> (r: MatchResult)
    ensures
        r.input@ == input@,
        r.case_sensitive == settings.case_sensitive,
        skills_matched(r.matches@, skills@, input@, *settings),
{
    let input_lower = lowercase(input);
    let mut ms: Vec<SkillMatch> = Vec::new();
    let ghost mut src: Seq<int> = Seq::empty();
    let mut i: usize = 0;
    while i < skills.len()
        invariant
            input_lower@ == lower_of(input@),
            0 <= i <= skills@.len(),
            ranked(ms@),
            sourced(ms@, src, skills@, i as int, input@, *settings),
            forall|j: int|
                0 <= j < i && qualifies(#[trigger] skills@[j], input@, *settings) ==> exists|a: int|
                    0 <= a < src.len() && src[a] == j,
        decreases skills@.len() - i,
    {
        match score_skill(input, &input_lower, &skills[i], settings) {
            Some(m) => {
                let ghost pre = ms@;
                let ghost psrc = src;
                let ghost mm = m;
                let idx = insert_ranked(&mut ms, m);
                proof {
                    src = psrc.insert(idx as int, i as int);
                    assert forall|a: int| 0 <= a < ms@.len() implies 0 <= #[trigger] src[a] < i + 1
                        && scored_as(ms@[a], skills@[src[a]], input@, *settings) by {
                        if a < idx {
                            assert(ms@[a] == pre[a] && src[a] == psrc[a]);
                        } else if a > idx {
                            assert(ms@[a] == pre[a - 1] && src[a] == psrc[a - 1]);
                        }
                    }
                    assert forall|a: int, b: int| 0 <= a < b < ms@.len() implies #[trigger] src[a]
                        != #[trigger] src[b] by {
                        let oa = if a < idx { a } else { a - 1 };
                        let ob = if b < idx { b } else { b - 1 };
                        if a != idx && b != idx {
                            assert(psrc[oa] != psrc[ob]);
                        }
                    }
                    assert forall|a: int, b: int|
                        0 <= a < b < ms@.len() && equal_rank(#[trigger] ms@[a], #[trigger] ms@[b]) implies src[a]
                        < src[b] by {
                        if b == idx {
                            assert(src[a] == psrc[a]);
                        } else if a == idx {
                            assert(ms@[b] == pre[b - 1]);
                            assert(!ranks_before(pre[b - 1], mm));
                        } else {
                            let oa = if a < idx { a } else { a - 1 };
                            let ob = if b < idx { b } else { b - 1 };
                            assert(ms@[a] == pre[oa] && ms@[b] == pre[ob]);
                            assert(src[a] == psrc[oa] && src[b] == psrc[ob]);
                        }
                    }
                    assert forall|j: int|
                        0 <= j < i + 1 && qualifies(#[trigger] skills@[j], input@, *settings) implies exists|a: int|
                            0 <= a < src.len() && src[a] == j by {
                        if j == i {
                            assert(src[idx as int] == j);
                        } else {
                            let a = choose|a: int| 0 <= a < psrc.len() && psrc[a] == j;
                            let c = if a < idx { a } else { a + 1 };
                            assert(src[c] == psrc[a]);
                        }
                    }
                }
            },
            None => {
                proof {
                    assert forall|j: int|
                        0 <= j < i + 1 && qualifies(#[trigger] skills@[j], input@, *settings) implies exists|a: int|
                            0 <= a < src.len() && src[a] == j by {
                        if j == i {
                            assert(!qualifies(skills@[j], input@, *settings));
                        }
                    }
                }
            },
        }
        i = i + 1;
    }
    let max = settings.max_matches_per_prompt as usize;
    let ghost full = ms@;
    let ghost fsrc = src;
    if ms.len() > max {
        ms.truncate(max);
        proof {
            src = fsrc.take(max as int);
            assert forall|j: int|
                0 <= j < skills@.len() && qualifies(#[trigger] skills@[j], input@, *settings) implies {
                    ||| exists|a: int| 0 <= a < src.len() && src[a] == j
                    ||| (ms@.len() == settings.max_matches_per_prompt && exists|m: SkillMatch|
                        #[trigger] scored_as(m, skills@[j], input@, *settings) && forall|k: int|
                            0 <= k < ms@.len() ==> ranks_before(#[trigger] ms@[k], m) && (equal_rank(ms@[k], m)
                                ==> src[k] < j))
                } by {
                let a = choose|a: int| 0 <= a < fsrc.len() && fsrc[a] == j;
                if a < max {
                    assert(src[a] == fsrc[a]);
                } else {
                    assert(scored_as(full[a], skills@[j], input@, *settings));
                    assert forall|k: int| 0 <= k < ms@.len() implies ranks_before(#[trigger] ms@[k], full[a])
                        && (equal_rank(ms@[k], full[a]) ==> src[k] < j) by {
                        assert(ms@[k] == full[k]);
                        assert(src[k] == fsrc[k]);
                    }
                }
            }
            assert(sourced(ms@, src, skills@, skills@.len() as int, input@, *settings)) by {
                assert forall|a: int| 0 <= a < ms@.len() implies 0 <= #[trigger] src[a] < skills@.len()
                    && scored_as(ms@[a], skills@[src[a]], input@, *settings) by {
                    assert(ms@[a] == full[a] && src[a] == fsrc[a]);
                }
                assert forall|a: int, b: int| 0 <= a < b < ms@.len() implies #[trigger] src[a]
                    != #[trigger] src[b] by {
                    assert(src[a] == fsrc[a] && src[b] == fsrc[b]);
                }
                assert forall|a: int, b: int|
                    0 <= a < b < ms@.len() && equal_rank(#[trigger] ms@[a], #[trigger] ms@[b]) implies src[a]
                    < src[b] by {
                    assert(ms@[a] == full[a] && ms@[b] == full[b]);
                    assert(src[a] == fsrc[a] && src[b] == fsrc[b]);
                }
            }
        }
    }
    proof {
        assert(sourced(ms@, src, skills@, skills@.len() as int, input@, *settings));
    }
    MatchResult { matches: ms, input: owned(input), case_sensitive: settings.case_sensitive }
}

fn duplicate_skills(v: &Vec<Skill>, out: &mut Vec<Skill>)
    ensures
        final(out)@.len() == old(out)@.len() + v@.len(),
        forall|k: int| 0 <= k < old(out)@.len() ==> #[trigger] final(out)@[k] == old(out)@[k],
        forall|k: int|
            0 <= k < v@.len() ==> same_skill(#[trigger] final(out)@[old(out)@.len() + k], v@[k]),
{
    let ghost start = out@;
    let mut i: usize = 0;
    while i < v.len()
        invariant
            0 <= i <= v@.len(),
            out@.len() == start.len() + i,
            forall|k: int| 0 <= k < start.len() ==> #[trigger] out@[k] == start[k],
            forall|k: int| 0 <= k < i ==> same_skill(#[trigger] out@[start.len() + k], v@[k]),
        decreases v@.len() - i,
    {
        out.push(v[i].duplicate());
        i = i + 1;
    }
}

/// The built-in skills followed by the user's.
pub fn all_skills(config: &ToolsConfig) -> (r: Vec<Skill>)
    ensures
        r@.len() == config.skills.builtin@.len() + config.skills.user@.len(),
        forall|k: int|
            0 <= k < config.skills.builtin@.len() ==> same_skill(#[trigger] r@[k], config.skills.builtin@[k]),
        forall|k: int|
            0 <= k < config.skills.user@.len() ==> same_skill(
                #[trigger] r@[config.skills.builtin@.len() + k],
                config.skills.user@[k],
            ),
{
    let mut all: Vec<Skill> = Vec::new();
    duplicate_skills(&config.skills.builtin, &mut all);
    proof {
        assert forall|k: int| 0 <= k < config.skills.builtin@.len() implies same_skill(
            #[trigger] all@[k],
            config.skills.builtin@[k],
        ) by {
            assert(all@[0 + k] == all@[k]);
        }
    }
    duplicate_skills(&config.skills.user, &mut all);
    all
}

/// The configured skills: the built-in ones, then the user's.
pub open spec fn configured(config: ToolsConfig) -> Seq<Skill> {
    config.skills.builtin@ + config.skills.user@
}

/// Matches `input` against every configured skill under the configured
/// trigger settings (see `match_skills`).
pub fn match_skills_from_config(config: &ToolsConfig, input: &str) -> (r: MatchResult)
    ensures
        r.input@ == input@,
        r.case_sensitive == config.trigger_rules.settings.case_sensitive,
        skills_matched(r.matches@, configured(*config), input@, config.trigger_rules.settings),
{
    let all = all_skills(config);
    let r = match_skills(input, &all, &config.trigger_rules.settings);
    proof {
        let c = configured(*config);
        let st = config.trigger_rules.settings;
        let bl = config.skills.builtin@.len();
        let ms = r.matches@;
        assert forall|k: int| 0 <= k < c.len() implies same_skill(#[trigger] all@[k], c[k]) by {
            if k < bl {
                assert(c[k] == config.skills.builtin@[k]);
            } else {
                assert(c[k] == config.skills.user@[k - bl]);
                assert(all@[bl + (k - bl)] == all@[k]);
            }
        }
        let src = choose|src: Seq<int>|
            {
                &&& #[trigger] sourced(ms, src, all@, all@.len() as int, input@, st)
                &&& forall|j: int|
                    0 <= j < all@.len() && qualifies(#[trigger] all@[j], input@, st) ==> {
                        ||| exists|a: int| 0 <= a < src.len() && src[a] == j
                        ||| (ms.len() == st.max_matches_per_prompt && exists|m: SkillMatch|
                            #[trigger] scored_as(m, all@[j], input@, st) && forall|k: int|
                                0 <= k < ms.len() ==> ranks_before(#[trigger] ms[k], m) && (equal_rank(ms[k], m)
                                    ==> src[k] < j))
                    }
            };
        assert forall|a: int| 0 <= a < ms.len() implies 0 <= #[trigger] src[a] < c.len() && scored_as(
            ms[a],
            c[src[a]],
            input@,
            st,
        ) by {
            assert(same_skill(all@[src[a]], c[src[a]]));
        }
        assert(sourced(ms, src, c, c.len() as int, input@, st));
        assert forall|j: int| 0 <= j < c.len() && qualifies(#[trigger] c[j], input@, st) implies {
            ||| exists|a: int| 0 <= a < src.len() && src[a] == j
            ||| (ms.len() == st.max_matches_per_prompt && exists|m: SkillMatch|
                #[trigger] scored_as(m, c[j], input@, st) && forall|k: int|
                    0 <= k < ms.len() ==> ranks_before(#[trigger] ms[k], m) && (equal_rank(ms[k], m) ==> src[k] < j))
        } by {
            assert(same_skill(all@[j], c[j]));
            assert(qualifies(all@[j], input@, st));
            if !(exists|a: int| 0 <= a < src.len() && src[a] == j) {
                let m = choose|m: SkillMatch|
                    #[trigger] scored_as(m, all@[j], input@, st) && forall|k: int|
                        0 <= k < ms.len() ==> ranks_before(#[trigger] ms[k], m) && (equal_rank(ms[k], m) ==> src[k] < j);
                assert(scored_as(m, c[j], input@, st));
            }
        }
    }
    r
}

/// The metadata of a skill with the given file facts.
pub open spec fn metadata_of(m: SkillMetadata, s: Skill, has_body: bool, has_resources: bool) -> bool {
    &&& m.name == s.name
    &&& m.description == s.description
    &&& m.skill_type == s.skill_type
    &&& m.enabled == s.enabled
    &&& m.has_body == has_body
    &&& m.has_resources == has_resources
}

/// The metadata of every configured skill: built-in ones first, which have
/// no files, then the user's, whose directory facts `user_files[i]` gives
/// for skill `i` (a user skill without a source has none either).
pub fn get_all_skill_metadata(config: &ToolsConfig, user_files: &Vec<SkillFiles>) -> (r: Vec<SkillMetadata>)
    requires
        user_files@.len() == config.skills.user@.len(),
    ensures
        r@.len() == config.skills.builtin@.len() + config.skills.user@.len(),
        forall|k: int|
            0 <= k < config.skills.builtin@.len() ==> metadata_of(
                #[trigger] r@[k],
                config.skills.builtin@[k],
                false,
                false,
            ),
        forall|k: int|
            0 <= k < config.skills.user@.len() ==> metadata_of(
                #[trigger] r@[config.skills.builtin@.len() + k],
                config.skills.user@[k],
                config.skills.user@[k].source is Some && user_files@[k].has_body,
                config.skills.user@[k].source is Some && user_files@[k].has_resources,
            ),
{
    let builtin = &config.skills.builtin;
    let user = &config.skills.user;
    let mut out: Vec<SkillMetadata> = Vec::new();
    let mut i: usize = 0;
    while i < builtin.len()
        invariant
            0 <= i <= builtin@.len(),
            out@.len() == i,
            forall|k: int| 0 <= k < i ==> metadata_of(#[trigger] out@[k], builtin@[k], false, false),
        decreases builtin@.len() - i,
    {
        let s = &builtin[i];
        out.push(
            SkillMetadata {
                name: s.name.clone(),
                description: s.description.clone(),
                skill_type: s.skill_type,
                enabled: s.enabled,
                has_body: false,
                has_resources: false,
            },
        );
        i = i + 1;
    }
    let mut j: usize = 0;
    while j < user.len()
        invariant
            0 <= j <= user@.len(),
            user_files@.len() == user@.len(),
            out@.len() == builtin@.len() + j,
            forall|k: int| 0 <= k < builtin@.len() ==> metadata_of(#[trigger] out@[k], builtin@[k], false, false),
            forall|k: int|
                0 <= k < j ==> metadata_of(
                    #[trigger] out@[builtin@.len() + k],
                    user@[k],
                    user@[k].source is Some && user_files@[k].has_body,
                    user@[k].source is Some && user_files@[k].has_resources,
                ),
        decreases user@.len() - j,
    {
        let s = &user[j];
        let has_source = s.source.is_some();
        out.push(
            SkillMetadata {
                name: s.name.clone(),
                description: s.description.clone(),
                skill_type: s.skill_type,
                enabled: s.enabled,
                has_body: has_source && user_files[j].has_body,
                has_resources: has_source && user_files[j].has_resources,
            },
        );
        j = j + 1;
    }
    out
}

/// `tail` below directory `base`, with one separator between them.
pub open spec fn path_under(base: Seq<char>, tail: Seq<char>) -> Seq<char> {
    if base.len() > 0 && (base.last() == '/' || base.last() == '\\') {
        base + tail
    } else {
        base + "/"@ + tail
    }
}

pub(crate) fn join_path(base: &str, tail: &str) -> (r: String)
    ensures
        r@ == path_under(base@, tail@),
{
    let n = base.unicode_len();
    if n > 0 {
        let c = base.get_char(n - 1);
        if c == '/' || c == '\\' {
            return owned(base).concat(tail);
        }
    }
    proof {
        reveal_strlit("/");
    }
    owned(base).concat("/").concat(tail)
}

/// The tools configuration file under the user's home directory.
pub fn tools_config_path(home: &str) -> (r: String)
    ensures
        r@ == path_under(home@, ".cc-spec/tools.yaml"@),
{
    join_path(home, ".cc-spec/tools.yaml")
}

/// The user's skills directory under the home directory.
pub fn user_skills_dir(home: &str) -> (r: String)
    ensures
        r@ == path_under(home@, ".cc-spec/skills"@),
{
    join_path(home, ".cc-spec/skills")
}

impl SkillsSettings {
    pub fn new() -> (r: SkillsSettings)
        ensures
            r.auto_suggest,
            r.max_concurrent_skills == 3,
            r.progressive_loading,
    {
        SkillsSettings { auto_suggest: true, max_concurrent_skills: 3, progressive_loading: true }
    }
}

impl CommandsSettings {
    pub fn new() -> (r: CommandsSettings)
        ensures
            r.namespace@ == "cc-spec"@,
            r.auto_install,
    {
        CommandsSettings { namespace: String::from_str("cc-spec"), auto_install: true }
    }
}

} // verus!
