//! The condition engine: a pure boolean evaluator deciding whether a decoded
//! probe response satisfies a configured rule set.

use vstd::prelude::*;
use crate::adapters::{base64_encode, base64_of, favicon_bytes, sample_players, CCheckPlayer, CCheckResponse};
use crate::text::{i32_to_string, spec_dec_int, spec_dec_nat, usize_to_string};

verus! {

#[verifier::external_type_specification]
#[verifier::external_body]
pub struct ExRegex(regex::Regex);

/// Whether the regex crate accepts `pattern` as a pattern: a fixed function
/// of the pattern alone, left unspecified here.
pub uninterp spec fn regex_valid(pattern: Seq<char>) -> bool;

/// Whether the pattern matches anywhere in the text: a fixed function of
/// pattern and text alone, left unspecified here.
pub uninterp spec fn regex_match(pattern: Seq<char>, text: Seq<char>) -> bool;

/// A regular expression compiled once at startup and reused for every probe,
/// remembering the pattern it was compiled from.
pub struct CompiledRegex {
    pattern: String,
    regex: regex::Regex,
}

impl CompiledRegex {
    /// The pattern this regex was compiled from.
    pub closed spec fn spec_pattern(&self) -> Seq<char> {
        self.pattern@
    }

    /// Relies on regex::Regex::new: compilation succeeds exactly on the
    /// patterns the regex crate accepts, a function of the pattern alone.
    #[verifier::external_body]
    pub fn new(pattern: &str) -> (r: Option<CompiledRegex>)
        ensures
            r is Some <==> regex_valid(pattern@),
            r matches Some(cr) ==> cr.spec_pattern() == pattern@,
    {
        match regex::Regex::new(pattern) {
            Ok(regex) => Some(CompiledRegex { pattern: pattern.to_string(), regex }),
            Err(_) => None,
        }
    }

    /// Relies on regex::Regex::is_match: whether the compiled pattern matches
    /// anywhere in `text`, a function of pattern and text alone.
    #[verifier::external_body]
    pub fn is_match(&self, text: &str) -> (r: bool)
        ensures
            r == regex_match(self.spec_pattern(), text@),
    {
        self.regex.is_match(text)
    }
}

/// Whether a rule keeps a response when a looked-for value appears (Include)
/// or drops it when the value appears (Exclude).
#[derive(Clone, Copy, Debug, PartialEq, Eq, Structural)]
pub enum ConditionType {
    Exclude,
    Include,
}

/// Which field of a response a rule looks at.
#[derive(Clone, Copy, Debug, PartialEq, Eq, Structural)]
pub enum Actor {
    Version,
    Protocol,
    PlayerName,
    PlayerUuid,
    ConnectedPlayers,
    MaxPlayers,
    Description,
    Favicon,
}

/// One filter rule: a literal-value set and a regex-pattern set applied to
/// one field of the response.
pub struct Condition {
    pub values: Vec<String>,
    pub values_regex: Vec<CompiledRegex>,
    pub conditon_type: ConditionType,
    pub actor: Actor,
}

/// The AND-combination of all configured rules.
pub struct Conditions {
    pub conditions: Vec<Condition>,
}

/// Whether `v` equals one of the literals in `values`.
pub open spec fn literal_hit(values: Seq<String>, v: Seq<char>) -> bool {
    exists|i: int| 0 <= i < values.len() && values[i]@ == v
}

/// Whether `v` matches one of the patterns in `rs`.
pub open spec fn regex_hit(rs: Seq<CompiledRegex>, v: Seq<char>) -> bool {
    exists|i: int| 0 <= i < rs.len() && regex_match(rs[i].spec_pattern(), v)
}

/// Whether `v` equals one of the rule's literals or matches one of its
/// patterns.
pub open spec fn value_hit(c: Condition, v: Seq<char>) -> bool {
    literal_hit(c.values@, v) || regex_hit(c.values_regex@, v)
}

/// Whether the value the rule looks for appears in the field its actor
/// selects. Numeric fields are compared through their decimal rendering;
/// the favicon is compared by its base64 rendering, literals only.
pub open spec fn actor_hit(c: Condition, r: CCheckResponse) -> bool {
    match c.actor {
        Actor::Version => value_hit(c, r.version@),
        Actor::Protocol => value_hit(c, spec_dec_int(r.protocol as int)),
        Actor::ConnectedPlayers => value_hit(c, spec_dec_nat(r.online_players as nat)),
        Actor::MaxPlayers => value_hit(c, spec_dec_nat(r.max_players as nat)),
        Actor::Description => value_hit(c, r.description.text@),
        Actor::Favicon => literal_hit(c.values@, base64_of(favicon_bytes(r))),
        Actor::PlayerName => exists|i: int|
            0 <= i < sample_players(r).len() && value_hit(c, sample_players(r)[i].name@),
        Actor::PlayerUuid => exists|i: int|
            0 <= i < sample_players(r).len() && value_hit(c, sample_players(r)[i].id@),
    }
}

/// Whether the response is kept with respect to this one rule: an Include
/// rule keeps it exactly when the value appears, an Exclude rule exactly
/// when it does not.
pub open spec fn spec_matches(c: Condition, r: CCheckResponse) -> bool {
    (c.conditon_type is Include) <==> actor_hit(c, r)
}

/// Whether every rule of the set keeps the response; vacuously true for an
/// empty set.
pub open spec fn spec_is_valid(cs: Conditions, r: CCheckResponse) -> bool {
    forall|i: int| 0 <= i < cs.conditions@.len() ==> spec_matches(cs.conditions@[i], r)
}

/// Whether `v` equals one of the literals in `values`.
fn contains_literal(values: &Vec<String>, v: &String) -> (r: bool)
    ensures
        r == literal_hit(values@, v@),
{
    let mut j: usize = 0;
    while j < values.len()
        invariant
            j <= values@.len(),
            forall|k: int| 0 <= k < j ==> values@[k]@ != v@,
        decreases values@.len() - j,
    {
        if values[j] == *v {
            return true;
        }
        j = j + 1;
    }
    false
}

impl Condition {
    /// Whether `v` matches one of this rule's compiled patterns.
    fn check_regex_match(&self, v: &String) -> (r: bool)
        ensures
            r == regex_hit(self.values_regex@, v@),
    {
        let mut j: usize = 0;
        while j < self.values_regex.len()
            invariant
                j <= self.values_regex@.len(),
                forall|k: int| 0 <= k < j
                    ==> !regex_match(self.values_regex@[k].spec_pattern(), v@),
            decreases self.values_regex@.len() - j,
        {
            if self.values_regex[j].is_match(v.as_str()) {
                return true;
            }
            j = j + 1;
        }
        false
    }

    /// Whether `v` equals one of this rule's literals or matches one of its
    /// patterns.
    fn hit_value(&self, v: &String) -> (r: bool)
        ensures
            r == value_hit(*self, v@),
    {
        if contains_literal(&self.values, v) {
            true
        } else {
            self.check_regex_match(v)
        }
    }

    /// Whether one of the sampled players' names hits this rule.
    fn any_name_hit(&self, ps: &Vec<CCheckPlayer>) -> (r: bool)
        ensures
            r == exists|i: int| 0 <= i < ps@.len() && value_hit(*self, ps@[i].name@),
    {
        let mut j: usize = 0;
        while j < ps.len()
            invariant
                j <= ps@.len(),
                forall|k: int| 0 <= k < j ==> !value_hit(*self, ps@[k].name@),
            decreases ps@.len() - j,
        {
            if self.hit_value(&ps[j].name) {
                return true;
            }
            j = j + 1;
        }
        false
    }

    /// Whether one of the sampled players' ids hits this rule.
    fn any_id_hit(&self, ps: &Vec<CCheckPlayer>) -> (r: bool)
        ensures
            r == exists|i: int| 0 <= i < ps@.len() && value_hit(*self, ps@[i].id@),
    {
        let mut j: usize = 0;
        while j < ps.len()
            invariant
                j <= ps@.len(),
                forall|k: int| 0 <= k < j ==> !value_hit(*self, ps@[k].id@),
            decreases ps@.len() - j,
        {
            if self.hit_value(&ps[j].id) {
                return true;
            }
            j = j + 1;
        }
        false
    }

    /// Whether the response is kept with respect to this one rule.
    pub fn matches(&self, resp: &CCheckResponse) -> (r: bool)
        ensures
            r == spec_matches(*self, *resp),
    {
        let hit: bool = match self.actor {
            Actor::Version => self.hit_value(&resp.version),
            Actor::Protocol => {
                let s = i32_to_string(resp.protocol);
                self.hit_value(&s)
            },
            Actor::ConnectedPlayers => {
                let s = usize_to_string(resp.online_players);
                self.hit_value(&s)
            },
            Actor::MaxPlayers => {
                let s = usize_to_string(resp.max_players);
                self.hit_value(&s)
            },
            Actor::Description => self.hit_value(&resp.description.text),
            Actor::Favicon => {
                let b64: String = match &resp.favicon {
                    Some(bytes) => base64_encode(bytes.as_slice()),
                    None => {
                        let empty: Vec<u8> = Vec::new();
                        base64_encode(empty.as_slice())
                    },
                };
                let h = contains_literal(&self.values, &b64);
                proof {
                    assert(b64@ == base64_of(favicon_bytes(*resp)));
                }
                h
            },
            Actor::PlayerName => match &resp.sample {
                Some(ps) => {
                    let h = self.any_name_hit(ps);
                    proof {
                        assert(ps@ == sample_players(*resp));
                    }
                    h
                },
                None => false,
            },
            Actor::PlayerUuid => match &resp.sample {
                Some(ps) => {
                    let h = self.any_id_hit(ps);
                    proof {
                        assert(ps@ == sample_players(*resp));
                    }
                    h
                },
                None => false,
            },
        };
        match self.conditon_type {
            ConditionType::Include => hit,
            ConditionType::Exclude => !hit,
        }
    }
}

impl Conditions {
    /// Whether every rule of the set keeps the response.
    pub fn is_valid(&self, resp: &CCheckResponse) -> (r: bool)
        ensures
            r == spec_is_valid(*self, *resp),
    {
        let mut i: usize = 0;
        while i < self.conditions.len()
            invariant
                i <= self.conditions@.len(),
                forall|j: int| 0 <= j < i ==> spec_matches(self.conditions@[j], *resp),
            decreases self.conditions@.len() - i,
        {
            if !self.conditions[i].matches(resp) {
                return false;
            }
            i = i + 1;
        }
        true
    }
}

/// The verdict of a rule set never depends on the order of its rules: two
/// sets holding the same rules, as a multiset, keep exactly the same
/// responses.
pub proof fn lemma_is_valid_order_independent(a: Conditions, b: Conditions, r: CCheckResponse)
    requires
        a.conditions@.to_multiset() == b.conditions@.to_multiset(),
    ensures
        spec_is_valid(a, r) == spec_is_valid(b, r),
{
    if spec_is_valid(a, r) {
        lemma_is_valid_multiset_forward(a, b, r);
    }
    if spec_is_valid(b, r) {
        lemma_is_valid_multiset_forward(b, a, r);
    }
}

/// One direction of the reordering argument: every rule of `b` also stands
/// somewhere in `a`, so a response kept by all of `a` is kept by all of `b`.
proof fn lemma_is_valid_multiset_forward(a: Conditions, b: Conditions, r: CCheckResponse)
    requires
        a.conditions@.to_multiset() == b.conditions@.to_multiset(),
        spec_is_valid(a, r),
    ensures
        spec_is_valid(b, r),
{
    broadcast use vstd::seq_lib::group_to_multiset_ensures;

    assert forall|i: int| 0 <= i < b.conditions@.len() implies spec_matches(
        b.conditions@[i],
        r,
    ) by {
        let c = b.conditions@[i];
        assert(b.conditions@.contains(c));
        assert(b.conditions@.to_multiset().count(c) > 0);
        assert(a.conditions@.contains(c));
        let j = choose|j: int| 0 <= j < a.conditions@.len() && a.conditions@[j] == c;
        assert(spec_matches(a.conditions@[j], r));
    }
}

/// A lone Exclude rule on the version with a single literal and no patterns
/// keeps exactly the responses whose version differs from that literal.
pub proof fn lemma_single_exclude_version(c: Condition, r: CCheckResponse)
    requires
        c.conditon_type is Exclude,
        c.actor is Version,
        c.values@.len() == 1,
        c.values_regex@.len() == 0,
    ensures
        spec_matches(c, r) <==> r.version@ != c.values@[0]@,
{
    if r.version@ == c.values@[0]@ {
        assert(literal_hit(c.values@, r.version@));
    }
}

/// A lone Include rule on player names with a single pattern and no literals
/// keeps exactly the responses whose sample holds a player name matching the
/// pattern; a response with an empty or absent sample is rejected.
pub proof fn lemma_single_include_player_name_regex(c: Condition, r: CCheckResponse)
    requires
        c.conditon_type is Include,
        c.actor is PlayerName,
        c.values@.len() == 0,
        c.values_regex@.len() == 1,
    ensures
        spec_matches(c, r) <==> exists|i: int|
            0 <= i < sample_players(r).len() && regex_match(
                c.values_regex@[0].spec_pattern(),
                sample_players(r)[i].name@,
            ),
{
    if exists|i: int|
        0 <= i < sample_players(r).len() && regex_match(
            c.values_regex@[0].spec_pattern(),
            sample_players(r)[i].name@,
        ) {
        let i = choose|i: int|
            0 <= i < sample_players(r).len() && regex_match(
                c.values_regex@[0].spec_pattern(),
                sample_players(r)[i].name@,
            );
        assert(regex_hit(c.values_regex@, sample_players(r)[i].name@));
        assert(actor_hit(c, r));
    }
    if actor_hit(c, r) {
        let i = choose|i: int|
            0 <= i < sample_players(r).len() && value_hit(c, sample_players(r)[i].name@);
        assert(regex_match(c.values_regex@[0].spec_pattern(), sample_players(r)[i].name@));
    }
}


/// Builds the rules for one actor out of its configured literal and regex
/// sets: one Exclude rule when anything is excluded, then one Include rule
/// when anything is included, and nothing for empty sets.
pub fn get_conditions(
    actor: Actor,
    excludes: Vec<String>,
    includes: Vec<String>,
    excludes_regex: Vec<CompiledRegex>,
    includes_regex: Vec<CompiledRegex>,
) -> (out: Vec<Condition>)
    ensures
        out@.len() == (if excludes@.len() > 0 || excludes_regex@.len() > 0 {
            1int
        } else {
            0int
        }) + (if includes@.len() > 0 || includes_regex@.len() > 0 {
            1int
        } else {
            0int
        }),
        forall|i: int| 0 <= i < out@.len() ==> (#[trigger] out@[i]).actor == actor,
        (excludes@.len() > 0 || excludes_regex@.len() > 0) ==> out@[0].conditon_type
            is Exclude && out@[0].values == excludes && out@[0].values_regex == excludes_regex,
        (includes@.len() > 0 || includes_regex@.len() > 0) ==> out@[out@.len() - 1].conditon_type
            is Include && out@[out@.len() - 1].values == includes && out@[out@.len()
            - 1].values_regex == includes_regex,
{
    let mut out: Vec<Condition> = Vec::new();
    if excludes_regex.len() > 0 || excludes.len() > 0 {
        out.push(
            Condition {
                values: excludes,
                values_regex: excludes_regex,
                conditon_type: ConditionType::Exclude,
                actor,
            },
        );
    }
    if includes_regex.len() > 0 || includes.len() > 0 {
        out.push(
            Condition {
                values: includes,
                values_regex: includes_regex,
                conditon_type: ConditionType::Include,
                actor,
            },
        );
    }
    out
}

} // verus!
