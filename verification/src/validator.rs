//! The rules on names: what an identifier is, where one is required, and
//! that the rules of a ruleset bear different names.
use crate::config::{rule_defs, ExtractorDef, Rule, RuleDef};
use crate::error::{ErrorView, MatcherError};
use crate::text::{join3, to_chars};
use vstd::prelude::*;

verus! {

/// Whether `c` may start an identifier: an ASCII letter or an underscore.
pub open spec fn is_id_start(c: char) -> bool {
    let n = c as u32;
    (65 <= n <= 90) || (97 <= n <= 122) || n == 95
}

/// Whether `c` may stand in an identifier: an ASCII letter, a digit or an
/// underscore.
pub open spec fn is_id_char(c: char) -> bool {
    is_id_start(c) || 48 <= c as u32 <= 57
}

/// Whether `s` is an identifier: not empty, started by a letter or an
/// underscore, and made of letters, digits and underscores.
pub open spec fn is_identifier(s: Seq<char>) -> bool {
    &&& s.len() > 0
    &&& is_id_start(s[0])
    &&& forall|i: int| 0 <= i < s.len() ==> is_id_char(#[trigger] s[i])
}

fn char_is_id_start(c: char) -> (b: bool)
    ensures
        b == is_id_start(c),
{
    let n: u32 = c as u32;
    (65 <= n && n <= 90) || (97 <= n && n <= 122) || n == 95
}

fn char_is_id_char(c: char) -> (b: bool)
    ensures
        b == is_id_char(c),
{
    let n: u32 = c as u32;
    char_is_id_start(c) || (48 <= n && n <= 57)
}

/// Whether the characters `from..to` of `chars` are an identifier.
pub fn range_is_identifier(chars: &Vec<char>, from: usize, to: usize) -> (b: bool)
    requires
        from <= to <= chars@.len(),
    ensures
        b == is_identifier(chars@.subrange(from as int, to as int)),
{
    let ghost s = chars@.subrange(from as int, to as int);
    if from == to {
        return false;
    }
    if !char_is_id_start(chars[from]) {
        assert(s[0] == chars@[from as int]);
        return false;
    }
    let mut i: usize = from;
    while i < to
        invariant
            from <= i <= to <= chars@.len(),
            s == chars@.subrange(from as int, to as int),
            forall|k: int| 0 <= k < i - from ==> is_id_char(#[trigger] s[k]),
        decreases to - i,
    {
        if !char_is_id_char(chars[i]) {
            assert(s[i - from] == chars@[i as int]);
            return false;
        }
        assert(s[i - from] == chars@[i as int]);
        i = i + 1;
    }
    assert(s[0] == chars@[from as int]);
    true
}

/// Whether `text` is an identifier.
pub fn text_is_identifier(text: &str) -> (b: bool)
    ensures
        b == is_identifier(text@),
{
    let chars = to_chars(text);
    assert(chars@.subrange(0, chars@.len() as int) =~= chars@);
    range_is_identifier(&chars, 0, chars.len())
}

/// The message that refuses the name `id`: `what` says what it names and
/// `place` where it stands.
pub open spec fn invalid_id_message(what: Seq<char>, id: Seq<char>, place: Seq<char>) -> Seq<
    char,
> {
    what + " ["@ + id + "]"@ + place + " is not valid: an identifier is expected"@
}

/// The message that refuses the name of a rule.
pub open spec fn rule_name_message(name: Seq<char>) -> Seq<char> {
    invalid_id_message("Rule name"@, name, Seq::empty())
}

/// The message that refuses the name of a ruleset.
pub open spec fn ruleset_name_message(name: Seq<char>) -> Seq<char> {
    invalid_id_message("Ruleset name"@, name, Seq::empty())
}

/// The message that refuses the name of a filter.
pub open spec fn filter_name_message(name: Seq<char>) -> Seq<char> {
    invalid_id_message("Filter name"@, name, Seq::empty())
}

/// The message that refuses the name `id` of a variable of the rule `rule`.
pub open spec fn variable_name_message(id: Seq<char>, rule: Seq<char>) -> Seq<char> {
    invalid_id_message("Variable name"@, id, " of rule ["@ + rule + "]"@)
}

/// The message that refuses the name `id` of a variable that the accessor
/// `accessor` of the rule `rule` reads.
pub open spec fn accessor_variable_message(
    id: Seq<char>,
    accessor: Seq<char>,
    rule: Seq<char>,
) -> Seq<char> {
    invalid_id_message(
        "Variable name"@,
        id,
        " in accessor ["@ + accessor + "] of rule ["@ + rule + "]"@,
    )
}

/// The validator of names.
#[derive(Debug, Default)]
pub struct IdValidator {}

impl IdValidator {
    /// A new validator.
    pub fn new() -> IdValidator {
        IdValidator {  }
    }

    fn validate(&self, id: &str, what: &str, place: String) -> (r: Result<(), MatcherError>)
        ensures
            r is Ok <==> is_identifier(id@),
            r matches Err(e) ==> e@ == (ErrorView::NotValidIdOrName {
                message: invalid_id_message(what@, id@, place@),
            }),
    {
        if text_is_identifier(id) {
            Ok(())
        } else {
            let mut message = join3(what, " [", id);
            message.append("]");
            message.append(place.as_str());
            message.append(" is not valid: an identifier is expected");
            Err(MatcherError::NotValidIdOrName { message })
        }
    }

    /// Accepts `rule_name` if it is an identifier.
    pub fn validate_rule_name(&self, rule_name: &str) -> (r: Result<(), MatcherError>)
        ensures
            r is Ok <==> is_identifier(rule_name@),
            r matches Err(e) ==> e@ == (ErrorView::NotValidIdOrName {
                message: rule_name_message(rule_name@),
            }),
    {
        self.validate(rule_name, "Rule name", String::new())
    }

    /// Accepts `ruleset_name` if it is an identifier.
    pub fn validate_ruleset_name(&self, ruleset_name: &str) -> (r: Result<(), MatcherError>)
        ensures
            r is Ok <==> is_identifier(ruleset_name@),
            r matches Err(e) ==> e@ == (ErrorView::NotValidIdOrName {
                message: ruleset_name_message(ruleset_name@),
            }),
    {
        self.validate(ruleset_name, "Ruleset name", String::new())
    }

    /// Accepts `filter_name` if it is an identifier.
    pub fn validate_filter_name(&self, filter_name: &str) -> (r: Result<(), MatcherError>)
        ensures
            r is Ok <==> is_identifier(filter_name@),
            r matches Err(e) ==> e@ == (ErrorView::NotValidIdOrName {
                message: filter_name_message(filter_name@),
            }),
    {
        self.validate(filter_name, "Filter name", String::new())
    }

    /// Accepts the name `id` of a variable of the rule `rule_name` if it is
    /// an identifier.
    pub fn validate_extracted_var_name(&self, id: &str, rule_name: &str) -> (r: Result<
        (),
        MatcherError,
    >)
        ensures
            r is Ok <==> is_identifier(id@),
            r matches Err(e) ==> e@ == (ErrorView::NotValidIdOrName {
                message: variable_name_message(id@, rule_name@),
            }),
    {
        self.validate(id, "Variable name", join3(" of rule [", rule_name, "]"))
    }

    /// Accepts the name `id` of a variable that the accessor `accessor` of
    /// the rule `rule_name` reads if it is an identifier.
    pub fn validate_extracted_var_from_accessor(
        &self,
        id: &str,
        accessor: &str,
        rule_name: &str,
    ) -> (r: Result<(), MatcherError>)
        ensures
            r is Ok <==> is_identifier(id@),
            r matches Err(e) ==> e@ == (ErrorView::NotValidIdOrName {
                message: accessor_variable_message(id@, accessor@, rule_name@),
            }),
    {
        let mut place = join3(" in accessor [", accessor, "] of rule [");
        place.append(rule_name);
        place.append("]");
        assert(place@ =~= " in accessor ["@ + accessor@ + "] of rule ["@ + rule_name@ + "]"@);
        self.validate(id, "Variable name", place)
    }
}

/// Whether one of `rules` has the name `name`.
pub open spec fn has_rule_name(rules: Seq<RuleDef>, name: Seq<char>) -> bool {
    exists|i: int| 0 <= i < rules.len() && (#[trigger] rules[i]).name == name
}

/// The place, from `from` on, of the first variable whose name is no
/// identifier, or the number of variables where every name is one.
pub open spec fn first_bad_variable(with: Seq<(Seq<char>, ExtractorDef)>, from: int) -> int
    decreases with.len() - from,
{
    if from < 0 || from >= with.len() {
        with.len() as int
    } else if !is_identifier(with[from].0) {
        from
    } else {
        first_bad_variable(with, from + 1)
    }
}

/// What is wrong with the names of `rule`, which comes after the rules
/// `earlier` in its ruleset: a name that is no identifier, then a name that
/// an earlier rule has, then the first variable whose name is no identifier.
pub open spec fn rule_fault(earlier: Seq<RuleDef>, rule: RuleDef) -> Option<ErrorView> {
    let bad = first_bad_variable(rule.constraint.with, 0);
    if !is_identifier(rule.name) {
        Some(ErrorView::NotValidIdOrName { message: rule_name_message(rule.name) })
    } else if has_rule_name(earlier, rule.name) {
        Some(ErrorView::NotUniqueName { name: rule.name })
    } else if 0 <= bad < rule.constraint.with.len() {
        Some(
            ErrorView::NotValidIdOrName {
                message: variable_name_message(rule.constraint.with[bad].0, rule.name),
            },
        )
    } else {
        None
    }
}

/// What is wrong with the names of the rules of a ruleset: the fault of the
/// first rule that has one, in the order of declaration.
pub open spec fn rules_fault(rules: Seq<RuleDef>) -> Option<ErrorView>
    decreases rules.len(),
{
    if rules.len() == 0 {
        None
    } else {
        match rules_fault(rules.drop_last()) {
            Some(e) => Some(e),
            None => rule_fault(rules.drop_last(), rules.last()),
        }
    }
}

/// Once a prefix of `rules` has a fault, it is the fault of `rules`.
pub proof fn lemma_rules_fault(rules: Seq<RuleDef>, i: int)
    requires
        0 <= i < rules.len(),
        rules_fault(rules.take(i + 1)) is Some,
    ensures
        rules_fault(rules) == rules_fault(rules.take(i + 1)),
    decreases rules.len() - i,
{
    if i + 1 == rules.len() {
        assert(rules.take(i + 1) =~= rules);
    } else {
        assert(rules.take(i + 2).drop_last() =~= rules.take(i + 1));
        lemma_rules_fault(rules, i + 1);
    }
}

/// The validator of the rules of a ruleset.
#[derive(Debug, Default)]
pub struct RuleValidator {
    id: IdValidator,
}

impl RuleValidator {
    /// A new validator.
    pub fn new() -> RuleValidator {
        RuleValidator { id: IdValidator::new() }
    }

    /// Accepts the rules of a ruleset if the names of the rules and of their
    /// variables are identifiers and no two rules have the same name. The
    /// error is the fault of the first rule that has one.
    #[verifier::loop_isolation(false)]
    pub fn validate_all(&self, rules: &Vec<Rule>) -> (r: Result<(), MatcherError>)
        ensures
            r is Ok <==> rules_fault(rule_defs(rules@)) is None,
            r matches Err(e) ==> rules_fault(rule_defs(rules@)) == Some(e@),
    {
        let ghost dv = rule_defs(rules@);
        let mut i: usize = 0;
        assert(dv.take(0) =~= Seq::<RuleDef>::empty());
        while i < rules.len()
            invariant
                i <= rules@.len(),
                rules_fault(dv.take(i as int)) is None,
            decreases rules@.len() - i,
        {
            let rule = &rules[i];
            let ghost earlier = dv.take(i as int);
            assert(dv.take(i + 1).drop_last() =~= earlier);
            assert(dv.take(i + 1).last() == rule@);
            match self.id.validate_rule_name(rule.name.as_str()) {
                Ok(()) => {},
                Err(e) => {
                    proof {
                        lemma_rules_fault(dv, i as int);
                    }
                    return Err(e);
                },
            }
            let mut j: usize = 0;
            while j < i
                invariant
                    j <= i,
                    forall|k: int| 0 <= k < j ==> (#[trigger] earlier[k]).name != rule.name@,
                decreases i - j,
            {
                if rules[j].name == rule.name {
                    proof {
                        assert(earlier[j as int] == rules@[j as int]@);
                        assert(has_rule_name(earlier, rule.name@));
                        lemma_rules_fault(dv, i as int);
                    }
                    return Err(MatcherError::NotUniqueName { name: rule.name.clone() });
                }
                assert(earlier[j as int] == rules@[j as int]@);
                j = j + 1;
            }
            assert(!has_rule_name(earlier, rule.name@));
            let ghost with = rule@.constraint.with;
            let mut k: usize = 0;
            while k < rule.constraint.with.len()
                invariant
                    k <= rule.constraint.with@.len(),
                    first_bad_variable(with, 0) == first_bad_variable(with, k as int),
                decreases rule.constraint.with@.len() - k,
            {
                assert(with[k as int].0 == rule.constraint.with@[k as int].0@);
                match self.id.validate_extracted_var_name(
                    rule.constraint.with[k].0.as_str(),
                    rule.name.as_str(),
                ) {
                    Ok(()) => {},
                    Err(e) => {
                        proof {
                            lemma_rules_fault(dv, i as int);
                        }
                        return Err(e);
                    },
                }
                k = k + 1;
            }
            i = i + 1;
        }
        assert(dv.take(rules@.len() as int) =~= dv);
        Ok(())
    }
}

} // verus!
