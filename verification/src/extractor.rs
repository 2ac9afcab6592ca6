//! Extractors: the named variables that a rule takes out of an event by
//! regular expressions.
//!
//! The extractors of a rule run in the order of their variables' names, so
//! that one may read what an earlier one extracted.
use crate::accessor::{accessor_of, fetch, Accessor, AccessorBuilder, AccessorView};
use crate::config::{extractor_defs, Extractor, ExtractorDef};
use crate::error::{ErrorView, MatcherError};
use crate::event::{Event, EventView};
use crate::pattern::{
    error_text, pattern_capture, pattern_captures_all, pattern_is_valid, Pattern,
};
use crate::text::{chars_less, join3, text_less, to_chars};
use crate::validator::{is_identifier, variable_name_message, IdValidator};
use crate::value::{
    clone_entries, clone_value, entries_view, lemma_view_array, put_entry, text_of, value_text,
    values_view, with_entry, Value, ValueView,
};
use vstd::prelude::*;

verus! {

/// The compiled extractor of one variable.
#[derive(Debug)]
pub struct ValueExtractor {
    /// The variable's name.
    pub name: String,
    /// The name under which the variable is kept: the rule's name, a dot and
    /// the variable's name.
    pub key: String,
    /// What the regular expression is applied to.
    pub from: Accessor,
    pub regex: Pattern,
    pub group_match_idx: usize,
    pub all_matches: bool,
}

/// What a [`ValueExtractor`] stands for.
pub struct ExtractorView {
    pub name: Seq<char>,
    pub key: Seq<char>,
    pub from: AccessorView,
    pub pattern: Seq<char>,
    pub group: usize,
    pub all_matches: bool,
}

impl View for ValueExtractor {
    type V = ExtractorView;

    open spec fn view(&self) -> ExtractorView {
        ExtractorView {
            name: self.name@,
            key: self.key@,
            from: self.from@,
            pattern: self.regex@,
            group: self.group_match_idx,
            all_matches: self.all_matches,
        }
    }
}

/// The views of a list of extractors.
pub open spec fn extractors_view(xs: Seq<ValueExtractor>) -> Seq<ExtractorView> {
    Seq::new(xs.len(), |i: int| xs[i]@)
}

/// Whether every match gave the group a text.
pub open spec fn all_present(caps: Seq<Option<Seq<char>>>) -> bool {
    forall|i: int| 0 <= i < caps.len() ==> (#[trigger] caps[i]) is Some
}

/// The array of the texts that the group took in all matches; nothing where
/// there is no match or where the group took no part in one of them.
pub open spec fn all_captured(caps: Seq<Option<Seq<char>>>) -> Option<ValueView> {
    if caps.len() > 0 && all_present(caps) {
        Some(ValueView::Array(Seq::new(caps.len(), |i: int| ValueView::Text(caps[i]->0))))
    } else {
        None
    }
}

/// What the extractor `x` takes out of `event`, given the variables `vars`:
/// the text of its group in the first match or, with `all_matches`, the
/// array of its texts in all matches. Nothing where `from` yields nothing or
/// an array or an object, or where the expression does not match.
pub open spec fn extracted(
    x: ExtractorView,
    event: EventView,
    vars: Seq<(Seq<char>, ValueView)>,
) -> Option<ValueView> {
    match fetch(x.from, event, vars) {
        Some(v) => match text_of(v) {
            Some(text) => if x.all_matches {
                all_captured(pattern_captures_all(x.pattern, text, x.group))
            } else {
                match pattern_capture(x.pattern, text, x.group) {
                    Some(s) => Some(ValueView::Text(s)),
                    None => None,
                }
            },
            None => None,
        },
        None => None,
    }
}

/// What the extractors `xs` of the rule `rule` take out of `event`, run in
/// order from the variables `vars`: the rule's own variables, and `vars`
/// with them. Each extractor sees what the earlier ones extracted. The first
/// that extracts nothing fails the rule with `MissingExtractedVariable`.
pub open spec fn extraction(
    xs: Seq<ExtractorView>,
    rule: Seq<char>,
    event: EventView,
    vars: Seq<(Seq<char>, ValueView)>,
) -> Result<(Seq<(Seq<char>, ValueView)>, Seq<(Seq<char>, ValueView)>), ErrorView>
    decreases xs.len(),
{
    if xs.len() == 0 {
        Ok((Seq::empty(), vars))
    } else {
        match extraction(xs.drop_last(), rule, event, vars) {
            Ok((own, running)) => match extracted(xs.last(), event, running) {
                Some(v) => Ok(
                    (with_entry(own, xs.last().key, v), with_entry(running, xs.last().key, v)),
                ),
                None => Err(
                    ErrorView::MissingExtractedVariable { rule, variable: xs.last().name },
                ),
            },
            Err(e) => Err(e),
        }
    }
}

/// Once a prefix of `xs` fails, `xs` fails in the same way.
pub proof fn lemma_extraction_err(
    xs: Seq<ExtractorView>,
    i: int,
    rule: Seq<char>,
    event: EventView,
    vars: Seq<(Seq<char>, ValueView)>,
)
    requires
        0 <= i < xs.len(),
        extraction(xs.take(i + 1), rule, event, vars) is Err,
    ensures
        extraction(xs, rule, event, vars) == extraction(xs.take(i + 1), rule, event, vars),
    decreases xs.len() - i,
{
    if i + 1 == xs.len() {
        assert(xs.take(i + 1) =~= xs);
    } else {
        assert(xs.take(i + 2).drop_last() =~= xs.take(i + 1));
        lemma_extraction_err(xs, i + 1, rule, event, vars);
    }
}

impl ValueExtractor {
    /// What the extractor takes out of `event`, given the variables `vars`.
    #[verifier::loop_isolation(false)]
    pub fn extract(&self, event: &Event, vars: &Vec<(String, Value)>) -> (r: Option<Value>)
        ensures
            r is Some <==> extracted(self@, event@, entries_view(vars@)) is Some,
            r matches Some(v) ==> extracted(self@, event@, entries_view(vars@)) == Some(v@),
    {
        let found = self.from.get(event, vars);
        let text: String = match found {
            Some(f) => match value_text(f.value()) {
                Some(t) => t,
                None => {
                    return None;
                },
            },
            None => {
                return None;
            },
        };
        if self.all_matches {
            let caps = self.regex.captures_all(text.as_str(), self.group_match_idx);
            let ghost spec_caps = pattern_captures_all(self@.pattern, text@, self@.group);
            if caps.len() == 0 {
                return None;
            }
            let mut items: Vec<Value> = Vec::new();
            let mut i: usize = 0;
            while i < caps.len()
                invariant
                    i <= caps@.len(),
                    items@.len() == i,
                    forall|k: int| 0 <= k < i ==> (#[trigger] spec_caps[k]) is Some,
                    forall|k: int|
                        0 <= k < i ==> (#[trigger] items@[k])@ == ValueView::Text(spec_caps[k]->0),
                decreases caps@.len() - i,
            {
                match &caps[i] {
                    Some(s) => {
                        assert(caps@[i as int] is Some);
                        assert(spec_caps[i as int] == Some((caps@[i as int])->0@));
                        items.push(Value::Text(s.clone()));
                    },
                    None => {
                        assert(!(caps@[i as int] is Some));
                        assert(!(spec_caps[i as int] is Some));
                        return None;
                    },
                }
                i = i + 1;
            }
            proof {
                lemma_view_array(items);
                assert(values_view(items@) =~= Seq::new(
                    spec_caps.len(),
                    |i: int| ValueView::Text(spec_caps[i]->0),
                ));
            }
            Some(Value::Array(items))
        } else {
            match self.regex.capture(text.as_str(), self.group_match_idx) {
                Some(s) => Some(Value::Text(s)),
                None => None,
            }
        }
    }
}

/// The compiled extractors of a rule, in the order of their variables'
/// names.
#[derive(Debug)]
pub struct MatcherExtractor {
    pub extractors: Vec<ValueExtractor>,
}

impl View for MatcherExtractor {
    type V = Seq<ExtractorView>;

    open spec fn view(&self) -> Seq<ExtractorView> {
        extractors_view(self.extractors@)
    }
}

/// The view of the variables that an extraction returned.
pub open spec fn extracted_view(r: Result<Vec<(String, Value)>, MatcherError>) -> Result<
    Seq<(Seq<char>, ValueView)>,
    ErrorView,
> {
    match r {
        Ok(own) => Ok(entries_view(own@)),
        Err(e) => Err(e@),
    }
}

impl MatcherExtractor {
    /// Runs the extractors of the rule `rule_name` in order. On success the rule's own variables
    /// are returned and `vars` holds them too. On failure `vars` is as it
    /// was.
    #[verifier::loop_isolation(false)]
    pub fn extract_all(
        &self,
        event: &Event,
        vars: &mut Vec<(String, Value)>,
        rule_name: &str,
    ) -> (r: Result<Vec<(String, Value)>, MatcherError>)
        ensures
            match extraction(self@, rule_name@, event@, entries_view(old(vars)@)) {
                Ok((own, running)) => extracted_view(r) == Ok::<
                    Seq<(Seq<char>, ValueView)>,
                    ErrorView,
                >(own) && entries_view(final(vars)@) == running,
                Err(e) => extracted_view(r) == Err::<Seq<(Seq<char>, ValueView)>, ErrorView>(e)
                    && entries_view(final(vars)@) == entries_view(old(vars)@),
            },
    {
        let ghost xv = self@;
        let ghost rule = rule_name@;
        let ghost ev = event@;
        let ghost vv = entries_view(vars@);
        let mut own: Vec<(String, Value)> = Vec::new();
        let mut running: Vec<(String, Value)> = clone_entries(vars);
        let mut i: usize = 0;
        assert(xv.take(0) =~= Seq::<ExtractorView>::empty());
        assert(entries_view(own@) =~= Seq::<(Seq<char>, ValueView)>::empty());
        while i < self.extractors.len()
            invariant
                i <= self.extractors@.len(),
                vv == entries_view(vars@),
                extraction(xv.take(i as int), rule, ev, vv) == Ok::<
                    (Seq<(Seq<char>, ValueView)>, Seq<(Seq<char>, ValueView)>),
                    ErrorView,
                >((entries_view(own@), entries_view(running@))),
            decreases self.extractors@.len() - i,
        {
            assert(xv.take(i + 1).drop_last() =~= xv.take(i as int));
            assert(xv.take(i + 1).last() == self.extractors@[i as int]@);
            let x = &self.extractors[i];
            match x.extract(event, &running) {
                Some(v) => {
                    put_entry(&mut own, x.key.clone(), clone_value(&v));
                    put_entry(&mut running, x.key.clone(), v);
                },
                None => {
                    proof {
                        lemma_extraction_err(xv, i as int, rule, ev, vv);
                    }
                    return Err(
                        MatcherError::MissingExtractedVariable {
                            rule: String::from_str(rule_name),
                            variable: x.name.clone(),
                        },
                    );
                },
            }
            i = i + 1;
        }
        assert(xv.take(self.extractors@.len() as int) =~= xv);
        *vars = running;
        Ok(own)
    }
}

/// Whether one of `xs` has the name `name`.
pub open spec fn has_name(xs: Seq<ExtractorView>, name: Seq<char>) -> bool {
    exists|i: int| 0 <= i < xs.len() && (#[trigger] xs[i]).name == name
}

/// The place of an extractor named `name` in the sorted list `xs`, looked
/// for from `from` on: before the first whose name comes after `name`.
pub open spec fn place_of(xs: Seq<ExtractorView>, name: Seq<char>, from: int) -> int
    decreases xs.len() - from,
{
    if from < 0 || from >= xs.len() {
        xs.len() as int
    } else if text_less(name, xs[from].name) {
        from
    } else {
        place_of(xs, name, from + 1)
    }
}

/// The extractor that the configuration `def` of the variable `name`
/// compiles to for the rule `rule`. The name must be an identifier.
pub open spec fn extractor_of(rule: Seq<char>, name: Seq<char>, def: ExtractorDef) -> Result<
    ExtractorView,
    ErrorView,
> {
    if !is_identifier(name) {
        Err(ErrorView::NotValidIdOrName { message: variable_name_message(name, rule) })
    } else {
        match accessor_of(rule, def.from) {
            Ok(from) => if pattern_is_valid(def.regex) {
                Ok(
                    ExtractorView {
                        name,
                        key: rule + "."@ + name,
                        from,
                        pattern: def.regex,
                        group: def.group_match_idx,
                        all_matches: def.all_matches,
                    },
                )
            } else {
                Err(ErrorView::InvalidRegex { rule, regex: def.regex })
            },
            Err(e) => Err(e),
        }
    }
}

/// The message that refuses a second definition of the variable `name` of
/// the rule `rule`.
pub open spec fn duplicate_variable_message(name: Seq<char>, rule: Seq<char>) -> Seq<char> {
    "Variable ["@ + name + "] of rule ["@ + rule + "] is defined twice"@
}

/// The extractors that `defs` compile to, each put at its place in the
/// order of the names. A name that occurs twice is a `ConfigurationError`.
/// The first definition that fails fails the list.
pub open spec fn extractors_of(rule: Seq<char>, defs: Seq<(Seq<char>, ExtractorDef)>) -> Result<
    Seq<ExtractorView>,
    ErrorView,
>
    decreases defs.len(),
{
    if defs.len() == 0 {
        Ok(Seq::empty())
    } else {
        match extractors_of(rule, defs.drop_last()) {
            Ok(xs) => if has_name(xs, defs.last().0) {
                Err(
                    ErrorView::ConfigurationError {
                        message: duplicate_variable_message(defs.last().0, rule),
                    },
                )
            } else {
                match extractor_of(rule, defs.last().0, defs.last().1) {
                    Ok(x) => Ok(xs.insert(place_of(xs, x.name, 0), x)),
                    Err(e) => Err(e),
                }
            },
            Err(e) => Err(e),
        }
    }
}

/// Once a prefix of `defs` fails, `defs` fails in the same way.
pub proof fn lemma_extractors_of_err(rule: Seq<char>, defs: Seq<(Seq<char>, ExtractorDef)>, i: int)
    requires
        0 <= i < defs.len(),
        extractors_of(rule, defs.take(i + 1)) is Err,
    ensures
        extractors_of(rule, defs) == extractors_of(rule, defs.take(i + 1)),
    decreases defs.len() - i,
{
    if i + 1 == defs.len() {
        assert(defs.take(i + 1) =~= defs);
    } else {
        assert(defs.take(i + 2).drop_last() =~= defs.take(i + 1));
        lemma_extractors_of_err(rule, defs, i + 1);
    }
}

/// The view of what a build returned.
pub open spec fn built_extractor_view(r: Result<MatcherExtractor, MatcherError>) -> Result<
    Seq<ExtractorView>,
    ErrorView,
> {
    match r {
        Ok(x) => Ok(x@),
        Err(e) => Err(e@),
    }
}

/// A builder of extractors.
#[derive(Debug, Default)]
pub struct MatcherExtractorBuilder {
    accessor: AccessorBuilder,
    id_validator: IdValidator,
}

impl MatcherExtractorBuilder {
    /// A new builder.
    pub fn new() -> MatcherExtractorBuilder {
        MatcherExtractorBuilder {
            accessor: AccessorBuilder::new(),
            id_validator: IdValidator::new(),
        }
    }

    fn build_one(&self, rule_name: &str, name: &String, config: &Extractor) -> (r: Result<
        ValueExtractor,
        MatcherError,
    >)
        ensures
            r is Ok <==> extractor_of(rule_name@, name@, config@) is Ok,
            r matches Ok(x) ==> extractor_of(rule_name@, name@, config@) == Ok::<
                ExtractorView,
                ErrorView,
            >(x@),
            r matches Err(e) ==> extractor_of(rule_name@, name@, config@) == Err::<
                ExtractorView,
                ErrorView,
            >(e@),
    {
        match self.id_validator.validate_extracted_var_name(name.as_str(), rule_name) {
            Ok(()) => {},
            Err(e) => {
                return Err(e);
            },
        }
        match self.accessor.build(rule_name, config.from.as_str()) {
            Ok(from) => match Pattern::compile(config.regex.regex.as_str()) {
                Ok(regex) => Ok(
                    ValueExtractor {
                        name: name.clone(),
                        key: join3(rule_name, ".", name.as_str()),
                        from,
                        regex,
                        group_match_idx: config.regex.group_match_idx,
                        all_matches: config.regex.all_matches,
                    },
                ),
                Err(e) => Err(
                    MatcherError::InvalidRegex {
                        rule: String::from_str(rule_name),
                        regex: config.regex.regex.clone(),
                        cause: error_text(&e),
                    },
                ),
            },
            Err(e) => Err(e),
        }
    }

    /// Compiles the extractors of the rule `rule_name`.
    #[verifier::loop_isolation(false)]
    pub fn build(&self, rule_name: &str, config: &Vec<(String, Extractor)>) -> (r: Result<
        MatcherExtractor,
        MatcherError,
    >)
        ensures
            built_extractor_view(r) == extractors_of(rule_name@, extractor_defs(config@)),
    {
        let ghost rule = rule_name@;
        let ghost dv = extractor_defs(config@);
        let mut out: Vec<ValueExtractor> = Vec::new();
        let mut i: usize = 0;
        assert(dv.take(0) =~= Seq::<(Seq<char>, ExtractorDef)>::empty());
        assert(extractors_view(out@) =~= Seq::<ExtractorView>::empty());
        while i < config.len()
            invariant
                i <= config@.len(),
                extractors_of(rule, dv.take(i as int)) == Ok::<Seq<ExtractorView>, ErrorView>(
                    extractors_view(out@),
                ),
            decreases config@.len() - i,
        {
            let ghost before = extractors_view(out@);
            assert(dv.take(i + 1).drop_last() =~= dv.take(i as int));
            assert(dv.take(i + 1).last() == (config@[i as int].0@, config@[i as int].1@));
            let name = &config[i].0;
            // A name that is there already?
            let mut j: usize = 0;
            while j < out.len()
                invariant
                    j <= out@.len(),
                    before == extractors_view(out@),
                    forall|k: int| 0 <= k < j ==> (#[trigger] before[k]).name != name@,
                decreases out@.len() - j,
            {
                if out[j].name == *name {
                    proof {
                        assert(before[j as int].name == name@);
                        assert(has_name(before, name@));
                        lemma_extractors_of_err(rule, dv, i as int);
                    }
                    let mut message = join3("Variable [", name.as_str(), "] of rule [");
                    message.append(rule_name);
                    message.append("] is defined twice");
                    return Err(MatcherError::ConfigurationError { message });
                }
                j = j + 1;
            }
            assert(!has_name(before, name@));
            match self.build_one(rule_name, name, &config[i].1) {
                Ok(x) => {
                    let name_chars = to_chars(name.as_str());
                    let mut p: usize = 0;
                    while p < out.len() && !chars_less(&name_chars, &to_chars(out[p].name.as_str()))
                        invariant
                            p <= out@.len(),
                            before == extractors_view(out@),
                            place_of(before, name@, 0) == place_of(before, name@, p as int),
                        decreases out@.len() - p,
                    {
                        p = p + 1;
                    }
                    let ghost xview = x@;
                    out.insert(p, x);
                    assert(extractors_view(out@) =~= before.insert(p as int, xview));
                },
                Err(e) => {
                    proof {
                        lemma_extractors_of_err(rule, dv, i as int);
                    }
                    return Err(e);
                },
            }
            i = i + 1;
        }
        assert(dv.take(config@.len() as int) =~= dv);
        Ok(MatcherExtractor { extractors: out })
    }
}

} // verus!
