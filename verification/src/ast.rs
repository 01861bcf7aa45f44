//! The syntax tree of a comprehension. Its leaves are phrases of the host language,
//! kept as they were printed; this library never looks inside one.

use vstd::prelude::*;

verus! {

/// An expression of the host language.
#[derive(Debug)]
pub struct Expression {
    text: String,
}

/// The expression that gives each element of the result.
#[derive(Debug)]
pub struct Mapping {
    expression: Expression,
}

/// One guard: an expression that an element must satisfy to be admitted.
#[derive(Debug)]
pub struct Condition {
    expression: Expression,
}

/// What each element of the sequence is bound to: one single pattern of the host
/// language, or a list of them that takes the element apart as a tuple.
#[derive(Debug)]
pub struct Pattern {
    binders: Vec<String>,
}

/// `for pattern in sequence` and the guards that follow, in the order in which they
/// were written.
#[derive(Debug)]
pub struct GeneratorClause {
    pattern: Pattern,
    sequence: Expression,
    conditions: Vec<Condition>,
}

/// A whole comprehension: a mapping and its one generator clause.
#[derive(Debug)]
pub struct Comprehension {
    mapping: Mapping,
    clause: GeneratorClause,
}

/// A generator clause as contracts speak of it: every phrase by its text.
pub ghost struct ClauseModel {
    pub pattern: Seq<Seq<char>>,
    pub sequence: Seq<char>,
    pub conditions: Seq<Seq<char>>,
}

/// A comprehension as contracts speak of it.
pub ghost struct ComprehensionModel {
    pub mapping: Seq<char>,
    pub clause: ClauseModel,
}

/// The texts of a run of strings.
pub open spec fn texts(strings: Seq<String>) -> Seq<Seq<char>> {
    strings.map_values(|string: String| string@)
}

/// The texts of a run of conditions.
pub open spec fn condition_texts(conditions: Seq<Condition>) -> Seq<Seq<char>> {
    conditions.map_values(|condition: Condition| condition@)
}

impl View for Expression {
    type V = Seq<char>;

    closed spec fn view(&self) -> Seq<char> {
        self.text@
    }
}

impl View for Mapping {
    type V = Seq<char>;

    closed spec fn view(&self) -> Seq<char> {
        self.expression@
    }
}

impl View for Condition {
    type V = Seq<char>;

    closed spec fn view(&self) -> Seq<char> {
        self.expression@
    }
}

impl View for Pattern {
    type V = Seq<Seq<char>>;

    closed spec fn view(&self) -> Seq<Seq<char>> {
        texts(self.binders@)
    }
}

impl View for GeneratorClause {
    type V = ClauseModel;

    closed spec fn view(&self) -> ClauseModel {
        ClauseModel {
            pattern: self.pattern@,
            sequence: self.sequence@,
            conditions: condition_texts(self.conditions@),
        }
    }
}

impl View for Comprehension {
    type V = ComprehensionModel;

    closed spec fn view(&self) -> ComprehensionModel {
        ComprehensionModel { mapping: self.mapping@, clause: self.clause@ }
    }
}

impl Expression {
    pub(crate) fn new(text: String) -> (expression: Expression)
        ensures
            expression@ == text@,
    {
        Expression { text }
    }

    /// The expression, printed as tokens of the host language.
    pub fn text(&self) -> (text: &str)
        ensures
            text@ == self@,
    {
        self.text.as_str()
    }
}

impl Clone for Expression {
    fn clone(&self) -> (copy: Expression)
        ensures
            copy@ == self@,
    {
        Expression { text: self.text.clone() }
    }
}

impl Mapping {
    pub(crate) fn new(expression: Expression) -> (mapping: Mapping)
        ensures
            mapping@ == expression@,
    {
        Mapping { expression }
    }

    /// The expression that gives each element of the result.
    pub fn expression(&self) -> (expression: &Expression)
        ensures
            expression@ == self@,
    {
        &self.expression
    }
}

impl Clone for Mapping {
    fn clone(&self) -> (copy: Mapping)
        ensures
            copy@ == self@,
    {
        Mapping { expression: self.expression.clone() }
    }
}

impl Condition {
    pub(crate) fn new(expression: Expression) -> (condition: Condition)
        ensures
            condition@ == expression@,
    {
        Condition { expression }
    }

    /// The expression that an element must satisfy.
    pub fn expression(&self) -> (expression: &Expression)
        ensures
            expression@ == self@,
    {
        &self.expression
    }
}

impl Clone for Condition {
    fn clone(&self) -> (copy: Condition)
        ensures
            copy@ == self@,
    {
        Condition { expression: self.expression.clone() }
    }
}

impl Pattern {
    /// A pattern always binds something.
    #[verifier::type_invariant]
    spec fn bound(&self) -> bool {
        self.binders@.len() >= 1
    }

    pub(crate) fn new(binders: Vec<String>) -> (pattern: Pattern)
        requires
            binders@.len() >= 1,
        ensures
            pattern@ == texts(binders@),
    {
        Pattern { binders }
    }

    /// The number of single patterns: one, or the length of the list.
    pub fn arity(&self) -> (count: usize)
        ensures
            count == self@.len(),
            count >= 1,
    {
        proof {
            use_type_invariant(self);
        }
        self.binders.len()
    }

    /// The single pattern at `index`, printed as tokens of the host language; `None`
    /// where the pattern has no such single pattern.
    pub fn binder(&self, index: usize) -> (text: Option<&str>)
        ensures
            match text {
                Some(text) => index < self@.len() && text@ == self@[index as int],
                None => index >= self@.len(),
            },
    {
        if index < self.binders.len() {
            Some(self.binders[index].as_str())
        } else {
            None
        }
    }
}

impl Clone for Pattern {
    fn clone(&self) -> (copy: Pattern)
        ensures
            copy@ == self@,
    {
        proof {
            use_type_invariant(self);
        }
        let mut binders: Vec<String> = Vec::new();
        let mut index: usize = 0;
        while index < self.binders.len()
            invariant
                index <= self.binders@.len(),
                binders@.len() == index,
                forall|i: int| 0 <= i < index ==> (#[trigger] binders@[i])@ == self.binders@[i]@,
            decreases self.binders@.len() - index,
        {
            binders.push(self.binders[index].clone());
            index += 1;
        }
        assert(texts(binders@) =~= texts(self.binders@));
        Pattern { binders }
    }
}

impl GeneratorClause {
    pub(crate) fn new(pattern: Pattern, sequence: Expression, conditions: Vec<Condition>) -> (clause:
        GeneratorClause)
        ensures
            clause@ == (ClauseModel {
                pattern: pattern@,
                sequence: sequence@,
                conditions: condition_texts(conditions@),
            }),
    {
        GeneratorClause { pattern, sequence, conditions }
    }

    /// What each element is bound to.
    pub fn pattern(&self) -> (pattern: &Pattern)
        ensures
            pattern@ == self@.pattern,
    {
        &self.pattern
    }

    /// The expression that gives the elements.
    pub fn sequence(&self) -> (sequence: &Expression)
        ensures
            sequence@ == self@.sequence,
    {
        &self.sequence
    }

    /// The guards, in the order in which they were written.
    pub fn conditions(&self) -> (conditions: &Vec<Condition>)
        ensures
            condition_texts(conditions@) == self@.conditions,
    {
        &self.conditions
    }
}

impl Comprehension {
    pub(crate) fn new(mapping: Mapping, clause: GeneratorClause) -> (comprehension: Comprehension)
        ensures
            comprehension@ == (ComprehensionModel { mapping: mapping@, clause: clause@ }),
    {
        Comprehension { mapping, clause }
    }

    /// The expression that gives each element of the result.
    pub fn mapping(&self) -> (mapping: &Mapping)
        ensures
            mapping@ == self@.mapping,
    {
        &self.mapping
    }

    /// The generator clause.
    pub fn clause(&self) -> (clause: &GeneratorClause)
        ensures
            clause@ == self@.clause,
    {
        &self.clause
    }
}

} // verus!
