//! A list of CSS rules and the checked operations the object model asks of
//! it: removal with the namespace-rule restriction, insertion with the
//! index check, and serialization to a block of rules.
//!
//! A rule is reduced here to what the list operations read of it: which
//! kind it is, and its serialized text, kept as bytes.

use vstd::prelude::*;

verus! {

/// The kinds of rule the list operations distinguish.  Everything that is
/// neither a namespace rule, an import rule, nor a bare nested declaration
/// block counts as a style rule here.
#[derive(Clone, Copy, Debug, PartialEq, Eq, Structural)]
pub enum CssRuleKind {
    /// An @namespace rule.
    Namespace,
    /// An @import rule.
    Import,
    /// Any other rule.
    Style,
    /// A nested declaration block, which is skipped when serialized empty.
    NestedDeclarations,
}

/// A CSS rule: its kind, and its serialized text.
#[derive(Debug)]
pub struct CssRule {
    /// Which kind of rule this is.
    pub kind: CssRuleKind,
    /// The rule's serialized text.
    pub css: Vec<u8>,
}

impl CssRule {
    /// Whether this rule is a namespace or an import rule.
    pub open spec fn spec_is_ns_or_import(&self) -> bool {
        self.kind == CssRuleKind::Namespace || self.kind == CssRuleKind::Import
    }

    /// Whether this rule is a nested declaration block with nothing in it.
    pub open spec fn spec_is_empty_nested_declarations(&self) -> bool {
        self.kind == CssRuleKind::NestedDeclarations && self.css@.len() == 0
    }

    /// Whether this rule is a nested declaration block with nothing in it.
    pub fn is_empty_nested_declarations(&self) -> (r: bool)
        ensures
            r == self.spec_is_empty_nested_declarations(),
    {
        match self.kind {
            CssRuleKind::NestedDeclarations => self.css.len() == 0,
            _ => false,
        }
    }
}

impl Clone for CssRule {
    /// An exact copy of the rule.
    fn clone(&self) -> (r: Self)
        ensures
            r.kind == self.kind,
            r.css@ == self.css@,
    {
        CssRule { kind: self.kind, css: vstd::slice::slice_to_vec(self.css.as_slice()) }
    }
}

/// The ways a mutation of a rule list can fail.
#[derive(Clone, Copy, Debug, PartialEq, Eq, Structural)]
pub enum RulesMutateError {
    /// The index is out of range.
    IndexSize,
    /// The removal would leave the list in a state the rules forbid.
    InvalidState,
}

/// A list of CSS rules.
#[derive(Debug)]
pub struct CssRules(pub Vec<CssRule>);

/// The text a list of rules serializes to inside a block: each rule that
/// is not an empty nested declaration block on a line of its own, indented
/// by two spaces.
pub open spec fn spec_rules_block_body(rules: Seq<CssRule>) -> Seq<u8>
    decreases rules.len(),
{
    if rules.len() == 0 {
        Seq::empty()
    } else {
        (if rules[0].spec_is_empty_nested_declarations() {
            Seq::<u8>::empty()
        } else {
            seq![0x0au8, 0x20u8, 0x20u8] + rules[0].css@
        }) + spec_rules_block_body(rules.drop_first())
    }
}

impl CssRules {
    /// Trivially construct a new set of CSS rules.
    pub fn new(rules: Vec<CssRule>) -> (r: CssRules)
        ensures
            r.0@ == rules@,
    {
        CssRules(rules)
    }

    /// Whether this list of rules is empty.
    pub fn is_empty(&self) -> (r: bool)
        ensures
            r <==> self.0@.len() == 0,
    {
        self.0.is_empty()
    }

    /// Whether all the rules in this list are namespace or import rules.
    pub fn only_ns_or_import(&self) -> (r: bool)
        ensures
            r <==> (forall|i: int|
                0 <= i < self.0@.len() ==> self.0@[i].spec_is_ns_or_import()),
    {
        let mut i: usize = 0;
        while i < self.0.len()
            invariant
                i <= self.0@.len(),
                forall|k: int| 0 <= k < i ==> self.0@[k].spec_is_ns_or_import(),
            decreases self.0@.len() - i,
        {
            let ns_or_import = match self.0[i].kind {
                CssRuleKind::Namespace => true,
                CssRuleKind::Import => true,
                _ => false,
            };
            if !ns_or_import {
                return false;
            }
            i += 1;
        }
        true
    }

    /// Removes the rule at `index`.  An index out of range is refused; so
    /// is removing a namespace rule from a list that holds anything other
    /// than namespace and import rules.
    pub fn remove_rule(&mut self, index: usize) -> (r: Result<(), RulesMutateError>)
        ensures
            match r {
                Ok(()) => {
                    &&& index < old(self).0@.len()
                    &&& (old(self).0@[index as int].kind == CssRuleKind::Namespace ==> (
                    forall|i: int|
                        0 <= i < old(self).0@.len() ==> old(self).0@[i].spec_is_ns_or_import()))
                    &&& final(self).0@ == old(self).0@.remove(index as int)
                },
                Err(RulesMutateError::IndexSize) => {
                    &&& index >= old(self).0@.len()
                    &&& final(self).0@ == old(self).0@
                },
                Err(RulesMutateError::InvalidState) => {
                    &&& index < old(self).0@.len()
                    &&& old(self).0@[index as int].kind == CssRuleKind::Namespace
                    &&& !(forall|i: int|
                        0 <= i < old(self).0@.len() ==> old(self).0@[i].spec_is_ns_or_import())
                    &&& final(self).0@ == old(self).0@
                },
            },
    {
        if index >= self.0.len() {
            return Err(RulesMutateError::IndexSize);
        }
        let is_namespace = match self.0[index].kind {
            CssRuleKind::Namespace => true,
            _ => false,
        };
        if is_namespace && !self.only_ns_or_import() {
            return Err(RulesMutateError::InvalidState);
        }
        self.0.remove(index);
        Ok(())
    }

    /// Serializes this list to CSS text as a block of rules, appended to
    /// `dest`: an opening ` {`, the rules, and a closing brace on a line
    /// of its own.
    pub fn to_css_block(&self, dest: &mut Vec<u8>)
        ensures
            final(dest)@ == old(dest)@ + seq![0x20u8, 0x7bu8] + spec_rules_block_body(self.0@)
                + seq![0x0au8, 0x7du8],
    {
        let ghost dest0 = dest@;
        dest.push(0x20);
        dest.push(0x7b);
        proof {
            assert(dest@ =~= dest0 + seq![0x20u8, 0x7bu8]);
        }
        self.to_css_block_without_opening(dest);
        proof {
            assert((dest0 + seq![0x20u8, 0x7bu8]) + spec_rules_block_body(self.0@) + seq![
                0x0au8,
                0x7du8,
            ] =~= dest0 + seq![0x20u8, 0x7bu8] + spec_rules_block_body(self.0@) + seq![
                0x0au8,
                0x7du8,
            ]);
        }
    }

    /// As above, but without the opening ` {`; that is needed for nesting.
    pub fn to_css_block_without_opening(&self, dest: &mut Vec<u8>)
        ensures
            final(dest)@ == old(dest)@ + spec_rules_block_body(self.0@) + seq![0x0au8, 0x7du8],
    {
        let ghost dest0 = dest@;
        let rules = &self.0;
        let mut i: usize = 0;
        proof {
            assert(self.0@.skip(0) =~= self.0@);
        }
        while i < rules.len()
            invariant
                i <= rules@.len(),
                rules@ == self.0@,
                dest0 + spec_rules_block_body(self.0@) == dest@ + spec_rules_block_body(
                    self.0@.skip(i as int),
                ),
            decreases rules@.len() - i,
        {
            let ghost dest_before = dest@;
            let rule = &rules[i];
            proof {
                assert(self.0@.skip(i as int)[0] == self.0@[i as int]);
                assert(self.0@.skip(i as int).drop_first() =~= self.0@.skip(i + 1));
            }
            if !rule.is_empty_nested_declarations() {
                dest.push(0x0a);
                dest.push(0x20);
                dest.push(0x20);
                let mut j: usize = 0;
                while j < rule.css.len()
                    invariant
                        j <= rule.css@.len(),
                        dest@ == dest_before + seq![0x0au8, 0x20u8, 0x20u8] + rule.css@.subrange(
                            0,
                            j as int,
                        ),
                    decreases rule.css@.len() - j,
                {
                    dest.push(rule.css[j]);
                    proof {
                        assert((dest_before + seq![0x0au8, 0x20u8, 0x20u8] + rule.css@.subrange(
                            0,
                            j as int,
                        )).push(rule.css@[j as int]) =~= dest_before + seq![
                            0x0au8,
                            0x20u8,
                            0x20u8,
                        ] + rule.css@.subrange(0, j + 1));
                    }
                    j += 1;
                }
                proof {
                    assert(rule.css@.subrange(0, rule.css@.len() as int) =~= rule.css@);
                    assert(dest@ =~= dest_before + (seq![0x0au8, 0x20u8, 0x20u8] + rule.css@));
                }
            }
            i += 1;
        }
        proof {
            assert(spec_rules_block_body(self.0@.skip(rules@.len() as int)) =~= Seq::<u8>::empty());
            assert(dest@ + Seq::<u8>::empty() =~= dest@);
        }
        dest.push(0x0a);
        dest.push(0x7d);
        proof {
            assert(dest@ =~= dest0 + spec_rules_block_body(self.0@) + seq![0x0au8, 0x7du8]);
        }
    }
}

/// Helpers for a list of CSS rules that live behind the shared object
/// model: rule insertion with its index check.
pub trait CssRulesHelpers {
    /// Inserts an already-parsed rule at `index`; an index past the end of
    /// the list is refused.
    fn insert_rule(&mut self, rule: CssRule, index: usize) -> (r: Result<(), RulesMutateError>);
}

impl CssRulesHelpers for CssRules {
    fn insert_rule(&mut self, rule: CssRule, index: usize) -> (r: Result<(), RulesMutateError>)
        ensures
            match r {
                Ok(()) => {
                    &&& index <= old(self).0@.len()
                    &&& final(self).0@ == old(self).0@.insert(index as int, rule)
                },
                Err(e) => {
                    &&& e == RulesMutateError::IndexSize
                    &&& index > old(self).0@.len()
                    &&& final(self).0@ == old(self).0@
                },
            },
    {
        if index > self.0.len() {
            return Err(RulesMutateError::IndexSize);
        }
        self.0.insert(index, rule);
        Ok(())
    }
}

} // verus!
