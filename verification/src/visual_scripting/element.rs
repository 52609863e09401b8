//! The elements of a visual scripting document, and the conditions of its
//! `if` statements.
use vstd::prelude::*;
use crate::text;
use crate::visual_scripting::variable::{
    Variable, VariableKind, VariableReference, contains_one_of_spec, contains_only_spec, contains_spec, ends_with_spec,
    is_empty_spec, starts_with_spec, string_argument_ok, variables_equal,
};

verus! {

/// One step of a document.
#[derive(Debug)]
pub struct Element {
    pub kind: ElementKind,
}

/// A reference to a variable together with a value written in the document.
#[derive(Debug)]
pub struct ElementReferenceValue {
    pub reference: VariableReference,
    pub value: String,
}

/// Text written in a document, pieces of which are variables.
#[derive(Debug)]
pub struct Text {
    pub components: Vec<TextComponent>,
}

/// A piece of a text: written as it is, or the value of a variable.
#[derive(Debug)]
pub enum TextComponent {
    Value(String),
    Variable(VariableReference),
}

/// A message to send in a channel that a variable names.
#[derive(Debug)]
pub struct CreateMessageData {
    pub channel_id: VariableReference,
    pub content: Text,
}

/// What an element does.
#[derive(Debug)]
pub enum ElementKind {
    IfStatement(Statement),
    BanMember(VariableReference),
    KickMember(VariableReference),
    AssignRoleToMember(ElementReferenceValue),
    RemoveRoleFromMember(ElementReferenceValue),
    SyncMember,
    CreateMessage(CreateMessageData),
    Reply(ElementReferenceValue),
    AddReaction(ElementReferenceValue),
    DeleteMessage(VariableReference),
    GetLinkedPatreonCampaign,
    InteractionReply(Text),
    StartThreadFromMessage { name: Text, message: VariableReference },
    Nothing,
}

/// The name under which an element kind is shown in a server's log.
pub open spec fn element_name(kind: ElementKind) -> Seq<char> {
    match kind {
        ElementKind::IfStatement(_) => "If Statement"@,
        ElementKind::BanMember(_) => "Ban Member"@,
        ElementKind::KickMember(_) => "Kick Member"@,
        ElementKind::AssignRoleToMember(_) => "Assign Role to Member"@,
        ElementKind::RemoveRoleFromMember(_) => "Remove Role from Member"@,
        ElementKind::SyncMember => "Sync Member"@,
        ElementKind::CreateMessage(_) => "Create Message"@,
        ElementKind::Reply(_) => "Reply to Message"@,
        ElementKind::AddReaction(_) => "Add Reaction"@,
        ElementKind::DeleteMessage(_) => "Delete Message"@,
        ElementKind::GetLinkedPatreonCampaign => "Get Linked Patreon Campaign"@,
        ElementKind::InteractionReply(_) => "Reply to Interaction"@,
        ElementKind::StartThreadFromMessage { .. } => "Start Thread from Message"@,
        ElementKind::Nothing => "Nothing"@,
    }
}

impl ElementKind {
    /// The name under which this element kind is shown in a server's log.
    pub fn display_name(&self) -> (r: &'static str)
        ensures
            r@ == element_name(*self),
    {
        match self {
            ElementKind::IfStatement(_) => "If Statement",
            ElementKind::BanMember(_) => "Ban Member",
            ElementKind::KickMember(_) => "Kick Member",
            ElementKind::AssignRoleToMember(_) => "Assign Role to Member",
            ElementKind::RemoveRoleFromMember(_) => "Remove Role from Member",
            ElementKind::SyncMember => "Sync Member",
            ElementKind::CreateMessage(_) => "Create Message",
            ElementKind::Reply(_) => "Reply to Message",
            ElementKind::AddReaction(_) => "Add Reaction",
            ElementKind::DeleteMessage(_) => "Delete Message",
            ElementKind::GetLinkedPatreonCampaign => "Get Linked Patreon Campaign",
            ElementKind::InteractionReply(_) => "Reply to Interaction",
            ElementKind::StartThreadFromMessage { .. } => "Start Thread from Message",
            ElementKind::Nothing => "Nothing",
        }
    }
}

/// An `if` statement: blocks tried in order, the first whose conditions hold running.
#[derive(Debug)]
pub struct Statement {
    pub blocks: Vec<StatementBlock>,
}

/// A block of an `if` statement: its conditions and the elements it runs.
#[derive(Debug)]
pub struct StatementBlock {
    pub items: Vec<Element>,
    pub conditions: Vec<StatementCondition>,
}

/// A condition of a block: a test on up to two variables, and how it joins
/// the conditions before it.
#[derive(Debug)]
pub struct StatementCondition {
    pub condition: Condition,
    pub inputs: Vec<VariableReference>,
    pub kind: StatementConditionKind,
}

/// The test that a condition makes.
#[derive(Debug, Clone, Copy, PartialEq, Eq, Structural)]
pub enum Condition {
    Is,
    IsNot,
    HasAnyValue,
    DoesNotHaveAnyValue,
    Contains,
    ContainsOnly,
    ContainsOneOf,
    DoesNotContain,
    DoesNotContainOneOf,
    BeginsWith,
    EndsWith,
}

/// How a condition joins those before it: it begins the chain; `and`, the
/// chain stopping where what came before is false; `or`, the chain stopping
/// where what came before is true.
#[derive(Debug, Clone, Copy, PartialEq, Eq, Structural)]
pub enum StatementConditionKind {
    Initial,
    And,
    Or,
}

/// The variable that input `i` of a condition reaches: `None` where the
/// input is missing or reaches nothing.
pub open spec fn input_value(c: StatementCondition, i: int, vars: Variable) -> Option<Variable> {
    if 0 <= i < c.inputs@.len() {
        c.inputs@[i].target(vars).unwrap()
    } else {
        None
    }
}

/// The inputs of a condition can be looked up, and a string comparison
/// compares with a string: that is where evaluating it does not stop.
pub open spec fn condition_defined(c: StatementCondition, vars: Variable) -> bool {
    &&& forall|i: int| 0 <= i < c.inputs@.len() && i < 2 ==> (#[trigger] c.inputs@[i]).target(vars).is_some()
    &&& match (input_value(c, 0, vars), input_value(c, 1, vars)) {
        (Some(a), Some(b)) => match c.condition {
            Condition::Contains | Condition::DoesNotContain | Condition::BeginsWith | Condition::EndsWith =>
                string_argument_ok(a, b),
            _ => true,
        },
        _ => true,
    }
}

/// Whether the test of a condition holds.
pub open spec fn condition_value(c: StatementCondition, vars: Variable) -> bool {
    let a = input_value(c, 0, vars);
    let b = input_value(c, 1, vars);
    match c.condition {
        Condition::Is => match (a, b) {
            (Some(x), Some(y)) => variables_equal(x, y),
            _ => false,
        },
        Condition::IsNot => match (a, b) {
            (Some(x), Some(y)) => !variables_equal(x, y),
            (Some(x), None) => true,
            _ => false,
        },
        Condition::HasAnyValue => match a {
            Some(x) => !is_empty_spec(x),
            None => false,
        },
        Condition::DoesNotHaveAnyValue => match a {
            Some(x) => is_empty_spec(x),
            None => false,
        },
        _ => match (a, b) {
            (Some(x), Some(y)) => match c.condition {
                Condition::Contains => contains_spec(x, y),
                Condition::ContainsOnly => contains_only_spec(x, y),
                Condition::ContainsOneOf => contains_one_of_spec(x, y),
                Condition::DoesNotContain => !contains_spec(x, y),
                Condition::DoesNotContainOneOf => !contains_one_of_spec(x, y),
                Condition::BeginsWith => starts_with_spec(x, y),
                Condition::EndsWith => ends_with_spec(x, y),
                _ => false,
            },
            _ => false,
        },
    }
}

/// The answer of the chain of conditions from the `i`-th on, `last` being
/// the answer so far: `None` where a condition that is evaluated is not
/// defined.
pub open spec fn chain_from(cs: Seq<StatementCondition>, vars: Variable, i: int, last: bool) -> Option<bool>
    decreases cs.len() - i,
{
    if i < 0 || i >= cs.len() {
        Some(last)
    } else if !condition_defined(cs[i], vars) {
        None
    } else {
        match cs[i].kind {
            StatementConditionKind::And if !last => Some(last),
            StatementConditionKind::Or if last => Some(last),
            _ => chain_from(cs, vars, i + 1, condition_value(cs[i], vars)),
        }
    }
}

/// Whether a block's conditions hold, `None` where one that is evaluated is not defined.
pub open spec fn block_holds(b: StatementBlock, vars: Variable) -> Option<bool> {
    chain_from(b.conditions@, vars, 0, false)
}

/// The index of the first block from the `i`-th on whose conditions hold,
/// `None` where a condition that is evaluated is not defined.
pub open spec fn select_from(bs: Seq<StatementBlock>, vars: Variable, i: int) -> Option<Option<int>>
    decreases bs.len() - i,
{
    if i < 0 || i >= bs.len() {
        Some(None)
    } else {
        match block_holds(bs[i], vars) {
            None => None,
            Some(true) => Some(Some(i)),
            Some(false) => select_from(bs, vars, i + 1),
        }
    }
}

/// The variable that input `i` of `c` reaches, if any.
fn input<'a>(c: &StatementCondition, i: usize, vars: &'a Variable) -> (r: Option<&'a Variable>)
    requires
        i < 2,
        condition_defined(*c, *vars),
    ensures
        match input_value(*c, i as int, *vars) {
            Some(v) => r matches Some(x) && *x == v,
            None => r is None,
        },
{
    if i < c.inputs.len() {
        assert(c.inputs@[i as int].target(*vars).is_some());
        c.inputs[i].resolve_ref(vars)
    } else {
        None
    }
}

/// Whether the test of a condition holds.
pub fn evaluate_condition(c: &StatementCondition, vars: &Variable) -> (r: bool)
    requires
        condition_defined(*c, *vars),
    ensures
        r == condition_value(*c, *vars),
{
    let a = input(c, 0, vars);
    let b = input(c, 1, vars);
    match c.condition {
        Condition::Is => match (a, b) {
            (Some(x), Some(y)) => x.equals(y),
            _ => false,
        },
        Condition::IsNot => match (a, b) {
            (Some(x), Some(y)) => !x.equals(y),
            (Some(_), None) => true,
            _ => false,
        },
        Condition::HasAnyValue => match a {
            Some(x) => !x.is_empty(),
            None => false,
        },
        Condition::DoesNotHaveAnyValue => match a {
            Some(x) => x.is_empty(),
            None => false,
        },
        Condition::Contains => match (a, b) {
            (Some(x), Some(y)) => x.contains(y),
            _ => false,
        },
        Condition::ContainsOnly => match (a, b) {
            (Some(x), Some(y)) => x.contains_only(y),
            _ => false,
        },
        Condition::ContainsOneOf => match (a, b) {
            (Some(x), Some(y)) => x.contains_one_of(y),
            _ => false,
        },
        Condition::DoesNotContain => match (a, b) {
            (Some(x), Some(y)) => !x.contains(y),
            _ => false,
        },
        Condition::DoesNotContainOneOf => match (a, b) {
            (Some(x), Some(y)) => !x.contains_one_of(y),
            _ => false,
        },
        Condition::BeginsWith => match (a, b) {
            (Some(x), Some(y)) => x.starts_with(y),
            _ => false,
        },
        Condition::EndsWith => match (a, b) {
            (Some(x), Some(y)) => x.ends_with(y),
            _ => false,
        },
    }
}

/// Whether a block's conditions hold.
pub fn evaluate_block(b: &StatementBlock, vars: &Variable) -> (r: bool)
    requires
        block_holds(*b, *vars).is_some(),
    ensures
        block_holds(*b, *vars) == Some(r),
{
    try_evaluate_block(b, vars).unwrap()
}

/// Whether a block's conditions hold; `None` where a condition that is
/// evaluated is not defined.
pub fn try_evaluate_block(b: &StatementBlock, vars: &Variable) -> (r: Option<bool>)
    ensures
        r == block_holds(*b, *vars),
{
    let cs = &b.conditions;
    let len = cs.len();
    let mut last = false;
    let mut i: usize = 0;
    while i < len
        invariant
            i <= len,
            len == cs@.len(),
            *cs == b.conditions,
            block_holds(*b, *vars) == chain_from(cs@, *vars, i as int, last),
        decreases len - i,
    {
        let value = match try_evaluate_condition(&cs[i], vars) {
            Some(v) => v,
            None => {
                return None;
            },
        };
        match cs[i].kind {
            StatementConditionKind::Initial => {},
            StatementConditionKind::And => {
                if !last {
                    return Some(last);
                }
            },
            StatementConditionKind::Or => {
                if last {
                    return Some(last);
                }
            },
        }
        last = value;
        i = i + 1;
    }
    Some(last)
}

/// The variable that input `i` of `c` reaches, if any; `None` where the
/// input cannot be looked up.
fn try_input<'a>(c: &StatementCondition, i: usize, vars: &'a Variable) -> (r: Option<Option<&'a Variable>>)
    ensures
        (0 <= i < c.inputs@.len()) ==> match c.inputs@[i as int].target(*vars) {
            None => r is None,
            Some(None) => r == Some(None::<&Variable>),
            Some(Some(v)) => r matches Some(Some(x)) && *x == v,
        },
        !(0 <= i < c.inputs@.len()) ==> r == Some(None::<&Variable>),
{
    if i < c.inputs.len() {
        c.inputs[i].try_resolve_ref(vars)
    } else {
        Some(None)
    }
}

/// Whether the test of a condition holds; `None` where it is not defined.
pub fn try_evaluate_condition(c: &StatementCondition, vars: &Variable) -> (r: Option<bool>)
    ensures
        r == (if condition_defined(*c, *vars) { Some(condition_value(*c, *vars)) } else { None }),
{
    let a = match try_input(c, 0, vars) {
        Some(x) => x,
        None => {
            assert(!condition_defined(*c, *vars)) by {
                assert(c.inputs@[0].target(*vars).is_none());
            }
            return None;
        },
    };
    let b = match try_input(c, 1, vars) {
        Some(x) => x,
        None => {
            assert(!condition_defined(*c, *vars)) by {
                assert(c.inputs@[1].target(*vars).is_none());
            }
            return None;
        },
    };
    assert forall|i: int| 0 <= i < c.inputs@.len() && i < 2 implies (#[trigger] c.inputs@[i]).target(*vars).is_some() by {
        if i == 0 {
        } else {
            assert(i == 1);
        }
    }
    let stringy = match c.condition {
        Condition::Contains | Condition::DoesNotContain | Condition::BeginsWith | Condition::EndsWith => true,
        _ => false,
    };
    if stringy {
        match (a, b) {
            (Some(x), Some(y)) => {
                let x_is_string = match &x.kind {
                    crate::visual_scripting::variable::VariableKind::String(_) => true,
                    _ => false,
                };
                let y_is_string = match &y.kind {
                    crate::visual_scripting::variable::VariableKind::String(_) => true,
                    _ => false,
                };
                if x_is_string && !y_is_string {
                    return None;
                }
            },
            _ => {},
        }
    }
    Some(evaluate_condition(c, vars))
}

/// The blocks of an `if` statement not yet tried, and the variables that
/// their conditions read.
pub struct StatementStream {
    blocks: Vec<StatementBlock>,
    variables: Variable,
}

impl StatementStream {
    /// The blocks not yet tried.
    pub closed spec fn remaining(&self) -> Seq<StatementBlock> {
        self.blocks@
    }

    /// The variables that the conditions read.
    pub closed spec fn vars(&self) -> Variable {
        self.variables
    }

    /// A stream over `blocks`, their conditions reading `variables`.
    pub fn new(blocks: Vec<StatementBlock>, variables: Variable) -> (r: StatementStream)
        ensures
            r.remaining() == blocks@,
            r.vars() == variables,
    {
        StatementStream { blocks, variables }
    }

    /// The first block not yet tried whose conditions hold; the blocks after
    /// it are dropped, so that the stream then gives nothing more.
    pub fn get_next(&mut self) -> (r: Option<StatementBlock>)
        requires
            select_from(old(self).remaining(), old(self).vars(), 0).is_some(),
        ensures
            final(self).vars() == old(self).vars(),
            final(self).remaining().len() == 0,
            match select_from(old(self).remaining(), old(self).vars(), 0).unwrap() {
                Some(i) => r == Some(old(self).remaining()[i]),
                None => r is None,
            },
    {
        take_first_holding(&mut self.blocks, &self.variables)
    }
}

/// Takes out the first of `blocks` whose conditions hold, dropping all of them.
pub fn take_first_holding(blocks: &mut Vec<StatementBlock>, vars: &Variable) -> (r: Option<StatementBlock>)
    requires
        select_from(old(blocks)@, *vars, 0).is_some(),
    ensures
        final(blocks)@.len() == 0,
        match select_from(old(blocks)@, *vars, 0).unwrap() {
            Some(i) => r == Some(old(blocks)@[i]),
            None => r is None,
        },
{
    try_take_first_holding(blocks, vars).unwrap()
}

/// Takes out the first of `blocks` whose conditions hold, dropping all of
/// them; `None` where a condition that is evaluated is not defined.
pub fn try_take_first_holding(blocks: &mut Vec<StatementBlock>, vars: &Variable) -> (r: Option<Option<StatementBlock>>)
    ensures
        match select_from(old(blocks)@, *vars, 0) {
            None => r is None,
            Some(None) => r matches Some(None) && final(blocks)@.len() == 0,
            Some(Some(i)) => r == Some(Some(old(blocks)@[i])) && final(blocks)@.len() == 0,
        },
{
    let ghost orig = blocks@;
    let n = blocks.len();
    let mut k: usize = 0;
    while blocks.len() > 0
        invariant
            k <= orig.len(),
            n == orig.len(),
            k + blocks@.len() == n,
            blocks@ == orig.skip(k as int),
            orig == old(blocks)@,
            select_from(orig, *vars, 0) == select_from(orig, *vars, k as int),
        decreases blocks@.len(),
    {
        let block = blocks.remove(0);
        assert(orig.skip(k as int)[0] == orig[k as int]);
        assert(orig.skip(k as int).remove(0) =~= orig.skip(k + 1));
        match try_evaluate_block(&block, vars) {
            Some(true) => {
                blocks.clear();
                return Some(Some(block));
            },
            Some(false) => {},
            None => {
                return None;
            },
        }
        k = k + 1;
    }
    assert(k == orig.len());
    Some(None)
}

/// A selected block is one of the blocks, at or after where the search began.
pub proof fn lemma_select_bounds(bs: Seq<StatementBlock>, vars: Variable, i: int)
    requires
        0 <= i,
    ensures
        select_from(bs, vars, i) matches Some(Some(j)) ==> i <= j < bs.len(),
    decreases bs.len() - i,
{
    if i < bs.len() {
        lemma_select_bounds(bs, vars, i + 1);
    }
}

/// What a piece of text reads: a written piece as it is; a variable's
/// string, or its number in decimal; nothing for a variable that is missing,
/// cannot be looked up, or is neither.
pub open spec fn component_text(c: TextComponent, vars: Variable) -> Seq<char> {
    match c {
        TextComponent::Value(s) => s@,
        TextComponent::Variable(r) => match r.target(vars) {
            Some(Some(v)) => match v.kind {
                VariableKind::String(s) => s@,
                VariableKind::UnsignedInteger(n) => text::decimal(n as nat),
                _ => Seq::empty(),
            },
            _ => Seq::empty(),
        },
    }
}

/// What the first `n` pieces of a text read, one after the other.
pub open spec fn text_prefix(cs: Seq<TextComponent>, vars: Variable, n: int) -> Seq<char>
    decreases n,
{
    if n <= 0 || n > cs.len() {
        Seq::empty()
    } else {
        text_prefix(cs, vars, n - 1) + component_text(cs[n - 1], vars)
    }
}

/// What a text reads against the variables `vars`.
pub open spec fn text_spec(t: Text, vars: Variable) -> Seq<char> {
    text_prefix(t.components@, vars, t.components@.len() as int)
}

impl Text {
    /// What this text reads against the variables `variables`.
    pub fn resolve(&self, variables: &Variable) -> (r: String)
        ensures
            r@ == text_spec(*self, *variables),
    {
        let cs = &self.components;
        let len = cs.len();
        let mut out = String::new();
        let mut i: usize = 0;
        while i < len
            invariant
                i <= len,
                len == cs@.len(),
                *cs == self.components,
                out@ == text_prefix(cs@, *variables, i as int),
            decreases len - i,
        {
            match &cs[i] {
                TextComponent::Value(s) => out.append(s.as_str()),
                TextComponent::Variable(r) => {
                    match r.try_resolve_ref(variables) {
                        Some(Some(v)) => {
                            match &v.kind {
                                VariableKind::String(s) => out.append(s.as_str()),
                                VariableKind::UnsignedInteger(n) => {
                                    let d = text::decimal_string(*n);
                                    out.append(d.as_str());
                                },
                                _ => {},
                            }
                        },
                        _ => {},
                    }
                },
            }
            assert(out@ =~= text_prefix(cs@, *variables, i + 1));
            i = i + 1;
        }
        out
    }
}

} // verus!
