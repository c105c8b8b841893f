use vstd::prelude::*;
use crate::value::OptionType;

verus! {

/// A literal that an option may be restricted to.
#[derive(Debug)]
pub enum ChoiceValue {
    Integer(i64),
    /// The IEEE-754 bit pattern of a 64-bit float.
    Number(u64),
    String(String),
}

impl ChoiceValue {
    pub open spec fn kind_of(self) -> OptionType {
        match self {
            ChoiceValue::Integer(_) => OptionType::Integer,
            ChoiceValue::Number(_) => OptionType::Number,
            ChoiceValue::String(_) => OptionType::String,
        }
    }

    pub fn kind(&self) -> (r: OptionType)
        ensures
            r == self.kind_of(),
    {
        match self {
            ChoiceValue::Integer(_) => OptionType::Integer,
            ChoiceValue::Number(_) => OptionType::Number,
            ChoiceValue::String(_) => OptionType::String,
        }
    }

    pub fn copy(&self) -> (r: Self)
        ensures
            r == *self,
    {
        match self {
            ChoiceValue::Integer(v) => ChoiceValue::Integer(*v),
            ChoiceValue::Number(v) => ChoiceValue::Number(*v),
            ChoiceValue::String(s) => ChoiceValue::String(s.clone()),
        }
    }
}

/// A literal choice: the name shown to users and the value it stands for.
#[derive(Debug)]
pub struct Choice {
    pub name: String,
    pub value: ChoiceValue,
}

impl Choice {
    pub fn copy(&self) -> (r: Self)
        ensures
            r == *self,
    {
        Choice { name: self.name.clone(), value: self.value.copy() }
    }
}

/// Copies a list of choices element by element.
pub fn copy_choices(choices: &Vec<Choice>) -> (r: Vec<Choice>)
    ensures
        r@ == choices@,
{
    let mut r: Vec<Choice> = Vec::new();
    let mut i: usize = 0;
    while i < choices.len()
        invariant
            i <= choices@.len(),
            r@ == choices@.take(i as int),
        decreases choices@.len() - i,
    {
        r.push(choices[i].copy());
        i = i + 1;
        assert(r@ =~= choices@.take(i as int));
    }
    assert(choices@.take(choices@.len() as int) =~= choices@);
    r
}

/// Only integer, number and string options may restrict their values to a
/// list of choices.
pub open spec fn accepts_choices(kind: OptionType) -> bool {
    kind == OptionType::Integer || kind == OptionType::Number || kind == OptionType::String
}

/// One typed argument slot of a command.
#[derive(Debug)]
pub struct OptionDescriptor {
    pub name: String,
    pub description: String,
    pub kind: OptionType,
    pub required: bool,
    /// Empty when any value of `kind` is accepted.
    pub choices: Vec<Choice>,
}

impl OptionDescriptor {
    pub open spec fn wf(&self) -> bool {
        &&& self.description@.len() > 0
        &&& self.choices@.len() > 0 ==> accepts_choices(self.kind)
        &&& forall|i: int| 0 <= i < self.choices@.len() ==> #[trigger] self.choices@[i].value.kind_of() == self.kind
    }
}

/// Where a command stands: at the top level, as the parent of a group of
/// subcommands, or as a subcommand nested under the named group.
#[derive(Debug)]
pub enum CommandKind {
    Root,
    Group,
    Sub(String),
}

/// The description of one command, or one subcommand of a group.
#[derive(Debug)]
pub struct CommandDescriptor {
    pub name: String,
    pub description: String,
    pub options: Vec<OptionDescriptor>,
    pub kind: CommandKind,
}

/// The key under which a command is registered: the top-level command name
/// and, for a subcommand, its own name.
pub type CommandKey = (Seq<char>, Option<Seq<char>>);

/// No two options in `options` share a name.
pub open spec fn names_unique(options: Seq<OptionDescriptor>) -> bool {
    forall|i: int, j: int|
        0 <= i < options.len() && 0 <= j < options.len() && i != j ==> #[trigger] options[i].name@
            != #[trigger] options[j].name@
}

impl CommandDescriptor {
    pub open spec fn key(&self) -> CommandKey {
        match self.kind {
            CommandKind::Sub(group) => (group@, Some(self.name@)),
            _ => (self.name@, None),
        }
    }

    pub open spec fn is_group(&self) -> bool {
        self.kind is Group
    }

    pub open spec fn wf(&self) -> bool {
        &&& self.description@.len() > 0
        &&& forall|i: int| 0 <= i < self.options@.len() ==> #[trigger] self.options@[i].wf()
        &&& names_unique(self.options@)
        &&& self.is_group() ==> self.options@.len() == 0
    }
}

} // verus!
